//! Paths of the local file system, as the components that they consist of.
use crate::text;
use vstd::prelude::*;
use vstd::utf8::*;

verus! {

/// One component of a path: the text that it is shown as and, where it is not
/// Unicode, its bytes.
#[derive(Debug, PartialEq, Eq)]
pub struct PathPart {
    pub shown: String,
    pub raw: Option<Vec<u8>>,
}

/// The mathematical value of a component.
pub struct PartView {
    pub shown: Seq<char>,
    pub raw: Option<Seq<u8>>,
}

impl View for PathPart {
    type V = PartView;

    open spec fn view(&self) -> PartView {
        PartView {
            shown: self.shown@,
            raw: match self.raw {
                Some(bytes) => Some(bytes@),
                None => None,
            },
        }
    }
}

/// The component that is a text.
pub open spec fn text_part(text: Seq<char>) -> PartView {
    PartView { shown: text, raw: None }
}

/// A component with a text behind it.
pub open spec fn extended(part: PartView, suffix: Seq<char>) -> PartView {
    PartView {
        shown: part.shown + suffix,
        raw: match part.raw {
            Some(bytes) => Some(bytes + encode_utf8(suffix)),
            None => None,
        },
    }
}

/// A path: what stands before its first component (a root, a drive, or nothing),
/// its components, and whether backslashes separate these.
#[derive(Debug, PartialEq, Eq)]
pub struct LocalPath {
    pub root: String,
    pub parts: Vec<PathPart>,
    pub windows: bool,
}

/// The mathematical value of a path.
pub struct PathView {
    pub root: Seq<char>,
    pub parts: Seq<PartView>,
    pub windows: bool,
}

/// The values of a sequence of components.
pub open spec fn part_views(parts: Seq<PathPart>) -> Seq<PartView> {
    parts.map_values(|part: PathPart| part@)
}

/// The texts of a sequence of strings.
pub open spec fn texts(strings: Seq<String>) -> Seq<Seq<char>> {
    strings.map_values(|s: String| s@)
}

impl View for LocalPath {
    type V = PathView;

    open spec fn view(&self) -> PathView {
        PathView { root: self.root@, parts: part_views(self.parts@), windows: self.windows }
    }
}

/// Whether two paths have the same root and the same components.
pub open spec fn same_path(a: PathView, b: PathView) -> bool {
    a.root == b.root && a.parts == b.parts
}

/// What separates components.
pub open spec fn separator(windows: bool) -> Seq<char> {
    if windows {
        "\\"@
    } else {
        "/"@
    }
}

/// The components with separators between them.
pub open spec fn separated(parts: Seq<PartView>, windows: bool) -> Seq<char>
    decreases parts.len(),
{
    if parts.len() == 0 {
        Seq::empty()
    } else if parts.len() == 1 {
        parts[0].shown
    } else {
        separated(parts.drop_last(), windows) + separator(windows) + parts.last().shown
    }
}

/// A path as it is shown.
pub open spec fn shown(path: PathView) -> Seq<char> {
    path.root + separated(path.parts, path.windows)
}

/// The name that a path ends in; a path that ends in `.` or `..`, or has no
/// component, has none.
pub open spec fn file_name(path: PathView) -> Option<PartView> {
    if path.parts.len() == 0 || path.parts.last().shown == "."@ || path.parts.last().shown
        == ".."@ {
        None
    } else {
        Some(path.parts.last())
    }
}

/// A path with a component added.
pub open spec fn joined(path: PathView, name: PartView) -> PathView {
    PathView { parts: path.parts.push(name), ..path }
}

/// A path with its last component replaced.
pub open spec fn with_file_name(path: PathView, name: PartView) -> PathView {
    PathView { parts: path.parts.drop_last().push(name), ..path }
}

/// A path without its last component.
pub open spec fn parent(path: PathView) -> PathView {
    PathView { parts: path.parts.drop_last(), ..path }
}

impl Clone for PathPart {
    fn clone(&self) -> (res: PathPart)
        ensures
            res@ == self@,
    {
        let raw = match &self.raw {
            Some(bytes) => Some(vstd::slice::slice_to_vec(bytes.as_slice())),
            None => None,
        };
        PathPart { shown: self.shown.clone(), raw }
    }
}

fn same_bytes(a: &Vec<u8>, b: &Vec<u8>) -> (res: bool)
    ensures
        res == (a@ == b@),
{
    if a.len() != b.len() {
        return false;
    }
    let mut i: usize = 0;
    while i < a.len()
        invariant
            i <= a@.len() == b@.len(),
            forall|j: int| 0 <= j < i ==> #[trigger] a@[j] == b@[j],
        decreases a@.len() - i,
    {
        if a[i] != b[i] {
            return false;
        }
        i = i + 1;
    }
    assert(a@ =~= b@);
    true
}

impl PathPart {
    /// The component that is a text.
    pub fn from_text(text: &str) -> (part: PathPart)
        ensures
            part@ == text_part(text@),
    {
        PathPart { shown: text.to_owned(), raw: None }
    }

    /// The component's text, where it is Unicode.
    pub fn as_text(&self) -> (text: Option<&str>)
        ensures
            text is Some <==> self@.raw is None,
            text matches Some(t) ==> t@ == self@.shown,
    {
        match &self.raw {
            Some(_) => None,
            None => Some(self.shown.as_str()),
        }
    }

    /// The component with a text behind it.
    pub fn with_suffix(&self, suffix: &str) -> (part: PathPart)
        ensures
            part@ == extended(self@, suffix@),
    {
        let mut part = self.clone();
        part.shown.append(suffix);
        match &self.raw {
            Some(bytes) => {
                let mut longer = vstd::slice::slice_to_vec(bytes.as_slice());
                let mut more = suffix.as_bytes_vec();
                longer.append(&mut more);
                part.raw = Some(longer);
            },
            None => {},
        }
        part
    }

    /// Whether this is the same component as another.
    pub fn is_same(&self, other: &PathPart) -> (res: bool)
        ensures
            res == (self@ == other@),
    {
        text::same_text(self.shown.as_str(), other.shown.as_str()) && match (&self.raw, &other.raw) {
            (None, None) => true,
            (Some(a), Some(b)) => same_bytes(a, b),
            _ => false,
        }
    }
}

fn clone_parts(parts: &Vec<PathPart>, count: usize) -> (res: Vec<PathPart>)
    requires
        count <= parts@.len(),
    ensures
        part_views(res@) == part_views(parts@).take(count as int),
{
    let mut res: Vec<PathPart> = Vec::new();
    let mut i: usize = 0;
    while i < count
        invariant
            i <= count <= parts@.len(),
            res@.len() == i,
            forall|j: int| 0 <= j < i ==> (#[trigger] res@[j])@ == parts@[j]@,
        decreases count - i,
    {
        res.push(parts[i].clone());
        i = i + 1;
    }
    assert(part_views(res@) =~= part_views(parts@).take(count as int));
    res
}

impl Clone for LocalPath {
    fn clone(&self) -> (res: LocalPath)
        ensures
            res@ == self@,
    {
        let parts = clone_parts(&self.parts, self.parts.len());
        assert(part_views(self.parts@).take(self.parts@.len() as int) =~= part_views(self.parts@));
        LocalPath { root: self.root.clone(), parts, windows: self.windows }
    }
}

impl LocalPath {
    /// Whether this is the same path as another.
    pub fn is_same(&self, other: &LocalPath) -> (res: bool)
        ensures
            res == same_path(self@, other@),
    {
        if !text::same_text(self.root.as_str(), other.root.as_str()) || self.parts.len()
            != other.parts.len() {
            assert(part_views(self.parts@).len() == self.parts@.len());
            assert(part_views(other.parts@).len() == other.parts@.len());
            return false;
        }
        let mut i: usize = 0;
        while i < self.parts.len()
            invariant
                i <= self.parts@.len() == other.parts@.len(),
                forall|j: int| 0 <= j < i ==> (#[trigger] self.parts@[j])@ == other.parts@[j]@,
            decreases self.parts@.len() - i,
        {
            if !self.parts[i].is_same(&other.parts[i]) {
                assert(part_views(self.parts@)[i as int] != part_views(other.parts@)[i as int]);
                return false;
            }
            i = i + 1;
        }
        assert(part_views(self.parts@) =~= part_views(other.parts@));
        true
    }

    /// The path as it is shown.
    pub fn display(&self) -> (res: String)
        ensures
            res@ == shown(self@),
    {
        let ghost all = part_views(self.parts@);
        let mut out = self.root.clone();
        let mut i: usize = 0;
        assert(out@ =~= self.root@ + separated(all.take(0), self.windows));
        while i < self.parts.len()
            invariant
                all == part_views(self.parts@),
                i <= self.parts@.len(),
                out@ == self.root@ + separated(all.take(i as int), self.windows),
            decreases self.parts@.len() - i,
        {
            let ghost before = out@;
            let ghost now = all.take(i + 1);
            assert(now.drop_last() =~= all.take(i as int));
            assert(now.last() == self.parts@[i as int]@);
            assert(now.last().shown == self.parts@[i as int].shown@);
            if i > 0 {
                out.append(if self.windows { "\\" } else { "/" });
            }
            out.append(self.parts[i].shown.as_str());
            assert(out@ =~= self.root@ + separated(now, self.windows));
            i = i + 1;
        }
        assert(all.take(i as int) =~= all);
        out
    }

    /// The name that the path ends in.
    pub fn file_name(&self) -> (res: Option<&PathPart>)
        ensures
            res is Some <==> file_name(self@) is Some,
            res matches Some(name) ==> file_name(self@) == Some(name@),
    {
        let n = self.parts.len();
        if n == 0 {
            return None;
        }
        let last = &self.parts[n - 1];
        assert(self@.parts.last() == last@);
        if text::same_text(last.shown.as_str(), ".") || text::same_text(
            last.shown.as_str(),
            "..",
        ) {
            None
        } else {
            Some(last)
        }
    }

    /// The path with a component added.
    pub fn join(&self, name: &PathPart) -> (res: LocalPath)
        ensures
            res@ == joined(self@, name@),
    {
        let mut res = self.clone();
        res.parts.push(name.clone());
        assert(res@.parts =~= self@.parts.push(name@));
        res
    }

    /// The path with its last component replaced.
    pub fn with_file_name(&self, name: PathPart) -> (res: LocalPath)
        requires
            self@.parts.len() > 0,
        ensures
            res@ == with_file_name(self@, name@),
    {
        let mut parts = clone_parts(&self.parts, self.parts.len() - 1);
        parts.push(name);
        assert(part_views(parts@) =~= self@.parts.drop_last().push(name@));
        LocalPath { root: self.root.clone(), parts, windows: self.windows }
    }

    /// The path without its last component.
    pub fn parent(&self) -> (res: Option<LocalPath>)
        ensures
            res is Some <==> self@.parts.len() > 0,
            res matches Some(p) ==> p@ == parent(self@),
    {
        if self.parts.len() == 0 {
            return None;
        }
        let parts = clone_parts(&self.parts, self.parts.len() - 1);
        assert(part_views(parts@) =~= self@.parts.drop_last());
        Some(LocalPath { root: self.root.clone(), parts, windows: self.windows })
    }
}

/// Paths are the same exactly where their roots and all their components are, each
/// component by what it is shown as and by its bytes.
pub proof fn law_same_path(a: LocalPath, b: LocalPath)
    ensures
        same_path(a@, b@) <==> (a.root@ == b.root@ && a.parts@.len() == b.parts@.len()
            && forall|i: int|
            0 <= i < a.parts@.len() ==> (#[trigger] a.parts@[i]).shown@ == b.parts@[i].shown@ && (
            a.parts@[i].raw is Some <==> b.parts@[i].raw is Some) && (a.parts@[i].raw is Some
                ==> a.parts@[i].raw->0@ == b.parts@[i].raw->0@)),
{
    let x = part_views(a.parts@);
    let y = part_views(b.parts@);
    assert(x.len() == a.parts@.len() && y.len() == b.parts@.len());
    if same_path(a@, b@) {
        assert forall|i: int| 0 <= i < a.parts@.len() implies (#[trigger] a.parts@[i])@
            == b.parts@[i]@ by {
            assert(x[i] == a.parts@[i]@);
            assert(y[i] == b.parts@[i]@);
        }
    } else if a.root@ == b.root@ && a.parts@.len() == b.parts@.len() && forall|i: int|
        0 <= i < a.parts@.len() ==> (#[trigger] a.parts@[i]).shown@ == b.parts@[i].shown@ && (
        a.parts@[i].raw is Some <==> b.parts@[i].raw is Some) && (a.parts@[i].raw is Some
            ==> a.parts@[i].raw->0@ == b.parts@[i].raw->0@) {
        assert forall|i: int| 0 <= i < x.len() implies x[i] == y[i] by {
            assert(x[i] == a.parts@[i]@);
            assert(y[i] == b.parts@[i]@);
            assert(a.parts@[i].shown@ == b.parts@[i].shown@);
        }
        assert(x =~= y);
    }
}

/// A path without components is shown as its root. Each further component is shown
/// behind what comes before it, with one separator between them where there was a
/// component already: a backslash under the Windows convention, else a slash.
pub proof fn law_shown_grows(path: PathView, name: PartView)
    ensures
        path.parts.len() == 0 ==> shown(path) == path.root,
        shown(joined(path, name)) == if path.parts.len() == 0 {
            path.root + name.shown
        } else if path.windows {
            shown(path).push('\\') + name.shown
        } else {
            shown(path).push('/') + name.shown
        },
{
    reveal_strlit("\\");
    reveal_strlit("/");
    if path.parts.len() == 0 {
        assert(shown(path) =~= path.root);
    }
    let longer = joined(path, name);
    assert(longer.parts.drop_last() =~= path.parts);
    assert(shown(longer) =~= if path.parts.len() == 0 {
        path.root + name.shown
    } else if path.windows {
        shown(path).push('\\') + name.shown
    } else {
        shown(path).push('/') + name.shown
    });
}

/// Joining a name adds it behind the path and nothing else: taking it off again
/// gives the path, and it is the name that the path then ends in, unless it is one
/// of the two that name no file.
pub proof fn law_join_and_parent(path: PathView, name: PartView, other: PartView)
    ensures
        parent(joined(path, name)) == path,
        with_file_name(joined(path, name), other) == joined(path, other),
        joined(path, name).parts == path.parts.push(name),
        file_name(joined(path, name)) == if name.shown == seq!['.'] || name.shown == seq![
            '.',
            '.',
        ] {
            None
        } else {
            Some(name)
        },
        path.parts.len() == 0 ==> file_name(path) is None,
{
    reveal_strlit(".");
    reveal_strlit("..");
    assert("."@ =~= seq!['.']);
    assert(".."@ =~= seq!['.', '.']);
    assert(joined(path, name).parts.drop_last() =~= path.parts);
    assert(joined(path, name).parts.last() == name);
}

/// A text behind a component is shown behind it, and is added to its bytes where
/// these are kept.
pub proof fn law_suffix_is_appended(part: PartView, suffix: Seq<char>)
    ensures
        extended(part, suffix).shown == part.shown + suffix,
        extended(part, suffix).raw is Some <==> part.raw is Some,
        part.raw matches Some(bytes) ==> extended(part, suffix).raw == Some(
            bytes + encode_utf8(suffix),
        ),
{
}

} // verus!
