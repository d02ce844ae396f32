//! Absolute paths on the machine of the app server, which may follow another
//! path convention than the local one.
use crate::text;
use vstd::prelude::*;

verus! {

/// A path in the app server's notation.
#[derive(Debug, PartialEq, Eq)]
pub struct AppServerPath {
    raw: String,
}

impl View for AppServerPath {
    type V = Seq<char>;

    closed spec fn view(&self) -> Seq<char> {
        self.raw@
    }
}

impl Clone for AppServerPath {
    fn clone(&self) -> (res: AppServerPath)
        ensures
            res@ == self@,
    {
        AppServerPath { raw: self.raw.clone() }
    }
}

/// Whether a character is an ASCII letter.
pub open spec fn is_letter(c: char) -> bool {
    65 <= c as u32 <= 90 || 97 <= c as u32 <= 122
}

/// Whether a path starts at a drive (`C:\` or `C:/`) or at a share (`\\`).
pub open spec fn is_windows(path: Seq<char>) -> bool {
    ||| path.len() >= 3 && is_letter(path[0]) && path[1] == ':' && (path[2] == '\\' || path[2]
        == '/')
    ||| path.len() >= 2 && path[0] == '\\' && path[1] == '\\'
}

/// Whether a path is absolute under either convention.
pub open spec fn is_absolute(path: Seq<char>) -> bool {
    is_windows(path) || (path.len() > 0 && path[0] == '/')
}

/// Whether a character separates components.
pub open spec fn is_separator(c: char, windows: bool) -> bool {
    c == '/' || (windows && c == '\\')
}

/// The separator that joining puts in.
pub open spec fn separator(windows: bool) -> char {
    if windows {
        '\\'
    } else {
        '/'
    }
}

/// The runs of characters between separators.
pub open spec fn split(path: Seq<char>, windows: bool) -> Seq<Seq<char>>
    decreases path.len(),
{
    if path.len() == 0 {
        Seq::empty()
    } else {
        let before = split(path.drop_last(), windows);
        let c = path.last();
        if is_separator(c, windows) {
            before
        } else if path.len() >= 2 && !is_separator(path[path.len() - 2], windows) {
            before.update(before.len() - 1, before.last().push(c))
        } else {
            before.push(seq![c])
        }
    }
}

/// The components of a path.
pub open spec fn components(path: Seq<char>) -> Seq<Seq<char>> {
    split(path, is_windows(path))
}

/// A path with a name joined to it.
pub open spec fn joined(path: Seq<char>, name: Seq<char>) -> Seq<char> {
    let windows = is_windows(path);
    if path.len() == 0 || is_separator(path.last(), windows) {
        path + name
    } else {
        path.push(separator(windows)) + name
    }
}

/// Whether a name is a single component under both conventions.
pub open spec fn is_plain_name(name: Seq<char>) -> bool {
    &&& name.len() > 0
    &&& forall|i: int| 0 <= i < name.len() ==> #[trigger] name[i] != '/' && name[i] != '\\'
}

fn letter(c: char) -> (res: bool)
    ensures
        res == is_letter(c),
{
    let code: u32 = c as u32;
    (65 <= code && code <= 90) || (97 <= code && code <= 122)
}

fn windows_path(chars: &Vec<char>) -> (res: bool)
    ensures
        res == is_windows(chars@),
{
    (chars.len() >= 3 && letter(chars[0]) && chars[1] == ':' && (chars[2] == '\\' || chars[2]
        == '/')) || (chars.len() >= 2 && chars[0] == '\\' && chars[1] == '\\')
}

fn separates(c: char, windows: bool) -> (res: bool)
    ensures
        res == is_separator(c, windows),
{
    c == '/' || (windows && c == '\\')
}

/// The texts of a sequence of string slices.
pub open spec fn part_texts(parts: Seq<&str>) -> Seq<Seq<char>> {
    parts.map_values(|p: &str| p@)
}

impl AppServerPath {
    /// Takes a path as the app server reported it.
    pub fn from_app_server(path: &str) -> (res: AppServerPath)
        ensures
            res@ == path@,
    {
        AppServerPath { raw: path.to_owned() }
    }

    /// Takes a text as a path where it is absolute.
    pub fn from_absolute_str(path: &str) -> (res: Option<AppServerPath>)
        ensures
            res is Some <==> is_absolute(path@),
            res matches Some(p) ==> p@ == path@,
    {
        let chars = text::chars_of(path);
        if windows_path(&chars) || (chars.len() > 0 && chars[0] == '/') {
            Some(AppServerPath { raw: path.to_owned() })
        } else {
            None
        }
    }

    /// The path's text.
    pub fn as_str(&self) -> (res: &str)
        ensures
            res@ == self@,
    {
        self.raw.as_str()
    }

    /// The path with a name joined to it.
    pub fn join(&self, name: &str) -> (res: AppServerPath)
        ensures
            res@ == joined(self@, name@),
    {
        let chars = text::chars_of(self.raw.as_str());
        let windows = windows_path(&chars);
        let mut raw = self.raw.clone();
        if chars.len() > 0 && !separates(chars[chars.len() - 1], windows) {
            proof {
                reveal_strlit("\\");
                reveal_strlit("/");
            }
            if windows {
                raw.append("\\");
            } else {
                raw.append("/");
            }
            assert(raw@ =~= self@.push(separator(windows)));
        }
        raw.append(name);
        AppServerPath { raw }
    }

    /// The components of the path, in order.
    pub fn components(&self) -> (parts: Vec<&str>)
        ensures
            part_texts(parts@) == components(self@),
    {
        let chars = text::chars_of(self.raw.as_str());
        let windows = windows_path(&chars);
        let ghost path = self@;
        let mut parts: Vec<&str> = Vec::new();
        let mut start: usize = 0;
        let mut i: usize = 0;
        assert(path.take(0) =~= Seq::<char>::empty());
        assert(part_texts(parts@) =~= split(path.take(0), windows));
        while i < chars.len()
            invariant
                chars@ == path,
                path == self@,
                start <= i <= path.len(),
                start < i ==> part_texts(parts@).push(path.subrange(start as int, i as int))
                    == split(path.take(i as int), windows),
                start == i ==> part_texts(parts@) == split(path.take(i as int), windows),
                start < i <==> i > 0 && !is_separator(path[i - 1], windows),
            decreases path.len() - i,
        {
            let ghost now = path.take(i as int);
            let ghost next = path.take(i + 1);
            assert(next.drop_last() =~= now);
            assert(i > 0 ==> next[i - 1] == path[i - 1]);
            if separates(chars[i], windows) {
                if start < i {
                    let ghost before = parts@;
                    parts.push(self.raw.as_str().substring_char(start, i));
                    assert(part_texts(parts@) =~= part_texts(before).push(
                        path.subrange(start as int, i as int),
                    ));
                }
                start = i + 1;
            } else {
                proof {
                    let piece = path.subrange(start as int, i as int);
                    let longer = path.subrange(start as int, i + 1);
                    assert(longer =~= piece.push(path[i as int]));
                    if start < i {
                        let before = part_texts(parts@).push(piece);
                        assert(before.update(before.len() - 1, longer) =~= part_texts(
                            parts@,
                        ).push(longer));
                    } else {
                        assert(longer =~= seq![path[i as int]]);
                    }
                }
            }
            i = i + 1;
        }
        assert(path.take(i as int) =~= path);
        if start < i {
            let ghost before = parts@;
            parts.push(self.raw.as_str().substring_char(start, i));
            assert(part_texts(parts@) =~= part_texts(before).push(
                path.subrange(start as int, i as int),
            ));
        }
        parts
    }
}

/// Splitting after a separator goes on as before.
proof fn lemma_split_name(path: Seq<char>, name: Seq<char>, windows: bool)
    requires
        path.len() == 0 || is_separator(path.last(), windows),
        is_plain_name(name),
    ensures
        split(path + name, windows) == split(path, windows).push(name),
    decreases name.len(),
{
    let whole = path + name;
    assert(whole.last() == name.last());
    if name.len() == 1 {
        assert(whole.drop_last() =~= path);
        assert(name =~= seq![name[0]]);
    } else {
        let shorter = name.drop_last();
        assert(whole.drop_last() =~= path + shorter);
        assert(is_plain_name(shorter)) by {
            assert forall|i: int| 0 <= i < shorter.len() implies #[trigger] shorter[i] != '/'
                && shorter[i] != '\\' by {
                assert(shorter[i] == name[i]);
            }
        }
        lemma_split_name(path, shorter, windows);
        assert(whole[whole.len() - 2] == name[name.len() - 2]);
        assert(name =~= shorter.push(name.last()));
        let before = split(path, windows).push(shorter);
        assert(before.update(before.len() - 1, name) =~= split(path, windows).push(name));
    }
}

/// Joining a plain name to an absolute path keeps the path's convention and
/// adds the name as the last component.
pub proof fn law_join_adds_component(path: Seq<char>, name: Seq<char>)
    requires
        is_absolute(path),
        is_plain_name(name),
    ensures
        is_absolute(joined(path, name)),
        is_windows(joined(path, name)) == is_windows(path),
        components(joined(path, name)) == components(path).push(name),
{
    let windows = is_windows(path);
    let whole = joined(path, name);
    assert(whole[0] == path[0]);
    if path.len() >= 2 {
        assert(whole[1] == path[1]);
    }
    if path.len() >= 3 {
        assert(whole[2] == path[2]);
    }
    if windows {
        assert(is_windows(whole));
    } else {
        assert(path[0] == '/');
        assert(!is_windows(whole));
    }
    if is_separator(path.last(), windows) {
        lemma_split_name(path, name, windows);
    } else {
        let with = path.push(separator(windows));
        assert(with.drop_last() =~= path);
        lemma_split_name(with, name, windows);
    }
}

/// A separator parts the components on its two sides, and a text without one is a
/// single component, or none where it is empty.
pub proof fn law_separators_part(a: Seq<char>, c: char, b: Seq<char>, windows: bool)
    requires
        c == '/' || (windows && c == '\\'),
    ensures
        split(a.push(c) + b, windows) == split(a, windows) + split(b, windows),
        a.len() > 0 && (forall|i: int|
            0 <= i < a.len() ==> #[trigger] a[i] != '/' && !(windows && a[i] == '\\')) ==> split(
            a,
            windows,
        ) == seq![a],
        split(Seq::empty(), windows).len() == 0,
    decreases a.len() + b.len(),
{
    let whole = a.push(c) + b;
    if b.len() == 0 {
        assert(whole =~= a.push(c));
        assert(whole.drop_last() =~= a);
        assert(split(a, windows) + split(b, windows) =~= split(a, windows));
    } else {
        let shorter = b.drop_last();
        law_separators_part(a, c, shorter, windows);
        assert(whole.drop_last() =~= a.push(c) + shorter);
        assert(whole.last() == b.last());
        let before = split(a, windows);
        let rest = split(shorter, windows);
        if b.len() >= 2 {
            assert(whole[whole.len() - 2] == b[b.len() - 2]);
            if !is_separator(b.last(), windows) && !is_separator(b[b.len() - 2], windows) {
                lemma_split_some(shorter, windows);
                assert((before + rest).update(
                    (before + rest).len() - 1,
                    rest.last().push(b.last()),
                ) =~= before + rest.update(rest.len() - 1, rest.last().push(b.last())));
            } else if !is_separator(b.last(), windows) {
                assert((before + rest).push(seq![b.last()]) =~= before + rest.push(
                    seq![b.last()],
                ));
            }
        } else {
            assert(whole[whole.len() - 2] == c);
            assert(shorter =~= Seq::<char>::empty());
            if !is_separator(b.last(), windows) {
                assert((before + rest).push(seq![b.last()]) =~= before + rest.push(
                    seq![b.last()],
                ));
            }
        }
        assert(split(whole, windows) =~= split(a, windows) + split(b, windows));
    }
    if a.len() > 0 && forall|i: int|
        0 <= i < a.len() ==> #[trigger] a[i] != '/' && !(windows && a[i] == '\\') {
        lemma_split_single(a, windows);
    }
}

proof fn lemma_split_some(path: Seq<char>, windows: bool)
    requires
        path.len() > 0,
        !is_separator(path.last(), windows),
    ensures
        split(path, windows).len() > 0,
    decreases path.len(),
{
    if path.len() >= 2 && !is_separator(path[path.len() - 2], windows) {
        lemma_split_some(path.drop_last(), windows);
    }
}

proof fn lemma_split_single(name: Seq<char>, windows: bool)
    requires
        name.len() > 0,
        forall|i: int| 0 <= i < name.len() ==> !is_separator(#[trigger] name[i], windows),
    ensures
        split(name, windows) == seq![name],
    decreases name.len(),
{
    assert(!is_separator(name[name.len() - 1], windows));
    if name.len() >= 2 {
        let shorter = name.drop_last();
        assert forall|i: int| 0 <= i < shorter.len() implies !is_separator(
            #[trigger] shorter[i],
            windows,
        ) by {
            assert(shorter[i] == name[i]);
        }
        lemma_split_single(shorter, windows);
        assert(!is_separator(name[name.len() - 2], windows));
        assert(shorter.push(name.last()) =~= name);
        let before = split(shorter, windows);
        assert(before.last() == shorter);
        assert(before.update(0, name) =~= seq![name]);
        assert(split(name, windows) == before.update(0, before.last().push(name.last())));
    } else {
        assert(name =~= seq![name[0]]);
        assert(name.drop_last() =~= Seq::<char>::empty());
        assert(split(name.drop_last(), windows) =~= Seq::<Seq<char>>::empty());
        assert(split(name.drop_last(), windows).push(seq![name[0]]) =~= seq![name]);
    }
}

/// The components of a path are those between slashes, and between backslashes too
/// where it is a Windows path.
pub proof fn law_components(path: Seq<char>)
    ensures
        components(path) == split(path, is_windows(path)),
        is_windows(path) ==> is_absolute(path),
        !is_windows(path) ==> (is_absolute(path) <==> path.len() > 0 && path[0] == '/'),
{
}

/// Which paths are Windows paths: those that start with a letter, a colon and a
/// separator, and those that start with two backslashes.
pub proof fn law_windows_paths(letter: char, rest: Seq<char>, path: Seq<char>)
    ensures
        ('a' <= letter <= 'z' || 'A' <= letter <= 'Z') ==> is_windows(
            seq![letter, ':', '\\'] + rest,
        ) && is_windows(seq![letter, ':', '/'] + rest),
        !('a' <= letter <= 'z' || 'A' <= letter <= 'Z') && letter != '\\' ==> !is_windows(
            seq![letter] + rest,
        ),
        is_windows(seq!['\\', '\\'] + rest),
        is_absolute(seq!['/'] + rest) && !is_windows(seq!['/'] + rest),
        path.len() < 2 ==> !is_windows(path),
        path.len() >= 2 && path[0] != '\\' && path[1] != ':' ==> !is_windows(path),
        path.len() >= 2 && path[0] == '\\' && path[1] != '\\' ==> !is_windows(path),
        path.len() >= 3 && path[0] != '\\' && path[2] != '\\' && path[2] != '/' ==> !is_windows(
            path,
        ),
{
    assert((seq![letter] + rest)[0] == letter);
    assert((seq!['/'] + rest)[0] == '/');
}

/// Joining writes the name behind the path, with one separator between them: a slash,
/// or a backslash for a Windows path. A path that ends with a separator gets no other.
pub proof fn law_joined_text(path: Seq<char>, name: Seq<char>)
    requires
        path.len() > 0,
    ensures
        joined(path, name) == if path.last() == '/' || (is_windows(path) && path.last() == '\\') {
            path + name
        } else if is_windows(path) {
            path.push('\\') + name
        } else {
            path.push('/') + name
        },
        joined(Seq::empty(), name) == name,
{
    assert(Seq::<char>::empty() + name =~= name);
}

} // verus!
