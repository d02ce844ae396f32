//! Where the segments of a rollout are kept, and what a segment says of the one
//! before it.
use crate::ids;
use crate::ids::{SegmentId, ThreadId};
use crate::text;
use crate::threads::error::{ThreadErrorView, ThreadStoreError, ThreadStoreResult};
use crate::threads::path;
use crate::threads::path::{LocalPath, PartView, PathPart, PathView};
use vstd::prelude::*;

verus! {

/// The name of the directory for a segment: its identifier, or `initial` for the
/// segment that has none.
pub open spec fn segment_key(segment_id: Option<SegmentId>) -> Seq<char> {
    match segment_id {
        Some(id) => ids::hyphenated(id.value),
        None => "initial"@,
    }
}

/// The directory that a segment is archived in.
pub open spec fn archive_dir(
    codex_home: PathView,
    segments_dir: Seq<char>,
    thread_id: ThreadId,
    segment_id: Option<SegmentId>,
) -> PathView {
    path::joined(
        path::joined(
            path::joined(codex_home, path::text_part(segments_dir)),
            path::text_part(ids::hyphenated(thread_id.value)),
        ),
        path::text_part(segment_key(segment_id)),
    )
}

/// What an operation returns for a rollout path that has no file name.
pub open spec fn nameless(prefix: Seq<char>, rollout: PathView) -> ThreadErrorView {
    ThreadErrorView::Internal {
        message: prefix + path::shown(rollout) + " does not have a file name"@,
    }
}

/// Where a segment is archived: under its thread and segment, with the name of
/// the live rollout.
pub open spec fn archive_path(
    codex_home: PathView,
    segments_dir: Seq<char>,
    thread_id: ThreadId,
    segment_id: Option<SegmentId>,
    live: PathView,
) -> Result<PathView, ThreadErrorView> {
    match path::file_name(live) {
        None => Err(nameless("previous rollout segment path "@, live)),
        Some(name) => Ok(
            path::joined(archive_dir(codex_home, segments_dir, thread_id, segment_id), name),
        ),
    }
}

/// The name of a segment that is not yet installed.
pub open spec fn staged_name(name: PartView, staging_id: SegmentId) -> PartView {
    path::extended(name, ".staged-"@ + ids::hyphenated(staging_id.value) + ".tmp"@)
}

/// Where the next segment is written before it takes the place of the live one.
pub open spec fn staged_path(live: PathView, staging_id: SegmentId) -> Result<
    PathView,
    ThreadErrorView,
> {
    match path::file_name(live) {
        None => Err(nameless("live rollout path "@, live)),
        Some(name) => Ok(path::with_file_name(live, staged_name(name, staging_id))),
    }
}

/// The value of a result that is a path.
pub open spec fn path_result(result: ThreadStoreResult<LocalPath>) -> Result<
    PathView,
    ThreadErrorView,
> {
    match result {
        Ok(path) => Ok(path@),
        Err(error) => Err(error@),
    }
}

fn nameless_error(prefix: &str, rollout: &LocalPath) -> (error: ThreadStoreError)
    ensures
        error@ == nameless(prefix@, rollout@),
{
    let mut message = prefix.to_owned();
    let shown = rollout.display();
    message.append(shown.as_str());
    message.append(" does not have a file name");
    ThreadStoreError::Internal { message }
}

/// Where the previous segment of a thread is archived.
pub fn rotated_segment_path(
    codex_home: &LocalPath,
    segments_dir: &str,
    thread_id: ThreadId,
    segment_id: Option<SegmentId>,
    old_rollout_path: &LocalPath,
) -> (res: ThreadStoreResult<LocalPath>)
    ensures
        path_result(res) == archive_path(
            codex_home@,
            segments_dir@,
            thread_id,
            segment_id,
            old_rollout_path@,
        ),
{
    let name = match old_rollout_path.file_name() {
        Some(name) => name,
        None => {
            return Err(nameless_error("previous rollout segment path ", old_rollout_path));
        },
    };
    let key = match segment_id {
        Some(id) => id.text(),
        None => "initial".to_owned(),
    };
    let segments = codex_home.join(&PathPart::from_text(segments_dir));
    let thread_text = thread_id.text();
    let thread = segments.join(&PathPart::from_text(thread_text.as_str()));
    let segment = thread.join(&PathPart::from_text(key.as_str()));
    Ok(segment.join(name))
}

/// Where a segment with the given identifier is written before it is installed.
pub fn staged_path_for(live_rollout_path: &LocalPath, staging_id: SegmentId) -> (res:
    ThreadStoreResult<LocalPath>)
    ensures
        path_result(res) == staged_path(live_rollout_path@, staging_id),
{
    let name = match live_rollout_path.file_name() {
        Some(name) => name,
        None => {
            return Err(nameless_error("live rollout path ", live_rollout_path));
        },
    };
    let mut suffix = ".staged-".to_owned();
    let id = staging_id.text();
    suffix.append(id.as_str());
    suffix.append(".tmp");
    Ok(live_rollout_path.with_file_name(name.with_suffix(suffix.as_str())))
}

/// Where a new segment is written before it is installed.
pub fn staged_rollout_path(live_rollout_path: &LocalPath) -> (res: ThreadStoreResult<LocalPath>)
    ensures
        exists|id: SegmentId|
            id.is_drawn() && path_result(res) == #[trigger] staged_path(live_rollout_path@, id),
{
    staged_path_for(live_rollout_path, SegmentId::new())
}

/// Whether a hyphen at place `i` is followed by a thread identifier.
pub open spec fn splits_at(core: Seq<char>, i: int) -> bool {
    core[i] == '-' && ids::is_uuid_text(core.skip(i + 1))
}

/// The last place below `end` where a hyphen is followed by a thread identifier.
pub open spec fn last_split(core: Seq<char>, end: int) -> Option<int>
    decreases end,
{
    if end <= 0 {
        None
    } else if splits_at(core, end - 1) {
        Some(end - 1)
    } else {
        last_split(core, end - 1)
    }
}

/// The timestamp in the name of a rollout: what stands between `rollout-` and
/// the last hyphen that a thread identifier and `.jsonl` follow.
pub open spec fn timestamp_of_name(name: Seq<char>) -> Option<Seq<char>> {
    let rest = name.skip("rollout-"@.len() as int);
    let core = rest.take(rest.len() - ".jsonl"@.len());
    if text::has_prefix(name, "rollout-"@) && text::has_suffix(rest, ".jsonl"@) {
        match last_split(core, core.len() as int) {
            Some(i) => Some(core.take(i)),
            None => None,
        }
    } else {
        None
    }
}

/// The timestamp in the name that a path ends in, where the name is Unicode.
pub open spec fn timestamp_of(rollout: PathView) -> Option<Seq<char>> {
    match path::file_name(rollout) {
        Some(name) if name.raw is None => timestamp_of_name(name.shown),
        _ => None,
    }
}

/// The text of an optional string.
pub open spec fn optional_text(s: Option<String>) -> Option<Seq<char>> {
    match s {
        Some(s) => Some(s@),
        None => None,
    }
}

/// The timestamp in the name of a rollout.
pub fn rollout_timestamp_from_path(rollout: &LocalPath) -> (res: Option<String>)
    ensures
        optional_text(res) == timestamp_of(rollout@),
{
    let part = match rollout.file_name() {
        Some(part) => part,
        None => {
            return None;
        },
    };
    let name = match part.as_text() {
        Some(name) => name,
        None => {
            return None;
        },
    };
    let rest = match text::strip_prefix(name, "rollout-") {
        Some(rest) => rest,
        None => {
            return None;
        },
    };
    let core = match text::strip_suffix(rest, ".jsonl") {
        Some(core) => core,
        None => {
            return None;
        },
    };
    let chars = text::chars_of(core);
    let mut end: usize = chars.len();
    while end > 0
        invariant
            chars@ == core@,
            end <= core@.len(),
            core@ == name@.skip("rollout-"@.len() as int).take(
                name@.skip("rollout-"@.len() as int).len() - ".jsonl"@.len(),
            ),
            text::has_prefix(name@, "rollout-"@),
            text::has_suffix(name@.skip("rollout-"@.len() as int), ".jsonl"@),
            path::file_name(rollout@) == Some(path::text_part(name@)),
            last_split(core@, end as int) == last_split(core@, core@.len() as int),
        decreases end,
    {
        if chars[end - 1] == '-' {
            let id = core.substring_char(end, chars.len());
            assert(id@ =~= core@.skip(end as int));
            if ids::is_uuid(id) {
                return Some(core.substring_char(0, end - 1).to_owned());
            }
        }
        end = end - 1;
    }
    None
}

/// What a segment says of the one before it.
#[derive(Clone, Debug, PartialEq, Eq)]
pub struct RolloutReferenceItem {
    pub rollout_path: LocalPath,
    pub thread_id: Option<ThreadId>,
    pub rollout_timestamp: Option<String>,
    pub segment_id: Option<SegmentId>,
    pub max_depth: Option<usize>,
    pub nth_user_message: Option<usize>,
    pub filter_fork_history: bool,
    pub developer_message_filter_texts: Option<Vec<String>>,
}

/// The mathematical value of a reference to a segment.
pub struct ReferenceView {
    pub rollout_path: PathView,
    pub thread_id: Option<ThreadId>,
    pub rollout_timestamp: Option<Seq<char>>,
    pub segment_id: Option<SegmentId>,
    pub max_depth: Option<usize>,
    pub nth_user_message: Option<usize>,
    pub filter_fork_history: bool,
    pub developer_message_filter_texts: Option<Seq<Seq<char>>>,
}

impl View for RolloutReferenceItem {
    type V = ReferenceView;

    open spec fn view(&self) -> ReferenceView {
        ReferenceView {
            rollout_path: self.rollout_path@,
            thread_id: self.thread_id,
            rollout_timestamp: optional_text(self.rollout_timestamp),
            segment_id: self.segment_id,
            max_depth: self.max_depth,
            nth_user_message: self.nth_user_message,
            filter_fork_history: self.filter_fork_history,
            developer_message_filter_texts: match self.developer_message_filter_texts {
                Some(t) => Some(path::texts(t@)),
                None => None,
            },
        }
    }
}

/// The reference to an archived segment.
pub open spec fn reference_to(
    archive: PathView,
    thread_id: ThreadId,
    live: PathView,
    segment_id: Option<SegmentId>,
    max_depth: Option<usize>,
) -> ReferenceView {
    ReferenceView {
        rollout_path: archive,
        thread_id: Some(thread_id),
        rollout_timestamp: timestamp_of(live),
        segment_id,
        max_depth,
        nth_user_message: None,
        filter_fork_history: false,
        developer_message_filter_texts: None,
    }
}

/// The reference to an archived segment.
pub fn segment_reference(
    archive: &LocalPath,
    thread_id: ThreadId,
    live: &LocalPath,
    segment_id: Option<SegmentId>,
    max_depth: Option<usize>,
) -> (item: RolloutReferenceItem)
    ensures
        item@ == reference_to(archive@, thread_id, live@, segment_id, max_depth),
{
    RolloutReferenceItem {
        rollout_path: archive.clone(),
        thread_id: Some(thread_id),
        rollout_timestamp: rollout_timestamp_from_path(live),
        segment_id,
        max_depth,
        nth_user_message: None,
        filter_fork_history: false,
        developer_message_filter_texts: None,
    }
}

/// An item of a rollout: a reference to a segment, or anything else.
#[derive(Clone, Debug, PartialEq, Eq)]
pub enum RolloutItem<T> {
    RolloutReference(RolloutReferenceItem),
    Other(T),
}

/// What a new segment starts with: the reference to the one before it, then the
/// items it was given.
pub fn initial_items<T>(
    reference: RolloutReferenceItem,
    given: Vec<RolloutItem<T>>,
) -> (items: Vec<RolloutItem<T>>)
    ensures
        items@ == seq![RolloutItem::RolloutReference(reference)] + given@,
{
    let mut items: Vec<RolloutItem<T>> = Vec::new();
    items.push(RolloutItem::RolloutReference(reference));
    let mut given = given;
    items.append(&mut given);
    items
}

proof fn lemma_last_split_from(core: Seq<char>, i: int, end: int)
    requires
        0 <= i < end,
        splits_at(core, i),
        forall|j: int| i < j < end ==> !#[trigger] splits_at(core, j),
    ensures
        last_split(core, end) == Some(i),
    decreases end,
{
    if i < end - 1 {
        assert(!splits_at(core, end - 1));
        lemma_last_split_from(core, i, end - 1);
    }
}

/// The timestamp is read back from the name that a rollout gets, whatever the
/// timestamp is.
pub proof fn law_timestamp_read_back(timestamp: Seq<char>, thread_id: ThreadId)
    ensures
        timestamp_of_name(
            "rollout-"@ + timestamp + "-"@ + ids::hyphenated(thread_id.value) + ".jsonl"@,
        ) == Some(timestamp),
{
    reveal_strlit("rollout-");
    reveal_strlit("-");
    reveal_strlit(".jsonl");
    let id = ids::hyphenated(thread_id.value);
    ids::law_hyphenated_is_uuid(thread_id.value);
    let core = timestamp + "-"@ + id;
    let name = "rollout-"@ + timestamp + "-"@ + id + ".jsonl"@;
    let rest = name.skip(8);
    assert(name.take(8) =~= "rollout-"@);
    assert(rest =~= core + ".jsonl"@);
    assert(rest.skip(rest.len() - 6) =~= ".jsonl"@);
    assert(rest.take(rest.len() - 6) =~= core);
    let i = timestamp.len() as int;
    assert(core.skip(i + 1) =~= id);
    assert(splits_at(core, i));
    assert forall|j: int| i < j < core.len() implies !#[trigger] splits_at(core, j) by {
        if core[j] == '-' {
            assert(core[j] == id[j - i - 1]);
            assert(core.skip(j + 1).len() == core.len() - j - 1);
        }
    }
    lemma_last_split_from(core, i, core.len() as int);
    assert(core.take(i) =~= timestamp);
}

/// A segment is never written over the live rollout before it is installed.
pub proof fn law_staged_path_differs(live: PathView, staging_id: SegmentId)
    ensures
        staged_path(live, staging_id) matches Ok(staged) ==> !path::same_path(staged, live),
{
    match path::file_name(live) {
        None => {},
        Some(name) => {
            let staged = staged_name(name, staging_id);
            ids::law_hyphenated_is_uuid(staging_id.value);
            assert(staged.shown.len() > name.shown.len());
            let parts = path::with_file_name(live, staged).parts;
            assert(parts.last() == staged);
        },
    }
}

/// Segments that differ in their thread or their identifier are archived in
/// different directories.
pub proof fn law_archives_are_distinct(
    codex_home: PathView,
    segments_dir: Seq<char>,
    a: (ThreadId, Option<SegmentId>),
    b: (ThreadId, Option<SegmentId>),
)
    requires
        archive_dir(codex_home, segments_dir, a.0, a.1).parts == archive_dir(
            codex_home,
            segments_dir,
            b.0,
            b.1,
        ).parts,
    ensures
        a == b,
{
    let x = archive_dir(codex_home, segments_dir, a.0, a.1).parts;
    let y = archive_dir(codex_home, segments_dir, b.0, b.1).parts;
    assert(x.last().shown == segment_key(a.1));
    assert(y.last().shown == segment_key(b.1));
    assert(x[x.len() - 2].shown == ids::hyphenated(a.0.value));
    assert(y[y.len() - 2].shown == ids::hyphenated(b.0.value));
    ids::law_hyphenated_injective(a.0.value, b.0.value);
    reveal_strlit("initial");
    match (a.1, b.1) {
        (Some(p), Some(q)) => {
            ids::law_hyphenated_injective(p.value, q.value);
        },
        (Some(p), None) => {
            ids::law_hyphenated_is_uuid(p.value);
        },
        (None, Some(q)) => {
            ids::law_hyphenated_is_uuid(q.value);
        },
        (None, None) => {},
    }
}

/// A segment is archived below the home directory, in the directory for archived
/// segments, under its thread and then under itself, with the name of the live
/// rollout; a segment without an identifier goes under `initial`.
pub proof fn law_archive_place(
    codex_home: PathView,
    segments_dir: Seq<char>,
    thread_id: ThreadId,
    segment_id: Option<SegmentId>,
    live: PathView,
)
    ensures
        match archive_path(codex_home, segments_dir, thread_id, segment_id, live) {
            Ok(archive) => {
                let n = codex_home.parts.len() as int;
                &&& archive.root == codex_home.root
                &&& archive.windows == codex_home.windows
                &&& archive.parts.len() == n + 4
                &&& archive.parts.take(n) == codex_home.parts
                &&& archive.parts[n].shown == segments_dir
                &&& archive.parts[n + 1].shown == ids::hyphenated(thread_id.value)
                &&& archive.parts[n + 2].shown == match segment_id {
                    Some(id) => ids::hyphenated(id.value),
                    None => "initial"@,
                }
                &&& live.parts.len() > 0
                &&& archive.parts[n + 3] == live.parts.last()
                &&& forall|i: int| n <= i < n + 3 ==> (#[trigger] archive.parts[i]).raw is None
            },
            Err(e) => e is Internal && path::file_name(live) is None,
        },
{
    match path::file_name(live) {
        Some(name) => {
            let archive = path::joined(
                archive_dir(codex_home, segments_dir, thread_id, segment_id),
                name,
            );
            assert(archive.parts.take(codex_home.parts.len() as int) =~= codex_home.parts);
        },
        None => {},
    }
}

/// A segment is written beside the live rollout before it is installed, under the
/// live rollout's name with a mark behind it; different marks give different files.
pub proof fn law_staged_beside_live(live: PathView, staging_id: SegmentId, other: SegmentId)
    ensures
        staged_path(live, staging_id) matches Ok(staged) ==> {
            &&& staged.root == live.root
            &&& staged.windows == live.windows
            &&& staged.parts.len() == live.parts.len()
            &&& staged.parts.drop_last() == live.parts.drop_last()
            &&& staged.parts.last().shown == live.parts.last().shown + ".staged-"@
                + ids::hyphenated(staging_id.value) + ".tmp"@
            &&& staged.parts.last().raw is Some <==> live.parts.last().raw is Some
            &&& staging_id != other ==> staged_path(live, other) != Ok::<
                PathView,
                ThreadErrorView,
            >(staged)
        },
        staged_path(live, staging_id) is Err <==> path::file_name(live) is None,
{
    match path::file_name(live) {
        Some(name) => {
            let suffix = ".staged-"@ + ids::hyphenated(staging_id.value) + ".tmp"@;
            let staged = path::with_file_name(live, staged_name(name, staging_id));
            assert(staged.parts.drop_last() =~= live.parts.drop_last());
            assert(staged.parts.last() == staged_name(name, staging_id));
            assert(name.shown + suffix =~= live.parts.last().shown + ".staged-"@
                + ids::hyphenated(staging_id.value) + ".tmp"@);
            if staging_id != other {
                let b = path::with_file_name(live, staged_name(name, other));
                assert(b.parts.last() == staged_name(name, other));
                if b == staged {
                    let x = staged_name(name, staging_id).shown;
                    let y = staged_name(name, other).shown;
                    let from = (name.shown.len() + ".staged-"@.len()) as int;
                    ids::law_hyphenated_is_uuid(staging_id.value);
                    ids::law_hyphenated_is_uuid(other.value);
                    assert(x.subrange(from, from + 36) =~= ids::hyphenated(staging_id.value));
                    assert(y.subrange(from, from + 36) =~= ids::hyphenated(other.value));
                    ids::law_hyphenated_injective(staging_id.value, other.value);
                }
            }
        },
        None => {},
    }
}

proof fn lemma_last_split(core: Seq<char>, end: int)
    requires
        0 <= end <= core.len(),
    ensures
        match last_split(core, end) {
            Some(i) => {
                &&& 0 <= i < end
                &&& core[i] == '-'
                &&& ids::is_uuid_text(core.skip(i + 1))
                &&& forall|j: int|
                    i < j < end ==> !(core[j] == '-' && ids::is_uuid_text(
                        #[trigger] core.skip(j + 1),
                    ))
            },
            None => forall|j: int|
                0 <= j < end ==> !(core[j] == '-' && ids::is_uuid_text(
                    #[trigger] core.skip(j + 1),
                )),
        },
    decreases end,
{
    if end > 0 {
        lemma_last_split(core, end - 1);
        assert(core.skip(end - 1 + 1) == core.skip(end));
    }
}

/// A name has a timestamp exactly where it is `rollout-`, something, a hyphen, a
/// thread identifier and `.jsonl`. The timestamp is that something, up to the last
/// such hyphen.
pub proof fn law_timestamp_shape(name: Seq<char>)
    ensures
        timestamp_of_name(name) matches Some(t) ==> exists|id: Seq<char>|
            ids::is_uuid_text(id) && name == #[trigger] rollout_name(t, id),
        forall|t: Seq<char>, id: Seq<char>|
            ids::is_uuid_text(id) && name == #[trigger] rollout_name(t, id) ==> (
            timestamp_of_name(name) matches Some(found) && found.len() >= t.len()),
{
    reveal_strlit("rollout-");
    reveal_strlit(".jsonl");
    let rest = name.skip(8);
    let core = rest.take(rest.len() - 6);
    if text::has_prefix(name, "rollout-"@) && text::has_suffix(rest, ".jsonl"@) {
        lemma_last_split(core, core.len() as int);
        match last_split(core, core.len() as int) {
            Some(i) => {
                let t = core.take(i);
                let id = core.skip(i + 1);
                assert(name =~= rollout_name(t, id)) by {
                    assert(name =~= name.take(8) + rest);
                    assert(rest =~= core + rest.skip(rest.len() - 6));
                    assert(core =~= t.push('-') + id);
                }
            },
            None => {},
        }
    }
    assert forall|t: Seq<char>, id: Seq<char>|
        ids::is_uuid_text(id) && name == #[trigger] rollout_name(t, id) implies (
    timestamp_of_name(name) matches Some(found) && found.len() >= t.len()) by {
        assert(name.take(8) =~= "rollout-"@);
        assert(rest =~= t.push('-') + id + ".jsonl"@);
        assert(rest.skip(rest.len() - 6) =~= ".jsonl"@);
        assert(core =~= t.push('-') + id);
        lemma_last_split(core, core.len() as int);
        let j = t.len() as int;
        assert(core[j] == '-');
        assert(core.skip(j + 1) =~= id);
    }
}

/// The name of a rollout with a timestamp, for a thread.
pub open spec fn rollout_name(timestamp: Seq<char>, id: Seq<char>) -> Seq<char> {
    "rollout-"@ + timestamp.push('-') + id + ".jsonl"@
}

/// A rollout has the timestamp of the name that its path ends in; one whose name is
/// not Unicode has none.
pub proof fn law_timestamp_of_path(directory: PathView, name: PartView)
    ensures
        name.raw is Some ==> timestamp_of(path::joined(directory, name)) is None,
        name.raw is None && name.shown.len() > 2 ==> timestamp_of(path::joined(directory, name))
            == timestamp_of_name(name.shown),
{
    reveal_strlit(".");
    reveal_strlit("..");
    path::law_join_and_parent(directory, name, name);
}

/// The reference to an archived segment names the archive, the thread, the archived
/// segment and the timestamp of the live rollout, with the depth that was asked for,
/// and leaves nothing of the segment out.
pub proof fn law_reference_says_where(
    archive: PathView,
    thread_id: ThreadId,
    live: PathView,
    segment_id: Option<SegmentId>,
    max_depth: Option<usize>,
)
    ensures
        ({
            let reference = reference_to(archive, thread_id, live, segment_id, max_depth);
            &&& reference.rollout_path == archive
            &&& reference.thread_id == Some(thread_id)
            &&& reference.segment_id == segment_id
            &&& reference.max_depth == max_depth
            &&& reference.rollout_timestamp == timestamp_of(live)
            &&& reference.nth_user_message is None
            &&& !reference.filter_fork_history
            &&& reference.developer_message_filter_texts is None
        }),
{
}

/// A live rollout without a file name has no place to be archived at and none to be
/// staged at; both failures show its path.
pub proof fn law_nameless_rollout(
    codex_home: PathView,
    segments_dir: Seq<char>,
    thread_id: ThreadId,
    segment_id: Option<SegmentId>,
    staging_id: SegmentId,
    live: PathView,
)
    requires
        path::file_name(live) is None,
    ensures
        archive_path(codex_home, segments_dir, thread_id, segment_id, live) == Err::<
            PathView,
            ThreadErrorView,
        >(
            ThreadErrorView::Internal {
                message: "previous rollout segment path "@ + path::shown(live)
                    + " does not have a file name"@,
            },
        ),
        staged_path(live, staging_id) == Err::<PathView, ThreadErrorView>(
            ThreadErrorView::Internal {
                message: "live rollout path "@ + path::shown(live)
                    + " does not have a file name"@,
            },
        ),
{
}

} // verus!
