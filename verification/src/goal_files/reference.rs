//! The text that stands for a goal objective kept in a file.
use crate::app_server_path;
use crate::app_server_path::AppServerPath;
use crate::goal_files::error::{GoalError, GoalErrorView};
use crate::ids;
use crate::text;
use vstd::prelude::*;
use vstd::utf8::*;

verus! {

/// The directory for attachments, below the home directory.
pub const GOAL_ATTACHMENT_DIR: &'static str = "attachments";

/// What the first line of a reference starts with.
pub const GOAL_FILE_PREFIX: &'static str = "Codex goal objective file: ";

/// The second line of a reference.
pub const GOAL_FILE_INSTRUCTION: &'static str = "Read that Codex-created file before continuing.";

/// The name of the file that holds a long objective.
pub const GOAL_FILE_NAME: &'static str = "goal-objective.md";

/// A path as the app server reports it.
pub type GoalFilePath = AppServerPath;

/// Where the first line of `s` ends: at its first line feed, or at its end.
pub open spec fn line_end(s: Seq<char>) -> int
    decreases s.len(),
{
    if s.len() == 0 || s[0] == '\n' {
        0
    } else {
        1 + line_end(s.drop_first())
    }
}

/// The first line of `s`, without the line feed and a carriage return before it.
pub open spec fn first_line(s: Seq<char>) -> Seq<char> {
    let line = s.take(line_end(s));
    if line_end(s) < s.len() && line.len() > 0 && line.last() == '\r' {
        line.drop_last()
    } else {
        line
    }
}

/// What follows the first line of `s`.
pub open spec fn after_first_line(s: Seq<char>) -> Seq<char> {
    if line_end(s) < s.len() {
        s.skip(line_end(s) + 1)
    } else {
        Seq::empty()
    }
}

/// A line ends at the first line feed.
pub proof fn lemma_line_end(s: Seq<char>, end: int)
    requires
        0 <= end <= s.len(),
        end < s.len() ==> s[end] == '\n',
        forall|i: int| 0 <= i < end ==> #[trigger] s[i] != '\n',
    ensures
        line_end(s) == end,
    decreases end,
{
    if end > 0 {
        let rest = s.drop_first();
        assert(s[0] != '\n');
        assert forall|i: int| 0 <= i < end - 1 implies #[trigger] rest[i] != '\n' by {
            assert(rest[i] == s[i + 1]);
        }
        lemma_line_end(rest, end - 1);
    }
}

/// Splits the first line off.
fn split_line<'a>(s: &'a str) -> (res: (&'a str, &'a str))
    ensures
        res.0@ == first_line(s@),
        res.1@ == after_first_line(s@),
{
    let chars = text::chars_of(s);
    let mut end: usize = 0;
    while end < chars.len() && chars[end] != '\n'
        invariant
            chars@ == s@,
            end <= chars@.len(),
            forall|i: int| 0 <= i < end ==> #[trigger] s@[i] != '\n',
        decreases chars@.len() - end,
    {
        end = end + 1;
    }
    proof {
        lemma_line_end(s@, end as int);
    }
    if end == chars.len() {
        assert(s@.take(end as int) =~= s@);
        let none = s.substring_char(end, end);
        assert(none@ =~= Seq::<char>::empty());
        return (s, none);
    }
    let rest = s.substring_char(end + 1, chars.len());
    assert(rest@ =~= s@.skip(end + 1));
    let ghost line = s@.take(end as int);
    if end > 0 && chars[end - 1] == '\r' {
        let cut = s.substring_char(0, end - 1);
        assert(line.last() == '\r');
        assert(cut@ =~= line.drop_last());
        (cut, rest)
    } else {
        (s.substring_char(0, end), rest)
    }
}

/// Whether a component is `.` or `..`.
pub open spec fn is_normalization(part: Seq<char>) -> bool {
    part == "."@ || part == ".."@
}

/// Whether a path has a component that another spelling of it would lack.
pub open spec fn has_normalization(parts: Seq<Seq<char>>) -> bool {
    exists|i: int| 0 <= i < parts.len() && is_normalization(#[trigger] parts[i])
}

/// Whether a path has a `.` or `..` component.
pub fn has_normalization_component(parts: &[&str]) -> (res: bool)
    ensures
        res == has_normalization(app_server_path::part_texts(parts@)),
{
    let ghost texts = app_server_path::part_texts(parts@);
    let mut i: usize = 0;
    while i < parts.len()
        invariant
            texts == app_server_path::part_texts(parts@),
            i <= parts@.len(),
            forall|j: int| 0 <= j < i ==> !is_normalization(#[trigger] texts[j]),
        decreases parts@.len() - i,
    {
        assert(texts[i as int] == parts@[i as int]@);
        if text::same_text(parts[i], ".") || text::same_text(parts[i], "..") {
            assert(is_normalization(texts[i as int]));
            return true;
        }
        i = i + 1;
    }
    false
}

/// Whether a path has the shape of an objective file: `attachments`, a UUID and
/// the name of the objective file, in this order at its end.
pub open spec fn is_objective_file(parts: Seq<Seq<char>>) -> bool {
    let n = parts.len() as int;
    &&& n >= 3
    &&& parts[n - 1] == GOAL_FILE_NAME@
    &&& ids::is_uuid_text(parts[n - 2])
    &&& parts[n - 3] == GOAL_ATTACHMENT_DIR@
}

/// The path on the first line of a reference, without white space around it.
pub open spec fn path_text(objective: Seq<char>) -> Seq<char> {
    text::trimmed(first_line(objective).skip(GOAL_FILE_PREFIX@.len() as int))
}

/// The file that an objective refers to: its first line is the prefix and an
/// absolute path of an objective file, its second line the instruction.
pub open spec fn referenced_file(objective: Seq<char>) -> Option<Seq<char>> {
    let path = path_text(objective);
    let rest = after_first_line(objective);
    if text::has_prefix(first_line(objective), GOAL_FILE_PREFIX@) && path.len() > 0 && rest.len()
        > 0 && first_line(rest) == GOAL_FILE_INSTRUCTION@ && app_server_path::is_absolute(path)
        && is_objective_file(app_server_path::components(path)) {
        Some(path)
    } else {
        None
    }
}

/// Whether a path lies under the home directory, with neither of them spelled
/// with `.` or `..`.
pub open spec fn is_below(path: Seq<char>, home: Seq<char>) -> bool {
    let parts = app_server_path::components(path);
    let home_parts = app_server_path::components(home);
    &&& home_parts.len() > 0
    &&& !has_normalization(home_parts)
    &&& !has_normalization(parts)
    &&& parts.len() >= home_parts.len()
    &&& parts.take(home_parts.len() as int) == home_parts
}

/// The file below the home directory that an objective refers to.
pub open spec fn objective_file(objective: Seq<char>, home: Option<Seq<char>>) -> Option<Seq<char>> {
    match (referenced_file(objective), home) {
        (Some(path), Some(home)) if is_below(path, home) => Some(path),
        _ => None,
    }
}

/// The text of an optional path.
pub open spec fn path_view(path: Option<&GoalFilePath>) -> Option<Seq<char>> {
    match path {
        Some(path) => Some(path@),
        None => None,
    }
}

/// The file that an objective refers to, wherever it lies.
pub fn parse_objective_file_path(objective: &str) -> (res: Option<GoalFilePath>)
    ensures
        res is Some <==> referenced_file(objective@) is Some,
        res matches Some(path) ==> referenced_file(objective@) == Some(path@),
{
    let (line, rest) = split_line(objective);
    let path = match text::strip_prefix(line, GOAL_FILE_PREFIX) {
        Some(path) => text::trim(path),
        None => {
            return None;
        },
    };
    if path.is_empty() || rest.is_empty() {
        return None;
    }
    let (instruction, _) = split_line(rest);
    if !text::same_text(instruction, GOAL_FILE_INSTRUCTION) {
        return None;
    }
    let path = match AppServerPath::from_absolute_str(path) {
        Some(path) => path,
        None => {
            return None;
        },
    };
    let parts = path.components();
    let n = parts.len();
    let ghost texts = app_server_path::part_texts(parts@);
    assert(texts.len() == parts@.len());
    if n < 3 {
        return None;
    }
    assert(texts[n - 1] == parts@[n - 1]@);
    assert(texts[n - 2] == parts@[n - 2]@);
    assert(texts[n - 3] == parts@[n - 3]@);
    if text::same_text(parts[n - 1], GOAL_FILE_NAME) && text::same_text(
        parts[n - 3],
        GOAL_ATTACHMENT_DIR,
    ) && ids::is_uuid(parts[n - 2]) {
        Some(path)
    } else {
        None
    }
}

fn starts_with(parts: &Vec<&str>, head: &Vec<&str>) -> (res: bool)
    ensures
        res == (app_server_path::part_texts(parts@).len() >= app_server_path::part_texts(
            head@,
        ).len() && app_server_path::part_texts(parts@).take(head@.len() as int)
            == app_server_path::part_texts(head@)),
{
    let ghost whole = app_server_path::part_texts(parts@);
    let ghost start = app_server_path::part_texts(head@);
    if parts.len() < head.len() {
        return false;
    }
    let mut i: usize = 0;
    while i < head.len()
        invariant
            whole == app_server_path::part_texts(parts@),
            start == app_server_path::part_texts(head@),
            i <= head@.len() <= parts@.len(),
            forall|j: int| 0 <= j < i ==> #[trigger] whole[j] == start[j],
        decreases head@.len() - i,
    {
        assert(whole[i as int] == parts@[i as int]@);
        assert(start[i as int] == head@[i as int]@);
        if !text::same_text(parts[i], head[i]) {
            assert(whole.take(head@.len() as int)[i as int] != start[i as int]);
            return false;
        }
        i = i + 1;
    }
    assert(whole.take(head@.len() as int) =~= start);
    true
}

/// The file below the home directory that an objective refers to.
pub fn objective_file_path(objective: &str, codex_home: Option<&GoalFilePath>) -> (res: Option<
    GoalFilePath,
>)
    ensures
        res is Some <==> objective_file(objective@, path_view(codex_home)) is Some,
        res matches Some(path) ==> objective_file(objective@, path_view(codex_home)) == Some(path@),
{
    let path = match parse_objective_file_path(objective) {
        Some(path) => path,
        None => {
            return None;
        },
    };
    let codex_home = match codex_home {
        Some(codex_home) => codex_home,
        None => {
            return None;
        },
    };
    let home_parts = codex_home.components();
    let parts = path.components();
    if home_parts.len() > 0 && !has_normalization_component(home_parts.as_slice())
        && !has_normalization_component(parts.as_slice()) && starts_with(&parts, &home_parts) {
        Some(path.clone())
    } else {
        None
    }
}

/// The text that refers to a file.
pub open spec fn reference_text(path: Seq<char>) -> Seq<char> {
    GOAL_FILE_PREFIX@ + path + "\n"@ + GOAL_FILE_INSTRUCTION@
}

/// The text that refers to a file, where it is within the limit for objectives.
pub fn objective_file_reference(path: &GoalFilePath, max_chars: usize) -> (res: Result<
    String,
    GoalError,
>)
    ensures
        res is Ok <==> reference_text(path@).len() <= max_chars,
        res matches Ok(t) ==> t@ == reference_text(path@),
        res matches Err(e) ==> e@ == (GoalErrorView::ReferenceTooLong {
            actual_chars: reference_text(path@).len(),
            limit: max_chars as nat,
        }),
{
    let mut reference = GOAL_FILE_PREFIX.to_owned();
    reference.append(path.as_str());
    reference.append("\n");
    reference.append(GOAL_FILE_INSTRUCTION);
    let actual_chars = reference.as_str().unicode_len();
    if actual_chars > max_chars {
        return Err(GoalError::ReferenceTooLong { actual_chars, limit: max_chars });
    }
    Ok(reference)
}

/// Calls `String::from_utf8`, which takes the bytes over where they are valid
/// UTF-8 and refuses them where they are not.
#[verifier::external_body]
fn string_from_utf8(bytes: Vec<u8>) -> (res: Option<String>)
    ensures
        res is Some <==> valid_utf8(bytes@),
        res matches Some(s) ==> encode_utf8(s@) == bytes@,
{
    String::from_utf8(bytes).ok()
}

/// Where the text of an objective is found for editing.
#[derive(Debug, PartialEq, Eq)]
pub enum EditSource {
    /// It is the objective itself.
    Inline(String),
    /// It is in a file.
    File(GoalFilePath),
}

/// Where the text of an objective is found for editing.
pub fn edit_source(objective: &str, codex_home: Option<&GoalFilePath>) -> (source: EditSource)
    ensures
        match objective_file(objective@, path_view(codex_home)) {
            Some(path) => source matches EditSource::File(p) && p@ == path,
            None => source matches EditSource::Inline(t) && t@ == objective@,
        },
{
    match objective_file_path(objective, codex_home) {
        Some(path) => EditSource::File(path),
        None => EditSource::Inline(objective.to_owned()),
    }
}

/// The text that was read from an objective file.
pub fn objective_text_from_file(path: &GoalFilePath, read: Result<Vec<u8>, String>) -> (res: Result<
    String,
    GoalError,
>)
    ensures
        match read {
            Err(cause) => res matches Err(e) && e@ == (GoalErrorView::ReadFile {
                path: path@,
                cause: cause@,
            }),
            Ok(bytes) => if valid_utf8(bytes@) {
                res matches Ok(t) && encode_utf8(t@) == bytes@ && t@ == decode_utf8(bytes@)
            } else {
                res matches Err(e) && e@ == (GoalErrorView::InvalidUtf8 { path: path@ })
            },
        },
{
    match read {
        Err(cause) => Err(GoalError::ReadFile { path: path.clone(), cause }),
        Ok(bytes) => match string_from_utf8(bytes) {
            Some(t) => {
                proof {
                    encode_utf8_decode_utf8(t@);
                }
                Ok(t)
            },
            None => Err(GoalError::InvalidUtf8 { path: path.clone() }),
        },
    }
}

/// The directory that the files of one goal are put into.
pub open spec fn attachment_dir(home: Seq<char>, id: u128) -> Seq<char> {
    app_server_path::joined(
        app_server_path::joined(home, GOAL_ATTACHMENT_DIR@),
        ids::hyphenated(id),
    )
}

/// The file in a goal's directory that holds a long objective.
pub open spec fn goal_file(dir: Seq<char>) -> Seq<char> {
    app_server_path::joined(dir, GOAL_FILE_NAME@)
}

/// Whether references to files below a home directory can be read back: it is
/// absolute, has a component, and holds neither a `.` or `..` component nor a
/// line feed.
pub open spec fn is_referable_home(home: Seq<char>) -> bool {
    &&& app_server_path::is_absolute(home)
    &&& app_server_path::components(home).len() > 0
    &&& !has_normalization(app_server_path::components(home))
    &&& forall|i: int| 0 <= i < home.len() ==> #[trigger] home[i] != '\n'
}

proof fn lemma_hyphenated_plain(id: u128)
    ensures
        app_server_path::is_plain_name(ids::hyphenated(id)),
        forall|i: int| 0 <= i < ids::hyphenated(id).len() ==> #[trigger] ids::hyphenated(id)[i] != '\n',
        !is_normalization(ids::hyphenated(id)),
{
    ids::law_hyphenated_is_uuid(id);
    reveal_strlit(".");
    reveal_strlit("..");
    let s = ids::hyphenated(id);
    assert forall|i: int| 0 <= i < s.len() implies #[trigger] s[i] != '/' && s[i] != '\\' && s[i]
        != '\n' by {
        assert(ids::is_hyphen_place(i) || ids::is_hex(s[i]));
    }
}

/// The components of a goal's directory, and of the files put into it.
pub proof fn lemma_attachment_dir(home: Seq<char>, id: u128)
    requires
        app_server_path::is_absolute(home),
    ensures
        app_server_path::is_absolute(attachment_dir(home, id)),
        app_server_path::components(attachment_dir(home, id)) == app_server_path::components(
            home,
        ).push(GOAL_ATTACHMENT_DIR@).push(ids::hyphenated(id)),
{
    reveal_strlit("attachments");
    assert(app_server_path::is_plain_name(GOAL_ATTACHMENT_DIR@));
    lemma_hyphenated_plain(id);
    app_server_path::law_join_adds_component(home, GOAL_ATTACHMENT_DIR@);
    app_server_path::law_join_adds_component(
        app_server_path::joined(home, GOAL_ATTACHMENT_DIR@),
        ids::hyphenated(id),
    );
}

proof fn lemma_joined_no_newline(path: Seq<char>, name: Seq<char>)
    requires
        forall|i: int| 0 <= i < path.len() ==> #[trigger] path[i] != '\n',
        forall|i: int| 0 <= i < name.len() ==> #[trigger] name[i] != '\n',
    ensures
        forall|i: int|
            0 <= i < app_server_path::joined(path, name).len()
                ==> #[trigger] app_server_path::joined(path, name)[i] != '\n',
{
}

/// The reference to the objective file of a goal leads back to that file.
pub proof fn law_reference_leads_back(home: Seq<char>, id: u128)
    requires
        is_referable_home(home),
    ensures
        objective_file(reference_text(goal_file(attachment_dir(home, id))), Some(home)) == Some(
            goal_file(attachment_dir(home, id)),
        ),
{
    let dir = attachment_dir(home, id);
    let path = goal_file(dir);
    let text = reference_text(path);
    let prefix = GOAL_FILE_PREFIX@;
    let instruction = GOAL_FILE_INSTRUCTION@;
    reveal_strlit("attachments");
    reveal_strlit("goal-objective.md");
    reveal_strlit("Codex goal objective file: ");
    reveal_strlit("Read that Codex-created file before continuing.");
    reveal_strlit("\n");
    reveal_strlit(".");
    reveal_strlit("..");
    lemma_hyphenated_plain(id);
    lemma_attachment_dir(home, id);
    ids::law_hyphenated_is_uuid(id);
    assert(app_server_path::is_plain_name(GOAL_FILE_NAME@));
    app_server_path::law_join_adds_component(dir, GOAL_FILE_NAME@);
    let home_parts = app_server_path::components(home);
    let parts = app_server_path::components(path);
    assert(parts =~= home_parts.push(GOAL_ATTACHMENT_DIR@).push(ids::hyphenated(id)).push(
        GOAL_FILE_NAME@,
    ));

    // The path holds no line feed, so the first line is the prefix and the path.
    lemma_joined_no_newline(home, GOAL_ATTACHMENT_DIR@);
    lemma_joined_no_newline(
        app_server_path::joined(home, GOAL_ATTACHMENT_DIR@),
        ids::hyphenated(id),
    );
    lemma_joined_no_newline(dir, GOAL_FILE_NAME@);
    let end = (prefix + path).len() as int;
    assert(text[end] == '\n');
    assert forall|i: int| 0 <= i < end implies #[trigger] text[i] != '\n' by {
        if i < prefix.len() {
            assert(text[i] == prefix[i]);
        } else {
            assert(text[i] == path[i - prefix.len()]);
        }
    }
    lemma_line_end(text, end);
    assert(text.take(end) =~= prefix + path);
    assert(path.last() == GOAL_FILE_NAME@.last());
    assert((prefix + path).last() == path.last());
    assert(first_line(text) == prefix + path);
    assert(first_line(text).take(prefix.len() as int) =~= prefix);
    assert(first_line(text).skip(prefix.len() as int) =~= path);

    // The path starts and ends with something other than white space.
    assert(path[0] == home[0]);
    assert(!text::is_white(path[0]));
    assert(!text::is_white(path.last()));
    text::lemma_trimmed_same(path);

    let rest = after_first_line(text);
    assert(rest =~= instruction);
    lemma_line_end(rest, rest.len() as int);
    assert(rest.take(rest.len() as int) =~= rest);
    assert(first_line(rest) == instruction);

    assert(!has_normalization(parts)) by {
        assert forall|i: int| 0 <= i < parts.len() implies !is_normalization(
            #[trigger] parts[i],
        ) by {
            if i < home_parts.len() {
                assert(parts[i] == home_parts[i]);
            }
        }
    }
    assert(parts.take(home_parts.len() as int) =~= home_parts);
}

/// A line goes up to its line feed, without a carriage return right before that; what
/// follows the line feed is the rest. Without a line feed the line is all there is.
pub proof fn law_first_line(line: Seq<char>, rest: Seq<char>)
    requires
        forall|i: int| 0 <= i < line.len() ==> #[trigger] line[i] != '\n',
    ensures
        first_line(line) == line,
        after_first_line(line) == Seq::<char>::empty(),
        after_first_line(line.push('\n') + rest) == rest,
        first_line(line.push('\r').push('\n') + rest) == line,
        after_first_line(line.push('\r').push('\n') + rest) == rest,
        line.len() == 0 || line.last() != '\r' ==> first_line(line.push('\n') + rest) == line,
{
    lemma_line_end(line, line.len() as int);
    assert(line.take(line.len() as int) =~= line);
    let feed = line.push('\n') + rest;
    assert forall|i: int| 0 <= i < line.len() implies #[trigger] feed[i] != '\n' by {
        assert(feed[i] == line[i]);
    }
    assert(feed[line.len() as int] == '\n');
    lemma_line_end(feed, line.len() as int);
    assert(feed.take(line.len() as int) =~= line);
    assert(feed.skip(line.len() as int + 1) =~= rest);
    let both = line.push('\r').push('\n') + rest;
    let end = line.len() as int + 1;
    assert forall|i: int| 0 <= i < end implies #[trigger] both[i] != '\n' by {
        if i < line.len() {
            assert(both[i] == line[i]);
        }
    }
    assert(both[end] == '\n');
    lemma_line_end(both, end);
    assert(both.take(end) =~= line.push('\r'));
    assert(line.push('\r').drop_last() =~= line);
    assert(both.skip(end + 1) =~= rest);
}

/// Reading a reference: the first line is the prefix and a path, with any white space
/// around the path, the second is the instruction, and more lines may follow. The path is
/// found exactly where it is absolute and its last three components are `attachments`, a
/// UUID and `goal-objective.md`.
pub proof fn law_reference_is_read(
    before: Seq<char>,
    path: Seq<char>,
    after: Seq<char>,
    more: Seq<char>,
)
    requires
        forall|i: int|
            0 <= i < before.len() ==> text::is_white(#[trigger] before[i]) && before[i] != '\n',
        forall|i: int|
            0 <= i < after.len() ==> text::is_white(#[trigger] after[i]) && after[i] != '\n',
        forall|i: int| 0 <= i < path.len() ==> #[trigger] path[i] != '\n',
        path.len() > 0,
        !text::is_white(path[0]),
        !text::is_white(path.last()),
        more.len() == 0 || more[0] == '\n',
    ensures
        ({
            let objective = ("Codex goal objective file: "@ + (before + path + after)).push('\n')
                + ("Read that Codex-created file before continuing."@ + more);
            let parts = app_server_path::components(path);
            let n = parts.len() as int;
            referenced_file(objective) == if app_server_path::is_absolute(path) && n >= 3
                && parts[n - 3] == "attachments"@ && ids::is_uuid_text(parts[n - 2]) && parts[n - 1]
                == "goal-objective.md"@ {
                Some(path)
            } else {
                None
            }
        }),
{
    let prefix = "Codex goal objective file: "@;
    let instruction = "Read that Codex-created file before continuing."@;
    let middle = before + path + after;
    let line = prefix + middle;
    let rest = instruction + more;
    let objective = line.push('\n') + rest;
    reveal_strlit("Codex goal objective file: ");
    reveal_strlit("Read that Codex-created file before continuing.");
    assert forall|i: int| 0 <= i < line.len() implies #[trigger] line[i] != '\n' by {
        if i >= prefix.len() {
            let j = i - prefix.len();
            assert(line[i] == middle[j]);
            if j < before.len() {
                assert(middle[j] == before[j]);
            } else if j < before.len() + path.len() {
                assert(middle[j] == path[j - before.len()]);
            } else {
                assert(middle[j] == after[j - before.len() - path.len()]);
            }
        } else {
            assert(line[i] == prefix[i]);
        }
    }
    law_first_line(line, rest);
    lemma_path_between(before, path, after);
    if after.len() > 0 && after.last() == '\r' {
        let shorter = after.drop_last();
        let short_line = prefix + (before + path + shorter);
        assert(line =~= short_line.push('\r'));
        assert forall|i: int| 0 <= i < short_line.len() implies #[trigger] short_line[i] != '\n' by {
            assert(line[i] == short_line[i]);
        }
        law_first_line(short_line, rest);
        assert forall|i: int| 0 <= i < shorter.len() implies text::is_white(
            #[trigger] shorter[i],
        ) by {
            assert(shorter[i] == after[i]);
        }
        lemma_path_between(before, path, shorter);
        assert(first_line(objective) == short_line);
        assert(short_line.take(prefix.len() as int) =~= prefix);
        assert(short_line.skip(prefix.len() as int) =~= before + path + shorter);
    } else {
        if after.len() == 0 {
            assert(line.last() == path.last());
            assert(text::is_white('\r'));
        } else {
            assert(line.last() == after.last());
        }
        assert(first_line(objective) == line);
        assert(line.take(prefix.len() as int) =~= prefix);
        assert(line.skip(prefix.len() as int) =~= middle);
    }
    assert(path_text(objective) == path);
    assert(after_first_line(objective) == rest);
    assert forall|i: int| 0 <= i < instruction.len() implies #[trigger] instruction[i] != '\n' by {}
    if more.len() == 0 {
        assert(rest =~= instruction);
        law_first_line(instruction, more);
    } else {
        assert(rest =~= instruction.push('\n') + more.skip(1));
        law_first_line(instruction, more.skip(1));
    }
    assert(first_line(rest) == instruction);
}

proof fn lemma_path_between(before: Seq<char>, path: Seq<char>, after: Seq<char>)
    requires
        forall|i: int| 0 <= i < before.len() ==> text::is_white(#[trigger] before[i]),
        forall|i: int| 0 <= i < after.len() ==> text::is_white(#[trigger] after[i]),
        path.len() > 0,
        !text::is_white(path[0]),
        !text::is_white(path.last()),
    ensures
        text::trimmed(before + path + after) == path,
{
    text::law_trimmed(before, path, after);
}

/// What is no reference: a text that does not start with the prefix, one of a single line,
/// and one whose second line is not the instruction.
pub proof fn law_not_a_reference(line: Seq<char>, rest: Seq<char>)
    requires
        forall|i: int| 0 <= i < line.len() ==> #[trigger] line[i] != '\n',
    ensures
        referenced_file(line) is None,
        !"Codex goal objective file: "@.is_prefix_of(line) ==> referenced_file(
            line.push('\n') + rest,
        ) is None,
        first_line(rest) != "Read that Codex-created file before continuing."@
            ==> referenced_file(line.push('\n') + rest) is None,
{
    law_first_line(line, rest);
    let objective = line.push('\n') + rest;
    let prefix = "Codex goal objective file: "@;
    reveal_strlit("Codex goal objective file: ");
    if text::has_prefix(first_line(objective), prefix) {
        assert forall|i: int| 0 <= i < prefix.len() implies #[trigger] prefix[i] == line[i] by {
            assert(first_line(objective).take(prefix.len() as int)[i] == prefix[i]);
            lemma_first_line_within(line, rest);
        }
        lemma_first_line_within(line, rest);
        assert(prefix =~= line.take(prefix.len() as int));
    }
}

proof fn lemma_first_line_within(line: Seq<char>, rest: Seq<char>)
    requires
        forall|i: int| 0 <= i < line.len() ==> #[trigger] line[i] != '\n',
    ensures
        first_line(line.push('\n') + rest).is_prefix_of(line),
{
    let feed = line.push('\n') + rest;
    assert forall|i: int| 0 <= i < line.len() implies #[trigger] feed[i] != '\n' by {
        assert(feed[i] == line[i]);
    }
    assert(feed[line.len() as int] == '\n');
    lemma_line_end(feed, line.len() as int);
    assert(feed.take(line.len() as int) =~= line);
}

/// An objective leads to a file exactly where it refers to one, there is a home
/// directory with a component, neither path has a `.` or `..` component, and the
/// components of the home directory are the first of the file's.
pub proof fn law_file_is_below_home(objective: Seq<char>, home: Seq<char>, path: Seq<char>)
    ensures
        objective_file(objective, None) is None,
        objective_file(objective, Some(home)) == Some(path) <==> {
            let parts = app_server_path::components(path);
            let home_parts = app_server_path::components(home);
            &&& referenced_file(objective) == Some(path)
            &&& home_parts.len() > 0
            &&& home_parts.is_prefix_of(parts)
            &&& !parts.contains("."@) && !parts.contains(".."@)
            &&& !home_parts.contains("."@) && !home_parts.contains(".."@)
        },
        objective_file(objective, Some(home)) matches Some(found) ==> referenced_file(objective)
            == Some(found),
{
    let parts = app_server_path::components(path);
    let home_parts = app_server_path::components(home);
    lemma_normalization(parts);
    lemma_normalization(home_parts);
}

proof fn lemma_normalization(parts: Seq<Seq<char>>)
    ensures
        has_normalization(parts) <==> parts.contains("."@) || parts.contains(".."@),
{
    if has_normalization(parts) {
        let i = choose|i: int| 0 <= i < parts.len() && is_normalization(#[trigger] parts[i]);
        assert(parts.contains(parts[i]));
    }
    if parts.contains("."@) {
        let i = parts.index_of("."@);
        assert(is_normalization(parts[i]));
    }
    if parts.contains(".."@) {
        let i = parts.index_of(".."@);
        assert(is_normalization(parts[i]));
    }
}

} // verus!
