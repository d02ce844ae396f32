//! `skills.read`: bounded pages over one resource of a remote skill.
use crate::decimal;
use crate::json;
use crate::skills::catalog;
use crate::skills::catalog::{
    AuthorityView, CallErrorView, EntryView, FunctionCallError, SkillAuthority,
    SkillAuthorityHandle, SkillCatalog, SkillPackageId, SkillReadResult, SkillResourceId,
    ToolLimits,
};
use crate::skills::list;
use crate::text;
use vstd::prelude::*;
use vstd::utf8::*;

verus! {

pub const TOOL_NAME: &'static str = "read";

/// What the model passes to the tool.
#[derive(Clone, Debug, PartialEq, Eq)]
pub struct ReadArgs {
    pub authority: SkillAuthorityHandle,
    pub package: String,
    pub resource: String,
    pub cursor: Option<String>,
}

/// One page of a resource.
#[derive(Debug, PartialEq, Eq)]
pub struct ReadResponse {
    pub resource: String,
    pub contents: String,
    pub next_cursor: Option<String>,
    pub truncated: bool,
}

/// The mathematical value of a page.
pub struct ReadView {
    pub resource: Seq<char>,
    pub contents: Seq<char>,
    pub next_cursor: Option<Seq<char>>,
    pub truncated: bool,
}

impl View for ReadResponse {
    type V = ReadView;

    open spec fn view(&self) -> ReadView {
        ReadView {
            resource: self.resource@,
            contents: self.contents@,
            next_cursor: list::option_text(self.next_cursor),
            truncated: self.truncated,
        }
    }
}

/// The JSON text of a page.
pub open spec fn read_json(page: ReadView) -> Seq<char> {
    "{\"resource\":"@ + json::string_json(page.resource) + ",\"contents\":"@ + json::string_json(
        page.contents,
    ) + ",\"next_cursor\":"@ + json::option_json(page.next_cursor) + ",\"truncated\":"@
        + json::bool_json(page.truncated) + "}"@
}

/// The number of bytes in the JSON text of a page.
pub open spec fn read_bytes(page: ReadView) -> nat {
    text::utf8_len(read_json(page))
}

impl ReadResponse {
    /// The JSON text that the tool sends.
    pub fn to_json(&self) -> (res: String)
        ensures
            res@ == read_json(self@),
    {
        let mut out = "{\"resource\":".to_owned();
        json::push_string(&mut out, self.resource.as_str());
        out.append(",\"contents\":");
        json::push_string(&mut out, self.contents.as_str());
        out.append(",\"next_cursor\":");
        json::push_option(&mut out, &self.next_cursor);
        out.append(",\"truncated\":");
        json::push_bool(&mut out, self.truncated);
        out.append("}");
        assert(out@ =~= read_json(self@));
        out
    }
}

/// A page without contents, with the longest cursor there can be.
pub open spec fn empty_page(resource: Seq<char>) -> ReadView {
    ReadView {
        resource,
        contents: Seq::empty(),
        next_cursor: Some(decimal::decimal(usize::MAX as nat)),
        truncated: false,
    }
}

/// The bytes of a page that are not its contents, at most.
pub open spec fn overhead(resource: Seq<char>) -> nat {
    read_bytes(empty_page(resource))
}

/// The bytes that the escaped contents of a page may take.
pub open spec fn content_budget(resource: Seq<char>, output_bytes: usize) -> int {
    if overhead(resource) <= output_bytes {
        output_bytes - overhead(resource)
    } else {
        0
    }
}

/// How many characters a page takes from the text that is left.
pub open spec fn page_chars(rest: Seq<char>, budget: int) -> int {
    text::fitting(rest, json::escape_measure(), budget)
}

/// The page of `contents` at byte offset `cursor`.
pub open spec fn read_page(
    resource: Seq<char>,
    contents: Seq<char>,
    cursor: int,
    output_bytes: usize,
) -> ReadView {
    let start = text::char_index(contents, cursor);
    let rest = contents.skip(start);
    let k = page_chars(rest, content_budget(resource, output_bytes));
    let end = cursor + text::utf8_len(rest.take(k));
    ReadView {
        resource,
        contents: rest.take(k),
        next_cursor: if k < rest.len() {
            Some(decimal::decimal(end as nat))
        } else {
            None
        },
        truncated: k < rest.len(),
    }
}

/// The page of a resource's contents at a byte offset: as many characters as
/// fit into the output limit once they are escaped.
pub fn bounded_response(result: SkillReadResult, cursor: usize, limits: &ToolLimits) -> (res:
    Result<ReadResponse, FunctionCallError>)
    ensures
        res is Ok <==> text::is_boundary(result.contents@, cursor as int),
        res matches Ok(page) ==> page@ == read_page(
            result.resource@,
            result.contents@,
            cursor as int,
            limits.output_bytes,
        ) && text::fits_most(
            result.contents@.skip(text::char_index(result.contents@, cursor as int)),
            json::escape_measure(),
            content_budget(result.resource@, limits.output_bytes),
            page@.contents.len() as int,
        ),
        res matches Err(e) ==> e@ == CallErrorView::RespondToModel(
            "skills.read cursor is out of range"@,
        ),
{
    let resource = result.resource.as_str().to_owned();
    let chars = text::chars_of(result.contents.as_str());
    let start = match text::char_index_at(&chars, cursor) {
        Some(start) => start,
        None => {
            return Err(
                FunctionCallError::RespondToModel("skills.read cursor is out of range".to_owned()),
            );
        },
    };
    let empty_response = ReadResponse {
        resource: resource.clone(),
        contents: String::new(),
        next_cursor: Some(decimal::decimal_text(usize::MAX)),
        truncated: false,
    };
    assert(empty_response@ == empty_page(resource@));
    let overhead_bytes = text::byte_len(empty_response.to_json().as_str());
    let budget: usize = limits.output_bytes.saturating_sub(overhead_bytes);
    assert(budget == content_budget(resource@, limits.output_bytes));

    let all_bytes = text::byte_len(result.contents.as_str());
    let ghost contents = result.contents@;
    let ghost rest = contents.skip(start as int);
    let mut escaped_bytes: usize = 0;
    let mut end: usize = cursor;
    let mut at: usize = start;
    assert(rest.take(0) =~= Seq::<char>::empty());
    assert(contents.take(start as int) + rest.take(0) =~= contents.take(start as int));
    while at < chars.len() && json::json_escaped_len(chars[at]) <= budget - escaped_bytes
        invariant
            chars@ == contents,
            rest == contents.skip(start as int),
            start <= at <= chars@.len(),
            all_bytes == text::utf8_len(contents),
            escaped_bytes == text::total(rest.take(at - start), json::escape_measure()),
            escaped_bytes <= budget,
            cursor == text::utf8_len(contents.take(start as int)),
            end == text::utf8_len(contents.take(at as int)),
            end == cursor + text::utf8_len(rest.take(at - start)),
        decreases chars@.len() - at,
    {
        proof {
            text::lemma_total_step(rest, json::escape_measure(), at - start);
            text::lemma_total_step(rest, text::width_measure(), at - start);
            text::lemma_total_step(contents, text::width_measure(), at as int);
            text::lemma_total_monotone(
                contents,
                text::width_measure(),
                at + 1,
                contents.len() as int,
            );
            assert(contents.take(contents.len() as int) =~= contents);
        }
        escaped_bytes = escaped_bytes + json::json_escaped_len(chars[at]);
        end = end + text::char_byte_len(chars[at]);
        at = at + 1;
    }
    proof {
        if at < chars@.len() {
            text::lemma_total_step(rest, json::escape_measure(), at - start);
        }
        text::lemma_fitting_unique(rest, json::escape_measure(), budget as int, at - start);
        assert(contents.subrange(start as int, at as int) =~= rest.take(at - start));
    }
    let truncated = at < chars.len();
    let contents_page = result.contents.as_str().substring_char(start, at).to_owned();
    let next_cursor = if truncated {
        Some(decimal::decimal_text(end))
    } else {
        None
    };
    Ok(ReadResponse { resource, contents: contents_page, next_cursor, truncated })
}

/// A read that passed the checks on its arguments.
#[derive(Debug, PartialEq, Eq)]
pub struct CheckedRead {
    pub authority: SkillAuthority,
    pub package: SkillPackageId,
    pub resource: SkillResourceId,
    pub cursor: usize,
}

/// What a provider reports when it cannot read.
#[derive(Clone, Debug, PartialEq, Eq)]
pub struct SkillProviderError {
    pub message: String,
}

/// The `skills.read` tool.
#[derive(Clone, Copy, Debug)]
pub struct ReadTool {
    pub limits: ToolLimits,
}

/// Why the arguments of a read are refused: the first of an unknown authority,
/// a package or a resource beyond the limit, and a cursor that is no number.
pub open spec fn args_refused(args: ReadArgs, limits: ToolLimits) -> Option<CallErrorView> {
    if catalog::authority_of(args.authority@) is None {
        Some(CallErrorView::RespondToModel("unknown skill authority"@))
    } else if !catalog::within(args.package@, limits.handle_bytes) {
        Some(
            CallErrorView::RespondToModel(
                catalog::too_long_message("package"@, limits.handle_bytes),
            ),
        )
    } else if !catalog::within(args.resource@, limits.handle_bytes) {
        Some(
            CallErrorView::RespondToModel(
                catalog::too_long_message("resource"@, limits.handle_bytes),
            ),
        )
    } else if list::cursor_offset(list::option_text(args.cursor)) is None {
        Some(CallErrorView::RespondToModel("invalid skills.read cursor"@))
    } else {
        None
    }
}

/// Whether a catalog offers a package under an authority.
pub open spec fn is_offered(
    entries: Seq<EntryView>,
    authority: AuthorityView,
    package: Seq<char>,
) -> bool {
    exists|i: int|
        0 <= i < entries.len() && (#[trigger] entries[i]).enabled && entries[i].authority
            == authority && entries[i].id == package
}

impl ReadTool {
    /// Checks the arguments of a call.
    pub fn check(&self, args: ReadArgs) -> (res: Result<CheckedRead, FunctionCallError>)
        ensures
            res is Ok <==> args_refused(args, self.limits) is None,
            res matches Err(e) ==> args_refused(args, self.limits) == Some(e@),
            res matches Ok(read) ==> {
                &&& catalog::authority_of(args.authority@) == Some(read.authority@)
                &&& read.package@ == args.package@
                &&& read.resource@ == args.resource@
                &&& list::cursor_offset(list::option_text(args.cursor)) == Some(
                    read.cursor as nat,
                )
            },
    {
        let authority = match args.authority.into_authority() {
            Ok(authority) => authority,
            Err(err) => {
                return Err(err);
            },
        };
        match catalog::validate_handle("package", args.package.as_str(), self.limits.handle_bytes) {
            Ok(()) => {},
            Err(err) => {
                return Err(err);
            },
        }
        match catalog::validate_handle(
            "resource",
            args.resource.as_str(),
            self.limits.handle_bytes,
        ) {
            Ok(()) => {},
            Err(err) => {
                return Err(err);
            },
        }
        match list::parse_cursor(&args.cursor) {
            Some(cursor) => Ok(
                CheckedRead {
                    authority,
                    package: SkillPackageId(args.package),
                    resource: SkillResourceId::new(args.resource),
                    cursor,
                },
            ),
            None => Err(FunctionCallError::RespondToModel("invalid skills.read cursor".to_owned())),
        }
    }

    /// Refuses a read of a package that the catalog does not offer under the
    /// requested authority.
    pub fn authorize(&self, read: &CheckedRead, catalog: &SkillCatalog) -> (res: Result<
        (),
        FunctionCallError,
    >)
        ensures
            res is Ok <==> is_offered(
                catalog::entry_views(catalog.entries@),
                read.authority@,
                read.package@,
            ),
            res matches Err(e) ==> e@ == CallErrorView::RespondToModel(
                "skill package is not available from the requested authority"@,
            ),
    {
        let ghost views = catalog::entry_views(catalog.entries@);
        let mut i: usize = 0;
        while i < catalog.entries.len()
            invariant
                views == catalog::entry_views(catalog.entries@),
                i <= catalog.entries@.len(),
                forall|j: int|
                    0 <= j < i ==> !((#[trigger] views[j]).enabled && views[j].authority
                        == read.authority@ && views[j].id == read.package@),
            decreases catalog.entries@.len() - i,
        {
            let entry = &catalog.entries[i];
            assert(views[i as int] == entry@);
            if entry.enabled && entry.authority.kind == read.authority.kind && text::same_text(
                entry.authority.id.as_str(),
                read.authority.id.as_str(),
            ) && text::same_text(entry.id.0.as_str(), read.package.0.as_str()) {
                return Ok(());
            }
            i = i + 1;
        }
        Err(
            FunctionCallError::RespondToModel(
                "skill package is not available from the requested authority".to_owned(),
            ),
        )
    }

    /// Turns a provider's answer into a page.
    pub fn finish(
        &self,
        read: &CheckedRead,
        answer: Result<SkillReadResult, SkillProviderError>,
    ) -> (res: Result<ReadResponse, FunctionCallError>)
        ensures
            match answer {
                Err(failure) => res matches Err(e) && e@ == CallErrorView::RespondToModel(
                    failure.message@,
                ),
                Ok(result) => if result.resource@ != read.resource@ {
                    res matches Err(e) && e@ == CallErrorView::Fatal(
                        "skill provider returned a different resource"@,
                    )
                } else if text::is_boundary(result.contents@, read.cursor as int) {
                    res matches Ok(page) && page@ == read_page(
                        read.resource@,
                        result.contents@,
                        read.cursor as int,
                        self.limits.output_bytes,
                    )
                } else {
                    res matches Err(e) && e@ == CallErrorView::RespondToModel(
                        "skills.read cursor is out of range"@,
                    )
                },
            },
    {
        match answer {
            Err(failure) => Err(FunctionCallError::RespondToModel(failure.message)),
            Ok(result) => {
                if !text::same_text(result.resource.as_str(), read.resource.as_str()) {
                    return Err(
                        FunctionCallError::Fatal(
                            "skill provider returned a different resource".to_owned(),
                        ),
                    );
                }
                bounded_response(result, read.cursor, &self.limits)
            },
        }
    }
}

/// The bytes of a page are those of its parts.
proof fn lemma_read_bytes(page: ReadView)
    ensures
        read_bytes(page) == read_bytes(
            ReadView { contents: Seq::empty(), next_cursor: None, truncated: true, ..page },
        ) + text::total(page.contents, json::escape_measure()) + text::utf8_len(
            json::option_json(page.next_cursor),
        ) + text::utf8_len(json::bool_json(page.truncated)) - text::utf8_len("null"@)
            - text::utf8_len("true"@),
{
    let bare = ReadView { contents: Seq::empty(), next_cursor: None, truncated: true, ..page };
    lemma_read_bytes_sum(page);
    lemma_read_bytes_sum(bare);
    json::lemma_string_json_bytes(page.contents);
    json::lemma_string_json_bytes(bare.contents);
}

proof fn lemma_read_bytes_sum(page: ReadView)
    ensures
        read_bytes(page) == text::utf8_len("{\"resource\":"@) + text::utf8_len(
            json::string_json(page.resource),
        ) + text::utf8_len(",\"contents\":"@) + text::utf8_len(json::string_json(page.contents))
            + text::utf8_len(",\"next_cursor\":"@) + text::utf8_len(
            json::option_json(page.next_cursor),
        ) + text::utf8_len(",\"truncated\":"@) + text::utf8_len(json::bool_json(page.truncated))
            + text::utf8_len("}"@),
{
    let w = text::width_measure();
    let s1 = "{\"resource\":"@;
    let s2 = s1 + json::string_json(page.resource);
    let s3 = s2 + ",\"contents\":"@;
    let s4 = s3 + json::string_json(page.contents);
    let s5 = s4 + ",\"next_cursor\":"@;
    let s6 = s5 + json::option_json(page.next_cursor);
    let s7 = s6 + ",\"truncated\":"@;
    let s8 = s7 + json::bool_json(page.truncated);
    text::lemma_total_add(s1, json::string_json(page.resource), w);
    text::lemma_total_add(s2, ",\"contents\":"@, w);
    text::lemma_total_add(s3, json::string_json(page.contents), w);
    text::lemma_total_add(s4, ",\"next_cursor\":"@, w);
    text::lemma_total_add(s5, json::option_json(page.next_cursor), w);
    text::lemma_total_add(s6, ",\"truncated\":"@, w);
    text::lemma_total_add(s7, json::bool_json(page.truncated), w);
    text::lemma_total_add(s8, "}"@, w);
}

proof fn lemma_ascii_bytes(s: Seq<char>)
    requires
        forall|i: int| 0 <= i < s.len() ==> (#[trigger] s[i] as u32) < 0x80,
    ensures
        text::utf8_len(s) == s.len(),
    decreases s.len(),
{
    if s.len() > 0 {
        lemma_ascii_bytes(s.drop_last());
    }
}

proof fn lemma_digits_json_bytes(n: nat)
    ensures
        text::utf8_len(json::string_json(decimal::decimal(n))) == decimal::decimal(n).len() + 2,
{
    let d = decimal::decimal(n);
    decimal::lemma_decimal_digits(n);
    json::lemma_string_json_bytes(d);
    lemma_digits_escape(d);
}

proof fn lemma_digits_escape(d: Seq<char>)
    requires
        decimal::all_digits(d),
    ensures
        text::total(d, json::escape_measure()) == d.len(),
    decreases d.len(),
{
    if d.len() > 0 {
        assert(decimal::is_digit(d.last()));
        json::lemma_escaped_width(d.last());
        assert forall|i: int| 0 <= i < d.drop_last().len() implies decimal::is_digit(
            #[trigger] d.drop_last()[i],
        ) by {
            assert(decimal::is_digit(d[i]));
        }
        lemma_digits_escape(d.drop_last());
    }
}

/// A page stays within the output limit, wherever the limit leaves room for a
/// page at all.
pub proof fn law_read_within_limit(
    resource: Seq<char>,
    contents: Seq<char>,
    cursor: int,
    output_bytes: usize,
)
    requires
        text::is_boundary(contents, cursor),
        text::utf8_len(contents) <= usize::MAX,
        overhead(resource) <= output_bytes,
    ensures
        read_bytes(read_page(resource, contents, cursor, output_bytes)) <= output_bytes,
{
    let page = read_page(resource, contents, cursor, output_bytes);
    let start = text::char_index(contents, cursor);
    let rest = contents.skip(start);
    let budget = content_budget(resource, output_bytes);
    let k = page_chars(rest, budget);
    text::lemma_fitting_exists(rest, json::escape_measure(), budget);
    let empty = empty_page(resource);
    lemma_read_bytes(page);
    lemma_read_bytes(empty);
    reveal_strlit("null");
    reveal_strlit("true");
    reveal_strlit("false");
    lemma_ascii_bytes("null"@);
    lemma_ascii_bytes("true"@);
    lemma_ascii_bytes("false"@);
    lemma_digits_json_bytes(usize::MAX as nat);
    decimal::lemma_decimal_len_monotone(10, usize::MAX as nat);
    decimal::lemma_decimal_digits(1);
    if k < rest.len() {
        let end = cursor + text::utf8_len(rest.take(k));
        lemma_page_end(contents, cursor, k);
        lemma_digits_json_bytes(end as nat);
        decimal::lemma_decimal_len_monotone(end as nat, usize::MAX as nat);
    }
}

/// A page ends on a character boundary.
proof fn lemma_page_end(contents: Seq<char>, cursor: int, k: int)
    requires
        text::is_boundary(contents, cursor),
        0 <= k <= contents.len() - text::char_index(contents, cursor),
    ensures
        ({
            let start = text::char_index(contents, cursor);
            let end = cursor + text::utf8_len(contents.skip(start).take(k));
            &&& text::starts_at(contents, end as int, start + k)
            &&& end <= text::utf8_len(contents)
        }),
{
    let start = text::char_index(contents, cursor);
    let w = text::width_measure();
    assert(contents.take(start + k) =~= contents.take(start) + contents.skip(start).take(k));
    text::lemma_total_add(contents.take(start), contents.skip(start).take(k), w);
    text::lemma_total_monotone(contents, w, start + k, contents.len() as int);
    assert(contents.take(contents.len() as int) =~= contents);
}

/// A cursor that a page hands out is accepted, and names the place where the
/// page ended. With room for at least one escaped character it lies past the
/// page's own cursor.
pub proof fn law_read_cursor_advances(
    resource: Seq<char>,
    contents: Seq<char>,
    cursor: int,
    output_bytes: usize,
)
    requires
        text::is_boundary(contents, cursor),
        text::utf8_len(contents) <= usize::MAX,
        read_page(resource, contents, cursor, output_bytes).next_cursor is Some,
    ensures
        ({
            let page = read_page(resource, contents, cursor, output_bytes);
            let end = cursor + text::utf8_len(page.contents);
            &&& list::cursor_offset(page.next_cursor) == Some(end as nat)
            &&& text::is_boundary(contents, end)
            &&& content_budget(resource, output_bytes) >= 6 ==> end > cursor
        }),
{
    let page = read_page(resource, contents, cursor, output_bytes);
    let start = text::char_index(contents, cursor);
    let rest = contents.skip(start);
    let budget = content_budget(resource, output_bytes);
    let k = page_chars(rest, budget);
    text::lemma_fitting_exists(rest, json::escape_measure(), budget);
    let end = cursor + text::utf8_len(rest.take(k));
    lemma_page_end(contents, cursor, k);
    decimal::law_decimal_round_trip(end as nat);
    if budget >= 6 {
        lemma_page_progress(rest, budget);
    }
}

proof fn lemma_page_progress(rest: Seq<char>, budget: int)
    requires
        budget >= 6,
        rest.len() > 0,
    ensures
        page_chars(rest, budget) >= 1,
        text::utf8_len(rest.take(page_chars(rest, budget))) >= 1,
{
    let k = page_chars(rest, budget);
    text::lemma_fitting_exists(rest, json::escape_measure(), budget);
    assert(rest.take(0) =~= Seq::<char>::empty());
    text::lemma_total_step(rest, json::escape_measure(), 0);
    json::lemma_escaped_width(rest[0]);
    if k == 0 {
        assert(false);
    }
    text::lemma_total_step(rest, text::width_measure(), 0);
    text::lemma_total_monotone(rest, text::width_measure(), 1, k);
}

/// The contents seen by following the cursors from `cursor` to the end.
pub open spec fn read_walk(
    resource: Seq<char>,
    contents: Seq<char>,
    cursor: int,
    output_bytes: usize,
) -> Seq<char>
    decreases text::utf8_len(contents) - cursor,
{
    let page = read_page(resource, contents, cursor, output_bytes);
    let end = cursor + text::utf8_len(page.contents);
    if page.next_cursor is Some && cursor < end <= text::utf8_len(contents) {
        page.contents + read_walk(resource, contents, end, output_bytes)
    } else {
        page.contents
    }
}

/// With room for at least one escaped character per page, following the cursors
/// from the start of a resource gives the whole of its contents.
pub proof fn law_read_walk_complete(
    resource: Seq<char>,
    contents: Seq<char>,
    cursor: int,
    output_bytes: usize,
)
    requires
        text::is_boundary(contents, cursor),
        text::utf8_len(contents) <= usize::MAX,
        content_budget(resource, output_bytes) >= 6,
    ensures
        read_walk(resource, contents, cursor, output_bytes) == contents.skip(
            text::char_index(contents, cursor),
        ),
        cursor == 0 ==> read_walk(resource, contents, cursor, output_bytes) == contents,
    decreases text::utf8_len(contents) - cursor,
{
    let page = read_page(resource, contents, cursor, output_bytes);
    let start = text::char_index(contents, cursor);
    let rest = contents.skip(start);
    let budget = content_budget(resource, output_bytes);
    let k = page_chars(rest, budget);
    text::lemma_fitting_exists(rest, json::escape_measure(), budget);
    let end = cursor + text::utf8_len(rest.take(k));
    lemma_page_end(contents, cursor, k);
    if k < rest.len() {
        lemma_page_progress(rest, budget);
        law_read_walk_complete(resource, contents, end, output_bytes);
        text::lemma_char_index_unique(
            contents,
            end,
            start + k,
            text::char_index(contents, end),
        );
        assert(rest.take(k) + contents.skip(start + k) =~= rest);
    } else {
        assert(rest.take(k) =~= rest);
    }
    if cursor == 0 {
        assert(contents.take(0) =~= Seq::<char>::empty());
        assert(text::starts_at(contents, 0, 0));
        text::lemma_char_index_unique(contents, 0, start, 0);
        assert(contents.skip(0) =~= contents);
    }
}

proof fn lemma_listing_source(entries: Seq<EntryView>, limits: ToolLimits, j: int) -> (i: int)
    requires
        0 <= j < list::listing(entries, limits).len(),
    ensures
        0 <= i < entries.len(),
        entries[i].enabled,
        list::listed(entries[i], limits) == Some(list::listing(entries, limits)[j]),
    decreases entries.len(),
{
    let before = entries.drop_last();
    if j < list::listing(before, limits).len() {
        lemma_listing_source(before, limits, j)
    } else {
        entries.len() - 1
    }
}

/// What the list tool shows is what the read tool takes: a call with the
/// authority, the package and the main resource of a listed skill is not refused
/// while the catalog stays as it is.
pub proof fn law_listed_skill_is_readable(
    entries: Seq<EntryView>,
    limits: ToolLimits,
    j: int,
    args: ReadArgs,
)
    requires
        0 <= j < list::page_source(entries, limits).len(),
        args.authority@ == list::page_source(entries, limits)[j].authority,
        args.package@ == list::page_source(entries, limits)[j].package,
        args.resource@ == list::page_source(entries, limits)[j].main_resource,
        list::cursor_offset(list::option_text(args.cursor)) is Some,
    ensures
        args_refused(args, limits) is None,
        is_offered(entries, catalog::authority_of(args.authority@).unwrap(), args.package@),
{
    let i = lemma_listing_source(entries, limits, j);
    catalog::law_handle_round_trip(entries[i].authority);
}

/// The bytes that a page with `contents` takes, with the longest cursor there can be.
pub open spec fn bytes_with(resource: Seq<char>, contents: Seq<char>) -> nat {
    encode_utf8(
        "{\"resource\":"@ + json::string_json(resource) + ",\"contents\":"@ + json::string_json(
            contents,
        ) + ",\"next_cursor\":"@ + json::string_json(decimal::decimal(usize::MAX as nat))
            + ",\"truncated\":"@ + "false"@ + "}"@,
    ).len()
}

proof fn lemma_bytes_with(resource: Seq<char>, contents: Seq<char>)
    ensures
        bytes_with(resource, contents) == overhead(resource) + text::total(
            contents,
            json::escape_measure(),
        ),
{
    let page = ReadView { contents, ..empty_page(resource) };
    text::lemma_utf8_len(read_json(page));
    lemma_read_bytes(page);
    lemma_read_bytes(empty_page(resource));
}

/// A page is as long as the output limit allows. Where the rest of the contents,
/// sent as one page with the longest cursor, stays within the limit, the page holds
/// all of it, hands out no cursor and is not truncated. Otherwise one more character
/// would take such a page over the limit, and the page hands out the byte offset at
/// which it ended.
pub proof fn law_page_is_as_long_as_allowed(
    resource: Seq<char>,
    contents: Seq<char>,
    start: int,
    output_bytes: usize,
)
    requires
        0 <= start <= contents.len(),
        bytes_with(resource, Seq::empty()) <= output_bytes,
    ensures
        ({
            let cursor = encode_utf8(contents.take(start)).len();
            let rest = contents.skip(start);
            let page = read_page(resource, contents, cursor as int, output_bytes);
            &&& page.resource == resource
            &&& page.contents.is_prefix_of(rest)
            &&& bytes_with(resource, page.contents) <= output_bytes
            &&& bytes_with(resource, rest) <= output_bytes ==> page.contents == rest
            &&& page.contents == rest ==> page.next_cursor is None && !page.truncated
            &&& page.contents != rest ==> {
                &&& bytes_with(resource, rest.take(page.contents.len() as int + 1))
                    > output_bytes
                &&& page.next_cursor == Some(
                    decimal::decimal(cursor + encode_utf8(page.contents).len()),
                )
                &&& page.truncated
            }
        }),
{
    let cursor = encode_utf8(contents.take(start)).len();
    let rest = contents.skip(start);
    let page = read_page(resource, contents, cursor as int, output_bytes);
    let budget = content_budget(resource, output_bytes);
    let k = page_chars(rest, budget);
    text::lemma_utf8_len(contents.take(start));
    assert(text::starts_at(contents, cursor as int, start));
    text::lemma_char_index_unique(
        contents,
        cursor as int,
        start,
        text::char_index(contents, cursor as int),
    );
    lemma_bytes_with(resource, Seq::empty());
    assert(text::total(Seq::empty(), json::escape_measure()) == 0);
    lemma_bytes_with(resource, rest);
    text::lemma_fitting_exists(rest, json::escape_measure(), budget);
    lemma_bytes_with(resource, rest.take(k));
    text::lemma_utf8_len(rest.take(k));
    assert(rest.take(rest.len() as int) =~= rest);
    if k < rest.len() {
        lemma_bytes_with(resource, rest.take(k + 1));
        text::lemma_total_monotone(rest, json::escape_measure(), k + 1, rest.len() as int);
        assert(page.contents.len() != rest.len());
    }
}

/// Where the output limit leaves no room for contents, a page is empty, and hands out
/// its own cursor again unless nothing is left.
pub proof fn law_page_without_room(
    resource: Seq<char>,
    contents: Seq<char>,
    start: int,
    output_bytes: usize,
)
    requires
        0 <= start <= contents.len(),
        bytes_with(resource, Seq::empty()) > output_bytes,
    ensures
        ({
            let cursor = encode_utf8(contents.take(start)).len();
            let page = read_page(resource, contents, cursor as int, output_bytes);
            &&& page.resource == resource
            &&& page.contents == Seq::<char>::empty()
            &&& page.truncated <==> start < contents.len()
            &&& page.next_cursor == if start < contents.len() {
                Some(decimal::decimal(cursor))
            } else {
                None
            }
        }),
{
    let cursor = encode_utf8(contents.take(start)).len();
    let rest = contents.skip(start);
    text::lemma_utf8_len(contents.take(start));
    assert(text::starts_at(contents, cursor as int, start));
    text::lemma_char_index_unique(
        contents,
        cursor as int,
        start,
        text::char_index(contents, cursor as int),
    );
    lemma_bytes_with(resource, Seq::empty());
    let k = page_chars(rest, 0);
    text::lemma_fitting_exists(rest, json::escape_measure(), 0);
    if k > 0 {
        assert(rest.take(0) =~= Seq::<char>::empty());
        text::lemma_total_step(rest, json::escape_measure(), 0);
        json::lemma_escaped_width(rest[0]);
        text::lemma_total_monotone(rest, json::escape_measure(), 1, k);
    }
    assert(rest.take(0) =~= Seq::<char>::empty());
}

/// The text that is sent for a page holds its resource, its contents, its cursor and
/// whether it is truncated, in this order.
pub proof fn law_read_text(page: ReadView)
    ensures
        read_json(page) == "{\"resource\":"@ + json::string_json(page.resource)
            + ",\"contents\":"@ + json::string_json(page.contents) + ",\"next_cursor\":"@ + (
        match page.next_cursor {
            Some(cursor) => json::string_json(cursor),
            None => "null"@,
        }) + ",\"truncated\":"@ + (if page.truncated {
            "true"@
        } else {
            "false"@
        }) + "}"@,
        read_bytes(page) == encode_utf8(read_json(page)).len(),
{
    text::lemma_utf8_len(read_json(page));
}

/// Which arguments of a read are refused, and with what: an authority that is not
/// remote; else a package longer than a handle may be; else such a resource; else a
/// cursor that is no number. All others are taken.
pub proof fn law_refused_arguments(args: ReadArgs, limits: ToolLimits)
    ensures
        ({
            let refused = args_refused(args, limits);
            let known = args.authority.kind@ == "remote"@;
            let package_fits = encode_utf8(args.package@).len() <= limits.handle_bytes;
            let resource_fits = encode_utf8(args.resource@).len() <= limits.handle_bytes;
            let cursor_is_number = match args.cursor {
                Some(cursor) => decimal::parsed(cursor@) matches Some(n) && n <= usize::MAX,
                None => true,
            };
            &&& refused is None <==> known && package_fits && resource_fits && cursor_is_number
            &&& !known ==> refused == Some(
                CallErrorView::RespondToModel("unknown skill authority"@),
            )
            &&& known && !package_fits ==> refused == Some(
                CallErrorView::RespondToModel(
                    catalog::too_long_message("package"@, limits.handle_bytes),
                ),
            )
            &&& known && package_fits && !resource_fits ==> refused == Some(
                CallErrorView::RespondToModel(
                    catalog::too_long_message("resource"@, limits.handle_bytes),
                ),
            )
            &&& known && package_fits && resource_fits && !cursor_is_number ==> refused == Some(
                CallErrorView::RespondToModel("invalid skills.read cursor"@),
            )
        }),
{
    text::lemma_utf8_len(args.package@);
    text::lemma_utf8_len(args.resource@);
}

/// A package is offered under an authority exactly where an enabled entry of the
/// catalog has both. Entries that are not enabled offer nothing.
pub proof fn law_offered_by_enabled_entries(
    entries: Seq<EntryView>,
    authority: AuthorityView,
    package: Seq<char>,
)
    ensures
        is_offered(entries, authority, package) <==> entries.filter(
            |entry: EntryView|
                entry.enabled && entry.authority == authority && entry.id == package,
        ).len() > 0,
{
    let offers = |entry: EntryView|
        entry.enabled && entry.authority == authority && entry.id == package;
    broadcast use vstd::seq_lib::group_filter_ensures;

    if is_offered(entries, authority, package) {
        let i = choose|i: int|
            0 <= i < entries.len() && (#[trigger] entries[i]).enabled && entries[i].authority
                == authority && entries[i].id == package;
        assert(entries.filter(offers).contains(entries[i]));
    }
    if entries.filter(offers).len() > 0 {
        lemma_filter_source(entries, offers);
    }
}

proof fn lemma_filter_source(entries: Seq<EntryView>, keeps: spec_fn(EntryView) -> bool)
    requires
        entries.filter(keeps).len() > 0,
    ensures
        exists|i: int| 0 <= i < entries.len() && keeps(#[trigger] entries[i]),
    decreases entries.len(),
{
    reveal(Seq::filter);
    if !keeps(entries.last()) {
        lemma_filter_source(entries.drop_last(), keeps);
        let i = choose|i: int|
            0 <= i < entries.drop_last().len() && keeps(#[trigger] entries.drop_last()[i]);
        assert(keeps(entries[i]));
    } else {
        assert(keeps(entries[entries.len() - 1]));
    }
}

/// The value of a page holds what the page does, each in its place.
pub proof fn law_value_of_page(page: ReadResponse)
    ensures
        page@.resource == page.resource@,
        page@.contents == page.contents@,
        page@.truncated == page.truncated,
        page@.next_cursor is Some <==> page.next_cursor is Some,
        page.next_cursor matches Some(cursor) ==> page@.next_cursor == Some(cursor@),
{
}

} // verus!
