//! `skills.list`: bounded pages over the enabled remote skills.
use crate::decimal;
use crate::json;
use crate::skills::catalog;
use crate::skills::catalog::{
    CallErrorView, EntryView, FunctionCallError, HandleView, SkillAuthorityHandle, SkillCatalog,
    SkillCatalogEntry, SkillSourceKind, ToolLimits,
};
use crate::text;
use vstd::prelude::*;
use vstd::utf8::*;

verus! {

pub const TOOL_NAME: &'static str = "list";

/// How many skills of a catalog are listed at all.
pub const MAX_CATALOG_SKILLS: usize = 100;

/// How many skills one page holds.
pub const MAX_PAGE_SKILLS: usize = 20;

/// How many bytes of a description are listed.
pub const MAX_DESCRIPTION_BYTES: usize = 512;

/// How many warnings a page carries.
pub const MAX_WARNINGS: usize = 4;

/// How many bytes of a warning are shown.
pub const MAX_WARNING_BYTES: usize = 256;

/// What the model passes to the tool.
#[derive(Clone, Debug, PartialEq, Eq)]
pub struct ListArgs {
    pub cursor: Option<String>,
}

/// A skill as the model sees it.
#[derive(Debug, PartialEq, Eq)]
pub struct ListedSkill {
    pub authority: SkillAuthorityHandle,
    pub package: String,
    pub name: String,
    pub description: String,
    pub main_resource: String,
}

/// One page of skills.
#[derive(Debug, PartialEq, Eq)]
pub struct ListResponse {
    pub skills: Vec<ListedSkill>,
    pub next_cursor: Option<String>,
    pub warnings: Vec<String>,
    pub truncated: bool,
}

/// The mathematical value of a listed skill.
pub struct ListedView {
    pub authority: HandleView,
    pub package: Seq<char>,
    pub name: Seq<char>,
    pub description: Seq<char>,
    pub main_resource: Seq<char>,
}

/// The mathematical value of a page.
pub struct PageView {
    pub skills: Seq<ListedView>,
    pub next_cursor: Option<Seq<char>>,
    pub warnings: Seq<Seq<char>>,
    pub truncated: bool,
}

impl View for ListedSkill {
    type V = ListedView;

    open spec fn view(&self) -> ListedView {
        ListedView {
            authority: self.authority@,
            package: self.package@,
            name: self.name@,
            description: self.description@,
            main_resource: self.main_resource@,
        }
    }
}

/// The values of a sequence of listed skills.
pub open spec fn listed_views(skills: Seq<ListedSkill>) -> Seq<ListedView> {
    skills.map_values(|s: ListedSkill| s@)
}

/// The text of an optional string.
pub open spec fn option_text(s: Option<String>) -> Option<Seq<char>> {
    match s {
        Some(s) => Some(s@),
        None => None,
    }
}

impl View for ListResponse {
    type V = PageView;

    open spec fn view(&self) -> PageView {
        PageView {
            skills: listed_views(self.skills@),
            next_cursor: option_text(self.next_cursor),
            warnings: catalog::texts(self.warnings@),
            truncated: self.truncated,
        }
    }
}

/// The longest prefix of `s` of at most `max_bytes` bytes.
pub open spec fn cut(s: Seq<char>, max_bytes: usize) -> Seq<char> {
    s.take(text::fitting(s, text::width_measure(), max_bytes as int))
}

/// Whether `s` takes more than `max_bytes` bytes.
pub open spec fn exceeds(s: Seq<char>, max_bytes: usize) -> bool {
    text::utf8_len(s) > max_bytes
}

/// How an entry is listed: not at all where it has no handle or one of its
/// handles is too long, else with its name and description cut to size.
pub open spec fn listed(entry: EntryView, limits: ToolLimits) -> Option<ListedView> {
    match catalog::handle_of(entry.authority) {
        None => None,
        Some(handle) => if catalog::within(handle.kind, limits.handle_bytes) && catalog::within(
            handle.id,
            limits.handle_bytes,
        ) && catalog::within(entry.id, limits.handle_bytes) && catalog::within(
            entry.main_prompt,
            limits.handle_bytes,
        ) {
            Some(
                ListedView {
                    authority: handle,
                    package: entry.id,
                    name: cut(entry.name, limits.skill_name_bytes),
                    description: cut(entry.description, MAX_DESCRIPTION_BYTES),
                    main_resource: entry.main_prompt,
                },
            )
        } else {
            None
        },
    }
}

/// Whether listing an entry shortens its name or its description.
pub open spec fn shortened(entry: EntryView, limits: ToolLimits) -> bool {
    exceeds(entry.name, limits.skill_name_bytes) || exceeds(
        entry.description,
        MAX_DESCRIPTION_BYTES,
    )
}

/// Lists one entry, and says whether its name or description was cut.
pub fn listed_skill(entry: SkillCatalogEntry, limits: &ToolLimits) -> (res: Option<
    (ListedSkill, bool),
>)
    ensures
        res is Some <==> listed(entry@, *limits) is Some,
        res matches Some(r) ==> listed(entry@, *limits) == Some(r.0@) && r.1 == shortened(
            entry@,
            *limits,
        ),
        res matches Some(r) ==> (r.1 <==> r.0.name@ != entry.name@ || r.0.description@
            != entry.description@),
{
    proof {
        lemma_cut(entry.name@, limits.skill_name_bytes);
        lemma_cut(entry.description@, MAX_DESCRIPTION_BYTES);
    }
    let authority = match SkillAuthorityHandle::from_authority(&entry.authority) {
        Some(authority) => authority,
        None => {
            return None;
        },
    };
    if !authority.is_bounded(limits.handle_bytes) || !catalog::is_bounded_handle(
        entry.id.0.as_str(),
        limits.handle_bytes,
    ) || !catalog::is_bounded_handle(entry.main_prompt.as_str(), limits.handle_bytes) {
        return None;
    }
    let (name, name_truncated) = text::truncate_utf8_to_bytes(
        entry.name.as_str(),
        limits.skill_name_bytes,
    );
    let (description, description_truncated) = text::truncate_utf8_to_bytes(
        entry.description.as_str(),
        MAX_DESCRIPTION_BYTES,
    );
    let main_resource = entry.main_prompt.as_str().to_owned();
    Some(
        (
            ListedSkill { authority, package: entry.id.0, name, description, main_resource },
            name_truncated || description_truncated,
        ),
    )
}

/// The warnings that a page shows: the first few, each cut to size.
pub open spec fn shown_warnings(warnings: Seq<Seq<char>>) -> Seq<Seq<char>> {
    let n = if warnings.len() < MAX_WARNINGS {
        warnings.len() as int
    } else {
        MAX_WARNINGS as int
    };
    Seq::new(n as nat, |i: int| cut(warnings[i], MAX_WARNING_BYTES))
}

/// Whether anything of the warnings is not shown.
pub open spec fn warnings_cut(warnings: Seq<Seq<char>>) -> bool {
    ||| warnings.len() > MAX_WARNINGS
    ||| exists|i: int|
        0 <= i < warnings.len() && i < MAX_WARNINGS && exceeds(
            #[trigger] warnings[i],
            MAX_WARNING_BYTES,
        )
}

/// The first few warnings, each cut to size, and whether anything was left out.
pub fn bounded_warnings(warnings: Vec<String>) -> (res: (Vec<String>, bool))
    ensures
        catalog::texts(res.0@) == shown_warnings(catalog::texts(warnings@)),
        res.1 == warnings_cut(catalog::texts(warnings@)),
{
    let ghost all = catalog::texts(warnings@);
    let mut truncated: bool = warnings.len() > MAX_WARNINGS;
    let mut kept: Vec<String> = Vec::new();
    let mut i: usize = 0;
    while i < warnings.len() && i < MAX_WARNINGS
        invariant
            all == catalog::texts(warnings@),
            i <= warnings@.len(),
            i <= MAX_WARNINGS,
            kept@.len() == i,
            forall|j: int|
                0 <= j < i ==> (#[trigger] kept@[j])@ == cut(all[j], MAX_WARNING_BYTES),
            truncated == (warnings@.len() > MAX_WARNINGS || exists|j: int|
                0 <= j < i && exceeds(#[trigger] all[j], MAX_WARNING_BYTES)),
        decreases MAX_WARNINGS - i,
    {
        let (warning, warning_truncated) = text::truncate_utf8_to_bytes(
            warnings[i].as_str(),
            MAX_WARNING_BYTES,
        );
        assert(all[i as int] == warnings@[i as int]@);
        let ghost before = truncated;
        truncated = truncated || warning_truncated;
        proof {
            if warning_truncated {
                assert(exceeds(all[i as int], MAX_WARNING_BYTES));
            }
            if before && warnings@.len() <= MAX_WARNINGS {
                let j = choose|j: int|
                    0 <= j < i && exceeds(#[trigger] all[j], MAX_WARNING_BYTES);
                assert(0 <= j < i + 1 && exceeds(all[j], MAX_WARNING_BYTES));
            }
        }
        kept.push(warning);
        i = i + 1;
    }
    assert(catalog::texts(kept@) =~= shown_warnings(all));
    proof {
        if warnings_cut(all) && all.len() <= MAX_WARNINGS {
            let j = choose|j: int|
                0 <= j < all.len() && j < MAX_WARNINGS && exceeds(
                    #[trigger] all[j],
                    MAX_WARNING_BYTES,
                );
            assert(0 <= j < i && exceeds(all[j], MAX_WARNING_BYTES));
        }
    }
    (kept, truncated)
}

/// Every enabled entry that can be listed, in catalog order.
pub open spec fn listing(entries: Seq<EntryView>, limits: ToolLimits) -> Seq<ListedView>
    decreases entries.len(),
{
    if entries.len() == 0 {
        Seq::empty()
    } else {
        let before = listing(entries.drop_last(), limits);
        let entry = entries.last();
        match listed(entry, limits) {
            Some(skill) if entry.enabled => before.push(skill),
            _ => before,
        }
    }
}

/// The part of the listing that pages are cut from.
pub open spec fn page_source(entries: Seq<EntryView>, limits: ToolLimits) -> Seq<ListedView> {
    let all = listing(entries, limits);
    if all.len() > MAX_CATALOG_SKILLS {
        all.take(MAX_CATALOG_SKILLS as int)
    } else {
        all
    }
}

/// Whether an enabled entry is left out or shown in part.
pub open spec fn entry_cut(entry: EntryView, limits: ToolLimits) -> bool {
    entry.enabled && (listed(entry, limits) is None || shortened(entry, limits))
}

/// Whether anything of the enabled entries is not listed.
pub open spec fn entries_cut(entries: Seq<EntryView>, limits: ToolLimits) -> bool {
    ||| listing(entries, limits).len() > MAX_CATALOG_SKILLS
    ||| exists|i: int| 0 <= i < entries.len() && #[trigger] entry_cut(entries[i], limits)
}

/// Lists the enabled entries of a catalog, and says whether anything of them
/// was left out.
pub fn listed_skills(entries: Vec<SkillCatalogEntry>, limits: &ToolLimits) -> (res: (
    Vec<ListedSkill>,
    bool,
))
    ensures
        listed_views(res.0@) == page_source(catalog::entry_views(entries@), *limits),
        res.1 == entries_cut(catalog::entry_views(entries@), *limits),
{
    let ghost all = catalog::entry_views(entries@);
    let mut truncated: bool = false;
    let mut skills: Vec<ListedSkill> = Vec::new();
    assert(all.take(0) =~= Seq::<EntryView>::empty());
    assert(listed_views(skills@) =~= Seq::<ListedView>::empty());
    for entry in it: entries
        invariant
            it.seq() == entries@,
            all == catalog::entry_views(entries@),
            listed_views(skills@) == page_source(all.take(it.index()), *limits),
            truncated == entries_cut(all.take(it.index()), *limits),
    {
        let ghost i = it.index();
        let ghost now = all.take(i);
        let ghost next = all.take(i + 1);
        assert(next.drop_last() =~= now);
        assert(all[i] == entry@);
        let ghost was_cut = truncated;
        let ghost old_skills = skills@;
        if entry.enabled {
            match listed_skill(entry, limits) {
                None => {
                    truncated = true;
                },
                Some((skill, shorter)) => {
                    if shorter {
                        truncated = true;
                    }
                    if skills.len() >= MAX_CATALOG_SKILLS {
                        truncated = true;
                    } else {
                        skills.push(skill);
                        assert(listed_views(skills@) =~= listed_views(old_skills).push(skill@));
                    }
                },
            }
        }
        proof {
            assert(next[i] == entry@);
            if exists|j: int| 0 <= j < now.len() && #[trigger] entry_cut(now[j], *limits) {
                let j = choose|j: int| 0 <= j < now.len() && #[trigger] entry_cut(now[j], *limits);
                assert(next[j] == now[j]);
            }
            if exists|j: int| 0 <= j < next.len() && #[trigger] entry_cut(next[j], *limits) {
                let j = choose|j: int|
                    0 <= j < next.len() && #[trigger] entry_cut(next[j], *limits);
                if j < i {
                    assert(now[j] == next[j]);
                }
            }
            assert(entry_cut(entry@, *limits) ==> entry_cut(next[i], *limits));
            let was = listing(now, *limits);
            let is = listing(next, *limits);
            if is.len() > MAX_CATALOG_SKILLS && is.len() > was.len() {
                assert(is.take(MAX_CATALOG_SKILLS as int) =~= was.take(MAX_CATALOG_SKILLS as int));
                if was.len() == MAX_CATALOG_SKILLS {
                    assert(was.take(MAX_CATALOG_SKILLS as int) =~= was);
                }
            }
            assert(listed_views(skills@) =~= page_source(next, *limits));
        }
    }
    assert(all.take(entries@.len() as int) =~= all);
    (skills, truncated)
}

impl Clone for ListedSkill {
    fn clone(&self) -> (res: ListedSkill)
        ensures
            res@ == self@,
    {
        ListedSkill {
            authority: SkillAuthorityHandle {
                kind: self.authority.kind.clone(),
                id: self.authority.id.clone(),
            },
            package: self.package.clone(),
            name: self.name.clone(),
            description: self.description.clone(),
            main_resource: self.main_resource.clone(),
        }
    }
}

/// The JSON text of a listed skill.
pub open spec fn listed_json(skill: ListedView) -> Seq<char> {
    "{\"authority\":{\"kind\":"@ + json::string_json(skill.authority.kind) + ",\"id\":"@
        + json::string_json(skill.authority.id) + "},\"package\":"@ + json::string_json(
        skill.package,
    ) + ",\"name\":"@ + json::string_json(skill.name) + ",\"description\":"@ + json::string_json(
        skill.description,
    ) + ",\"main_resource\":"@ + json::string_json(skill.main_resource) + "}"@
}

/// The JSON texts of listed skills.
pub open spec fn listed_jsons(skills: Seq<ListedView>) -> Seq<Seq<char>> {
    skills.map_values(|s: ListedView| listed_json(s))
}

/// The JSON texts of strings.
pub open spec fn string_jsons(strings: Seq<Seq<char>>) -> Seq<Seq<char>> {
    strings.map_values(|s: Seq<char>| json::string_json(s))
}

/// The JSON text of a page.
#[verifier::opaque]
pub open spec fn page_json(page: PageView) -> Seq<char> {
    "{\"skills\":["@ + json::joined(listed_jsons(page.skills)) + "],\"next_cursor\":"@
        + json::option_json(page.next_cursor) + ",\"warnings\":["@ + json::joined(
        string_jsons(page.warnings),
    ) + "],\"truncated\":"@ + json::bool_json(page.truncated) + "}"@
}

/// The number of bytes in the JSON text of a page.
pub open spec fn page_bytes(page: PageView) -> nat {
    text::utf8_len(page_json(page))
}

fn push_listed(out: &mut String, skill: &ListedSkill)
    ensures
        final(out)@ == old(out)@ + listed_json(skill@),
{
    out.append("{\"authority\":{\"kind\":");
    json::push_string(out, skill.authority.kind.as_str());
    out.append(",\"id\":");
    json::push_string(out, skill.authority.id.as_str());
    out.append("},\"package\":");
    json::push_string(out, skill.package.as_str());
    out.append(",\"name\":");
    json::push_string(out, skill.name.as_str());
    out.append(",\"description\":");
    json::push_string(out, skill.description.as_str());
    out.append(",\"main_resource\":");
    json::push_string(out, skill.main_resource.as_str());
    out.append("}");
    assert(out@ =~= old(out)@ + listed_json(skill@));
}

/// Writing one more item after a comma.
proof fn lemma_joined_step(items: Seq<Seq<char>>, i: int)
    requires
        0 <= i < items.len(),
    ensures
        i == 0 ==> json::joined(items.take(1)) == items[0],
        i > 0 ==> json::joined(items.take(i + 1)) == json::joined(items.take(i)) + ","@ + items[i],
{
    let next = items.take(i + 1);
    assert(next.drop_last() =~= items.take(i));
}

impl ListResponse {
    /// The JSON text that the tool sends.
    pub fn to_json(&self) -> (res: String)
        ensures
            res@ == page_json(self@),
    {
        let ghost page = self@;
        let ghost jsons = listed_jsons(page.skills);
        let ghost warning_jsons = string_jsons(page.warnings);
        let mut out = "{\"skills\":[".to_owned();
        let ghost head = out@;
        let mut i: usize = 0;
        assert(jsons.take(0) =~= Seq::<Seq<char>>::empty());
        assert(out@ =~= head + json::joined(jsons.take(0)));
        while i < self.skills.len()
            invariant
                page == self@,
                jsons == listed_jsons(page.skills),
                i <= self.skills@.len(),
                out@ == head + json::joined(jsons.take(i as int)),
            decreases self.skills@.len() - i,
        {
            let ghost before = out@;
            if i > 0 {
                out.append(",");
            }
            push_listed(&mut out, &self.skills[i]);
            proof {
                assert(jsons[i as int] == listed_json(self.skills@[i as int]@));
                lemma_joined_step(jsons, i as int);
                assert(out@ =~= head + json::joined(jsons.take(i + 1)));
            }
            i = i + 1;
        }
        assert(jsons.take(i as int) =~= jsons);
        out.append("],\"next_cursor\":");
        json::push_option(&mut out, &self.next_cursor);
        out.append(",\"warnings\":[");
        let ghost middle = out@;
        let mut j: usize = 0;
        assert(warning_jsons.take(0) =~= Seq::<Seq<char>>::empty());
        assert(out@ =~= middle + json::joined(warning_jsons.take(0)));
        while j < self.warnings.len()
            invariant
                page == self@,
                warning_jsons == string_jsons(page.warnings),
                j <= self.warnings@.len(),
                out@ == middle + json::joined(warning_jsons.take(j as int)),
            decreases self.warnings@.len() - j,
        {
            let ghost before = out@;
            if j > 0 {
                out.append(",");
            }
            json::push_string(&mut out, self.warnings[j].as_str());
            proof {
                assert(warning_jsons[j as int] == json::string_json(self.warnings@[j as int]@));
                lemma_joined_step(warning_jsons, j as int);
                assert(out@ =~= middle + json::joined(warning_jsons.take(j + 1)));
            }
            j = j + 1;
        }
        assert(warning_jsons.take(j as int) =~= warning_jsons);
        out.append("],\"truncated\":");
        json::push_bool(&mut out, self.truncated);
        out.append("}");
        reveal(page_json);
        assert(out@ =~= page_json(page));
        out
    }
}

/// The number of bytes that a page takes when it is sent.
pub fn serialized_len(response: &ListResponse) -> (len: usize)
    ensures
        len == page_bytes(response@),
{
    text::byte_len(response.to_json().as_str())
}

/// The cursor that a page ending before the skill with index `end` hands out.
pub open spec fn cursor_at(all: Seq<ListedView>, end: int) -> Option<Seq<char>> {
    if end < all.len() {
        Some(decimal::decimal(end as nat))
    } else {
        None
    }
}

/// The page with the skills from `first` up to `end`.
pub open spec fn page_of(
    all: Seq<ListedView>,
    warnings: Seq<Seq<char>>,
    incomplete: bool,
    first: int,
    end: int,
) -> PageView {
    PageView {
        skills: all.subrange(first, end),
        next_cursor: cursor_at(all, end),
        warnings,
        truncated: incomplete || end < all.len(),
    }
}

/// Whether the page from `first` up to `end` stays within the output limit.
pub open spec fn page_fits(
    all: Seq<ListedView>,
    warnings: Seq<Seq<char>>,
    incomplete: bool,
    first: int,
    end: int,
    output_bytes: usize,
) -> bool {
    page_bytes(page_of(all, warnings, incomplete, first, end)) <= output_bytes
}

/// Whether the skill with index `k` fits on a page of its own, for a page that
/// starts looking at `offset`.
pub open spec fn fits_alone(
    all: Seq<ListedView>,
    warnings: Seq<Seq<char>>,
    incomplete: bool,
    offset: int,
    k: int,
    output_bytes: usize,
) -> bool {
    page_fits(all, warnings, incomplete || k > offset, k, k + 1, output_bytes)
}

/// Whether a page that starts looking at `offset` and takes its first skill at
/// `first` can go up to `end`.
pub open spec fn reaches(
    all: Seq<ListedView>,
    warnings: Seq<Seq<char>>,
    incomplete: bool,
    offset: int,
    first: int,
    end: int,
    output_bytes: usize,
) -> bool {
    page_fits(all, warnings, incomplete || first > offset, first, end, output_bytes)
}

/// Whether `first..end` is what a page that starts looking at `offset` holds.
///
/// Skills that do not fit even alone are passed over. From the first that does,
/// the page takes as many as fit, up to the page size.
pub open spec fn is_page(
    all: Seq<ListedView>,
    warnings: Seq<Seq<char>>,
    incomplete: bool,
    offset: int,
    output_bytes: usize,
    first: int,
    end: int,
) -> bool {
    &&& offset <= first <= end <= all.len()
    &&& end - first <= MAX_PAGE_SKILLS
    &&& first < all.len() ==> first < end
    &&& forall|k: int|
        offset <= k < first ==> !#[trigger] fits_alone(
            all,
            warnings,
            incomplete,
            offset,
            k,
            output_bytes,
        )
    &&& forall|e: int|
        first < e <= end ==> #[trigger] reaches(
            all,
            warnings,
            incomplete,
            offset,
            first,
            e,
            output_bytes,
        )
    &&& end < all.len() && end - first < MAX_PAGE_SKILLS ==> !reaches(
        all,
        warnings,
        incomplete,
        offset,
        first,
        end + 1,
        output_bytes,
    )
}

/// A catalog has only one page at an offset.
pub proof fn lemma_page_unique(
    all: Seq<ListedView>,
    warnings: Seq<Seq<char>>,
    incomplete: bool,
    offset: int,
    output_bytes: usize,
    first: int,
    end: int,
    first2: int,
    end2: int,
)
    requires
        is_page(all, warnings, incomplete, offset, output_bytes, first, end),
        is_page(all, warnings, incomplete, offset, output_bytes, first2, end2),
    ensures
        first == first2,
        end == end2,
{
    if first < first2 {
        assert(reaches(all, warnings, incomplete, offset, first, first + 1, output_bytes));
        assert(!fits_alone(all, warnings, incomplete, offset, first, output_bytes));
    } else if first2 < first {
        assert(reaches(all, warnings, incomplete, offset, first2, first2 + 1, output_bytes));
        assert(!fits_alone(all, warnings, incomplete, offset, first2, output_bytes));
    }
    if end < end2 {
        assert(reaches(all, warnings, incomplete, offset, first, end + 1, output_bytes));
    } else if end2 < end {
        assert(reaches(all, warnings, incomplete, offset, first, end2 + 1, output_bytes));
    }
}

/// The page of `skills` that starts looking at `offset`.
pub fn page_from(
    skills: &Vec<ListedSkill>,
    warnings: Vec<String>,
    incomplete: bool,
    offset: usize,
    output_bytes: usize,
) -> (response: ListResponse)
    requires
        offset <= skills@.len(),
    ensures
        exists|first: int, end: int|
            #[trigger] is_page(
                listed_views(skills@),
                catalog::texts(warnings@),
                incomplete,
                offset as int,
                output_bytes,
                first,
                end,
            ) && response@ == page_of(
                listed_views(skills@),
                catalog::texts(warnings@),
                incomplete || first > offset,
                first,
                end,
            ),
{
    let ghost all = listed_views(skills@);
    let ghost shown = catalog::texts(warnings@);
    let ghost mut first: int = offset as int;
    let mut base_truncated: bool = incomplete;
    let mut response = ListResponse {
        skills: Vec::new(),
        next_cursor: None,
        warnings,
        truncated: base_truncated,
    };
    let mut index: usize = offset;
    let mut full: bool = false;
    assert(listed_views(response.skills@) =~= all.subrange(first, index as int));
    while !full && index < skills.len() && response.skills.len() < MAX_PAGE_SKILLS
        invariant
            all == listed_views(skills@),
            shown == catalog::texts(response.warnings@),
            offset <= first <= index <= all.len(),
            index - first <= MAX_PAGE_SKILLS,
            response.skills@.len() == index - first,
            base_truncated == (incomplete || first > offset),
            listed_views(response.skills@) == all.subrange(first, index as int),
            forall|k: int|
                offset <= k < first ==> !#[trigger] fits_alone(
                    all,
                    shown,
                    incomplete,
                    offset as int,
                    k,
                    output_bytes,
                ),
            forall|e: int|
                first < e <= index ==> #[trigger] reaches(
                    all,
                    shown,
                    incomplete,
                    offset as int,
                    first,
                    e,
                    output_bytes,
                ),
            full ==> first < index < all.len() && !reaches(
                all,
                shown,
                incomplete,
                offset as int,
                first,
                index + 1,
                output_bytes,
            ),
            first < index ==> option_text(response.next_cursor) == cursor_at(all, index as int),
            first == index && index == all.len() ==> response.next_cursor is None,
        decreases
            skills@.len() - index,
            (if full {
                0int
            } else {
                1int
            }),
    {
        let ghost old_skills = response.skills@;
        response.skills.push(skills[index].clone());
        response.next_cursor =
        if index + 1 < skills.len() {
            Some(decimal::decimal_text(index + 1))
        } else {
            None
        };
        response.truncated = base_truncated || response.next_cursor.is_some();
        assert(listed_views(response.skills@) =~= all.subrange(first, index + 1));
        assert(response@ == page_of(all, shown, base_truncated, first, index + 1));
        if serialized_len(&response) > output_bytes {
            response.skills.pop();
            assert(response.skills@ =~= old_skills);
            assert(!reaches(
                all,
                shown,
                incomplete,
                offset as int,
                first,
                index + 1,
                output_bytes,
            ));
            if response.skills.len() == 0 {
                assert(!fits_alone(all, shown, incomplete, offset as int, first, output_bytes));
                index = index + 1;
                base_truncated = true;
                proof {
                    first = index as int;
                    assert(listed_views(response.skills@) =~= all.subrange(first, index as int));
                }
                response.next_cursor =
                if index < skills.len() {
                    Some(decimal::decimal_text(index))
                } else {
                    None
                };
            } else {
                response.next_cursor = Some(decimal::decimal_text(index));
                full = true;
            }
            response.truncated = true;
        } else {
            assert(reaches(
                all,
                shown,
                incomplete,
                offset as int,
                first,
                index + 1,
                output_bytes,
            ));
            index = index + 1;
        }
    }
    if index < skills.len() && response.next_cursor.is_none() {
        response.next_cursor = Some(decimal::decimal_text(index));
    }
    response.truncated = base_truncated || response.next_cursor.is_some();
    assert(is_page(all, shown, incomplete, offset as int, output_bytes, first, index as int));
    assert(response@ == page_of(all, shown, incomplete || first > offset, first, index as int));
    response
}

/// The `skills.list` tool.
#[derive(Clone, Copy, Debug)]
pub struct ListTool {
    pub limits: ToolLimits,
}

/// The offset that a cursor names: the start where there is none, else the
/// number it writes down, if it is one that a `usize` holds.
pub open spec fn cursor_offset(cursor: Option<Seq<char>>) -> Option<nat> {
    match cursor {
        None => Some(0),
        Some(c) => match decimal::parsed(c) {
            Some(n) if n <= usize::MAX => Some(n),
            _ => None,
        },
    }
}

/// Reads a cursor.
pub fn parse_cursor(cursor: &Option<String>) -> (res: Option<usize>)
    ensures
        res is Some <==> cursor_offset(option_text(*cursor)) is Some,
        res matches Some(n) ==> cursor_offset(option_text(*cursor)) == Some(n as nat),
{
    match cursor {
        Some(c) => decimal::parse_usize(c.as_str()),
        None => Some(0),
    }
}

/// Whether a page with this source is incomplete before it starts.
pub open spec fn source_cut(
    entries: Seq<EntryView>,
    warnings: Seq<Seq<char>>,
    limits: ToolLimits,
) -> bool {
    entries_cut(entries, limits) || warnings_cut(warnings)
}

impl ListTool {
    /// Answers a call: the page at the cursor, or why there is none.
    pub fn handle(&self, args: ListArgs, catalog: SkillCatalog) -> (res: Result<
        ListResponse,
        FunctionCallError,
    >)
        ensures
            ({
                let entries = catalog::entry_views(catalog.entries@);
                let warnings = catalog::texts(catalog.warnings@);
                let all = page_source(entries, self.limits);
                let incomplete = source_cut(entries, warnings, self.limits);
                match cursor_offset(option_text(args.cursor)) {
                    None => res matches Err(e) && e@ == CallErrorView::RespondToModel(
                        "invalid skills.list cursor"@,
                    ),
                    Some(offset) => if offset > all.len() {
                        res matches Err(e) && e@ == CallErrorView::RespondToModel(
                            "skills.list cursor is out of range"@,
                        )
                    } else {
                        res matches Ok(response) && exists|first: int, end: int|
                            #[trigger] is_page(
                                all,
                                shown_warnings(warnings),
                                incomplete,
                                offset as int,
                                self.limits.output_bytes,
                                first,
                                end,
                            ) && response@ == page_of(
                                all,
                                shown_warnings(warnings),
                                incomplete || first > offset,
                                first,
                                end,
                            )
                    },
                }
            }),
    {
        let (warnings, warnings_truncated) = bounded_warnings(catalog.warnings);
        let (skills, metadata_truncated) = listed_skills(catalog.entries, &self.limits);
        let offset = match parse_cursor(&args.cursor) {
            Some(offset) => offset,
            None => {
                return Err(
                    FunctionCallError::RespondToModel("invalid skills.list cursor".to_owned()),
                );
            },
        };
        if offset > skills.len() {
            return Err(
                FunctionCallError::RespondToModel("skills.list cursor is out of range".to_owned()),
            );
        }
        let incomplete = metadata_truncated || warnings_truncated;
        let response = page_from(&skills, warnings, incomplete, offset, self.limits.output_bytes);
        proof {
            let entries = catalog::entry_views(catalog.entries@);
            let texts = catalog::texts(catalog.warnings@);
            assert(incomplete == source_cut(entries, texts, self.limits));
            let (first, end) = choose|first: int, end: int|
                #[trigger] is_page(
                    listed_views(skills@),
                    catalog::texts(warnings@),
                    incomplete,
                    offset as int,
                    self.limits.output_bytes,
                    first,
                    end,
                ) && response@ == page_of(
                    listed_views(skills@),
                    catalog::texts(warnings@),
                    incomplete || first > offset,
                    first,
                    end,
                );
            assert(is_page(
                page_source(entries, self.limits),
                shown_warnings(texts),
                source_cut(entries, texts, self.limits),
                offset as int,
                self.limits.output_bytes,
                first,
                end,
            ));
        }
        Ok(response)
    }
}

/// A page that holds a skill stays within the output limit.
pub proof fn law_page_within_limit(
    all: Seq<ListedView>,
    warnings: Seq<Seq<char>>,
    incomplete: bool,
    offset: int,
    output_bytes: usize,
    first: int,
    end: int,
)
    requires
        is_page(all, warnings, incomplete, offset, output_bytes, first, end),
        first < end,
    ensures
        page_bytes(page_of(all, warnings, incomplete || first > offset, first, end))
            <= output_bytes,
{
    assert(reaches(all, warnings, incomplete, offset, first, end, output_bytes));
}

/// A cursor that a page hands out is accepted, lies past the page's offset and
/// is not out of range.
pub proof fn law_cursor_advances(
    all: Seq<ListedView>,
    warnings: Seq<Seq<char>>,
    incomplete: bool,
    offset: int,
    output_bytes: usize,
    first: int,
    end: int,
)
    requires
        is_page(all, warnings, incomplete, offset, output_bytes, first, end),
        page_of(all, warnings, incomplete || first > offset, first, end).next_cursor is Some,
        all.len() <= usize::MAX,
        0 <= offset,
    ensures
        cursor_offset(
            page_of(all, warnings, incomplete || first > offset, first, end).next_cursor,
        ) == Some(end as nat),
        offset < end < all.len(),
{
    decimal::law_decimal_round_trip(end as nat);
}

/// A page says that it is truncated exactly where something is missing from
/// what was sent: the listing or the warnings were cut, a skill was passed over
/// for its size, or more skills follow.
pub proof fn law_truncated_says_so(
    all: Seq<ListedView>,
    warnings: Seq<Seq<char>>,
    incomplete: bool,
    offset: int,
    output_bytes: usize,
    first: int,
    end: int,
)
    requires
        is_page(all, warnings, incomplete, offset, output_bytes, first, end),
    ensures
        ({
            let page = page_of(all, warnings, incomplete || first > offset, first, end);
            page.truncated <==> (incomplete || first > offset || page.next_cursor is Some)
        }),
{
}

/// The skills seen by following the cursors from `offset` to the end.
pub open spec fn walk(
    all: Seq<ListedView>,
    warnings: Seq<Seq<char>>,
    incomplete: bool,
    offset: int,
    output_bytes: usize,
) -> Seq<ListedView>
    decreases all.len() - offset,
{
    let (first, end) = choose|first: int, end: int|
        #[trigger] is_page(all, warnings, incomplete, offset, output_bytes, first, end);
    if 0 <= offset < end < all.len() {
        all.subrange(first, end) + walk(all, warnings, incomplete, end, output_bytes)
    } else {
        all.subrange(first, end)
    }
}

proof fn lemma_page_grows(
    all: Seq<ListedView>,
    warnings: Seq<Seq<char>>,
    incomplete: bool,
    offset: int,
    output_bytes: usize,
    e: int,
) -> (end: int)
    requires
        0 <= offset < e <= all.len(),
        e - offset <= MAX_PAGE_SKILLS,
        forall|k: int|
            offset < k <= e ==> #[trigger] reaches(
                all,
                warnings,
                incomplete,
                offset,
                offset,
                k,
                output_bytes,
            ),
    ensures
        is_page(all, warnings, incomplete, offset, output_bytes, offset, end),
    decreases all.len() - e,
{
    if e < all.len() && e - offset < MAX_PAGE_SKILLS && reaches(
        all,
        warnings,
        incomplete,
        offset,
        offset,
        e + 1,
        output_bytes,
    ) {
        lemma_page_grows(all, warnings, incomplete, offset, output_bytes, e + 1)
    } else {
        e
    }
}

/// Where every skill fits on a page of its own, following the cursors shows
/// every skill once and in order.
pub proof fn law_walk_complete(
    all: Seq<ListedView>,
    warnings: Seq<Seq<char>>,
    incomplete: bool,
    offset: int,
    output_bytes: usize,
)
    requires
        0 <= offset <= all.len(),
        forall|k: int|
            offset <= k < all.len() ==> #[trigger] fits_alone(
                all,
                warnings,
                incomplete,
                k,
                k,
                output_bytes,
            ),
    ensures
        walk(all, warnings, incomplete, offset, output_bytes) == all.skip(offset),
    decreases all.len() - offset,
{
    let (first, end) = choose|first: int, end: int|
        #[trigger] is_page(all, warnings, incomplete, offset, output_bytes, first, end);
    if offset == all.len() {
        assert(is_page(all, warnings, incomplete, offset, output_bytes, offset, offset));
        lemma_page_unique(
            all,
            warnings,
            incomplete,
            offset,
            output_bytes,
            first,
            end,
            offset,
            offset,
        );
        assert(all.subrange(first, end) =~= all.skip(offset));
    } else {
        assert(fits_alone(all, warnings, incomplete, offset, offset, output_bytes));
        assert(reaches(all, warnings, incomplete, offset, offset, offset + 1, output_bytes));
        let e = lemma_page_grows(all, warnings, incomplete, offset, output_bytes, offset + 1);
        lemma_page_unique(all, warnings, incomplete, offset, output_bytes, first, end, offset, e);
        if end < all.len() {
            law_walk_complete(all, warnings, incomplete, end, output_bytes);
            assert(all.subrange(first, end) + all.skip(end) =~= all.skip(offset));
        } else {
            assert(all.subrange(first, end) =~= all.skip(offset));
        }
    }
}

/// A text that is cut is its longest prefix within the limit.
proof fn lemma_cut(s: Seq<char>, max_bytes: usize)
    ensures
        cut(s, max_bytes).is_prefix_of(s),
        encode_utf8(cut(s, max_bytes)).len() <= max_bytes,
        cut(s, max_bytes) != s ==> encode_utf8(s.take(cut(s, max_bytes).len() as int + 1)).len()
            > max_bytes,
        cut(s, max_bytes) == s <==> !exceeds(s, max_bytes),
        exceeds(s, max_bytes) <==> encode_utf8(s).len() > max_bytes,
{
    let k = text::fitting(s, text::width_measure(), max_bytes as int);
    text::lemma_fitting_exists(s, text::width_measure(), max_bytes as int);
    text::lemma_utf8_len(s);
    text::lemma_utf8_len(s.take(k));
    assert(s.take(s.len() as int) =~= s);
    if k < s.len() {
        text::lemma_utf8_len(s.take(k + 1));
        text::lemma_total_monotone(s, text::width_measure(), k + 1, s.len() as int);
        assert(s.take(k).len() != s.len());
    }
}

/// An entry is listed exactly where it comes from a remote authority and its
/// authority, package and main resource are within the limit for handles. Of these
/// nothing is left out. Its name and its description are the longest prefixes within
/// their limits.
pub proof fn law_how_an_entry_is_listed(entry: EntryView, limits: ToolLimits)
    ensures
        listed(entry, limits) is Some <==> (entry.authority.kind == SkillSourceKind::Remote
            && encode_utf8("remote"@).len() <= limits.handle_bytes && encode_utf8(
            entry.authority.id,
        ).len() <= limits.handle_bytes && encode_utf8(entry.id).len() <= limits.handle_bytes
            && encode_utf8(entry.main_prompt).len() <= limits.handle_bytes),
        listed(entry, limits) matches Some(skill) ==> {
            &&& skill.authority.kind == "remote"@
            &&& skill.authority.id == entry.authority.id
            &&& skill.package == entry.id
            &&& skill.main_resource == entry.main_prompt
            &&& skill.name.is_prefix_of(entry.name)
            &&& encode_utf8(skill.name).len() <= limits.skill_name_bytes
            &&& skill.name != entry.name ==> encode_utf8(
                entry.name.take(skill.name.len() as int + 1),
            ).len() > limits.skill_name_bytes
            &&& skill.description.is_prefix_of(entry.description)
            &&& encode_utf8(skill.description).len() <= 512
            &&& skill.description != entry.description ==> encode_utf8(
                entry.description.take(skill.description.len() as int + 1),
            ).len() > 512
        },
{
    text::lemma_utf8_len("remote"@);
    text::lemma_utf8_len(entry.authority.id);
    text::lemma_utf8_len(entry.id);
    text::lemma_utf8_len(entry.main_prompt);
    lemma_cut(entry.name, limits.skill_name_bytes);
    lemma_cut(entry.description, MAX_DESCRIPTION_BYTES);
}

/// Listing an entry counts as shortening it exactly where its name or its
/// description, either of them, is not listed in full.
pub proof fn law_shortened_exactly(entry: EntryView, limits: ToolLimits)
    requires
        listed(entry, limits) is Some,
    ensures
        shortened(entry, limits) <==> (listed(entry, limits)->0.name != entry.name || listed(
            entry,
            limits,
        )->0.description != entry.description),
{
    lemma_cut(entry.name, limits.skill_name_bytes);
    lemma_cut(entry.description, MAX_DESCRIPTION_BYTES);
}

/// The first four warnings are shown, in order, each as its longest prefix within the
/// limit.
pub proof fn law_warnings_shown(warnings: Seq<Seq<char>>)
    ensures
        shown_warnings(warnings).len() == if warnings.len() < 4 {
            warnings.len()
        } else {
            4
        },
        forall|i: int|
            0 <= i < shown_warnings(warnings).len() ==> {
                let shown = #[trigger] shown_warnings(warnings)[i];
                &&& shown.is_prefix_of(warnings[i])
                &&& encode_utf8(shown).len() <= 256
                &&& shown != warnings[i] ==> encode_utf8(
                    warnings[i].take(shown.len() as int + 1),
                ).len() > 256
            },
        warnings_cut(warnings) <==> shown_warnings(warnings) != warnings,
{
    let shown = shown_warnings(warnings);
    assert forall|i: int| 0 <= i < shown.len() implies ({
        let one = #[trigger] shown[i];
        &&& one.is_prefix_of(warnings[i])
        &&& encode_utf8(one).len() <= 256
        &&& one != warnings[i] ==> encode_utf8(warnings[i].take(one.len() as int + 1)).len() > 256
        &&& one != warnings[i] <==> exceeds(warnings[i], MAX_WARNING_BYTES)
    }) by {
        lemma_cut(warnings[i], MAX_WARNING_BYTES);
    }
    if warnings.len() <= MAX_WARNINGS {
        if warnings_cut(warnings) {
            let i = choose|i: int|
                0 <= i < warnings.len() && i < MAX_WARNINGS && exceeds(
                    #[trigger] warnings[i],
                    MAX_WARNING_BYTES,
                );
            assert(shown[i] != warnings[i]);
        } else {
            assert forall|i: int| 0 <= i < shown.len() implies shown[i] == warnings[i] by {
                assert(!exceeds(warnings[i], MAX_WARNING_BYTES));
            }
            assert(shown =~= warnings);
        }
    }
}

proof fn lemma_listing(entries: Seq<EntryView>, limits: ToolLimits)
    ensures
        listing(entries, limits) == entries.filter(
            |entry: EntryView| entry.enabled && listed(entry, limits) is Some,
        ).map_values(|entry: EntryView| listed(entry, limits)->0),
    decreases entries.len(),
{
    let keeps = |entry: EntryView| entry.enabled && listed(entry, limits) is Some;
    let shows = |entry: EntryView| listed(entry, limits)->0;
    reveal(Seq::filter);
    if entries.len() > 0 {
        lemma_listing(entries.drop_last(), limits);
        assert(listing(entries, limits) =~= entries.filter(keeps).map_values(shows));
    } else {
        assert(listing(entries, limits) =~= entries.filter(keeps).map_values(shows));
    }
}

/// What is listed are the enabled entries that can be listed, each once and in the
/// catalog's order, up to the first hundred.
pub proof fn law_every_enabled_skill_is_listed(entries: Seq<EntryView>, limits: ToolLimits)
    ensures
        ({
            let all = entries.filter(
                |entry: EntryView| entry.enabled && listed(entry, limits) is Some,
            ).map_values(|entry: EntryView| listed(entry, limits)->0);
            page_source(entries, limits) == if all.len() > 100 {
                all.take(100)
            } else {
                all
            }
        }),
{
    lemma_listing(entries, limits);
}

/// A page says that it is truncated exactly where it is not the whole answer: an
/// enabled entry is missing or its name or description is not in full, there are more
/// than a hundred, a warning is missing or not in full, a skill was passed over, or a
/// cursor is handed out.
pub proof fn law_truncated_exactly(
    entries: Seq<EntryView>,
    warnings: Seq<Seq<char>>,
    limits: ToolLimits,
    offset: int,
    first: int,
    end: int,
)
    requires
        is_page(
            page_source(entries, limits),
            shown_warnings(warnings),
            source_cut(entries, warnings, limits),
            offset,
            limits.output_bytes,
            first,
            end,
        ),
    ensures
        ({
            let page = page_of(
                page_source(entries, limits),
                shown_warnings(warnings),
                source_cut(entries, warnings, limits) || first > offset,
                first,
                end,
            );
            page.truncated <==> !{
                &&& forall|i: int|
                    0 <= i < entries.len() && (#[trigger] entries[i]).enabled ==> (listed(
                        entries[i],
                        limits,
                    ) matches Some(skill) && skill.name == entries[i].name && skill.description
                        == entries[i].description)
                &&& entries.filter(
                    |entry: EntryView| entry.enabled && listed(entry, limits) is Some,
                ).len() <= 100
                &&& page.warnings == warnings
                &&& first == offset
                &&& page.next_cursor is None
            }
        }),
{
    lemma_listing(entries, limits);
    law_warnings_shown(warnings);
    assert forall|i: int| 0 <= i < entries.len() implies (#[trigger] entry_cut(entries[i], limits)
        <==> (entries[i].enabled && !(listed(entries[i], limits) matches Some(skill) && skill.name
        == entries[i].name && skill.description == entries[i].description))) by {
        if listed(entries[i], limits) is Some {
            law_shortened_exactly(entries[i], limits);
        }
    }
    if entries_cut(entries, limits) && listing(entries, limits).len() <= 100 {
        let i = choose|i: int| 0 <= i < entries.len() && #[trigger] entry_cut(entries[i], limits);
        assert(entries[i].enabled);
    }
    if !entries_cut(entries, limits) {
        assert forall|i: int| 0 <= i < entries.len() && (#[trigger] entries[i]).enabled implies (
        listed(entries[i], limits) matches Some(skill) && skill.name == entries[i].name
            && skill.description == entries[i].description) by {
            assert(!entry_cut(entries[i], limits));
        }
    }
}

/// A page holds the skills from its first up to its end, passes on the warnings, and
/// hands out the number of the next skill exactly where there is one.
pub proof fn law_page_holds(
    all: Seq<ListedView>,
    warnings: Seq<Seq<char>>,
    incomplete: bool,
    first: int,
    end: int,
)
    requires
        0 <= first <= end <= all.len(),
    ensures
        ({
            let page = page_of(all, warnings, incomplete, first, end);
            &&& page.skills == all.subrange(first, end)
            &&& page.warnings == warnings
            &&& page.next_cursor is Some <==> end < all.len()
            &&& page.next_cursor matches Some(cursor) ==> decimal::parsed(cursor) == Some(
                end as nat,
            )
            &&& page.truncated <==> incomplete || end < all.len()
        }),
{
    decimal::law_decimal_round_trip(end as nat);
}

/// A page is as full as it can be: it goes on to the last skill, or holds twenty, or
/// would exceed the output limit with the next skill. With what it holds it does not.
pub proof fn law_page_is_full(
    all: Seq<ListedView>,
    warnings: Seq<Seq<char>>,
    incomplete: bool,
    offset: int,
    output_bytes: usize,
    first: int,
    end: int,
)
    requires
        0 <= offset,
        is_page(all, warnings, incomplete, offset, output_bytes, first, end),
    ensures
        offset <= first <= end <= all.len(),
        end - first <= 20,
        first < all.len() ==> first < end,
        end == all.len() || end - first == 20 || page_bytes(
            page_of(all, warnings, incomplete || first > offset, first, end + 1),
        ) > output_bytes,
        first < end ==> page_bytes(
            page_of(all, warnings, incomplete || first > offset, first, end),
        ) <= output_bytes,
{
    if first < end {
        assert(reaches(all, warnings, incomplete, offset, first, end, output_bytes));
    }
}

/// A skill that a page passes over would exceed the output limit even alone.
pub proof fn law_passed_over_does_not_fit(
    all: Seq<ListedView>,
    warnings: Seq<Seq<char>>,
    incomplete: bool,
    offset: int,
    output_bytes: usize,
    first: int,
    end: int,
    k: int,
)
    requires
        is_page(all, warnings, incomplete, offset, output_bytes, first, end),
        offset <= k < first,
    ensures
        page_bytes(page_of(all, warnings, incomplete || k > offset, k, k + 1)) > output_bytes,
{
    assert(!fits_alone(all, warnings, incomplete, offset, k, output_bytes));
}

/// A cursor that is left out is the start; one that is a decimal number is that
/// number; one with anything but digits in it, behind a plus sign that may stand first,
/// is none.
pub proof fn law_cursors(n: usize, text: Seq<char>)
    ensures
        cursor_offset(None) == Some(0nat),
        cursor_offset(Some(decimal::decimal(n as nat))) == Some(n as nat),
        text.len() == 0 ==> cursor_offset(Some(text)) is None,
        (exists|i: int|
            0 <= i < text.len() && !(48 <= #[trigger] text[i] as u32 <= 57) && !(i == 0 && text[i]
                == '+')) ==> cursor_offset(Some(text)) is None,
        cursor_offset(Some(text)) matches Some(value) ==> value <= usize::MAX,
{
    decimal::law_decimal_round_trip(n as nat);
    if exists|i: int|
        0 <= i < text.len() && !(48 <= #[trigger] text[i] as u32 <= 57) && !(i == 0 && text[i]
            == '+') {
        let i = choose|i: int|
            0 <= i < text.len() && !(48 <= #[trigger] text[i] as u32 <= 57) && !(i == 0 && text[i]
                == '+');
        let digits = decimal::unsigned_part(text);
        if text[0] == '+' {
            assert(digits[i - 1] == text[i]);
            assert(!decimal::is_digit(digits[i - 1]));
        } else {
            assert(!decimal::is_digit(digits[i]));
        }
    }
}

/// The text that is sent for a page holds its skills, its cursor, its warnings and
/// whether it is truncated, in this order.
pub proof fn law_page_text(page: PageView)
    ensures
        page_json(page) == "{\"skills\":["@ + json::joined(
            page.skills.map_values(
                |skill: ListedView|
                    "{\"authority\":{\"kind\":"@ + json::string_json(skill.authority.kind)
                        + ",\"id\":"@ + json::string_json(skill.authority.id)
                        + "},\"package\":"@ + json::string_json(skill.package) + ",\"name\":"@
                        + json::string_json(skill.name) + ",\"description\":"@
                        + json::string_json(skill.description) + ",\"main_resource\":"@
                        + json::string_json(skill.main_resource) + "}"@,
            ),
        ) + "],\"next_cursor\":"@ + (match page.next_cursor {
            Some(cursor) => json::string_json(cursor),
            None => "null"@,
        }) + ",\"warnings\":["@ + json::joined(
            page.warnings.map_values(|warning: Seq<char>| json::string_json(warning)),
        ) + "],\"truncated\":"@ + (if page.truncated {
            "true"@
        } else {
            "false"@
        }) + "}"@,
        page_bytes(page) == encode_utf8(page_json(page)).len(),
{
    reveal(page_json);
    text::lemma_utf8_len(page_json(page));
    assert(listed_jsons(page.skills) =~= page.skills.map_values(
        |skill: ListedView|
            "{\"authority\":{\"kind\":"@ + json::string_json(skill.authority.kind) + ",\"id\":"@
                + json::string_json(skill.authority.id) + "},\"package\":"@ + json::string_json(
                skill.package,
            ) + ",\"name\":"@ + json::string_json(skill.name) + ",\"description\":"@
                + json::string_json(skill.description) + ",\"main_resource\":"@
                + json::string_json(skill.main_resource) + "}"@,
    ));
    assert(string_jsons(page.warnings) =~= page.warnings.map_values(
        |warning: Seq<char>| json::string_json(warning),
    ));
}

/// The value of a page and of a listed skill holds what they do, each in its place.
pub proof fn law_value_of_page(page: ListResponse, skill: ListedSkill, i: int)
    ensures
        page@.truncated == page.truncated,
        page@.next_cursor is Some <==> page.next_cursor is Some,
        page.next_cursor matches Some(cursor) ==> page@.next_cursor == Some(cursor@),
        page@.skills.len() == page.skills@.len(),
        page@.warnings.len() == page.warnings@.len(),
        0 <= i < page.skills@.len() ==> page@.skills[i] == page.skills@[i]@,
        0 <= i < page.warnings@.len() ==> page@.warnings[i] == page.warnings@[i]@,
        skill@.name == skill.name@,
        skill@.description == skill.description@,
        skill@.package == skill.package@,
        skill@.main_resource == skill.main_resource@,
        skill@.authority.kind == skill.authority.kind@,
        skill@.authority.id == skill.authority.id@,
{
}

} // verus!
