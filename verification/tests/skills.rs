use codex_host::json::json_escaped_len;
use codex_host::skills::catalog::{
    is_bounded_handle, validate_handle, FunctionCallError, SkillAuthority, SkillAuthorityHandle,
    SkillCatalog, SkillCatalogEntry, SkillPackageId, SkillReadResult, SkillResourceId,
    SkillSourceKind, ToolLimits,
};
use codex_host::skills::list::{
    bounded_warnings, listed_skill, serialized_len, ListArgs, ListResponse, ListTool,
};
use codex_host::skills::read::{
    bounded_response, ReadArgs, ReadTool, SkillProviderError,
};
use codex_host::skills::state::{SkillsThreadState, SkillsTurnState};

const LIMITS: ToolLimits = ToolLimits { handle_bytes: 64, skill_name_bytes: 16, output_bytes: 4096 };

fn respond<T>(message: &str) -> Result<T, FunctionCallError> {
    Err(FunctionCallError::RespondToModel(message.to_string()))
}

fn authority(kind: SkillSourceKind, id: &str) -> SkillAuthority {
    SkillAuthority { kind, id: id.to_string() }
}

fn entry(package: &str, description: &str) -> SkillCatalogEntry {
    SkillCatalogEntry {
        id: SkillPackageId(package.to_string()),
        authority: authority(SkillSourceKind::Remote, "hub"),
        name: format!("name {package}"),
        description: description.to_string(),
        main_prompt: SkillResourceId::new(format!("{package}/SKILL.md")),
        enabled: true,
    }
}

fn catalog(entries: Vec<SkillCatalogEntry>) -> SkillCatalog {
    SkillCatalog { entries, warnings: vec![] }
}

fn numbered(count: usize) -> Vec<SkillCatalogEntry> {
    (0..count).map(|i| entry(&format!("p{i}"), "d")).collect()
}

fn list(limits: ToolLimits, cursor: Option<&str>, catalog: &SkillCatalog) -> Result<ListResponse, FunctionCallError> {
    ListTool { limits }.handle(
        ListArgs { cursor: cursor.map(|c| c.to_string()) },
        catalog.clone(),
    )
}

#[test]
fn an_entry_is_listed_with_its_handles() {
    let (skill, cut) = listed_skill(entry("p", "does things"), &LIMITS).expect("listed");
    assert_eq!(
        skill.authority,
        SkillAuthorityHandle { kind: "remote".to_string(), id: "hub".to_string() }
    );
    assert_eq!(skill.package, "p");
    assert_eq!(skill.name, "name p");
    assert_eq!(skill.description, "does things");
    assert_eq!(skill.main_resource, "p/SKILL.md");
    assert!(!cut);
}

#[test]
fn long_names_and_descriptions_are_cut_between_characters() {
    let mut long = entry("p", &"d".repeat(513));
    long.name = "\u{e9}".repeat(9);
    let (skill, cut) = listed_skill(long, &LIMITS).expect("listed");
    assert!(cut);
    assert_eq!(skill.description, "d".repeat(512));
    assert_eq!(skill.name, "\u{e9}".repeat(8));
}

#[test]
fn entries_without_usable_handles_are_left_out() {
    let mut host = entry("p", "d");
    host.authority = authority(SkillSourceKind::Host, "hub");
    assert!(listed_skill(host.clone(), &LIMITS).is_none());
    assert!(listed_skill(entry(&"p".repeat(65), "d"), &LIMITS).is_none());
    let mut long_resource = entry("p", "d");
    long_resource.main_prompt = SkillResourceId::new("r".repeat(65));
    assert!(listed_skill(long_resource, &LIMITS).is_none());
    let mut long_authority = entry("p", "d");
    long_authority.authority.id = "h".repeat(65);
    assert!(listed_skill(long_authority, &LIMITS).is_none());

    let page = list(LIMITS, None, &catalog(vec![host])).expect("page");
    assert!(page.skills.is_empty());
    assert!(page.truncated);
    assert_eq!(page.next_cursor, None);
}

#[test]
fn disabled_entries_are_not_missed() {
    let mut off = entry("p", "d");
    off.enabled = false;
    let page = list(LIMITS, None, &catalog(vec![off])).expect("page");
    assert!(page.skills.is_empty());
    assert!(!page.truncated);
}

#[test]
fn warnings_are_bounded() {
    let (kept, cut) = bounded_warnings(vec!["a".to_string(), "b".repeat(257)]);
    assert_eq!(kept, vec!["a".to_string(), "b".repeat(256)]);
    assert!(cut);
    let (kept, cut) = bounded_warnings(vec!["w".to_string(); 5]);
    assert_eq!(kept.len(), 4);
    assert!(cut);
    let (kept, cut) = bounded_warnings(vec!["w".to_string(); 4]);
    assert_eq!(kept.len(), 4);
    assert!(!cut);
}

#[test]
fn pages_follow_one_another() {
    let catalog = catalog(numbered(45));
    let mut cursor: Option<String> = None;
    let mut packages = Vec::new();
    let mut sizes = Vec::new();
    loop {
        let page = list(LIMITS, cursor.as_deref(), &catalog).expect("page");
        assert!(serialized_len(&page) <= LIMITS.output_bytes);
        assert_eq!(page.truncated, page.next_cursor.is_some());
        sizes.push(page.skills.len());
        packages.extend(page.skills.into_iter().map(|s| s.package));
        cursor = page.next_cursor;
        if cursor.is_none() {
            break;
        }
    }
    assert_eq!(sizes, vec![20, 20, 5]);
    let expected: Vec<String> = (0..45).map(|i| format!("p{i}")).collect();
    assert_eq!(packages, expected);
}

#[test]
fn at_most_a_hundred_skills_are_listed() {
    let full = catalog(numbered(101));
    let page = list(LIMITS, Some("80"), &full).expect("page");
    assert_eq!(page.skills.len(), 20);
    assert_eq!(page.next_cursor, None);
    assert!(page.truncated);
    let page = list(LIMITS, Some("100"), &full).expect("page");
    assert!(page.skills.is_empty());
    assert_eq!(
        list(LIMITS, Some("101"), &full),
        respond("skills.list cursor is out of range")
    );
}

#[test]
fn list_cursors_must_be_numbers() {
    let catalog = catalog(numbered(1));
    for cursor in ["", "x", "-1", "1 ", "99999999999999999999999999"] {
        assert_eq!(
            list(LIMITS, Some(cursor), &catalog),
            respond("invalid skills.list cursor")
        );
    }
    assert_eq!(list(LIMITS, Some("+0"), &catalog).expect("page").skills.len(), 1);
}

#[test]
fn a_page_takes_what_fits() {
    let limits = ToolLimits { output_bytes: 330, ..LIMITS };
    let catalog = catalog(numbered(5));
    let page = list(limits, None, &catalog).expect("page");
    assert_eq!(page.skills.len(), 2);
    assert_eq!(page.next_cursor, Some("2".to_string()));
    assert!(page.truncated);
    assert!(serialized_len(&page) <= 330);
}

#[test]
fn a_skill_that_never_fits_is_passed_over() {
    let limits = ToolLimits { output_bytes: 330, ..LIMITS };
    let mut entries = numbered(2);
    entries[0].description = "d".repeat(500);
    let page = list(limits, None, &catalog(entries)).expect("page");
    assert_eq!(page.skills.len(), 1);
    assert_eq!(page.skills[0].package, "p1");
    assert_eq!(page.next_cursor, None);
    assert!(page.truncated);
}

#[test]
fn pages_are_json() {
    let page = list(
        LIMITS,
        None,
        &SkillCatalog {
            entries: vec![entry("p\"\\\u{1}\n", "\u{e9}")],
            warnings: vec!["w".to_string()],
        },
    )
    .expect("page");
    let text = page.to_json();
    assert_eq!(
        text,
        "{\"skills\":[{\"authority\":{\"kind\":\"remote\",\"id\":\"hub\"},\
         \"package\":\"p\\\"\\\\\\u0001\\n\",\"name\":\"name p\\\"\\\\\\u0001\\n\",\
         \"description\":\"\u{e9}\",\"main_resource\":\"p\\\"\\\\\\u0001\\n/SKILL.md\"}],\
         \"next_cursor\":null,\"warnings\":[\"w\"],\"truncated\":false}"
    );
    assert_eq!(serialized_len(&page), text.len());
    let value: serde_json::Value = serde_json::from_str(&text).expect("valid");
    assert_eq!(value["skills"][0]["package"], "p\"\\\u{1}\n");
    assert_eq!(value["truncated"], false);
}

fn read_args(resource: &str, cursor: Option<&str>) -> ReadArgs {
    ReadArgs {
        authority: SkillAuthorityHandle { kind: "remote".to_string(), id: "hub".to_string() },
        package: "p".to_string(),
        resource: resource.to_string(),
        cursor: cursor.map(|c| c.to_string()),
    }
}

fn contents(resource: &str, text: &str) -> SkillReadResult {
    SkillReadResult {
        resource: SkillResourceId::new(resource.to_string()),
        contents: text.to_string(),
    }
}

#[test]
fn read_arguments_are_checked_in_order() {
    let tool = ReadTool { limits: LIMITS };
    let mut args = read_args(&"r".repeat(65), Some("x"));
    args.package = "p".repeat(65);
    args.authority.kind = "host".to_string();
    assert_eq!(tool.check(args.clone()).map(|_| ()), respond("unknown skill authority"));
    args.authority.kind = "remote".to_string();
    assert_eq!(
        tool.check(args.clone()).map(|_| ()),
        respond("package must be at most 64 bytes")
    );
    args.package = "p".to_string();
    assert_eq!(
        tool.check(args.clone()).map(|_| ()),
        respond("resource must be at most 64 bytes")
    );
    args.resource = "r".to_string();
    assert_eq!(tool.check(args.clone()).map(|_| ()), respond("invalid skills.read cursor"));
    args.cursor = Some("12".to_string());
    let read = tool.check(args).expect("checked");
    assert_eq!(read.cursor, 12);
    assert_eq!(read.authority, authority(SkillSourceKind::Remote, "hub"));
    assert_eq!(read.package, SkillPackageId("p".to_string()));
    assert_eq!(read.resource, SkillResourceId::new("r".to_string()));
}

#[test]
fn only_offered_packages_are_read() {
    let tool = ReadTool { limits: LIMITS };
    let read = tool.check(read_args("r", None)).expect("checked");
    assert_eq!(tool.authorize(&read, &catalog(vec![entry("q", "d"), entry("p", "d")])), Ok(()));
    let refused = respond("skill package is not available from the requested authority");
    assert_eq!(tool.authorize(&read, &catalog(vec![entry("q", "d")])), refused);
    let mut off = entry("p", "d");
    off.enabled = false;
    assert_eq!(tool.authorize(&read, &catalog(vec![off])), refused);
    let mut other = entry("p", "d");
    other.authority.id = "other".to_string();
    assert_eq!(tool.authorize(&read, &catalog(vec![other])), refused);
}

#[test]
fn what_is_listed_can_be_read() {
    let catalog = catalog(numbered(3));
    let tool = ReadTool { limits: LIMITS };
    for skill in list(LIMITS, None, &catalog).expect("page").skills {
        let read = tool
            .check(ReadArgs {
                authority: skill.authority,
                package: skill.package,
                resource: skill.main_resource,
                cursor: None,
            })
            .expect("checked");
        assert_eq!(tool.authorize(&read, &catalog), Ok(()));
    }
}

#[test]
fn answers_of_providers() {
    let tool = ReadTool { limits: LIMITS };
    let read = tool.check(read_args("r", None)).expect("checked");
    assert_eq!(
        tool.finish(&read, Err(SkillProviderError { message: "offline".to_string() })),
        respond("offline")
    );
    assert_eq!(
        tool.finish(&read, Ok(contents("other", "text"))),
        Err(FunctionCallError::Fatal(
            "skill provider returned a different resource".to_string()
        ))
    );
    let page = tool.finish(&read, Ok(contents("r", "text"))).expect("page");
    assert_eq!(page.resource, "r");
    assert_eq!(page.contents, "text");
    assert_eq!(page.next_cursor, None);
    assert!(!page.truncated);
    assert_eq!(
        page.to_json(),
        "{\"resource\":\"r\",\"contents\":\"text\",\"next_cursor\":null,\"truncated\":false}"
    );
}

#[test]
fn read_cursors_must_lie_between_characters() {
    let out_of_range = respond("skills.read cursor is out of range");
    assert_eq!(
        bounded_response(contents("r", "\u{e9}"), 1, &LIMITS).map(|_| ()),
        out_of_range
    );
    assert_eq!(
        bounded_response(contents("r", "\u{e9}"), 3, &LIMITS).map(|_| ()),
        out_of_range
    );
    let end = bounded_response(contents("r", "\u{e9}"), 2, &LIMITS).expect("page");
    assert_eq!(end.contents, "");
    assert!(!end.truncated);
}

#[test]
fn pages_of_a_resource_make_up_the_whole() {
    let limits = ToolLimits { output_bytes: 110, ..LIMITS };
    let text = "a\"b\\c\n\u{1}\u{e9}\u{20ac}\u{1f600}".repeat(20);
    let mut cursor: usize = 0;
    let mut whole = String::new();
    loop {
        let page = bounded_response(contents("r", &text), cursor, &limits).expect("page");
        assert!(page.to_json().len() <= 110);
        assert_eq!(page.truncated, page.next_cursor.is_some());
        whole.push_str(&page.contents);
        match page.next_cursor {
            Some(next) => {
                let next: usize = next.parse().expect("number");
                assert!(next > cursor);
                cursor = next;
            }
            None => break,
        }
    }
    assert_eq!(whole, text);
}

#[test]
fn escaped_lengths() {
    for (c, len) in [
        ('"', 2),
        ('\\', 2),
        ('\u{8}', 2),
        ('\u{c}', 2),
        ('\n', 2),
        ('\r', 2),
        ('\t', 2),
        ('\u{0}', 6),
        ('\u{1f}', 6),
        (' ', 1),
        ('\u{7f}', 1),
        ('\u{e9}', 2),
        ('\u{20ac}', 3),
        ('\u{1f600}', 4),
    ] {
        assert_eq!(json_escaped_len(c), len);
        let json = serde_json::to_string(&c.to_string()).expect("json");
        assert_eq!(json.len(), len + 2);
    }
}

#[test]
fn handles_are_bounded_by_bytes() {
    assert!(is_bounded_handle("\u{e9}", 2));
    assert!(!is_bounded_handle("\u{e9}", 1));
    assert_eq!(validate_handle("package", "ab", 2), Ok(()));
    assert_eq!(
        validate_handle("package", "abc", 2),
        respond("package must be at most 2 bytes")
    );
}

#[test]
fn handles_lead_back_to_their_authority() {
    let remote = authority(SkillSourceKind::Remote, "hub");
    let handle = SkillAuthorityHandle::from_authority(&remote).expect("handle");
    assert_eq!(handle.into_authority(), Ok(remote));
    assert!(
        SkillAuthorityHandle::from_authority(&authority(SkillSourceKind::Host, "hub")).is_none()
    );
}

#[test]
fn thread_state_keeps_its_roots() {
    let mut state = SkillsThreadState::new("first".to_string(), vec![1, 2]);
    assert_eq!(state.config(), "first");
    state.set_config("second".to_string());
    assert_eq!(state.config(), "second");
    assert_eq!(state.selected_roots(), &[1, 2]);
}

#[test]
fn a_turn_starts_without_skills() {
    let turn = SkillsTurnState::default();
    assert_eq!(turn.catalog, catalog(vec![]));
    assert!(turn.selected_entries.is_empty());
    assert!(turn.warnings.is_empty());
    assert!(!turn.main_prompts_injected);
}
