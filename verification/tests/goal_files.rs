use codex_host::app_server_path::AppServerPath;
use codex_host::goal_files::error::GoalError;
use codex_host::goal_files::materialize::{
    goal_plan, materialize_goal_draft, materialize_goal_objective, GoalDraft, GoalOperation,
    GoalPlan,
};
use codex_host::goal_files::placeholders::{active_placeholder_counts, take_active_placeholder};
use codex_host::goal_files::reference::{
    edit_source, has_normalization_component, objective_file_path, objective_file_reference,
    objective_text_from_file, parse_objective_file_path, EditSource,
};
use codex_host::text_elements::{expand_pending_pastes, ByteRange, TextElement};

const MAX_THREAD_GOAL_OBJECTIVE_CHARS: usize = 4000;

#[derive(Default)]
struct RecordingStore {
    writes: Vec<(String, Vec<u8>)>,
}

impl RecordingStore {
    fn run(&mut self, plan: GoalPlan) -> Result<String, GoalError> {
        for operation in plan.operations.iter() {
            if let GoalOperation::WriteFile { path, bytes } = operation {
                self.writes.push((path.as_str().to_string(), bytes.clone()));
            }
        }
        plan.finish(None)
    }

    fn read(&self, path: &AppServerPath) -> Result<Vec<u8>, String> {
        self.writes
            .iter()
            .find(|(write_path, _)| write_path == path.as_str())
            .map(|(_, bytes)| bytes.clone())
            .ok_or_else(|| "missing recording".to_string())
    }

    fn text_for_edit(
        &self,
        home: Option<&AppServerPath>,
        objective: &str,
    ) -> Result<String, GoalError> {
        match edit_source(objective, home) {
            EditSource::Inline(text) => Ok(text),
            EditSource::File(path) => objective_text_from_file(&path, self.read(&path)),
        }
    }
}

fn element(start: usize, placeholder: &str) -> TextElement {
    TextElement::new(
        ByteRange { start, end: start + placeholder.len() },
        Some(placeholder.to_string()),
    )
}

fn paste(placeholder: &str, text: &str) -> (String, String) {
    (placeholder.to_string(), text.to_string())
}

#[test]
fn materializes_active_paste_placeholder() {
    let placeholder = "[Pasted Content 5 chars]";
    let objective = format!(
        "Use {placeholder}. {}",
        "x".repeat(MAX_THREAD_GOAL_OBJECTIVE_CHARS + 1)
    );
    let codex_home = AppServerPath::from_app_server(r"C:\Users\codex\.codex");
    let mut store = RecordingStore::default();

    let plan = materialize_goal_draft(
        Some(&codex_home),
        GoalDraft {
            objective: objective.clone(),
            text_elements: vec![element(4, placeholder)],
            pending_pastes: vec![paste(placeholder, "hello")],
        },
        MAX_THREAD_GOAL_OBJECTIVE_CHARS,
    );
    let reference = store.run(plan).expect("materialize goal draft");

    let edit_text = store
        .text_for_edit(Some(&codex_home), &reference)
        .expect("read objective text");
    assert!(edit_text.contains(r"pasted text file: C:\Users\codex\.codex\attachments\"));
    assert!(edit_text.contains("Read this file before continuing."));
    assert!(store.writes.iter().any(|(_, bytes)| bytes == b"hello"));
}

#[test]
fn whitespace_paste_only_objective_is_empty() {
    let placeholder = "[Pasted Content 3 chars]";
    let mut store = RecordingStore::default();
    let codex_home = AppServerPath::from_app_server("/tmp/codex");

    let plan = materialize_goal_draft(
        Some(&codex_home),
        GoalDraft {
            objective: placeholder.to_string(),
            text_elements: vec![element(0, placeholder)],
            pending_pastes: vec![paste(placeholder, " \n\t")],
        },
        MAX_THREAD_GOAL_OBJECTIVE_CHARS,
    );
    assert!(plan.operations.is_empty());
    let err = store.run(plan).expect_err("whitespace-only paste should be rejected");

    assert_eq!(err.message(), "Goal objective must not be empty.");
    assert!(store.writes.is_empty());
}

#[test]
fn deleted_paste_placeholder_does_not_materialize_or_need_codex_home() {
    let mut store = RecordingStore::default();

    let plan = materialize_goal_draft(
        None,
        GoalDraft {
            objective: "small goal".to_string(),
            pending_pastes: vec![paste("[Pasted Content 5 chars]", "hello")],
            ..Default::default()
        },
        MAX_THREAD_GOAL_OBJECTIVE_CHARS,
    );
    assert!(plan.operations.is_empty());
    let objective = store.run(plan).expect("materialize plain goal draft");

    assert_eq!(objective, "small goal");
    assert!(store.writes.is_empty());
}

#[test]
fn plan_for_a_known_identifier() {
    let home = AppServerPath::from_app_server("/home/u/.codex");
    let draft = GoalDraft {
        objective: "  sum [a] and [b]  ".to_string(),
        text_elements: vec![element(6, "[a]"), element(14, "[b]")],
        pending_pastes: vec![paste("[a]", "one"), paste("[gone]", "two"), paste("[b]", "three")],
    };
    let id: u128 = 0x0123_4567_89ab_4def_8123_4567_89ab_cdef;
    let plan = goal_plan(draft, Some(&home), id, 400);
    let dir = "/home/u/.codex/attachments/01234567-89ab-4def-8123-456789abcdef";
    let path = |name: &str| AppServerPath::from_app_server(&format!("{dir}/{name}"));
    assert_eq!(
        plan.operations,
        vec![
            GoalOperation::CreateDirectory { path: AppServerPath::from_app_server(dir) },
            GoalOperation::WriteFile { path: path("pasted-text-1.txt"), bytes: b"one".to_vec() },
            GoalOperation::WriteFile { path: path("pasted-text-2.txt"), bytes: b"three".to_vec() },
        ]
    );
    assert_eq!(
        plan.outcome,
        Ok(format!(
            "sum pasted text file: {dir}/pasted-text-1.txt. Read this file before continuing. \
             and pasted text file: {dir}/pasted-text-2.txt. Read this file before continuing."
        ))
    );
}

#[test]
fn long_objective_goes_into_a_file_and_comes_back() {
    let home = AppServerPath::from_app_server("/srv/codex");
    let objective = "\u{e9}".repeat(300);
    let plan = materialize_goal_objective(Some(&home), objective.clone(), 200);
    assert_eq!(plan.operations.len(), 2);
    let mut store = RecordingStore::default();
    let kept = store.run(plan).expect("materialize");
    assert!(kept.chars().count() <= 200);
    assert!(kept.starts_with("Codex goal objective file: /srv/codex/attachments/"));
    assert!(kept.ends_with("goal-objective.md\nRead that Codex-created file before continuing."));
    let path = objective_file_path(&kept, Some(&home)).expect("reference leads back");
    assert_eq!(path.as_str(), store.writes[0].0);
    assert_eq!(store.text_for_edit(Some(&home), &kept), Ok(objective));
}

#[test]
fn new_directories_differ() {
    let home = AppServerPath::from_app_server("/h");
    let first = materialize_goal_objective(Some(&home), "xy".to_string(), 1);
    let second = materialize_goal_objective(Some(&home), "xy".to_string(), 1);
    assert_ne!(first.operations[0], second.operations[0]);
}

#[test]
fn limit_counts_characters() {
    let plan = materialize_goal_objective(None, "\u{e9}\u{e9}\u{e9}".to_string(), 3);
    assert_eq!(plan.outcome, Ok("\u{e9}\u{e9}\u{e9}".to_string()));
    let plan = materialize_goal_objective(None, "\u{e9}\u{e9}\u{e9}".to_string(), 2);
    assert_eq!(plan.outcome, Err(GoalError::MissingCodexHome));
    assert!(plan.operations.is_empty());
}

#[test]
fn paste_in_use_needs_codex_home() {
    let plan = materialize_goal_draft(
        None,
        GoalDraft {
            objective: "see [p]".to_string(),
            text_elements: vec![element(4, "[p]")],
            pending_pastes: vec![paste("[p]", "hello")],
        },
        100,
    );
    assert!(plan.operations.is_empty());
    let err = plan.finish(None).expect_err("no home");
    assert_eq!(
        err.message(),
        "App server did not report $CODEX_HOME; cannot materialize goal files"
    );
}

#[test]
fn blank_objective_is_refused() {
    let home = AppServerPath::from_app_server("/h");
    let plan = materialize_goal_objective(Some(&home), " \u{2003}\n".to_string(), 100);
    assert_eq!(plan.outcome, Err(GoalError::EmptyObjective));
    assert!(plan.operations.is_empty());
}

#[test]
fn too_long_reference_is_an_error_after_the_writes() {
    let home = AppServerPath::from_app_server("/h");
    let plan = materialize_goal_objective(Some(&home), "abcdef".to_string(), 5);
    assert_eq!(plan.operations.len(), 2);
    let err = plan.finish(None).expect_err("too long");
    assert_eq!(
        err.message(),
        "Goal objective file reference is too long: 144 characters. Limit: 5 characters."
    );
}

#[test]
fn failed_operations_are_reported() {
    let home = AppServerPath::from_app_server("/h");
    let id: u128 = 0;
    let draft = |objective: &str| GoalDraft {
        objective: objective.to_string(),
        ..Default::default()
    };
    let err = goal_plan(draft("abc"), Some(&home), id, 1)
        .finish(Some((0, "denied".to_string())))
        .expect_err("create");
    assert_eq!(
        err.message(),
        "Could not create goal attachment directory \
         /h/attachments/00000000-0000-0000-0000-000000000000"
    );
    let err = goal_plan(draft("abc"), Some(&home), id, 1)
        .finish(Some((1, "full".to_string())))
        .expect_err("write");
    assert_eq!(
        err.message(),
        "Could not write goal file \
         /h/attachments/00000000-0000-0000-0000-000000000000/goal-objective.md"
    );
}

#[test]
fn edit_errors() {
    let path = AppServerPath::from_app_server("/h/x.md");
    let err = objective_text_from_file(&path, Err("gone".to_string())).expect_err("read");
    assert_eq!(err.message(), "Could not read goal objective file /h/x.md");
    let err = objective_text_from_file(&path, Ok(vec![0xff, 0xfe])).expect_err("utf8");
    assert_eq!(err.message(), "Goal objective file /h/x.md is not valid UTF-8");
    assert_eq!(
        objective_text_from_file(&path, Ok("h\u{e9}".as_bytes().to_vec())),
        Ok("h\u{e9}".to_string())
    );
}

#[test]
fn references_are_recognised_strictly() {
    let home = AppServerPath::from_app_server("/h");
    let id = "01234567-89ab-4def-8123-456789abcdef";
    let instruction = "Read that Codex-created file before continuing.";
    let reference = |path: &str| format!("Codex goal objective file: {path}\n{instruction}");
    let good = format!("/h/attachments/{id}/goal-objective.md");

    assert!(objective_file_path(&reference(&good), Some(&home)).is_some());
    assert!(objective_file_path(&reference(&good), None).is_none());
    let other = AppServerPath::from_app_server("/other");
    assert!(objective_file_path(&reference(&good), Some(&other)).is_none());
    assert!(parse_objective_file_path(&reference(&good)).is_some());
    // White space around the path, a carriage return and further lines are let pass.
    let loose = format!("Codex goal objective file:  {good} \r\n{instruction}\r\nmore");
    assert!(parse_objective_file_path(&loose).is_some());

    assert!(parse_objective_file_path("plain objective").is_none());
    assert!(parse_objective_file_path("").is_none());
    assert!(parse_objective_file_path(&format!("Codex goal objective file: {good}")).is_none());
    assert!(parse_objective_file_path(&format!(
        "Codex goal objective file: {good}\n{instruction} "
    ))
    .is_none());
    assert!(parse_objective_file_path(&reference("")).is_none());
    assert!(parse_objective_file_path(&reference(&good[1..])).is_none());
    assert!(parse_objective_file_path(&reference("/h/attachments/no-uuid/goal-objective.md"))
        .is_none());
    assert!(parse_objective_file_path(&reference(&format!("/h/attachments/{id}/other.md")))
        .is_none());
    assert!(parse_objective_file_path(&reference(&format!("/h/elsewhere/{id}/goal-objective.md")))
        .is_none());
    assert!(parse_objective_file_path(&reference("/goal-objective.md")).is_none());
    let dotted = format!("/h/../h/attachments/{id}/goal-objective.md");
    assert!(parse_objective_file_path(&reference(&dotted)).is_some());
    assert!(objective_file_path(&reference(&dotted), Some(&home)).is_none());
}

#[test]
fn reference_text_and_limit() {
    let path = AppServerPath::from_app_server("/p");
    let text = "Codex goal objective file: /p\nRead that Codex-created file before continuing.";
    assert_eq!(objective_file_reference(&path, text.len()), Ok(text.to_string()));
    assert_eq!(
        objective_file_reference(&path, text.len() - 1),
        Err(GoalError::ReferenceTooLong { actual_chars: text.len(), limit: text.len() - 1 })
    );
}

#[test]
fn normalization_components() {
    assert!(has_normalization_component(&["a", "."]));
    assert!(has_normalization_component(&["..", "a"]));
    assert!(!has_normalization_component(&["a", "...", ".b"]));
    assert!(!has_normalization_component(&[]));
}

#[test]
fn placeholders_are_counted_and_used_up() {
    let objective = "[a] [b] [a]";
    let elements = vec![element(0, "[a]"), element(4, "[b]"), element(8, "[a]")];
    let pastes = vec![paste("[a]", "1"), paste("", "2"), paste("[c]", "3")];
    let mut counts = active_placeholder_counts(objective, &elements, &pastes);
    assert!(take_active_placeholder(&mut counts, "[a]"));
    assert!(take_active_placeholder(&mut counts, "[a]"));
    assert!(!take_active_placeholder(&mut counts, "[a]"));
    assert!(!take_active_placeholder(&mut counts, "[b]"));
    assert!(!take_active_placeholder(&mut counts, "[c]"));
    assert!(!take_active_placeholder(&mut counts, ""));
}

#[test]
fn pastes_replace_their_placeholders_in_order() {
    let s = "[a]-[a]-[b]";
    let elements = vec![element(8, "[b]"), element(0, "[a]"), element(4, "[a]")];
    let pastes = vec![paste("[a]", "first"), paste("[a]", "second")];
    assert_eq!(expand_pending_pastes(s, elements.clone(), &pastes), "first-second-[b]");
    assert_eq!(expand_pending_pastes(s, elements, &vec![]), s);
}

#[test]
fn app_server_paths() {
    let windows = AppServerPath::from_app_server(r"C:\a");
    assert_eq!(windows.join("b").as_str(), r"C:\a\b");
    assert_eq!(windows.join("b").components(), vec!["C:", "a", "b"]);
    let unix = AppServerPath::from_app_server("/a/");
    assert_eq!(unix.join("b").as_str(), "/a/b");
    assert_eq!(unix.join("b").components(), vec!["a", "b"]);
    assert!(AppServerPath::from_absolute_str("a/b").is_none());
    assert!(AppServerPath::from_absolute_str("/a").is_some());
}

#[test]
fn what_is_kept_is_trimmed_and_says_something() {
    let home = AppServerPath::from_app_server("/h");
    for (objective, limit) in [(" a b \n", 10), ("\u{a0}abc\u{3000}", 3), ("  long enough  ", 200)] {
        let plan = materialize_goal_objective(Some(&home), objective.to_string(), limit);
        let kept = plan.outcome.expect("kept");
        assert!(!kept.is_empty());
        assert_eq!(kept.trim(), kept);
    }
    // A paste for an empty placeholder is not in use; the text that it marks stays.
    let draft = GoalDraft {
        objective: "x".to_string(),
        text_elements: vec![TextElement::new(ByteRange { start: 0, end: 1 }, Some(String::new()))],
        pending_pastes: vec![paste("", "y")],
    };
    let plan = goal_plan(draft, None, 0, 10);
    assert!(plan.operations.is_empty());
    assert_eq!(plan.outcome, Ok("x".to_string()));
}
