//! Turning the draft of a goal into files and the objective that refers to them.
use crate::app_server_path;
use crate::app_server_path::AppServerPath;
use crate::decimal;
use crate::goal_files::error::{GoalError, GoalErrorView};
use crate::goal_files::placeholders;
use crate::goal_files::reference;
use crate::goal_files::reference::{GOAL_ATTACHMENT_DIR, GOAL_FILE_NAME};
use crate::ids;
use crate::text;
use crate::text_elements;
use crate::text_elements::{ElementView, Paste, PasteView, TextElement};
use vstd::prelude::*;
use vstd::utf8::*;

verus! {

/// A goal as the user typed it.
#[derive(Clone, Debug)]
pub struct GoalDraft {
    pub objective: String,
    pub text_elements: Vec<TextElement>,
    pub pending_pastes: Vec<Paste>,
}

/// The mathematical value of a draft.
pub struct DraftView {
    pub objective: Seq<char>,
    pub elements: Seq<ElementView>,
    pub pastes: Seq<PasteView>,
}

impl View for GoalDraft {
    type V = DraftView;

    open spec fn view(&self) -> DraftView {
        DraftView {
            objective: self.objective@,
            elements: text_elements::element_views(self.text_elements@),
            pastes: text_elements::paste_views(self.pending_pastes@),
        }
    }
}

/// The draft of an objective that nothing was pasted into.
pub open spec fn plain_draft(objective: Seq<char>) -> DraftView {
    DraftView { objective, elements: Seq::empty(), pastes: Seq::empty() }
}

impl Default for GoalDraft {
    fn default() -> (draft: GoalDraft)
        ensures
            draft@ == plain_draft(Seq::empty()),
    {
        let draft = GoalDraft {
            objective: String::new(),
            text_elements: Vec::new(),
            pending_pastes: Vec::new(),
        };
        assert(draft@.objective =~= Seq::empty());
        assert(draft@.elements =~= Seq::empty());
        assert(draft@.pastes =~= Seq::empty());
        draft
    }
}

/// An operation on the app server's files.
#[derive(Debug, PartialEq, Eq)]
pub enum GoalOperation {
    CreateDirectory { path: AppServerPath },
    WriteFile { path: AppServerPath, bytes: Vec<u8> },
}

/// The mathematical value of an operation.
pub enum GoalOperationView {
    CreateDirectory { path: Seq<char> },
    WriteFile { path: Seq<char>, bytes: Seq<u8> },
}

impl View for GoalOperation {
    type V = GoalOperationView;

    open spec fn view(&self) -> GoalOperationView {
        match *self {
            GoalOperation::CreateDirectory { path } => GoalOperationView::CreateDirectory {
                path: path@,
            },
            GoalOperation::WriteFile { path, bytes } => GoalOperationView::WriteFile {
                path: path@,
                bytes: bytes@,
            },
        }
    }
}

/// The values of a sequence of operations.
pub open spec fn operation_views(operations: Seq<GoalOperation>) -> Seq<GoalOperationView> {
    operations.map_values(|operation: GoalOperation| operation@)
}

/// The operations that a goal needs, in order, and what comes of the goal when
/// all of them succeed.
#[derive(Debug, PartialEq, Eq)]
pub struct GoalPlan {
    pub operations: Vec<GoalOperation>,
    pub outcome: Result<String, GoalError>,
}

/// The mathematical value of a plan.
pub struct PlanView {
    pub operations: Seq<GoalOperationView>,
    pub outcome: Result<Seq<char>, GoalErrorView>,
}

/// The value of the outcome of a goal.
pub open spec fn outcome_view(outcome: Result<String, GoalError>) -> Result<
    Seq<char>,
    GoalErrorView,
> {
    match outcome {
        Ok(objective) => Ok(objective@),
        Err(error) => Err(error@),
    }
}

impl View for GoalPlan {
    type V = PlanView;

    open spec fn view(&self) -> PlanView {
        PlanView {
            operations: operation_views(self.operations@),
            outcome: outcome_view(self.outcome),
        }
    }
}

/// Whether a draft says nothing, with or without what was pasted into it.
pub open spec fn says_nothing(draft: DraftView) -> bool {
    text::is_blank(draft.objective) || (draft.pastes.len() > 0 && text::is_blank(
        text_elements::expanded(draft.objective, draft.elements, draft.pastes),
    ))
}

/// Whether the `i`-th paste of a draft is still in use.
pub open spec fn in_use(draft: DraftView, i: int) -> bool {
    placeholders::is_active(draft.objective, draft.elements, draft.pastes, i)
}

/// How many of the first `i` pastes are still in use.
pub open spec fn active_upto(draft: DraftView, i: nat) -> nat
    decreases i,
{
    if i == 0 {
        0
    } else if in_use(draft, i - 1) {
        active_upto(draft, (i - 1) as nat) + 1
    } else {
        active_upto(draft, (i - 1) as nat)
    }
}

/// The name of the file for the `n`-th paste in use, counted from one.
pub open spec fn paste_name(n: nat) -> Seq<char> {
    "pasted-text-"@ + decimal::decimal(n) + ".txt"@
}

/// What an objective says in place of a pasted text.
pub open spec fn stand_in(path: Seq<char>) -> Seq<char> {
    "pasted text file: "@ + path + ". Read this file before continuing."@
}

/// The writes for those of the first `i` pastes that are still in use.
pub open spec fn paste_writes(draft: DraftView, dir: Seq<char>, i: nat) -> Seq<GoalOperationView>
    decreases i,
{
    if i == 0 {
        Seq::empty()
    } else {
        let before = paste_writes(draft, dir, (i - 1) as nat);
        if in_use(draft, i - 1) {
            before.push(
                GoalOperationView::WriteFile {
                    path: app_server_path::joined(dir, paste_name(active_upto(draft, i))),
                    bytes: encode_utf8(draft.pastes[i - 1].1),
                },
            )
        } else {
            before
        }
    }
}

/// What replaces those of the first `i` pastes that are still in use.
pub open spec fn stand_ins(draft: DraftView, dir: Seq<char>, i: nat) -> Seq<PasteView>
    decreases i,
{
    if i == 0 {
        Seq::empty()
    } else {
        let before = stand_ins(draft, dir, (i - 1) as nat);
        if in_use(draft, i - 1) {
            before.push(
                (
                    draft.pastes[i - 1].0,
                    stand_in(app_server_path::joined(dir, paste_name(active_upto(draft, i)))),
                ),
            )
        } else {
            before
        }
    }
}

/// How many pastes of a draft are still in use.
pub open spec fn active_count(draft: DraftView) -> nat {
    active_upto(draft, draft.pastes.len())
}

/// The objective of a draft, with references in place of the pastes in use.
pub open spec fn full_objective(draft: DraftView, dir: Seq<char>) -> Seq<char> {
    text::trimmed(
        text_elements::expanded(
            draft.objective,
            draft.elements,
            stand_ins(draft, dir, draft.pastes.len()),
        ),
    )
}

/// The creation of a goal's directory and the writes of its pastes.
pub open spec fn paste_operations(draft: DraftView, dir: Seq<char>) -> Seq<GoalOperationView> {
    if active_count(draft) == 0 {
        Seq::empty()
    } else {
        seq![GoalOperationView::CreateDirectory { path: dir }] + paste_writes(
            draft,
            dir,
            draft.pastes.len(),
        )
    }
}

/// The operations for a draft whose objective goes into a file of its own.
pub open spec fn long_operations(draft: DraftView, dir: Seq<char>) -> Seq<GoalOperationView> {
    seq![GoalOperationView::CreateDirectory { path: dir }] + paste_writes(
        draft,
        dir,
        draft.pastes.len(),
    ).push(
        GoalOperationView::WriteFile {
            path: reference::goal_file(dir),
            bytes: encode_utf8(full_objective(draft, dir)),
        },
    )
}

/// What becomes of a long objective: the reference to its file, where that is
/// within the limit.
pub open spec fn long_outcome(dir: Seq<char>, max_chars: nat) -> Result<Seq<char>, GoalErrorView> {
    let objective = reference::reference_text(reference::goal_file(dir));
    if objective.len() <= max_chars {
        Ok(objective)
    } else {
        Err(GoalErrorView::ReferenceTooLong { actual_chars: objective.len(), limit: max_chars })
    }
}

/// The directory for the files of a goal, where there is a home directory.
pub open spec fn output_dir(home: Option<Seq<char>>, id: u128) -> Seq<char> {
    match home {
        Some(home) => reference::attachment_dir(home, id),
        None => Seq::empty(),
    }
}

/// A plan that does nothing and fails.
pub open spec fn refusal(error: GoalErrorView) -> PlanView {
    PlanView { operations: Seq::empty(), outcome: Err(error) }
}

/// What is done for a draft.
///
/// Pastes in use go into files of their own; an objective that is over the limit
/// afterwards goes into a file too. A directory for these files is created only
/// where there is something to put into it, and only then is a home directory
/// needed.
pub open spec fn plan_of(
    draft: DraftView,
    home: Option<Seq<char>>,
    id: u128,
    max_chars: nat,
) -> PlanView {
    let dir = output_dir(home, id);
    if says_nothing(draft) {
        refusal(GoalErrorView::EmptyObjective)
    } else if home is None && active_count(draft) > 0 {
        refusal(GoalErrorView::MissingCodexHome)
    } else if full_objective(draft, dir).len() <= max_chars {
        PlanView {
            operations: paste_operations(draft, dir),
            outcome: Ok(full_objective(draft, dir)),
        }
    } else if home is None {
        refusal(GoalErrorView::MissingCodexHome)
    } else {
        PlanView {
            operations: long_operations(draft, dir),
            outcome: long_outcome(dir, max_chars),
        }
    }
}

proof fn lemma_active_monotone(draft: DraftView, i: nat, j: nat)
    requires
        i <= j,
    ensures
        active_upto(draft, i) <= active_upto(draft, j),
    decreases j,
{
    if i < j {
        lemma_active_monotone(draft, i, (j - 1) as nat);
    }
}

/// Where no paste is in use there is nothing to write and nothing to replace.
proof fn lemma_none_active(draft: DraftView, dir: Seq<char>, i: nat)
    requires
        active_upto(draft, i) == 0,
    ensures
        paste_writes(draft, dir, i) == Seq::<GoalOperationView>::empty(),
        stand_ins(draft, dir, i) == Seq::<PasteView>::empty(),
    decreases i,
{
    if i > 0 {
        lemma_active_monotone(draft, (i - 1) as nat, i);
        lemma_none_active(draft, dir, (i - 1) as nat);
    }
}

fn paste_path(dir: &AppServerPath, n: usize) -> (path: AppServerPath)
    ensures
        path@ == app_server_path::joined(dir@, paste_name(n as nat)),
{
    let mut name = "pasted-text-".to_owned();
    decimal::push_decimal(&mut name, n);
    name.append(".txt");
    dir.join(name.as_str())
}

fn stand_in_text(path: &AppServerPath) -> (res: String)
    ensures
        res@ == stand_in(path@),
{
    let mut out = "pasted text file: ".to_owned();
    out.append(path.as_str());
    out.append(". Read this file before continuing.");
    out
}

fn goal_dir(home: &AppServerPath, id: u128) -> (dir: AppServerPath)
    ensures
        dir@ == reference::attachment_dir(home@, id),
{
    let attachments = home.join(GOAL_ATTACHMENT_DIR);
    let name = ids::attachment_text(id);
    attachments.join(name.as_str())
}

fn blank(s: &str) -> (res: bool)
    ensures
        res == text::is_blank(s@),
{
    proof {
        text::lemma_trimmed_blank(s@);
    }
    text::trim(s).is_empty()
}

fn refuse(error: GoalError) -> (plan: GoalPlan)
    ensures
        plan@ == refusal(error@),
{
    let operations: Vec<GoalOperation> = Vec::new();
    assert(operation_views(operations@) =~= Seq::empty());
    GoalPlan { operations, outcome: Err(error) }
}

/// For each paste of a draft whether it is still in use, found by using up the
/// showings of the placeholders.
fn pastes_in_use(draft: &GoalDraft) -> (in_use_flags: Vec<bool>)
    ensures
        in_use_flags@.len() == draft@.pastes.len(),
        forall|i: int|
            0 <= i < draft@.pastes.len() ==> #[trigger] in_use_flags@[i] == in_use(draft@, i),
{
    let mut counts = placeholders::active_placeholder_counts(
        draft.objective.as_str(),
        &draft.text_elements,
        &draft.pending_pastes,
    );
    let pastes = &draft.pending_pastes;
    let ghost all = draft@.pastes;
    let mut flags: Vec<bool> = Vec::new();
    let mut i: usize = 0;
    while i < pastes.len()
        invariant
            pastes@ == draft.pending_pastes@,
            all == draft@.pastes,
            all.len() == pastes@.len(),
            i <= pastes@.len(),
            flags@.len() == i,
            forall|j: int| 0 <= j < i ==> #[trigger] flags@[j] == in_use(draft@, j),
            forall|p: Seq<char>| #[trigger]
                counts@.contains_key(p) <==> placeholders::is_pending(all, p),
            forall|p: Seq<char>| #[trigger]
                counts@.contains_key(p) ==> counts@[p] == left_after(draft@, p, i as nat),
        decreases pastes@.len() - i,
    {
        let placeholder = pastes[i].0.as_str();
        assert(all[i as int].0 == placeholder@);
        assert(placeholder@.len() > 0 ==> placeholders::is_pending(all, placeholder@));
        let ghost before = counts@;
        assert(before.contains_key(placeholder@) ==> before[placeholder@] == left_after(
            draft@,
            placeholder@,
            i as nat,
        ));
        let taken = placeholders::take_active_placeholder(&mut counts, placeholder);
        assert(taken == in_use(draft@, i as int));
        flags.push(taken);
        i = i + 1;
    }
    flags
}

/// How many showings of a placeholder the first `i` pastes leave over.
spec fn left_after(draft: DraftView, placeholder: Seq<char>, i: nat) -> int {
    let shown = placeholders::shown_count(draft.objective, draft.elements, placeholder);
    let used = placeholders::pastes_before(draft.pastes, placeholder, i);
    if used < shown {
        shown - used
    } else {
        0
    }
}

fn any_of(flags: &Vec<bool>, Ghost(draft): Ghost<DraftView>) -> (res: bool)
    requires
        flags@.len() == draft.pastes.len(),
        forall|i: int| 0 <= i < flags@.len() ==> #[trigger] flags@[i] == in_use(draft, i),
    ensures
        res == (active_count(draft) > 0),
{
    let mut i: usize = 0;
    while i < flags.len()
        invariant
            flags@.len() == draft.pastes.len(),
            forall|j: int| 0 <= j < flags@.len() ==> #[trigger] flags@[j] == in_use(draft, j),
            i <= flags@.len(),
            active_upto(draft, i as nat) == 0,
        decreases flags@.len() - i,
    {
        assert(flags@[i as int] == in_use(draft, i as int));
        if flags[i] {
            proof {
                lemma_active_monotone(draft, (i + 1) as nat, draft.pastes.len());
            }
            return true;
        }
        i = i + 1;
    }
    false
}

/// The writes of the pastes in use, and what replaces these in the objective.
fn write_pastes(draft: &GoalDraft, flags: &Vec<bool>, dir: &AppServerPath) -> (res: (
    Vec<GoalOperation>,
    Vec<Paste>,
))
    requires
        flags@.len() == draft@.pastes.len(),
        forall|i: int| 0 <= i < flags@.len() ==> #[trigger] flags@[i] == in_use(draft@, i),
    ensures
        operation_views(res.0@) == seq![GoalOperationView::CreateDirectory { path: dir@ }]
            + paste_writes(draft@, dir@, draft@.pastes.len()),
        text_elements::paste_views(res.1@) == stand_ins(draft@, dir@, draft@.pastes.len()),
{
    let mut operations: Vec<GoalOperation> = Vec::new();
    let mut replacements: Vec<Paste> = Vec::new();
    operations.push(GoalOperation::CreateDirectory { path: dir.clone() });
    let ghost head = seq![GoalOperationView::CreateDirectory { path: dir@ }];
    assert(operation_views(operations@) =~= head + paste_writes(draft@, dir@, 0));
    assert(text_elements::paste_views(replacements@) =~= stand_ins(draft@, dir@, 0));
    let mut paste_idx: usize = 0;
    let mut i: usize = 0;
    while i < flags.len()
        invariant
            flags@.len() == draft@.pastes.len(),
            draft@.pastes.len() == draft.pending_pastes@.len(),
            forall|j: int| 0 <= j < flags@.len() ==> #[trigger] flags@[j] == in_use(draft@, j),
            i <= flags@.len(),
            paste_idx == active_upto(draft@, i as nat),
            paste_idx <= i,
            head == seq![GoalOperationView::CreateDirectory { path: dir@ }],
            operation_views(operations@) == head + paste_writes(draft@, dir@, i as nat),
            text_elements::paste_views(replacements@) == stand_ins(draft@, dir@, i as nat),
        decreases flags@.len() - i,
    {
        let ghost operations_before = operation_views(operations@);
        let ghost replacements_before = text_elements::paste_views(replacements@);
        assert(flags@[i as int] == in_use(draft@, i as int));
        if flags[i] {
            paste_idx = paste_idx + 1;
            let path = paste_path(dir, paste_idx);
            let paste = &draft.pending_pastes[i];
            assert(draft@.pastes[i as int] == (paste.0@, paste.1@));
            let replacement = (paste.0.clone(), stand_in_text(&path));
            let operation = GoalOperation::WriteFile { path, bytes: paste.1.as_str().as_bytes_vec() };
            operations.push(operation);
            replacements.push(replacement);
            assert(operation_views(operations@) =~= operations_before.push(operation@));
            assert(operation_views(operations@) =~= head + paste_writes(
                draft@,
                dir@,
                (i + 1) as nat,
            ));
            assert(text_elements::paste_views(replacements@) =~= stand_ins(
                draft@,
                dir@,
                (i + 1) as nat,
            ));
        }
        i = i + 1;
    }
    (operations, replacements)
}

/// What is done for a draft whose files go into the directory with the given
/// identifier.
pub fn goal_plan(
    draft: GoalDraft,
    codex_home: Option<&AppServerPath>,
    id: u128,
    max_chars: usize,
) -> (plan: GoalPlan)
    ensures
        plan@ == plan_of(draft@, reference::path_view(codex_home), id, max_chars as nat),
{
    let ghost home = reference::path_view(codex_home);
    if blank(draft.objective.as_str()) {
        return refuse(GoalError::EmptyObjective);
    }
    if draft.pending_pastes.len() > 0 {
        let expanded = text_elements::expand_pending_pastes(
            draft.objective.as_str(),
            clone_elements(&draft.text_elements),
            &draft.pending_pastes,
        );
        if blank(expanded.as_str()) {
            return refuse(GoalError::EmptyObjective);
        }
    }
    let flags = pastes_in_use(&draft);
    let any = any_of(&flags, Ghost(draft@));
    let dir = match codex_home {
        Some(home) => Some(goal_dir(home, id)),
        None => None,
    };
    let mut operations: Vec<GoalOperation> = Vec::new();
    let mut replacements: Vec<Paste> = Vec::new();
    let ghost at = output_dir(home, id);
    proof {
        if active_count(draft@) == 0 {
            lemma_none_active(draft@, at, draft@.pastes.len());
        }
    }
    if any {
        match &dir {
            None => {
                return refuse(GoalError::MissingCodexHome);
            },
            Some(dir) => {
                let written = write_pastes(&draft, &flags, dir);
                operations = written.0;
                replacements = written.1;
            },
        }
    }
    assert(operation_views(operations@) =~= paste_operations(draft@, at));
    assert(text_elements::paste_views(replacements@) =~= stand_ins(
        draft@,
        at,
        draft@.pastes.len(),
    ));
    let expanded = text_elements::expand_pending_pastes(
        draft.objective.as_str(),
        clone_elements(&draft.text_elements),
        &replacements,
    );
    let objective = text::trim(expanded.as_str());
    assert(objective@ == full_objective(draft@, at));
    if objective.unicode_len() <= max_chars {
        return GoalPlan { operations, outcome: Ok(objective.to_owned()) };
    }
    let dir = match dir {
        None => {
            return refuse(GoalError::MissingCodexHome);
        },
        Some(dir) => dir,
    };
    if !any {
        operations.push(GoalOperation::CreateDirectory { path: dir.clone() });
    }
    let ghost before = seq![GoalOperationView::CreateDirectory { path: at }] + paste_writes(
        draft@,
        at,
        draft@.pastes.len(),
    );
    assert(operation_views(operations@) =~= before);
    let path = dir.join(GOAL_FILE_NAME);
    let outcome = reference::objective_file_reference(&path, max_chars);
    let operation = GoalOperation::WriteFile { path, bytes: objective.as_bytes_vec() };
    operations.push(operation);
    assert(operation_views(operations@) =~= before.push(operation@));
    assert(operation_views(operations@) =~= long_operations(draft@, at));
    GoalPlan { operations, outcome }
}

fn clone_elements(elements: &Vec<TextElement>) -> (res: Vec<TextElement>)
    ensures
        text_elements::element_views(res@) == text_elements::element_views(elements@),
{
    let mut res: Vec<TextElement> = Vec::new();
    let mut i: usize = 0;
    while i < elements.len()
        invariant
            i <= elements@.len(),
            res@.len() == i,
            forall|j: int| 0 <= j < i ==> (#[trigger] res@[j])@ == elements@[j]@,
        decreases elements@.len() - i,
    {
        res.push(elements[i].clone());
        i = i + 1;
    }
    assert(text_elements::element_views(res@) =~= text_elements::element_views(elements@));
    res
}

/// What is done for a draft; its files go into a new directory.
pub fn materialize_goal_draft(
    codex_home: Option<&AppServerPath>,
    draft: GoalDraft,
    max_chars: usize,
) -> (plan: GoalPlan)
    ensures
        exists|id: u128|
            ids::is_drawn(id) && plan@ == #[trigger] plan_of(
                draft@,
                reference::path_view(codex_home),
                id,
                max_chars as nat,
            ),
{
    let id = ids::new_attachment_id();
    goal_plan(draft, codex_home, id, max_chars)
}

/// What is done for an objective that nothing was pasted into.
pub fn materialize_goal_objective(
    codex_home: Option<&AppServerPath>,
    objective: String,
    max_chars: usize,
) -> (plan: GoalPlan)
    ensures
        exists|id: u128|
            ids::is_drawn(id) && plan@ == #[trigger] plan_of(
                plain_draft(objective@),
                reference::path_view(codex_home),
                id,
                max_chars as nat,
            ),
{
    let ghost typed = objective@;
    let draft = GoalDraft {
        objective,
        text_elements: Vec::new(),
        pending_pastes: Vec::new(),
    };
    assert(draft@.elements =~= Seq::empty());
    assert(draft@.pastes =~= Seq::empty());
    assert(draft@ == plain_draft(typed));
    materialize_goal_draft(codex_home, draft, max_chars)
}

/// The error for an operation that failed.
pub open spec fn failure_of(operation: GoalOperationView, cause: Seq<char>) -> GoalErrorView {
    match operation {
        GoalOperationView::CreateDirectory { path } => GoalErrorView::CreateDirectory {
            path,
            cause,
        },
        GoalOperationView::WriteFile { path, .. } => GoalErrorView::WriteFile { path, cause },
    }
}

impl GoalOperation {
    /// The error for this operation where it failed.
    pub fn failure(&self, cause: String) -> (error: GoalError)
        ensures
            error@ == failure_of(self@, cause@),
    {
        match self {
            GoalOperation::CreateDirectory { path } => GoalError::CreateDirectory {
                path: path.clone(),
                cause,
            },
            GoalOperation::WriteFile { path, .. } => GoalError::WriteFile {
                path: path.clone(),
                cause,
            },
        }
    }
}

impl GoalPlan {
    /// What comes of the goal, given the first operation that failed, if one did.
    pub fn finish(self, failed: Option<(usize, String)>) -> (res: Result<String, GoalError>)
        requires
            failed matches Some(f) ==> f.0 < self.operations@.len(),
        ensures
            outcome_view(res) == match failed {
                Some(f) => Err(failure_of(self@.operations[f.0 as int], f.1@)),
                None => self@.outcome,
            },
    {
        match failed {
            Some((i, cause)) => Err(self.operations[i].failure(cause)),
            None => self.outcome,
        }
    }
}

/// The path that an operation is about.
pub open spec fn path_of(operation: GoalOperationView) -> Seq<char> {
    match operation {
        GoalOperationView::CreateDirectory { path } => path,
        GoalOperationView::WriteFile { path, .. } => path,
    }
}

/// The objective that is kept never exceeds the limit.
pub proof fn law_kept_within_limit(
    draft: DraftView,
    home: Option<Seq<char>>,
    id: u128,
    max_chars: nat,
)
    ensures
        plan_of(draft, home, id, max_chars).outcome matches Ok(t) ==> t.len() <= max_chars,
{
}

proof fn lemma_stand_ins_say_something(draft: DraftView, dir: Seq<char>, n: nat)
    ensures
        forall|i: int|
            0 <= i < stand_ins(draft, dir, n).len() ==> !text::is_blank(
                (#[trigger] stand_ins(draft, dir, n)[i]).1,
            ),
    decreases n,
{
    if n > 0 {
        lemma_stand_ins_say_something(draft, dir, (n - 1) as nat);
        let path = app_server_path::joined(dir, paste_name(active_upto(draft, n)));
        reveal_strlit("pasted text file: ");
        assert(stand_in(path)[0] == 'p');
        assert(!text::is_white(stand_in(path)[0]));
        assert(!text::is_blank(stand_in(path)));
        let before = stand_ins(draft, dir, (n - 1) as nat);
        let now = stand_ins(draft, dir, n);
        assert forall|i: int| 0 <= i < now.len() implies !text::is_blank(
            (#[trigger] now[i]).1,
        ) by {
            if i < before.len() {
                assert(now[i] == before[i]);
            }
        }
    }
}

/// An objective that is kept says something, and has no white space at either
/// end.
pub proof fn law_kept_says_something(
    draft: DraftView,
    home: Option<Seq<char>>,
    id: u128,
    max_chars: nat,
)
    ensures
        plan_of(draft, home, id, max_chars).outcome matches Ok(t) ==> t.len() > 0
            && text::trimmed(t) == t,
{
    let dir = output_dir(home, id);
    let replaced = stand_ins(draft, dir, draft.pastes.len());
    let whole = text_elements::expanded(draft.objective, draft.elements, replaced);
    if !says_nothing(draft) {
        lemma_stand_ins_say_something(draft, dir, draft.pastes.len());
        text_elements::law_expansion_is_not_blank(draft.objective, draft.elements, replaced);
        text::lemma_trimmed_blank(whole);
        text::lemma_trimmed_twice(whole);
        let kept = reference::reference_text(reference::goal_file(dir));
        reveal_strlit("Codex goal objective file: ");
        reveal_strlit("Read that Codex-created file before continuing.");
        assert(kept[0] == 'C');
        assert(kept.last() == '.');
        text::lemma_trimmed_same(kept);
    }
}

/// A draft that says nothing is refused without touching a file.
pub proof fn law_empty_draft_refused(
    draft: DraftView,
    home: Option<Seq<char>>,
    id: u128,
    max_chars: nat,
)
    ensures
        plan_of(draft, home, id, max_chars).outcome == Err::<Seq<char>, GoalErrorView>(
            GoalErrorView::EmptyObjective,
        ) <==> says_nothing(draft),
        says_nothing(draft) ==> plan_of(draft, home, id, max_chars).operations.len() == 0,
{
}

/// A short draft with no paste in use needs no file and no home directory.
pub proof fn law_short_draft_needs_no_files(
    draft: DraftView,
    home: Option<Seq<char>>,
    id: u128,
    max_chars: nat,
)
    requires
        !says_nothing(draft),
        active_count(draft) == 0,
        text::trimmed(draft.objective).len() <= max_chars,
    ensures
        plan_of(draft, home, id, max_chars) == (PlanView {
            operations: Seq::empty(),
            outcome: Ok(text::trimmed(draft.objective)),
        }),
{
    lemma_none_active(draft, output_dir(home, id), draft.pastes.len());
}

/// A failure for want of a home directory leaves nothing behind.
pub proof fn law_missing_home_touches_nothing(draft: DraftView, id: u128, max_chars: nat)
    ensures
        plan_of(draft, None, id, max_chars).operations.len() == 0,
{
}

/// The file that a long objective goes into is the one that its reference leads
/// to, and holds that objective.
pub proof fn law_long_objective_read_back(
    draft: DraftView,
    home: Seq<char>,
    id: u128,
    max_chars: nat,
)
    requires
        reference::is_referable_home(home),
        !says_nothing(draft),
        full_objective(draft, reference::attachment_dir(home, id)).len() > max_chars,
    ensures
        ({
            let dir = reference::attachment_dir(home, id);
            let plan = plan_of(draft, Some(home), id, max_chars);
            let bytes = encode_utf8(full_objective(draft, dir));
            &&& plan.operations.last() == GoalOperationView::WriteFile {
                path: reference::goal_file(dir),
                bytes,
            }
            &&& plan.outcome matches Ok(kept) ==> reference::objective_file(kept, Some(home))
                == Some(reference::goal_file(dir))
            &&& valid_utf8(bytes)
            &&& decode_utf8(bytes) == full_objective(draft, dir)
        }),
{
    let dir = reference::attachment_dir(home, id);
    reference::law_reference_leads_back(home, id);
    encode_utf8_valid_utf8(full_objective(draft, dir));
    encode_utf8_decode_utf8(full_objective(draft, dir));
}

proof fn lemma_paste_write(draft: DraftView, dir: Seq<char>, n: nat, i: int)
    requires
        0 <= i < n,
        in_use(draft, i),
    ensures
        paste_writes(draft, dir, n).len() == active_upto(draft, n),
        active_upto(draft, i as nat) < active_upto(draft, n),
        paste_writes(draft, dir, n)[active_upto(draft, i as nat) as int]
            == (GoalOperationView::WriteFile {
            path: app_server_path::joined(dir, paste_name(active_upto(draft, i as nat) + 1)),
            bytes: encode_utf8(draft.pastes[i].1),
        }),
    decreases n,
{
    lemma_paste_writes_len(draft, dir, n);
    lemma_paste_writes_len(draft, dir, (n - 1) as nat);
    if i < n - 1 {
        lemma_paste_write(draft, dir, (n - 1) as nat, i);
    }
}

proof fn lemma_paste_writes_len(draft: DraftView, dir: Seq<char>, n: nat)
    ensures
        paste_writes(draft, dir, n).len() == active_upto(draft, n),
    decreases n,
{
    if n > 0 {
        lemma_paste_writes_len(draft, dir, (n - 1) as nat);
    }
}

/// Every paste in use is written to a file, byte for byte.
pub proof fn law_pastes_written(
    draft: DraftView,
    home: Seq<char>,
    id: u128,
    max_chars: nat,
    i: int,
)
    requires
        !says_nothing(draft),
        0 <= i < draft.pastes.len(),
        in_use(draft, i),
    ensures
        ({
            let plan = plan_of(draft, Some(home), id, max_chars);
            let n = active_upto(draft, i as nat) + 1;
            &&& n < plan.operations.len()
            &&& plan.operations[n as int] == GoalOperationView::WriteFile {
                path: app_server_path::joined(
                    reference::attachment_dir(home, id),
                    paste_name(n),
                ),
                bytes: encode_utf8(draft.pastes[i].1),
            }
        }),
{
    lemma_paste_write(
        draft,
        reference::attachment_dir(home, id),
        draft.pastes.len(),
        i,
    );
}

proof fn lemma_paste_write_at(draft: DraftView, dir: Seq<char>, n: nat, k: int)
    requires
        0 <= k < paste_writes(draft, dir, n).len(),
    ensures
        path_of(paste_writes(draft, dir, n)[k]) == app_server_path::joined(
            dir,
            paste_name((k + 1) as nat),
        ),
        paste_writes(draft, dir, n)[k] is WriteFile,
    decreases n,
{
    lemma_paste_writes_len(draft, dir, n);
    if n > 0 {
        lemma_paste_writes_len(draft, dir, (n - 1) as nat);
        if k < paste_writes(draft, dir, (n - 1) as nat).len() {
            lemma_paste_write_at(draft, dir, (n - 1) as nat, k);
        }
    }
}

/// The name of the file that the `k`-th operation of a plan writes.
pub open spec fn file_name_at(draft: DraftView, k: int) -> Seq<char> {
    if k <= active_count(draft) {
        paste_name(k as nat)
    } else {
        GOAL_FILE_NAME@
    }
}

/// A plan that touches files creates the goal's directory first, and afterwards
/// only writes files in it.
pub proof fn law_operations_stay_in_directory(
    draft: DraftView,
    home: Seq<char>,
    id: u128,
    max_chars: nat,
    k: int,
)
    requires
        0 <= k < plan_of(draft, Some(home), id, max_chars).operations.len(),
    ensures
        ({
            let operation = plan_of(draft, Some(home), id, max_chars).operations[k];
            let dir = reference::attachment_dir(home, id);
            if k == 0 {
                operation == (GoalOperationView::CreateDirectory { path: dir })
            } else {
                operation is WriteFile && path_of(operation) == app_server_path::joined(
                    dir,
                    file_name_at(draft, k),
                )
            }
        }),
{
    let dir = reference::attachment_dir(home, id);
    let writes = paste_writes(draft, dir, draft.pastes.len());
    lemma_paste_writes_len(draft, dir, draft.pastes.len());
    if 0 < k <= writes.len() {
        lemma_paste_write_at(draft, dir, draft.pastes.len(), k - 1);
    }
}

proof fn lemma_joined_injective(dir: Seq<char>, a: Seq<char>, b: Seq<char>)
    requires
        app_server_path::joined(dir, a) == app_server_path::joined(dir, b),
    ensures
        a == b,
{
    let joined = app_server_path::joined(dir, a);
    let start = joined.len() - a.len();
    assert(joined.len() - b.len() == start);
    assert(joined.skip(start) =~= a);
    assert(app_server_path::joined(dir, b).skip(start) =~= b);
}

proof fn lemma_paste_names(m: nat, n: nat)
    ensures
        paste_name(m) == paste_name(n) ==> m == n,
        paste_name(m) != GOAL_FILE_NAME@,
{
    reveal_strlit("pasted-text-");
    reveal_strlit(".txt");
    reveal_strlit("goal-objective.md");
    assert(paste_name(m)[0] == 'p');
    assert(GOAL_FILE_NAME@[0] == 'g');
    if paste_name(m) == paste_name(n) {
        let a = decimal::decimal(m);
        let b = decimal::decimal(n);
        assert(paste_name(m).len() == a.len() + 16);
        assert(paste_name(n).len() == b.len() + 16);
        assert(paste_name(m).subrange(12, 12 + a.len() as int) =~= a);
        assert(paste_name(n).subrange(12, 12 + b.len() as int) =~= b);
        decimal::law_decimal_round_trip(m);
        decimal::law_decimal_round_trip(n);
    }
}

/// No two operations of a plan write the same file.
pub proof fn law_writes_are_distinct(
    draft: DraftView,
    home: Seq<char>,
    id: u128,
    max_chars: nat,
    j: int,
    k: int,
)
    requires
        0 < j < k < plan_of(draft, Some(home), id, max_chars).operations.len(),
    ensures
        path_of(plan_of(draft, Some(home), id, max_chars).operations[j]) != path_of(
            plan_of(draft, Some(home), id, max_chars).operations[k],
        ),
{
    let dir = reference::attachment_dir(home, id);
    law_operations_stay_in_directory(draft, home, id, max_chars, j);
    law_operations_stay_in_directory(draft, home, id, max_chars, k);
    lemma_paste_writes_len(draft, dir, draft.pastes.len());
    lemma_paste_names(j as nat, k as nat);
    if app_server_path::joined(dir, file_name_at(draft, j)) == app_server_path::joined(
        dir,
        file_name_at(draft, k),
    ) {
        lemma_joined_injective(dir, file_name_at(draft, j), file_name_at(draft, k));
    }
}

proof fn lemma_stand_in_at(draft: DraftView, dir: Seq<char>, n: nat, i: int)
    requires
        0 <= i < n,
        in_use(draft, i),
    ensures
        stand_ins(draft, dir, n).len() == active_upto(draft, n),
        active_upto(draft, i as nat) < active_upto(draft, n),
        stand_ins(draft, dir, n)[active_upto(draft, i as nat) as int] == (
            draft.pastes[i].0,
            stand_in(
                app_server_path::joined(dir, paste_name(active_upto(draft, i as nat) + 1)),
            ),
        ),
    decreases n,
{
    lemma_stand_ins_len(draft, dir, n);
    lemma_stand_ins_len(draft, dir, (n - 1) as nat);
    if i < n - 1 {
        lemma_stand_in_at(draft, dir, (n - 1) as nat, i);
    }
}

proof fn lemma_stand_ins_len(draft: DraftView, dir: Seq<char>, n: nat)
    ensures
        stand_ins(draft, dir, n).len() == active_upto(draft, n),
    decreases n,
{
    if n > 0 {
        lemma_stand_ins_len(draft, dir, (n - 1) as nat);
    }
}

/// The pastes in use are numbered in their order, without a gap.
pub proof fn law_pastes_in_use_are_counted(draft: DraftView, i: nat)
    requires
        i <= draft.pastes.len(),
    ensures
        active_upto(draft, i) == Seq::new(i, |k: int| k).filter(
            |k: int|
                placeholders::is_active(draft.objective, draft.elements, draft.pastes, k),
        ).len(),
        active_count(draft) == active_upto(draft, draft.pastes.len()),
    decreases i,
{
    reveal(Seq::filter);
    if i > 0 {
        law_pastes_in_use_are_counted(draft, (i - 1) as nat);
        let all = Seq::new(i, |k: int| k);
        assert(all.drop_last() =~= Seq::new((i - 1) as nat, |k: int| k));
        assert(all.last() == i - 1);
    }
}

/// Each paste in use is replaced by a text that names the very file that the plan writes
/// for it, and there are no other replacements.
pub proof fn law_stand_in_names_its_file(
    draft: DraftView,
    home: Seq<char>,
    id: u128,
    max_chars: nat,
    i: int,
)
    requires
        !says_nothing(draft),
        0 <= i < draft.pastes.len(),
        in_use(draft, i),
    ensures
        ({
            let dir = reference::attachment_dir(home, id);
            let replaced = stand_ins(draft, dir, draft.pastes.len());
            let plan = plan_of(draft, Some(home), id, max_chars);
            let n = active_upto(draft, i as nat) as int;
            &&& replaced.len() == active_count(draft)
            &&& n < replaced.len()
            &&& n + 1 < plan.operations.len()
            &&& replaced[n].0 == draft.pastes[i].0
            &&& plan.operations[n + 1] matches GoalOperationView::WriteFile { path, bytes }
                && replaced[n].1 == "pasted text file: "@ + path
                + ". Read this file before continuing."@ && bytes == encode_utf8(
                draft.pastes[i].1,
            )
        }),
{
    let dir = reference::attachment_dir(home, id);
    law_pastes_written(draft, home, id, max_chars, i);
    lemma_stand_in_at(draft, dir, draft.pastes.len(), i);
}

/// What becomes of a draft that says something, where there is a home directory.
///
/// The objective is expanded with the texts that stand in for the pastes in use, and
/// trimmed. Where it is within the limit, it is kept, and the only files are those of the
/// pastes. Where it is not, it is written too, as the last file, and what is kept is the
/// two lines that refer to that file, unless they are over the limit themselves.
pub proof fn law_what_is_kept(draft: DraftView, home: Seq<char>, id: u128, max_chars: nat)
    requires
        !says_nothing(draft),
    ensures
        ({
            let dir = reference::attachment_dir(home, id);
            let replaced = stand_ins(draft, dir, draft.pastes.len());
            let whole = text::trimmed(
                text_elements::expanded(draft.objective, draft.elements, replaced),
            );
            let plan = plan_of(draft, Some(home), id, max_chars);
            let pastes = active_count(draft);
            if whole.len() <= max_chars {
                &&& plan.outcome == Ok::<Seq<char>, GoalErrorView>(whole)
                &&& plan.operations.len() == if pastes == 0 {
                    0
                } else {
                    pastes + 1
                }
            } else {
                &&& plan.operations.len() == pastes + 2
                &&& plan.operations.last() matches GoalOperationView::WriteFile { path, bytes } && {
                    let kept = "Codex goal objective file: "@ + path + "\n"@
                        + "Read that Codex-created file before continuing."@;
                    &&& bytes == encode_utf8(whole)
                    &&& path == app_server_path::joined(dir, "goal-objective.md"@)
                    &&& plan.outcome == if kept.len() <= max_chars {
                        Ok(kept)
                    } else {
                        Err(
                            GoalErrorView::ReferenceTooLong {
                                actual_chars: kept.len(),
                                limit: max_chars,
                            },
                        )
                    }
                }
            }
        }),
{
    let dir = reference::attachment_dir(home, id);
    lemma_paste_writes_len(draft, dir, draft.pastes.len());
}

/// The files of a goal go below the home directory, into the attachments, each goal into
/// a directory named after its identifier; the pastes are numbered there.
pub proof fn law_where_files_go(home: Seq<char>, id: u128, n: nat)
    ensures
        output_dir(Some(home), id) == app_server_path::joined(
            app_server_path::joined(home, "attachments"@),
            ids::hyphenated(id),
        ),
        reference::attachment_dir(home, id) == output_dir(Some(home), id),
        paste_name(n) == "pasted-text-"@ + decimal::decimal(n) + ".txt"@,
{
}

/// A home directory is missed exactly where there is none, the draft says something, and
/// a file is needed: for a paste in use, or for an objective over the limit.
pub proof fn law_home_missed_exactly(
    draft: DraftView,
    home: Option<Seq<char>>,
    id: u128,
    max_chars: nat,
)
    ensures
        plan_of(draft, home, id, max_chars).outcome == Err::<Seq<char>, GoalErrorView>(
            GoalErrorView::MissingCodexHome,
        ) <==> {
            &&& home is None
            &&& !says_nothing(draft)
            &&& active_count(draft) > 0 || text::trimmed(draft.objective).len() > max_chars
        },
{
    if active_count(draft) == 0 {
        lemma_none_active(draft, output_dir(home, id), draft.pastes.len());
    }
}

/// A draft says nothing exactly where its objective is all white space, or is so with its
/// pastes in their places.
pub proof fn law_says_nothing_exactly(draft: DraftView)
    ensures
        says_nothing(draft) <==> {
            ||| text::trimmed(draft.objective).len() == 0
            ||| text::trimmed(
                text_elements::expanded(draft.objective, draft.elements, draft.pastes),
            ).len() == 0
        },
{
    text::lemma_trimmed_blank(draft.objective);
    text::lemma_trimmed_blank(
        text_elements::expanded(draft.objective, draft.elements, draft.pastes),
    );
}

/// The error for a failed operation names the path that the operation is about, and keeps
/// the cause. What it says differs for a directory and for a file.
pub proof fn law_failure_names_its_path(operation: GoalOperationView, cause: Seq<char>)
    ensures
        match operation {
            GoalOperationView::CreateDirectory { path } => failure_of(operation, cause)
                == (GoalErrorView::CreateDirectory { path, cause }),
            GoalOperationView::WriteFile { path, bytes } => failure_of(operation, cause)
                == (GoalErrorView::WriteFile { path, cause }),
        },
{
}

/// The value of a draft holds what the draft does, each in its place.
pub proof fn law_value_of_draft(draft: GoalDraft)
    ensures
        draft@.objective == draft.objective@,
        draft@.elements.len() == draft.text_elements@.len(),
        draft@.pastes.len() == draft.pending_pastes@.len(),
        forall|i: int|
            0 <= i < draft.text_elements@.len() ==> draft@.elements[i]
                == (#[trigger] draft.text_elements@[i])@,
        forall|i: int|
            0 <= i < draft.pending_pastes@.len() ==> draft@.pastes[i] == (
                (#[trigger] draft.pending_pastes@[i]).0@,
                draft.pending_pastes@[i].1@,
            ),
{
}

} // verus!
