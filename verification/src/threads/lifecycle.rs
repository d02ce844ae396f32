//! Resuming a thread, writing to it, and keeping the database in step with its
//! rollout.
use crate::ids;
use crate::ids::ThreadId;
use crate::threads::error;
use crate::threads::error::{ThreadErrorView, ThreadStoreError, ThreadStoreResult};
use crate::threads::path;
use crate::threads::path::{LocalPath, PathView};
use crate::threads::registry;
use crate::threads::registry::LiveRecorders;
use vstd::prelude::*;

verus! {

/// Whether memories are made from a thread.
#[derive(Clone, Copy, Debug, PartialEq, Eq, Structural)]
pub enum ThreadMemoryMode {
    Enabled,
    Disabled,
}

/// What is known of a thread when its writer is opened.
#[derive(Debug, PartialEq, Eq)]
pub struct ThreadMetadata {
    pub cwd: Option<LocalPath>,
    pub model_provider: String,
    pub memory_mode: ThreadMemoryMode,
}

/// The mathematical value of what is known of a thread.
pub struct MetadataView {
    pub cwd: Option<PathView>,
    pub model_provider: Seq<char>,
    pub memory_mode: ThreadMemoryMode,
}

impl View for ThreadMetadata {
    type V = MetadataView;

    open spec fn view(&self) -> MetadataView {
        MetadataView {
            cwd: registry::optional_path(self.cwd),
            model_provider: self.model_provider@,
            memory_mode: self.memory_mode,
        }
    }
}

/// Where a store keeps its files.
#[derive(Debug, PartialEq, Eq)]
pub struct StoreHomes {
    pub codex_home: LocalPath,
    pub sqlite_home: LocalPath,
}

/// The mathematical value of a store's places.
pub struct HomesView {
    pub codex_home: PathView,
    pub sqlite_home: PathView,
}

impl View for StoreHomes {
    type V = HomesView;

    open spec fn view(&self) -> HomesView {
        HomesView { codex_home: self.codex_home@, sqlite_home: self.sqlite_home@ }
    }
}

/// How a rollout's writer is set up.
#[derive(Debug, PartialEq, Eq)]
pub struct RolloutConfig {
    pub codex_home: LocalPath,
    pub sqlite_home: LocalPath,
    pub cwd: LocalPath,
    pub model_provider_id: String,
    pub generate_memories: bool,
}

/// The mathematical value of a writer's setup.
pub struct ConfigView {
    pub codex_home: PathView,
    pub sqlite_home: PathView,
    pub cwd: PathView,
    pub model_provider_id: Seq<char>,
    pub generate_memories: bool,
}

impl View for RolloutConfig {
    type V = ConfigView;

    open spec fn view(&self) -> ConfigView {
        ConfigView {
            codex_home: self.codex_home@,
            sqlite_home: self.sqlite_home@,
            cwd: self.cwd@,
            model_provider_id: self.model_provider_id@,
            generate_memories: self.generate_memories,
        }
    }
}

impl Clone for RolloutConfig {
    fn clone(&self) -> (res: RolloutConfig)
        ensures
            res@ == self@,
    {
        RolloutConfig {
            codex_home: self.codex_home.clone(),
            sqlite_home: self.sqlite_home.clone(),
            cwd: self.cwd.clone(),
            model_provider_id: self.model_provider_id.clone(),
            generate_memories: self.generate_memories,
        }
    }
}

/// The setup for a thread's writer; it needs a working directory.
pub open spec fn config_for(homes: HomesView, metadata: MetadataView) -> Result<
    ConfigView,
    ThreadErrorView,
> {
    match metadata.cwd {
        None => Err(
            ThreadErrorView::InvalidRequest { message: "local thread store requires a cwd"@ },
        ),
        Some(cwd) => Ok(
            ConfigView {
                codex_home: homes.codex_home,
                sqlite_home: homes.sqlite_home,
                cwd,
                model_provider_id: metadata.model_provider,
                generate_memories: metadata.memory_mode == ThreadMemoryMode::Enabled,
            },
        ),
    }
}

/// The value of a result that is a setup.
pub open spec fn config_result(result: ThreadStoreResult<RolloutConfig>) -> Result<
    ConfigView,
    ThreadErrorView,
> {
    match result {
        Ok(config) => Ok(config@),
        Err(e) => Err(e@),
    }
}

/// The setup for a thread's writer.
pub fn rollout_config(homes: &StoreHomes, metadata: &ThreadMetadata) -> (res: ThreadStoreResult<
    RolloutConfig,
>)
    ensures
        config_result(res) == config_for(homes@, metadata@),
        res is Ok <==> metadata.cwd is Some,
        res matches Ok(config) ==> {
            &&& config.cwd@ == metadata.cwd->0@
            &&& config.codex_home@ == homes.codex_home@
            &&& config.sqlite_home@ == homes.sqlite_home@
            &&& config.model_provider_id@ == metadata.model_provider@
            &&& config.generate_memories <==> metadata.memory_mode == ThreadMemoryMode::Enabled
        },
{
    match &metadata.cwd {
        None => Err(
            ThreadStoreError::InvalidRequest {
                message: "local thread store requires a cwd".to_owned(),
            },
        ),
        Some(cwd) => Ok(
            RolloutConfig {
                codex_home: homes.codex_home.clone(),
                sqlite_home: homes.sqlite_home.clone(),
                cwd: cwd.clone(),
                model_provider_id: metadata.model_provider.clone(),
                generate_memories: matches!(metadata.memory_mode, ThreadMemoryMode::Enabled),
            },
        ),
    }
}

/// A request to resume a thread.
#[derive(Debug, PartialEq, Eq)]
pub struct ResumeThreadParams {
    pub thread_id: ThreadId,
    pub rollout_path: Option<LocalPath>,
    /// Whether the caller brought the thread's history along.
    pub has_history: bool,
    pub include_archived: bool,
    pub metadata: ThreadMetadata,
}

/// The mathematical value of a request to resume a thread.
pub struct ResumeView {
    pub thread_id: ThreadId,
    pub rollout_path: Option<PathView>,
    pub has_history: bool,
    pub include_archived: bool,
    pub metadata: MetadataView,
}

impl View for ResumeThreadParams {
    type V = ResumeView;

    open spec fn view(&self) -> ResumeView {
        ResumeView {
            thread_id: self.thread_id,
            rollout_path: registry::optional_path(self.rollout_path),
            has_history: self.has_history,
            include_archived: self.include_archived,
            metadata: self.metadata@,
        }
    }
}

/// A request to read a thread.
#[derive(Clone, Copy, Debug, PartialEq, Eq, Structural)]
pub struct ReadThreadParams {
    pub thread_id: ThreadId,
    pub include_archived: bool,
    pub include_history: bool,
}

/// What comes next when a thread is resumed.
#[derive(Debug, PartialEq, Eq)]
pub enum ResumeStep {
    /// Read the thread, to learn where its rollout is.
    ReadThread(ReadThreadParams),
    /// Open a writer on the rollout.
    OpenRecorder { config: RolloutConfig, rollout_path: LocalPath },
}

/// The mathematical value of the next step.
pub enum ResumeStepView {
    ReadThread(ReadThreadParams),
    OpenRecorder { config: ConfigView, rollout_path: PathView },
}

impl View for ResumeStep {
    type V = ResumeStepView;

    open spec fn view(&self) -> ResumeStepView {
        match *self {
            ResumeStep::ReadThread(params) => ResumeStepView::ReadThread(params),
            ResumeStep::OpenRecorder { config, rollout_path } => ResumeStepView::OpenRecorder {
                config: config@,
                rollout_path: rollout_path@,
            },
        }
    }
}

/// The value of a result that is a step.
pub open spec fn step_result(result: ThreadStoreResult<ResumeStep>) -> Result<
    ResumeStepView,
    ThreadErrorView,
> {
    match result {
        Ok(step) => Ok(step@),
        Err(e) => Err(e@),
    }
}

/// Opening a writer on a rollout, for which a setup is needed.
pub open spec fn open_step(
    homes: HomesView,
    metadata: MetadataView,
    rollout_path: PathView,
) -> Result<ResumeStepView, ThreadErrorView> {
    match config_for(homes, metadata) {
        Ok(config) => Ok(ResumeStepView::OpenRecorder { config, rollout_path }),
        Err(e) => Err(e),
    }
}

/// How resuming a thread begins. A thread with a live writer is refused; a
/// rollout that the caller names is opened; otherwise the thread is read first,
/// with its history where the caller has none.
pub open spec fn first_resume_step(
    is_live: bool,
    homes: HomesView,
    params: ResumeView,
) -> Result<ResumeStepView, ThreadErrorView> {
    if is_live {
        Err(registry::already_live(params.thread_id))
    } else {
        match params.rollout_path {
            Some(rollout_path) => open_step(homes, params.metadata, rollout_path),
            None => Ok(
                ResumeStepView::ReadThread(
                    ReadThreadParams {
                        thread_id: params.thread_id,
                        include_archived: params.include_archived,
                        include_history: !params.has_history,
                    },
                ),
            ),
        }
    }
}

fn open_recorder(homes: &StoreHomes, metadata: &ThreadMetadata, rollout_path: LocalPath) -> (res:
    ThreadStoreResult<ResumeStep>)
    ensures
        step_result(res) == open_step(homes@, metadata@, rollout_path@),
        res is Ok <==> metadata.cwd is Some,
        res matches Ok(step) ==> (step matches ResumeStep::OpenRecorder {
            config,
            rollout_path: opened,
        } && opened@ == rollout_path@ && config.cwd@ == metadata.cwd->0@ && config.codex_home@
            == homes.codex_home@ && config.sqlite_home@ == homes.sqlite_home@
            && config.model_provider_id@ == metadata.model_provider@),
{
    match rollout_config(homes, metadata) {
        Ok(config) => Ok(ResumeStep::OpenRecorder { config, rollout_path }),
        Err(e) => Err(e),
    }
}

/// Begins to resume a thread.
pub fn resume_thread<R>(
    live: &LiveRecorders<R>,
    homes: &StoreHomes,
    params: &ResumeThreadParams,
) -> (res: ThreadStoreResult<ResumeStep>)
    ensures
        step_result(res) == first_resume_step(
            live.live().contains_key(params.thread_id.value),
            homes@,
            params@,
        ),
        res matches Ok(ResumeStep::ReadThread(read)) ==> {
            &&& params.rollout_path is None
            &&& read.thread_id == params.thread_id
            &&& read.include_archived <==> params.include_archived
            &&& read.include_history <==> !params.has_history
        },
        res matches Ok(ResumeStep::OpenRecorder { config, rollout_path }) ==> {
            &&& params.rollout_path matches Some(named)
            &&& rollout_path@ == named@
            &&& config.cwd@ == params.metadata.cwd->0@
            &&& config.codex_home@ == homes.codex_home@
            &&& config.sqlite_home@ == homes.sqlite_home@
            &&& config.model_provider_id@ == params.metadata.model_provider@
        },
{
    match live.ensure_live_recorder_absent(params.thread_id) {
        Err(e) => {
            return Err(e);
        },
        Ok(_) => {},
    }
    match &params.rollout_path {
        Some(rollout_path) => open_recorder(homes, &params.metadata, rollout_path.clone()),
        None => Ok(
            ResumeStep::ReadThread(
                ReadThreadParams {
                    thread_id: params.thread_id,
                    include_archived: params.include_archived,
                    include_history: !params.has_history,
                },
            ),
        ),
    }
}

/// What is returned for a thread whose rollout is nowhere.
pub open spec fn no_rollout(thread_id: ThreadId) -> ThreadErrorView {
    ThreadErrorView::Internal {
        message: "thread "@ + ids::hyphenated(thread_id.value)
            + " does not have a rollout path"@,
    }
}

/// How resuming goes on once the thread was read.
pub fn resume_after_read(
    homes: &StoreHomes,
    params: &ResumeThreadParams,
    read: ThreadStoreResult<Option<LocalPath>>,
) -> (res: ThreadStoreResult<ResumeStep>)
    ensures
        step_result(res) == match read {
            Err(e) => Err(e@),
            Ok(None) => Err(no_rollout(params.thread_id)),
            Ok(Some(rollout_path)) => open_step(homes@, params@.metadata, rollout_path@),
        },
        res matches Ok(step) ==> (step matches ResumeStep::OpenRecorder { config, rollout_path }
            && read matches Ok(Some(found)) && rollout_path@ == found@ && config.cwd@
            == params.metadata.cwd->0@ && config.codex_home@ == homes.codex_home@
            && config.sqlite_home@ == homes.sqlite_home@ && config.model_provider_id@
            == params.metadata.model_provider@),
{
    match read {
        Err(e) => Err(e),
        Ok(None) => {
            let mut message = "thread ".to_owned();
            let id = params.thread_id.text();
            message.append(id.as_str());
            message.append(" does not have a rollout path");
            Err(ThreadStoreError::Internal { message })
        },
        Ok(Some(rollout_path)) => open_recorder(homes, &params.metadata, rollout_path),
    }
}

/// A writer is set up for the working directory, the provider and the memory mode
/// that the thread's metadata names, and for the two homes of the store, each in
/// its own place. It is set up exactly where there is a working directory.
pub proof fn law_setup_is_the_threads_own(homes: HomesView, metadata: MetadataView)
    ensures
        metadata.cwd matches Some(cwd) ==> (config_for(homes, metadata) matches Ok(config)
            && config.cwd == cwd && config.codex_home == homes.codex_home && config.sqlite_home
            == homes.sqlite_home && config.model_provider_id == metadata.model_provider
            && config.generate_memories == (metadata.memory_mode == ThreadMemoryMode::Enabled)),
        metadata.cwd is None ==> (config_for(homes, metadata) matches Err(e)
            && e is InvalidRequest),
{
}

/// Two threads whose writers are set up alike have the same working directory,
/// provider and memory mode, in stores with the same homes.
pub proof fn law_setups_differ(
    homes: HomesView,
    metadata: MetadataView,
    other_homes: HomesView,
    other: MetadataView,
)
    requires
        config_for(homes, metadata) is Ok,
        config_for(homes, metadata) == config_for(other_homes, other),
    ensures
        homes == other_homes,
        metadata == other,
{
}

/// A thread that has to be read first is looked for among the archived ones exactly
/// where the request asks for them, whatever history it brings; its history is read
/// exactly where the request brings none, whatever it says of archived threads.
pub proof fn law_thread_is_read_as_asked(homes: HomesView, params: ResumeView)
    requires
        params.rollout_path is None,
    ensures
        first_resume_step(false, homes, params) matches Ok(ResumeStepView::ReadThread(read))
            && read.thread_id == params.thread_id && (read.include_archived
            <==> params.include_archived) && (read.include_history <==> !params.has_history),
{
}

/// A rollout that the request names is opened without a look at the thread, with
/// the setup for the request's metadata.
pub proof fn law_named_rollout_is_opened(homes: HomesView, params: ResumeView)
    requires
        params.rollout_path is Some,
        params.metadata.cwd is Some,
    ensures
        first_resume_step(false, homes, params) matches Ok(
            ResumeStepView::OpenRecorder { config, rollout_path },
        ) && Some(rollout_path) == params.rollout_path && Some(config.cwd) == params.metadata.cwd
            && config.codex_home == homes.codex_home && config.sqlite_home == homes.sqlite_home
            && config.model_provider_id == params.metadata.model_provider,
{
}

/// A thread is refused exactly where it has a live writer, or where its named
/// rollout is to be opened without a working directory.
pub proof fn law_resume_refused_exactly(is_live: bool, homes: HomesView, params: ResumeView)
    ensures
        first_resume_step(is_live, homes, params) is Err <==> (is_live || (
        params.rollout_path is Some && params.metadata.cwd is None)),
        is_live ==> first_resume_step(is_live, homes, params) == Err::<
            ResumeStepView,
            ThreadErrorView,
        >(
            ThreadErrorView::InvalidRequest {
                message: "thread "@ + ids::hyphenated(params.thread_id.value)
                    + " already has a live local writer"@,
            },
        ),
{
}

/// An internal error made of a prefix and the text of its cause.
pub open spec fn caused(prefix: Seq<char>, cause: Seq<char>) -> ThreadErrorView {
    ThreadErrorView::Internal { message: prefix + cause }
}

/// An internal error made of a prefix and the text of its cause.
pub fn caused_error(prefix: &str, cause: &str) -> (e: ThreadStoreError)
    ensures
        e@ == caused(prefix@, cause@),
{
    let mut message = prefix.to_owned();
    message.append(cause);
    ThreadStoreError::Internal { message }
}

/// Ends resuming a thread: takes the writer in, or says why it was not opened.
pub fn finish_resume<R>(
    live: &mut LiveRecorders<R>,
    thread_id: ThreadId,
    rollout_path: LocalPath,
    opened: Result<R, String>,
) -> (res: ThreadStoreResult<()>)
    ensures
        match opened {
            Err(cause) => {
                &&& error::result_view(res) == Err::<(), ThreadErrorView>(
                    caused("failed to resume local thread recorder: "@, cause@),
                )
                &&& final(live).live() == old(live).live()
            },
            Ok(recorder) => if old(live).live().contains_key(thread_id.value) {
                &&& error::result_view(res) == Err::<(), ThreadErrorView>(
                    registry::already_live(thread_id),
                )
                &&& final(live).live() == old(live).live()
            } else {
                &&& res is Ok
                &&& final(live).live() == old(live).live().insert(
                    thread_id.value,
                    (rollout_path@, recorder),
                )
            },
        },
{
    match opened {
        Err(cause) => Err(
            caused_error("failed to resume local thread recorder: ", cause.as_str()),
        ),
        Ok(recorder) => live.insert_live_recorder(thread_id, rollout_path, recorder),
    }
}

/// What can be asked of a live writer.
#[derive(Clone, Copy, Debug, PartialEq, Eq, Structural)]
pub enum WriterOperation {
    Append,
    Persist,
    Flush,
    Shutdown,
}

/// One call that an operation makes.
#[derive(Clone, Copy, Debug, PartialEq, Eq, Structural)]
pub enum WriterCall {
    RecordItems,
    Persist,
    Flush,
    Shutdown,
    /// Bring the database in step with the rollout.
    SyncRolloutPath,
    /// Drop the writer from the live ones.
    Remove,
}

/// The calls of an operation, in order. Appended items are flushed before the
/// operation returns, and a writer is dropped only after it was closed.
pub open spec fn calls_of(operation: WriterOperation) -> Seq<WriterCall> {
    match operation {
        WriterOperation::Append => seq![WriterCall::RecordItems, WriterCall::Flush],
        WriterOperation::Persist => seq![WriterCall::Persist, WriterCall::SyncRolloutPath],
        WriterOperation::Flush => seq![WriterCall::Flush, WriterCall::SyncRolloutPath],
        WriterOperation::Shutdown => seq![
            WriterCall::Shutdown,
            WriterCall::SyncRolloutPath,
            WriterCall::Remove,
        ],
    }
}

/// How a call came out.
#[derive(Debug, PartialEq, Eq)]
pub enum CallResult {
    Succeeded,
    /// The writer failed, with the text of its I/O error.
    IoFailed(String),
    /// Bringing the database in step failed.
    StoreFailed(ThreadStoreError),
}

/// The error that a call came out with, if it failed.
pub open spec fn call_error(result: CallResult) -> Option<ThreadErrorView> {
    match result {
        CallResult::Succeeded => None,
        CallResult::IoFailed(text) => Some(ThreadErrorView::Internal { message: text@ }),
        CallResult::StoreFailed(e) => Some(e@),
    }
}

/// An operation on a live writer: the number of calls that succeeded so far, and
/// the failure that ended it, if one did.
#[derive(Debug, PartialEq, Eq)]
pub struct WriterRun {
    operation: WriterOperation,
    made: usize,
    failed: Option<ThreadStoreError>,
}

/// The mathematical value of an operation on a live writer.
pub struct RunView {
    pub operation: WriterOperation,
    pub made: nat,
    pub failed: Option<ThreadErrorView>,
}

/// An operation that has made no call yet.
pub open spec fn begun(operation: WriterOperation) -> RunView {
    RunView { operation, made: 0, failed: None }
}

/// The operation's result, once it has ended: with its first failure, or after
/// all its calls.
pub open spec fn result_of(run: RunView) -> Option<Result<(), ThreadErrorView>> {
    match run.failed {
        Some(e) => Some(Err(e)),
        None => if run.made >= calls_of(run.operation).len() {
            Some(Ok(()))
        } else {
            None
        },
    }
}

/// The operation after one more call.
pub open spec fn recorded(run: RunView, result: CallResult) -> RunView {
    match call_error(result) {
        None => RunView { made: run.made + 1, ..run },
        Some(e) => RunView { failed: Some(e), ..run },
    }
}

/// The operation after calls that came out as given; what comes after its end is
/// left out.
pub open spec fn after(operation: WriterOperation, results: Seq<CallResult>) -> RunView
    decreases results.len(),
{
    if results.len() == 0 {
        begun(operation)
    } else {
        let before = after(operation, results.drop_last());
        if result_of(before) is Some {
            before
        } else {
            recorded(before, results.last())
        }
    }
}

impl View for WriterRun {
    type V = RunView;

    closed spec fn view(&self) -> RunView {
        RunView {
            operation: self.operation,
            made: self.made as nat,
            failed: optional_error(self.failed),
        }
    }
}

impl WriterRun {
    /// Begins an operation.
    pub fn new(operation: WriterOperation) -> (run: WriterRun)
        ensures
            run@ == begun(operation),
    {
        WriterRun { operation, made: 0, failed: None }
    }

    /// The next call, unless the operation has ended.
    pub fn next_call(&self) -> (call: Option<WriterCall>)
        ensures
            call == if result_of(self@) is None {
                Some(calls_of(self@.operation)[self@.made as int])
            } else {
                None
            },
    {
        if self.failed.is_some() {
            return None;
        }
        match (self.operation, self.made) {
            (WriterOperation::Append, 0) => Some(WriterCall::RecordItems),
            (WriterOperation::Append, 1) => Some(WriterCall::Flush),
            (WriterOperation::Persist, 0) => Some(WriterCall::Persist),
            (WriterOperation::Persist, 1) => Some(WriterCall::SyncRolloutPath),
            (WriterOperation::Flush, 0) => Some(WriterCall::Flush),
            (WriterOperation::Flush, 1) => Some(WriterCall::SyncRolloutPath),
            (WriterOperation::Shutdown, 0) => Some(WriterCall::Shutdown),
            (WriterOperation::Shutdown, 1) => Some(WriterCall::SyncRolloutPath),
            (WriterOperation::Shutdown, 2) => Some(WriterCall::Remove),
            _ => None,
        }
    }

    /// Takes note of how the next call came out. Once the operation has ended
    /// nothing more is noted.
    pub fn record(&mut self, result: CallResult)
        ensures
            final(self)@ == if result_of(old(self)@) is None {
                recorded(old(self)@, result)
            } else {
                old(self)@
            },
    {
        if self.next_call().is_none() {
            return;
        }
        match result {
            CallResult::Succeeded => {
                self.made = self.made + 1;
            },
            CallResult::IoFailed(text) => {
                self.failed = Some(error::io_failure(text));
            },
            CallResult::StoreFailed(e) => {
                self.failed = Some(e);
            },
        }
    }

    /// The operation's result, once it has ended.
    pub fn finish(self) -> (res: Option<ThreadStoreResult<()>>)
        ensures
            res is Some <==> result_of(self@) is Some,
            res matches Some(r) ==> result_of(self@) == Some(error::result_view(r)),
    {
        if self.next_call().is_some() {
            return None;
        }
        match self.failed {
            Some(e) => Some(Err(e)),
            None => Some(Ok(())),
        }
    }
}

/// The calls that were made are those that succeeded, and the operation's failure
/// is that of the call after them.
proof fn lemma_after(operation: WriterOperation, results: Seq<CallResult>)
    ensures
        ({
            let run = after(operation, results);
            let n = calls_of(operation).len();
            &&& run.operation == operation
            &&& run.made <= n
            &&& run.made <= results.len()
            &&& forall|i: int| 0 <= i < run.made ==> call_error(#[trigger] results[i]) is None
            &&& run.failed is None ==> run.made == n || run.made == results.len()
            &&& run.failed is Some ==> run.made < n && run.made < results.len() && call_error(
                results[run.made as int],
            ) == run.failed
        }),
    decreases results.len(),
{
    if results.len() > 0 {
        let before = results.drop_last();
        lemma_after(operation, before);
        let run = after(operation, results);
        assert forall|i: int| 0 <= i < run.made implies call_error(
            #[trigger] results[i],
        ) is None by {
            if i < before.len() {
                assert(results[i] == before[i]);
            }
        }
        if after(operation, before).failed is Some {
            assert(results[run.made as int] == before[run.made as int]);
        }
    }
}

/// An operation succeeds exactly when each of its calls does. In particular an
/// append that succeeds was flushed, and a writer is dropped only after it was
/// closed and the database brought in step.
pub proof fn law_success_needs_every_call(operation: WriterOperation, results: Seq<CallResult>)
    ensures
        result_of(after(operation, results)) == Some(Ok::<(), ThreadErrorView>(())) <==> (
        results.len() >= calls_of(operation).len() && forall|i: int|
            0 <= i < calls_of(operation).len() ==> call_error(#[trigger] results[i]) is None),
{
    lemma_after(operation, results);
    let run = after(operation, results);
    if run.failed is Some {
        assert(call_error(results[run.made as int]) is Some);
    }
}

/// An operation that fails does so with its first failure: the text of the writer's
/// error, or the error of the store. No call is made after it.
pub proof fn law_first_failure_is_returned(
    operation: WriterOperation,
    results: Seq<CallResult>,
    k: int,
)
    requires
        0 <= k < results.len(),
        k < calls_of(operation).len(),
        forall|i: int| 0 <= i < k ==> #[trigger] results[i] is Succeeded,
        results[k] !is Succeeded,
    ensures
        after(operation, results).made == k,
        match results[k] {
            CallResult::IoFailed(text) => result_of(after(operation, results)) == Some(
                Err::<(), ThreadErrorView>(ThreadErrorView::Internal { message: text@ }),
            ),
            CallResult::StoreFailed(e) => result_of(after(operation, results)) == Some(
                Err::<(), ThreadErrorView>(e@),
            ),
            CallResult::Succeeded => true,
        },
{
    lemma_after(operation, results);
    let run = after(operation, results);
    if run.failed is None {
        assert(run.made > k);
        assert(call_error(results[k]) is None);
    } else if run.made < k {
        assert(results[run.made as int] is Succeeded);
    } else if run.made > k {
        assert(call_error(results[k]) is None);
    }
}

/// What an operation is for comes first, and appended items are flushed after they
/// were recorded. Only closing a writer drops it, as the last thing, after the
/// database was brought in step; only appending leaves the database alone.
pub proof fn law_calls_of_operations(operation: WriterOperation)
    ensures
        calls_of(operation).len() >= 2,
        calls_of(operation)[0] == match operation {
            WriterOperation::Append => WriterCall::RecordItems,
            WriterOperation::Persist => WriterCall::Persist,
            WriterOperation::Flush => WriterCall::Flush,
            WriterOperation::Shutdown => WriterCall::Shutdown,
        },
        calls_of(operation)[1] == if operation == WriterOperation::Append {
            WriterCall::Flush
        } else {
            WriterCall::SyncRolloutPath
        },
        calls_of(operation).contains(WriterCall::Remove) <==> operation
            == WriterOperation::Shutdown,
        operation == WriterOperation::Shutdown ==> calls_of(operation).len() == 3
            && calls_of(operation)[2] == WriterCall::Remove,
        operation != WriterOperation::Shutdown ==> calls_of(operation).len() == 2,
{
    if operation == WriterOperation::Shutdown {
        assert(calls_of(operation)[2] == WriterCall::Remove);
    }
}

/// Where bringing the database in step with a rollout has got to.
#[derive(Debug, PartialEq, Eq)]
pub enum RolloutSync {
    /// Look up the rollout of the live writer.
    FindRollout,
    /// See whether the rollout is there.
    CheckRollout { rollout_path: LocalPath },
    /// Get hold of the database.
    OpenDatabase { rollout_path: LocalPath },
    /// Read the rollout that the database has for the thread.
    ReadMetadata { rollout_path: LocalPath },
    /// Write the rollout to the database.
    WriteMetadata { rollout_path: LocalPath },
    /// It has ended, perhaps with a failure that is only logged.
    Finished { result: ThreadStoreResult<()>, ignored: Option<ThreadStoreError> },
}

/// The mathematical value of where it has got to.
pub enum SyncView {
    FindRollout,
    CheckRollout { rollout_path: PathView },
    OpenDatabase { rollout_path: PathView },
    ReadMetadata { rollout_path: PathView },
    WriteMetadata { rollout_path: PathView },
    Finished { result: Result<(), ThreadErrorView>, ignored: Option<ThreadErrorView> },
}

/// The value of an optional error.
pub open spec fn optional_error(e: Option<ThreadStoreError>) -> Option<ThreadErrorView> {
    match e {
        Some(e) => Some(e@),
        None => None,
    }
}

impl View for RolloutSync {
    type V = SyncView;

    open spec fn view(&self) -> SyncView {
        match *self {
            RolloutSync::FindRollout => SyncView::FindRollout,
            RolloutSync::CheckRollout { rollout_path } => SyncView::CheckRollout {
                rollout_path: rollout_path@,
            },
            RolloutSync::OpenDatabase { rollout_path } => SyncView::OpenDatabase {
                rollout_path: rollout_path@,
            },
            RolloutSync::ReadMetadata { rollout_path } => SyncView::ReadMetadata {
                rollout_path: rollout_path@,
            },
            RolloutSync::WriteMetadata { rollout_path } => SyncView::WriteMetadata {
                rollout_path: rollout_path@,
            },
            RolloutSync::Finished { result, ignored } => SyncView::Finished {
                result: error::result_view(result),
                ignored: optional_error(ignored),
            },
        }
    }
}

/// Ended without a failure.
pub open spec fn synced() -> SyncView {
    SyncView::Finished { result: Ok(()), ignored: None }
}

/// Ended with a failure that is only logged.
pub open spec fn sync_ignored(
    prefix: Seq<char>,
    thread_id: ThreadId,
    cause: Seq<char>,
) -> SyncView {
    SyncView::Finished {
        result: Ok(()),
        ignored: Some(
            ThreadErrorView::Internal {
                message: prefix + ids::hyphenated(thread_id.value) + ": "@ + cause,
            },
        ),
    }
}

fn sync_done() -> (sync: RolloutSync)
    ensures
        sync@ == synced(),
{
    RolloutSync::Finished { result: Ok(()), ignored: None }
}

fn sync_failed(prefix: &str, thread_id: ThreadId, cause: &str) -> (sync: RolloutSync)
    ensures
        sync@ == sync_ignored(prefix@, thread_id, cause@),
{
    let mut message = prefix.to_owned();
    let id = thread_id.text();
    message.append(id.as_str());
    message.append(": ");
    message.append(cause);
    RolloutSync::Finished { result: Ok(()), ignored: Some(ThreadStoreError::Internal { message }) }
}

/// What is learnt while the database is brought in step with a rollout.
#[derive(Debug, PartialEq, Eq)]
pub enum SyncEvent {
    /// The rollout of the live writer.
    Rollout(ThreadStoreResult<LocalPath>),
    /// Whether the rollout is there.
    OnDisk(bool),
    /// Whether there is a database.
    Database(bool),
    /// The rollout that the database has, if it knows the thread.
    Stored(Result<Option<LocalPath>, String>),
    /// How writing to the database came out.
    Written(Result<(), String>),
}

/// How it goes on. A thread without a live writer is an error; a rollout that is
/// not yet there, a missing database and an unknown thread need nothing; failures
/// of the database are only logged. An event out of place changes nothing.
pub open spec fn sync_step(sync: SyncView, thread_id: ThreadId, event: SyncEvent) -> SyncView {
    match (sync, event) {
        (SyncView::FindRollout, SyncEvent::Rollout(Err(e))) => SyncView::Finished {
            result: Err(e@),
            ignored: None,
        },
        (SyncView::FindRollout, SyncEvent::Rollout(Ok(found))) => SyncView::CheckRollout {
            rollout_path: found@,
        },
        (SyncView::CheckRollout { rollout_path }, SyncEvent::OnDisk(there)) => if there {
            SyncView::OpenDatabase { rollout_path }
        } else {
            synced()
        },
        (SyncView::OpenDatabase { rollout_path }, SyncEvent::Database(there)) => if there {
            SyncView::ReadMetadata { rollout_path }
        } else {
            synced()
        },
        (SyncView::ReadMetadata { rollout_path }, SyncEvent::Stored(stored)) => match stored {
            Err(cause) => sync_ignored("failed to read thread metadata for "@, thread_id, cause@),
            Ok(None) => synced(),
            Ok(Some(stored)) => if path::same_path(stored@, rollout_path) {
                synced()
            } else {
                SyncView::WriteMetadata { rollout_path }
            },
        },
        (SyncView::WriteMetadata { .. }, SyncEvent::Written(written)) => match written {
            Err(cause) => sync_ignored(
                "failed to update thread metadata for "@,
                thread_id,
                cause@,
            ),
            Ok(_) => synced(),
        },
        _ => sync,
    }
}

impl RolloutSync {
    /// Goes on with what was learnt.
    pub fn step(self, thread_id: ThreadId, event: SyncEvent) -> (next: RolloutSync)
        ensures
            next@ == sync_step(self@, thread_id, event),
    {
        match (self, event) {
            (RolloutSync::FindRollout, SyncEvent::Rollout(Err(e))) => RolloutSync::Finished {
                result: Err(e),
                ignored: None,
            },
            (RolloutSync::FindRollout, SyncEvent::Rollout(Ok(rollout_path))) => {
                RolloutSync::CheckRollout { rollout_path }
            },
            (RolloutSync::CheckRollout { rollout_path }, SyncEvent::OnDisk(there)) => if there {
                RolloutSync::OpenDatabase { rollout_path }
            } else {
                sync_done()
            },
            (RolloutSync::OpenDatabase { rollout_path }, SyncEvent::Database(there)) => if there {
                RolloutSync::ReadMetadata { rollout_path }
            } else {
                sync_done()
            },
            (RolloutSync::ReadMetadata { rollout_path }, SyncEvent::Stored(stored)) => {
                match stored {
                    Err(cause) => sync_failed(
                        "failed to read thread metadata for ",
                        thread_id,
                        cause.as_str(),
                    ),
                    Ok(None) => sync_done(),
                    Ok(Some(stored)) => if stored.is_same(&rollout_path) {
                        sync_done()
                    } else {
                        RolloutSync::WriteMetadata { rollout_path }
                    },
                }
            },
            (RolloutSync::WriteMetadata { .. }, SyncEvent::Written(written)) => match written {
                Err(cause) => sync_failed(
                    "failed to update thread metadata for ",
                    thread_id,
                    cause.as_str(),
                ),
                Ok(_) => sync_done(),
            },
            (other, _) => other,
        }
    }
}

/// Bringing the database in step fails for want of a live writer, and for no
/// other reason.
pub proof fn law_sync_needs_only_a_live_writer(
    sync: SyncView,
    thread_id: ThreadId,
    event: SyncEvent,
)
    requires
        sync !is Finished,
    ensures
        sync_step(sync, thread_id, event) matches SyncView::Finished { result: Err(e), .. } ==> {
            &&& sync is FindRollout
            &&& event matches SyncEvent::Rollout(Err(found)) && found@ == e
        },
{
}

/// The database is written only where it has another rollout for the thread than
/// the live one.
pub proof fn law_sync_writes_only_a_change(sync: SyncView, thread_id: ThreadId, event: SyncEvent)
    requires
        sync !is WriteMetadata,
    ensures
        sync_step(sync, thread_id, event) matches SyncView::WriteMetadata { rollout_path } ==> {
            &&& sync == (SyncView::ReadMetadata { rollout_path })
            &&& event matches SyncEvent::Stored(Ok(Some(stored))) && !path::same_path(
                stored@,
                rollout_path,
            )
        },
{
}

/// The database is written exactly where the live rollout is there, there is a
/// database that knows the thread, and it has a path with another root or other
/// components for it; what is written is the live rollout's path.
pub proof fn law_sync_writes_every_change(
    thread_id: ThreadId,
    live: LocalPath,
    stored: LocalPath,
)
    ensures
        ({
            let found = sync_step(
                SyncView::FindRollout,
                thread_id,
                SyncEvent::Rollout(Ok(live)),
            );
            let there = sync_step(found, thread_id, SyncEvent::OnDisk(true));
            let opened = sync_step(there, thread_id, SyncEvent::Database(true));
            let read = sync_step(opened, thread_id, SyncEvent::Stored(Ok(Some(stored))));
            if stored@.root == live@.root && stored@.parts == live@.parts {
                read == (SyncView::Finished { result: Ok(()), ignored: None })
            } else {
                read == (SyncView::WriteMetadata { rollout_path: live@ }) && sync_step(
                    read,
                    thread_id,
                    SyncEvent::Written(Ok(())),
                ) == (SyncView::Finished { result: Ok(()), ignored: None })
            }
        }),
{
}

/// A rollout that is not there yet, a missing database and an unknown thread end it
/// at once and without a failure; so do failures of the database, which are told to
/// the log with their cause.
pub proof fn law_sync_ends_early(
    rollout_path: PathView,
    thread_id: ThreadId,
    cause: String,
)
    ensures
        sync_step(
            SyncView::CheckRollout { rollout_path },
            thread_id,
            SyncEvent::OnDisk(false),
        ) == (SyncView::Finished { result: Ok(()), ignored: None }),
        sync_step(
            SyncView::OpenDatabase { rollout_path },
            thread_id,
            SyncEvent::Database(false),
        ) == (SyncView::Finished { result: Ok(()), ignored: None }),
        sync_step(
            SyncView::ReadMetadata { rollout_path },
            thread_id,
            SyncEvent::Stored(Ok(None)),
        ) == (SyncView::Finished { result: Ok(()), ignored: None }),
        sync_step(
            SyncView::ReadMetadata { rollout_path },
            thread_id,
            SyncEvent::Stored(Err(cause)),
        ) == (SyncView::Finished {
            result: Ok(()),
            ignored: Some(
                ThreadErrorView::Internal {
                    message: "failed to read thread metadata for "@ + ids::hyphenated(
                        thread_id.value,
                    ) + ": "@ + cause@,
                },
            ),
        }),
        sync_step(
            SyncView::WriteMetadata { rollout_path },
            thread_id,
            SyncEvent::Written(Err(cause)),
        ) == (SyncView::Finished {
            result: Ok(()),
            ignored: Some(
                ThreadErrorView::Internal {
                    message: "failed to update thread metadata for "@ + ids::hyphenated(
                        thread_id.value,
                    ) + ": "@ + cause@,
                },
            ),
        }),
{
}

/// What is told where a thread cannot be resumed: without a rollout, which thread; without
/// a working directory, that one is required; of a failure, what was tried and why it
/// failed.
pub proof fn law_resume_messages(
    homes: HomesView,
    metadata: MetadataView,
    thread_id: ThreadId,
    prefix: Seq<char>,
    cause: Seq<char>,
)
    ensures
        no_rollout(thread_id) == (ThreadErrorView::Internal {
            message: "thread "@ + ids::hyphenated(thread_id.value)
                + " does not have a rollout path"@,
        }),
        metadata.cwd is None ==> config_for(homes, metadata) == Err::<ConfigView, ThreadErrorView>(
            ThreadErrorView::InvalidRequest { message: "local thread store requires a cwd"@ },
        ),
        caused(prefix, cause) == (ThreadErrorView::Internal { message: prefix + cause }),
{
}

/// The value of a request, of its metadata and of the store's homes holds what they do,
/// each in its place.
pub proof fn law_values_of_requests(
    params: ResumeThreadParams,
    homes: StoreHomes,
    config: RolloutConfig,
)
    ensures
        params@.thread_id == params.thread_id,
        params@.has_history == params.has_history,
        params@.include_archived == params.include_archived,
        params@.rollout_path is Some <==> params.rollout_path is Some,
        params.rollout_path matches Some(path) ==> params@.rollout_path == Some(path@),
        params@.metadata.cwd is Some <==> params.metadata.cwd is Some,
        params.metadata.cwd matches Some(cwd) ==> params@.metadata.cwd == Some(cwd@),
        params@.metadata.model_provider == params.metadata.model_provider@,
        params@.metadata.memory_mode == params.metadata.memory_mode,
        homes@.codex_home == homes.codex_home@,
        homes@.sqlite_home == homes.sqlite_home@,
        config@.codex_home == config.codex_home@,
        config@.sqlite_home == config.sqlite_home@,
        config@.cwd == config.cwd@,
        config@.model_provider_id == config.model_provider_id@,
        config@.generate_memories == config.generate_memories,
{
}

} // verus!
