//! Rotation of a live rollout into a new segment.
//!
//! The live rollout is copied to an archive, the next segment is written beside
//! it, and only then does the new segment take the live rollout's place. What is
//! to be done next is decided here, from what the last action came to.
use crate::ids;
use crate::ids::{SegmentId, ThreadId};
use crate::threads::error;
use crate::threads::error::{ThreadErrorView, ThreadStoreError, ThreadStoreResult};
use crate::threads::lifecycle;
use crate::threads::lifecycle::{
    ConfigView,
    HomesView,
    MetadataView,
    RolloutConfig,
    StoreHomes,
    ThreadMetadata,
};
use crate::threads::path;
use crate::threads::path::{LocalPath, PathView};
use crate::threads::registry;
use crate::threads::segments;
use crate::threads::segments::{ReferenceView, RolloutItem, RolloutReferenceItem};
use vstd::prelude::*;

verus! {

/// A request to rotate the rollout of a thread.
#[derive(Debug, PartialEq, Eq)]
pub struct RotationRequest {
    pub thread_id: ThreadId,
    pub homes: StoreHomes,
    /// The directory for archived segments, below the home directory.
    pub segments_dir: String,
    pub metadata: ThreadMetadata,
    pub previous_segment_reference_depth: Option<usize>,
    /// Marks the file that the next segment is written to at first.
    pub staging_id: SegmentId,
}

/// The mathematical value of a request.
pub struct RequestView {
    pub thread_id: ThreadId,
    pub homes: HomesView,
    pub segments_dir: Seq<char>,
    pub metadata: MetadataView,
    pub depth: Option<usize>,
    pub staging_id: SegmentId,
}

impl View for RotationRequest {
    type V = RequestView;

    open spec fn view(&self) -> RequestView {
        RequestView {
            thread_id: self.thread_id,
            homes: self.homes@,
            segments_dir: self.segments_dir@,
            metadata: self.metadata@,
            depth: self.previous_segment_reference_depth,
            staging_id: self.staging_id,
        }
    }
}

/// What the head of a rollout says: its thread and segment, and where its thread
/// comes from.
#[derive(Debug, PartialEq, Eq)]
pub struct SessionHead<Origin, Version> {
    pub id: ThreadId,
    pub segment_id: Option<SegmentId>,
    pub forked_from_id: Option<ThreadId>,
    pub parent_thread_id: Option<ThreadId>,
    pub thread_source: Origin,
    pub multi_agent_version: Version,
    pub timestamp: String,
}

/// What a request sets anew for the next segment.
#[derive(Debug, PartialEq, Eq)]
pub struct SegmentSettings<Source, Instructions, Tools> {
    pub source: Source,
    pub base_instructions: Instructions,
    pub dynamic_tools: Tools,
}

/// What the recorder of the next segment is opened with, beside its path and its
/// setup.
#[derive(Debug, PartialEq, Eq)]
pub struct StagedRecorder<'a, Origin, Version, Source, Instructions, Tools> {
    pub conversation_id: ThreadId,
    pub forked_from_id: Option<ThreadId>,
    pub parent_thread_id: Option<ThreadId>,
    pub source: &'a Source,
    pub thread_source: &'a Origin,
    pub base_instructions: &'a Instructions,
    pub dynamic_tools: &'a Tools,
    pub multi_agent_version: &'a Version,
    pub session_timestamp: Option<&'a str>,
}

/// Whether a recorder is opened for the segment that follows one with a head: it
/// belongs to the thread, keeps where the thread comes from and when its session
/// began, and takes the rest from the request.
pub open spec fn follows<Origin, Version, Source, Instructions, Tools>(
    recorder: StagedRecorder<Origin, Version, Source, Instructions, Tools>,
    thread_id: ThreadId,
    head: SessionHead<Origin, Version>,
    settings: SegmentSettings<Source, Instructions, Tools>,
) -> bool {
    &&& recorder.conversation_id == thread_id
    &&& recorder.forked_from_id == head.forked_from_id
    &&& recorder.parent_thread_id == head.parent_thread_id
    &&& *recorder.thread_source == head.thread_source
    &&& *recorder.multi_agent_version == head.multi_agent_version
    &&& recorder.session_timestamp matches Some(timestamp) && timestamp@ == head.timestamp@
    &&& *recorder.source == settings.source
    &&& *recorder.base_instructions == settings.base_instructions
    &&& *recorder.dynamic_tools == settings.dynamic_tools
}

/// The files of a rotation, and the segment that is archived.
#[derive(Debug, PartialEq, Eq)]
pub struct RotationFiles {
    pub live: LocalPath,
    pub archive: LocalPath,
    pub staged: LocalPath,
    pub segment_id: Option<SegmentId>,
}

/// The mathematical value of a rotation's files.
pub struct FilesView {
    pub live: PathView,
    pub archive: PathView,
    pub staged: PathView,
    pub segment_id: Option<SegmentId>,
}

impl View for RotationFiles {
    type V = FilesView;

    open spec fn view(&self) -> FilesView {
        FilesView {
            live: self.live@,
            archive: self.archive@,
            staged: self.staged@,
            segment_id: self.segment_id,
        }
    }
}

/// After which stage a rotation was given up.
#[derive(Clone, Copy, Debug, PartialEq, Eq, Structural)]
pub enum RotationStage {
    Initialization,
    Write,
    Flush,
    Shutdown,
    Install,
}

/// How a stage is named in the log.
pub open spec fn stage_name(stage: RotationStage) -> Seq<char> {
    match stage {
        RotationStage::Initialization => "staged recorder initialization"@,
        RotationStage::Write => "staged recorder write"@,
        RotationStage::Flush => "staged recorder flush"@,
        RotationStage::Shutdown => "staged recorder shutdown"@,
        RotationStage::Install => "staged recorder install"@,
    }
}

impl RotationStage {
    /// How the stage is named in the log.
    pub fn name(&self) -> (name: &'static str)
        ensures
            name@ == stage_name(*self),
    {
        match self {
            RotationStage::Initialization => "staged recorder initialization",
            RotationStage::Write => "staged recorder write",
            RotationStage::Flush => "staged recorder flush",
            RotationStage::Shutdown => "staged recorder shutdown",
            RotationStage::Install => "staged recorder install",
        }
    }
}

/// What is left to do for a rotation that was given up: its files are removed,
/// then the error is returned.
#[derive(Debug, PartialEq, Eq)]
pub struct Surrender {
    pub staged: LocalPath,
    pub archive: LocalPath,
    pub stage: RotationStage,
    pub error: ThreadStoreError,
}

/// The mathematical value of a rotation that was given up.
pub struct SurrenderView {
    pub staged: PathView,
    pub archive: PathView,
    pub stage: RotationStage,
    pub error: ThreadErrorView,
}

impl View for Surrender {
    type V = SurrenderView;

    open spec fn view(&self) -> SurrenderView {
        SurrenderView {
            staged: self.staged@,
            archive: self.archive@,
            stage: self.stage,
            error: self.error@,
        }
    }
}

/// What a rotation waits for.
#[derive(Debug, PartialEq, Eq)]
pub enum Phase {
    /// The rollout of the live writer is looked up.
    FindLive,
    /// The live writer is flushed.
    FlushLive { live: LocalPath },
    /// The live rollout's head is read.
    ReadHead { live: LocalPath },
    /// The live writer is closed.
    CloseLive { live: LocalPath, segment_id: Option<SegmentId>, config: RolloutConfig },
    /// The rollout of the live writer is looked up again.
    RecheckLive { live: LocalPath, segment_id: Option<SegmentId>, config: RolloutConfig },
    /// The directory for the archive is created.
    CreateDirectory { files: RotationFiles, config: RolloutConfig },
    /// The live rollout is copied to the archive.
    Archive { files: RotationFiles, config: RolloutConfig },
    /// A writer is opened on the next segment.
    OpenStaged { files: RotationFiles, config: RolloutConfig },
    /// The next segment's first items are written.
    WriteStaged { files: RotationFiles, config: RolloutConfig },
    /// The next segment is flushed.
    FlushStaged { files: RotationFiles, config: RolloutConfig },
    /// The next segment's writer is closed.
    CloseStaged { files: RotationFiles, config: RolloutConfig },
    /// The next segment is renamed to the live rollout.
    Rename { files: RotationFiles, config: RolloutConfig },
    /// The next segment is copied over the live rollout.
    CopyOver { files: RotationFiles, config: RolloutConfig, rename_error: String },
    /// The copied segment is removed.
    RemoveCopied { files: RotationFiles, config: RolloutConfig },
    /// A writer is opened on the new live rollout.
    Resume { files: RotationFiles, config: RolloutConfig },
    /// The new writer takes the place of the old one.
    Install { files: RotationFiles },
    /// The next segment's writer is closed, since the rotation was given up.
    Abandon { left: Surrender },
    /// Whether the next segment is there is looked up.
    CheckStaged { left: Surrender },
    /// The next segment is removed.
    DropStaged { left: Surrender },
    /// Whether the archive is there is looked up.
    CheckArchive { left: Surrender },
    /// The archive is removed.
    DropArchive { left: Surrender },
    /// The rotation has ended.
    Finished { result: ThreadStoreResult<()> },
}

/// The mathematical value of what a rotation waits for.
pub enum PhaseView {
    FindLive,
    FlushLive { live: PathView },
    ReadHead { live: PathView },
    CloseLive { live: PathView, segment_id: Option<SegmentId>, config: ConfigView },
    RecheckLive { live: PathView, segment_id: Option<SegmentId>, config: ConfigView },
    CreateDirectory { files: FilesView, config: ConfigView },
    Archive { files: FilesView, config: ConfigView },
    OpenStaged { files: FilesView, config: ConfigView },
    WriteStaged { files: FilesView, config: ConfigView },
    FlushStaged { files: FilesView, config: ConfigView },
    CloseStaged { files: FilesView, config: ConfigView },
    Rename { files: FilesView, config: ConfigView },
    CopyOver { files: FilesView, config: ConfigView, rename_error: Seq<char> },
    RemoveCopied { files: FilesView, config: ConfigView },
    Resume { files: FilesView, config: ConfigView },
    Install { files: FilesView },
    Abandon { left: SurrenderView },
    CheckStaged { left: SurrenderView },
    DropStaged { left: SurrenderView },
    CheckArchive { left: SurrenderView },
    DropArchive { left: SurrenderView },
    Finished { result: Result<(), ThreadErrorView> },
}

impl View for Phase {
    type V = PhaseView;

    open spec fn view(&self) -> PhaseView {
        match *self {
            Phase::FindLive => PhaseView::FindLive,
            Phase::FlushLive { live } => PhaseView::FlushLive { live: live@ },
            Phase::ReadHead { live } => PhaseView::ReadHead { live: live@ },
            Phase::CloseLive { live, segment_id, config } => PhaseView::CloseLive {
                live: live@,
                segment_id,
                config: config@,
            },
            Phase::RecheckLive { live, segment_id, config } => PhaseView::RecheckLive {
                live: live@,
                segment_id,
                config: config@,
            },
            Phase::CreateDirectory { files, config } => PhaseView::CreateDirectory {
                files: files@,
                config: config@,
            },
            Phase::Archive { files, config } => PhaseView::Archive {
                files: files@,
                config: config@,
            },
            Phase::OpenStaged { files, config } => PhaseView::OpenStaged {
                files: files@,
                config: config@,
            },
            Phase::WriteStaged { files, config } => PhaseView::WriteStaged {
                files: files@,
                config: config@,
            },
            Phase::FlushStaged { files, config } => PhaseView::FlushStaged {
                files: files@,
                config: config@,
            },
            Phase::CloseStaged { files, config } => PhaseView::CloseStaged {
                files: files@,
                config: config@,
            },
            Phase::Rename { files, config } => PhaseView::Rename {
                files: files@,
                config: config@,
            },
            Phase::CopyOver { files, config, rename_error } => PhaseView::CopyOver {
                files: files@,
                config: config@,
                rename_error: rename_error@,
            },
            Phase::RemoveCopied { files, config } => PhaseView::RemoveCopied {
                files: files@,
                config: config@,
            },
            Phase::Resume { files, config } => PhaseView::Resume {
                files: files@,
                config: config@,
            },
            Phase::Install { files } => PhaseView::Install { files: files@ },
            Phase::Abandon { left } => PhaseView::Abandon { left: left@ },
            Phase::CheckStaged { left } => PhaseView::CheckStaged { left: left@ },
            Phase::DropStaged { left } => PhaseView::DropStaged { left: left@ },
            Phase::CheckArchive { left } => PhaseView::CheckArchive { left: left@ },
            Phase::DropArchive { left } => PhaseView::DropArchive { left: left@ },
            Phase::Finished { result } => PhaseView::Finished { result: error::result_view(result) },
        }
    }
}

/// What an action came to.
#[derive(Debug, PartialEq, Eq)]
pub enum RotationEvent<Origin, Version> {
    /// The rollout of the live writer, if there is one.
    Found(Option<LocalPath>),
    /// The head of a rollout.
    Head(SessionHead<Origin, Version>),
    /// Whether a file is there.
    Exists(bool),
    /// The action succeeded.
    Succeeded,
    /// The action failed, with the text of its error.
    Failed(String),
    /// The new writer took the old one's place, or did not.
    Installed(ThreadStoreResult<()>),
}

/// What of an event decides how a rotation goes on.
pub enum EventView {
    Found(Option<PathView>),
    Head { thread_id: ThreadId, segment_id: Option<SegmentId> },
    Exists(bool),
    Succeeded,
    Failed(Seq<char>),
    Installed(Result<(), ThreadErrorView>),
}

impl<Origin, Version> RotationEvent<Origin, Version> {
    /// What of the event decides how a rotation goes on: of a head, the thread and
    /// the segment that it names.
    pub open spec fn outcome(&self) -> EventView {
        match *self {
            RotationEvent::Found(found) => EventView::Found(registry::optional_path(found)),
            RotationEvent::Head(head) => EventView::Head {
                thread_id: head.id,
                segment_id: head.segment_id,
            },
            RotationEvent::Exists(there) => EventView::Exists(there),
            RotationEvent::Succeeded => EventView::Succeeded,
            RotationEvent::Failed(text) => EventView::Failed(text@),
            RotationEvent::Installed(result) => EventView::Installed(error::result_view(result)),
        }
    }
}

/// A rotation that has ended with an error.
pub open spec fn failed(error: ThreadErrorView) -> PhaseView {
    PhaseView::Finished { result: Err(error) }
}

/// An internal error with a text.
pub open spec fn internal(message: Seq<char>) -> ThreadErrorView {
    ThreadErrorView::Internal { message }
}

/// A rotation that is given up, with its files still to be removed.
pub open spec fn given_up(
    files: FilesView,
    stage: RotationStage,
    error: ThreadErrorView,
) -> SurrenderView {
    SurrenderView { staged: files.staged, archive: files.archive, stage, error }
}

/// What is said of a live rollout whose head cannot be read.
pub open spec fn unreadable_head(live: PathView, cause: Seq<char>) -> Seq<char> {
    "failed to read current rollout metadata from "@ + path::shown(live) + ": "@ + cause
}

/// What is said of a live rollout that belongs to another thread.
pub open spec fn foreign_rollout(live: PathView, owner: ThreadId, thread_id: ThreadId) -> Seq<
    char,
> {
    "live rollout "@ + path::shown(live) + " belongs to thread "@ + ids::hyphenated(owner.value)
        + " instead of "@ + ids::hyphenated(thread_id.value)
}

/// What is said of a live rollout that cannot be archived.
pub open spec fn unarchived(files: FilesView, cause: Seq<char>) -> Seq<char> {
    "failed to copy previous rollout segment "@ + path::shown(files.live) + " to "@
        + path::shown(files.archive) + ": "@ + cause
}

/// What is said of a segment that cannot take the live rollout's place.
pub open spec fn not_replaced(
    files: FilesView,
    rename_error: Seq<char>,
    copy_error: Seq<char>,
) -> Seq<char> {
    "failed to replace live rollout "@ + path::shown(files.live) + " from staged rollout "@
        + path::shown(files.staged) + ": rename failed: "@ + rename_error + "; copy failed: "@
        + copy_error
}

/// What is said of a segment that cannot be removed once it was copied.
pub open spec fn copy_not_removed(files: FilesView, cause: Seq<char>) -> Seq<char> {
    "failed to remove staged rollout "@ + path::shown(files.staged) + " after copying it to "@
        + path::shown(files.live) + ": "@ + cause
}

/// How a rotation goes on once the live rollout's head was read.
pub open spec fn after_head(
    request: RequestView,
    live: PathView,
    owner: ThreadId,
    segment_id: Option<SegmentId>,
) -> PhaseView {
    if owner != request.thread_id {
        failed(internal(foreign_rollout(live, owner, request.thread_id)))
    } else {
        match lifecycle::config_for(request.homes, request.metadata) {
            Err(e) => failed(e),
            Ok(config) => PhaseView::CloseLive { live, segment_id, config },
        }
    }
}

/// How a rotation goes on once the live writer was looked up again.
pub open spec fn after_recheck(
    request: RequestView,
    live: PathView,
    segment_id: Option<SegmentId>,
    config: ConfigView,
    found: Option<PathView>,
) -> PhaseView {
    match registry::recheck(request.thread_id, found, live) {
        Err(e) => failed(e),
        Ok(_) => match segments::archive_path(
            request.homes.codex_home,
            request.segments_dir,
            request.thread_id,
            segment_id,
            live,
        ) {
            Err(e) => failed(e),
            Ok(archive) => match segments::staged_path(live, request.staging_id) {
                Err(e) => failed(e),
                Ok(staged) => PhaseView::CreateDirectory {
                    files: FilesView { live, archive, staged, segment_id },
                    config,
                },
            },
        },
    }
}

/// How a rotation goes on. An event that is not the one waited for changes
/// nothing.
pub open spec fn next_phase(request: RequestView, phase: PhaseView, event: EventView) -> PhaseView {
    match (phase, event) {
        (PhaseView::FindLive, EventView::Found(None)) => failed(
            registry::not_live(request.thread_id),
        ),
        (PhaseView::FindLive, EventView::Found(Some(live))) => PhaseView::FlushLive { live },
        (PhaseView::FlushLive { live }, EventView::Succeeded) => PhaseView::ReadHead { live },
        (PhaseView::FlushLive { .. }, EventView::Failed(cause)) => failed(internal(cause)),
        (PhaseView::ReadHead { live }, EventView::Head { thread_id, segment_id }) => after_head(
            request,
            live,
            thread_id,
            segment_id,
        ),
        (PhaseView::ReadHead { live }, EventView::Failed(cause)) => failed(
            internal(unreadable_head(live, cause)),
        ),
        (
            PhaseView::CloseLive { live, segment_id, config },
            EventView::Succeeded | EventView::Failed(_),
        ) => PhaseView::RecheckLive { live, segment_id, config },
        (PhaseView::RecheckLive { live, segment_id, config }, EventView::Found(found)) => {
            after_recheck(request, live, segment_id, config, found)
        },
        (PhaseView::CreateDirectory { files, config }, EventView::Succeeded) => {
            PhaseView::Archive { files, config }
        },
        (PhaseView::CreateDirectory { .. }, EventView::Failed(cause)) => failed(internal(cause)),
        (PhaseView::Archive { files, config }, EventView::Succeeded) => PhaseView::OpenStaged {
            files,
            config,
        },
        (PhaseView::Archive { files, .. }, EventView::Failed(cause)) => failed(
            internal(unarchived(files, cause)),
        ),
        (PhaseView::OpenStaged { files, config }, EventView::Succeeded) => {
            PhaseView::WriteStaged { files, config }
        },
        (PhaseView::OpenStaged { files, .. }, EventView::Failed(cause)) => {
            PhaseView::CheckStaged {
                left: given_up(
                    files,
                    RotationStage::Initialization,
                    lifecycle::caused(
                        "failed to initialize rotated local thread recorder: "@,
                        cause,
                    ),
                ),
            }
        },
        (PhaseView::WriteStaged { files, config }, EventView::Succeeded) => {
            PhaseView::FlushStaged { files, config }
        },
        (PhaseView::WriteStaged { files, .. }, EventView::Failed(cause)) => PhaseView::Abandon {
            left: given_up(files, RotationStage::Write, internal(cause)),
        },
        (PhaseView::FlushStaged { files, config }, EventView::Succeeded) => {
            PhaseView::CloseStaged { files, config }
        },
        (PhaseView::FlushStaged { files, .. }, EventView::Failed(cause)) => PhaseView::Abandon {
            left: given_up(files, RotationStage::Flush, internal(cause)),
        },
        (PhaseView::CloseStaged { files, config }, EventView::Succeeded) => PhaseView::Rename {
            files,
            config,
        },
        (PhaseView::CloseStaged { files, .. }, EventView::Failed(cause)) => {
            PhaseView::CheckStaged {
                left: given_up(files, RotationStage::Shutdown, internal(cause)),
            }
        },
        (PhaseView::Rename { files, config }, EventView::Succeeded) => PhaseView::Resume {
            files,
            config,
        },
        (PhaseView::Rename { files, config }, EventView::Failed(cause)) => PhaseView::CopyOver {
            files,
            config,
            rename_error: cause,
        },
        (PhaseView::CopyOver { files, config, .. }, EventView::Succeeded) => {
            PhaseView::RemoveCopied { files, config }
        },
        (PhaseView::CopyOver { files, rename_error, .. }, EventView::Failed(cause)) => {
            PhaseView::CheckStaged {
                left: given_up(
                    files,
                    RotationStage::Install,
                    internal(not_replaced(files, rename_error, cause)),
                ),
            }
        },
        (PhaseView::RemoveCopied { files, config }, EventView::Succeeded) => PhaseView::Resume {
            files,
            config,
        },
        (PhaseView::RemoveCopied { files, .. }, EventView::Failed(cause)) => {
            PhaseView::CheckStaged {
                left: given_up(
                    files,
                    RotationStage::Install,
                    internal(copy_not_removed(files, cause)),
                ),
            }
        },
        (PhaseView::Resume { files, .. }, EventView::Succeeded) => PhaseView::Install { files },
        (PhaseView::Resume { .. }, EventView::Failed(cause)) => failed(
            lifecycle::caused("failed to resume rotated local thread recorder: "@, cause),
        ),
        (PhaseView::Install { .. }, EventView::Installed(result)) => PhaseView::Finished { result },
        (PhaseView::Abandon { left }, EventView::Succeeded | EventView::Failed(_)) => {
            PhaseView::CheckStaged { left }
        },
        (PhaseView::CheckStaged { left }, EventView::Exists(there)) => if there {
            PhaseView::DropStaged { left }
        } else {
            PhaseView::CheckArchive { left }
        },
        (PhaseView::DropStaged { left }, EventView::Succeeded | EventView::Failed(_)) => {
            PhaseView::CheckArchive { left }
        },
        (PhaseView::CheckArchive { left }, EventView::Exists(there)) => if there {
            PhaseView::DropArchive { left }
        } else {
            failed(left.error)
        },
        (PhaseView::DropArchive { left }, EventView::Succeeded | EventView::Failed(_)) => failed(
            left.error,
        ),
        _ => phase,
    }
}

/// What is to be done for a rotation.
#[derive(Debug, PartialEq, Eq)]
pub enum RotationAction<'a, Item, Origin, Version, Source, Instructions, Tools> {
    FindLiveRollout,
    FlushLive,
    ReadHead { path: LocalPath },
    CloseLive,
    CreateDirectory { path: LocalPath },
    Copy { from: LocalPath, to: LocalPath },
    OpenStaged {
        path: LocalPath,
        config: RolloutConfig,
        recorder: StagedRecorder<'a, Origin, Version, Source, Instructions, Tools>,
    },
    /// Write what the next segment starts with.
    WriteStaged { items: &'a [RolloutItem<Item>] },
    FlushStaged,
    CloseStaged,
    Rename { from: LocalPath, to: LocalPath },
    Remove { path: LocalPath },
    ResumeLive { path: LocalPath, config: RolloutConfig },
    /// Replace the live writer, provided that it still writes the rollout.
    InstallRecorder { expected: LocalPath },
    CheckExists { path: LocalPath },
    Return,
}

/// What an action does to writers and files.
pub enum ActionView {
    FindLiveRollout,
    FlushLive,
    ReadHead { path: PathView },
    CloseLive,
    CreateDirectory { path: PathView },
    Copy { from: PathView, to: PathView },
    OpenStaged { path: PathView, config: ConfigView },
    WriteStaged { reference: ReferenceView },
    FlushStaged,
    CloseStaged,
    Rename { from: PathView, to: PathView },
    Remove { path: PathView },
    ResumeLive { path: PathView, config: ConfigView },
    InstallRecorder { expected: PathView },
    CheckExists { path: PathView },
    Return,
}

impl<'a, Item, Origin, Version, Source, Instructions, Tools> RotationAction<
    'a,
    Item,
    Origin,
    Version,
    Source,
    Instructions,
    Tools,
> {
    /// What the action does to writers and files.
    pub open spec fn deed(&self) -> ActionView {
        match *self {
            RotationAction::FindLiveRollout => ActionView::FindLiveRollout,
            RotationAction::FlushLive => ActionView::FlushLive,
            RotationAction::ReadHead { path } => ActionView::ReadHead { path: path@ },
            RotationAction::CloseLive => ActionView::CloseLive,
            RotationAction::CreateDirectory { path } => ActionView::CreateDirectory {
                path: path@,
            },
            RotationAction::Copy { from, to } => ActionView::Copy { from: from@, to: to@ },
            RotationAction::OpenStaged { path, config, .. } => ActionView::OpenStaged {
                path: path@,
                config: config@,
            },
            RotationAction::WriteStaged { items } => ActionView::WriteStaged {
                reference: items@[0]->RolloutReference_0@,
            },
            RotationAction::FlushStaged => ActionView::FlushStaged,
            RotationAction::CloseStaged => ActionView::CloseStaged,
            RotationAction::Rename { from, to } => ActionView::Rename { from: from@, to: to@ },
            RotationAction::Remove { path } => ActionView::Remove { path: path@ },
            RotationAction::ResumeLive { path, config } => ActionView::ResumeLive {
                path: path@,
                config: config@,
            },
            RotationAction::InstallRecorder { expected } => ActionView::InstallRecorder {
                expected: expected@,
            },
            RotationAction::CheckExists { path } => ActionView::CheckExists { path: path@ },
            RotationAction::Return => ActionView::Return,
        }
    }
}

/// What is to be done in a phase.
pub open spec fn action_in(request: RequestView, phase: PhaseView) -> ActionView {
    match phase {
        PhaseView::FindLive => ActionView::FindLiveRollout,
        PhaseView::FlushLive { .. } => ActionView::FlushLive,
        PhaseView::ReadHead { live } => ActionView::ReadHead { path: live },
        PhaseView::CloseLive { .. } => ActionView::CloseLive,
        PhaseView::RecheckLive { .. } => ActionView::FindLiveRollout,
        PhaseView::CreateDirectory { files, .. } => ActionView::CreateDirectory {
            path: path::parent(files.archive),
        },
        PhaseView::Archive { files, .. } => ActionView::Copy {
            from: files.live,
            to: files.archive,
        },
        PhaseView::OpenStaged { files, config } => ActionView::OpenStaged {
            path: files.staged,
            config,
        },
        PhaseView::WriteStaged { files, .. } => ActionView::WriteStaged {
            reference: reference_of(request, files),
        },
        PhaseView::FlushStaged { .. } => ActionView::FlushStaged,
        PhaseView::CloseStaged { .. } => ActionView::CloseStaged,
        PhaseView::Rename { files, .. } => ActionView::Rename {
            from: files.staged,
            to: files.live,
        },
        PhaseView::CopyOver { files, .. } => ActionView::Copy {
            from: files.staged,
            to: files.live,
        },
        PhaseView::RemoveCopied { files, .. } => ActionView::Remove { path: files.staged },
        PhaseView::Resume { files, config } => ActionView::ResumeLive { path: files.live, config },
        PhaseView::Install { files } => ActionView::InstallRecorder { expected: files.live },
        PhaseView::Abandon { .. } => ActionView::CloseStaged,
        PhaseView::CheckStaged { left } => ActionView::CheckExists { path: left.staged },
        PhaseView::DropStaged { left } => ActionView::Remove { path: left.staged },
        PhaseView::CheckArchive { left } => ActionView::CheckExists { path: left.archive },
        PhaseView::DropArchive { left } => ActionView::Remove { path: left.archive },
        PhaseView::Finished { .. } => ActionView::Return,
    }
}

/// Whether the archive of a rotation lies in a directory.
pub open spec fn archive_has_parent(phase: PhaseView) -> bool {
    phase matches PhaseView::CreateDirectory { files, .. } ==> files.archive.parts.len() > 0
}

/// The segment that a phase archives, once the live rollout's head was read.
pub open spec fn segment_in(phase: PhaseView) -> Option<Option<SegmentId>> {
    match phase {
        PhaseView::CloseLive { segment_id, .. } => Some(segment_id),
        PhaseView::RecheckLive { segment_id, .. } => Some(segment_id),
        PhaseView::CreateDirectory { files, .. } => Some(files.segment_id),
        PhaseView::Archive { files, .. } => Some(files.segment_id),
        PhaseView::OpenStaged { files, .. } => Some(files.segment_id),
        PhaseView::WriteStaged { files, .. } => Some(files.segment_id),
        _ => None,
    }
}

/// The items of the next segment: those that it was given or, once it is opened,
/// those that it starts with.
#[derive(Debug, PartialEq, Eq)]
enum SegmentItems<Item> {
    Given(Vec<RolloutItem<Item>>),
    Initial(Vec<RolloutItem<Item>>),
}

/// Whether the next segment is not opened yet, in a rotation that was not given
/// up.
spec fn is_before_writing(phase: PhaseView) -> bool {
    match phase {
        PhaseView::FindLive => true,
        PhaseView::FlushLive { .. } => true,
        PhaseView::ReadHead { .. } => true,
        PhaseView::CloseLive { .. } => true,
        PhaseView::RecheckLive { .. } => true,
        PhaseView::CreateDirectory { .. } => true,
        PhaseView::Archive { .. } => true,
        PhaseView::OpenStaged { .. } => true,
        _ => false,
    }
}

/// Whether items are the reference to the archived segment, and then those that
/// the next segment was given.
pub open spec fn start_with<Item>(
    items: Seq<RolloutItem<Item>>,
    reference: ReferenceView,
    given: Seq<RolloutItem<Item>>,
) -> bool {
    exists|first: RolloutReferenceItem|
        items == seq![RolloutItem::<Item>::RolloutReference(first)] + given && #[trigger] first@
            == reference
}

/// The reference that the next segment starts with.
pub open spec fn reference_of(request: RequestView, files: FilesView) -> ReferenceView {
    segments::reference_to(
        files.archive,
        request.thread_id,
        files.live,
        files.segment_id,
        request.depth,
    )
}

/// The setup that a phase holds for the recorders it opens.
pub open spec fn config_in(phase: PhaseView) -> Option<ConfigView> {
    match phase {
        PhaseView::CloseLive { config, .. } => Some(config),
        PhaseView::RecheckLive { config, .. } => Some(config),
        PhaseView::CreateDirectory { config, .. } => Some(config),
        PhaseView::Archive { config, .. } => Some(config),
        PhaseView::OpenStaged { config, .. } => Some(config),
        PhaseView::WriteStaged { config, .. } => Some(config),
        PhaseView::FlushStaged { config, .. } => Some(config),
        PhaseView::CloseStaged { config, .. } => Some(config),
        PhaseView::Rename { config, .. } => Some(config),
        PhaseView::CopyOver { config, .. } => Some(config),
        PhaseView::RemoveCopied { config, .. } => Some(config),
        PhaseView::Resume { config, .. } => Some(config),
        _ => None,
    }
}

/// Whether a setup is for a request's working directory and provider, and for the
/// store's two homes.
pub open spec fn suits(config: ConfigView, request: RequestView) -> bool {
    &&& Some(config.cwd) == request.metadata.cwd
    &&& config.model_provider_id == request.metadata.model_provider
    &&& config.codex_home == request.homes.codex_home
    &&& config.sqlite_home == request.homes.sqlite_home
}

/// A rotation that is under way.
#[derive(Debug, PartialEq, Eq)]
pub struct SegmentRotation<Item, Origin, Version, Source, Instructions, Tools> {
    request: RotationRequest,
    settings: SegmentSettings<Source, Instructions, Tools>,
    items: SegmentItems<Item>,
    head: Option<SessionHead<Origin, Version>>,
    phase: Phase,
}

impl<Item, Origin, Version, Source, Instructions, Tools> SegmentRotation<
    Item,
    Origin,
    Version,
    Source,
    Instructions,
    Tools,
> {
    /// What was asked for.
    pub closed spec fn request(&self) -> RequestView {
        self.request@
    }

    /// What was asked for the next segment.
    pub closed spec fn settings(&self) -> SegmentSettings<Source, Instructions, Tools> {
        self.settings
    }

    /// The items that the next segment was given.
    pub closed spec fn given(&self) -> Seq<RolloutItem<Item>> {
        match self.items {
            SegmentItems::Given(items) => items@,
            SegmentItems::Initial(items) => items@.skip(1),
        }
    }

    /// The live rollout's head, once it was read.
    pub closed spec fn head(&self) -> Option<SessionHead<Origin, Version>> {
        self.head
    }

    /// What the rotation waits for.
    pub closed spec fn phase(&self) -> PhaseView {
        self.phase@
    }
}

fn fail(error: ThreadStoreError) -> (phase: Phase)
    ensures
        phase@ == failed(error@),
{
    Phase::Finished { result: Err(error) }
}

fn give_up(files: RotationFiles, stage: RotationStage, error: ThreadStoreError) -> (left: Surrender)
    ensures
        left@ == given_up(files@, stage, error@),
{
    Surrender { staged: files.staged, archive: files.archive, stage, error }
}

fn head_error(live: &LocalPath, cause: &str) -> (error: ThreadStoreError)
    ensures
        error@ == internal(unreadable_head(live@, cause@)),
{
    let mut message = "failed to read current rollout metadata from ".to_owned();
    let shown = live.display();
    message.append(shown.as_str());
    message.append(": ");
    message.append(cause);
    ThreadStoreError::Internal { message }
}

fn foreign_error(live: &LocalPath, owner: ThreadId, thread_id: ThreadId) -> (error:
    ThreadStoreError)
    ensures
        error@ == internal(foreign_rollout(live@, owner, thread_id)),
{
    let mut message = "live rollout ".to_owned();
    let shown = live.display();
    message.append(shown.as_str());
    message.append(" belongs to thread ");
    let owner_text = owner.text();
    message.append(owner_text.as_str());
    message.append(" instead of ");
    let own_text = thread_id.text();
    message.append(own_text.as_str());
    ThreadStoreError::Internal { message }
}

fn archive_error(files: &RotationFiles, cause: &str) -> (error: ThreadStoreError)
    ensures
        error@ == internal(unarchived(files@, cause@)),
{
    let mut message = "failed to copy previous rollout segment ".to_owned();
    let live = files.live.display();
    message.append(live.as_str());
    message.append(" to ");
    let archive = files.archive.display();
    message.append(archive.as_str());
    message.append(": ");
    message.append(cause);
    ThreadStoreError::Internal { message }
}

fn replace_error(files: &RotationFiles, rename_error: &str, copy_error: &str) -> (error:
    ThreadStoreError)
    ensures
        error@ == internal(not_replaced(files@, rename_error@, copy_error@)),
{
    let mut message = "failed to replace live rollout ".to_owned();
    let live = files.live.display();
    message.append(live.as_str());
    message.append(" from staged rollout ");
    let staged = files.staged.display();
    message.append(staged.as_str());
    message.append(": rename failed: ");
    message.append(rename_error);
    message.append("; copy failed: ");
    message.append(copy_error);
    ThreadStoreError::Internal { message }
}

fn remove_error(files: &RotationFiles, cause: &str) -> (error: ThreadStoreError)
    ensures
        error@ == internal(copy_not_removed(files@, cause@)),
{
    let mut message = "failed to remove staged rollout ".to_owned();
    let staged = files.staged.display();
    message.append(staged.as_str());
    message.append(" after copying it to ");
    let live = files.live.display();
    message.append(live.as_str());
    message.append(": ");
    message.append(cause);
    ThreadStoreError::Internal { message }
}

fn head_read(
    request: &RotationRequest,
    live: LocalPath,
    owner: ThreadId,
    segment_id: Option<SegmentId>,
) -> (phase: Phase)
    ensures
        phase@ == after_head(request@, live@, owner, segment_id),
        segment_in(phase@) matches Some(archived) ==> owner == request.thread_id && archived
            == segment_id,
        config_in(phase@) matches Some(config) ==> suits(config, request@),
{
    if owner.value != request.thread_id.value {
        return fail(foreign_error(&live, owner, request.thread_id));
    }
    match lifecycle::rollout_config(&request.homes, &request.metadata) {
        Err(e) => fail(e),
        Ok(config) => Phase::CloseLive { live, segment_id, config },
    }
}

fn live_rechecked(
    request: &RotationRequest,
    live: LocalPath,
    segment_id: Option<SegmentId>,
    config: RolloutConfig,
    found: Option<LocalPath>,
) -> (phase: Phase)
    ensures
        phase@ == after_recheck(
            request@,
            live@,
            segment_id,
            config@,
            registry::optional_path(found),
        ),
        archive_has_parent(phase@),
{
    match registry::check_unchanged(request.thread_id, &found, &live) {
        Err(e) => {
            return fail(e);
        },
        Ok(_) => {},
    }
    let archive = match segments::rotated_segment_path(
        &request.homes.codex_home,
        request.segments_dir.as_str(),
        request.thread_id,
        segment_id,
        &live,
    ) {
        Err(e) => {
            return fail(e);
        },
        Ok(archive) => archive,
    };
    match segments::staged_path_for(&live, request.staging_id) {
        Err(e) => fail(e),
        Ok(staged) => Phase::CreateDirectory {
            files: RotationFiles { live, archive, staged, segment_id },
            config,
        },
    }
}

fn begun_items<Item>(
    request: &RotationRequest,
    files: &RotationFiles,
    items: SegmentItems<Item>,
) -> (begun: SegmentItems<Item>)
    requires
        items is Given,
    ensures
        begun matches SegmentItems::Initial(all) && start_with(
            all@,
            reference_of(request@, files@),
            items->Given_0@,
        ) && all@.skip(1) == items->Given_0@,
{
    match items {
        SegmentItems::Given(given) => {
            let reference = segments::segment_reference(
                &files.archive,
                request.thread_id,
                &files.live,
                files.segment_id,
                request.previous_segment_reference_depth,
            );
            let ghost first = reference;
            let all = segments::initial_items(reference, given);
            assert(first@ == reference_of(request@, files@));
            assert(all@.skip(1) =~= given@);
            SegmentItems::Initial(all)
        },
        SegmentItems::Initial(all) => SegmentItems::Initial(all),
    }
}

fn advance<Origin, Version>(
    request: &RotationRequest,
    phase: Phase,
    event: RotationEvent<Origin, Version>,
) -> (next: Phase)
    requires
        archive_has_parent(phase@),
        !(phase is ReadHead && event is Head),
        !(phase is OpenStaged && event is Succeeded),
    ensures
        next@ == next_phase(request@, phase@, event.outcome()),
        archive_has_parent(next@),
        segment_in(next@) is Some ==> segment_in(next@) == segment_in(phase@),
        is_before_writing(next@) ==> is_before_writing(phase@),
        config_in(next@) is Some ==> config_in(next@) == config_in(phase@),
        next@ is WriteStaged ==> next == phase,
{
    match (phase, event) {
        (Phase::FindLive, RotationEvent::Found(found)) => match found {
            None => fail(ThreadStoreError::ThreadNotFound { thread_id: request.thread_id }),
            Some(live) => Phase::FlushLive { live },
        },
        (Phase::FlushLive { live }, RotationEvent::Succeeded) => Phase::ReadHead { live },
        (Phase::FlushLive { .. }, RotationEvent::Failed(cause)) => fail(error::io_failure(cause)),
        (Phase::ReadHead { live }, RotationEvent::Failed(cause)) => fail(
            head_error(&live, cause.as_str()),
        ),
        (
            Phase::CloseLive { live, segment_id, config },
            RotationEvent::Succeeded | RotationEvent::Failed(_),
        ) => Phase::RecheckLive { live, segment_id, config },
        (Phase::RecheckLive { live, segment_id, config }, RotationEvent::Found(found)) => {
            live_rechecked(request, live, segment_id, config, found)
        },
        (Phase::CreateDirectory { files, config }, RotationEvent::Succeeded) => Phase::Archive {
            files,
            config,
        },
        (Phase::CreateDirectory { .. }, RotationEvent::Failed(cause)) => fail(
            error::io_failure(cause),
        ),
        (Phase::Archive { files, config }, RotationEvent::Succeeded) => Phase::OpenStaged {
            files,
            config,
        },
        (Phase::Archive { files, .. }, RotationEvent::Failed(cause)) => fail(
            archive_error(&files, cause.as_str()),
        ),
        (Phase::OpenStaged { files, .. }, RotationEvent::Failed(cause)) => Phase::CheckStaged {
            left: give_up(
                files,
                RotationStage::Initialization,
                lifecycle::caused_error(
                    "failed to initialize rotated local thread recorder: ",
                    cause.as_str(),
                ),
            ),
        },
        (Phase::WriteStaged { files, config }, RotationEvent::Succeeded) => Phase::FlushStaged {
            files,
            config,
        },
        (Phase::WriteStaged { files, .. }, RotationEvent::Failed(cause)) => Phase::Abandon {
            left: give_up(files, RotationStage::Write, error::io_failure(cause)),
        },
        (Phase::FlushStaged { files, config }, RotationEvent::Succeeded) => Phase::CloseStaged {
            files,
            config,
        },
        (Phase::FlushStaged { files, .. }, RotationEvent::Failed(cause)) => Phase::Abandon {
            left: give_up(files, RotationStage::Flush, error::io_failure(cause)),
        },
        (Phase::CloseStaged { files, config }, RotationEvent::Succeeded) => Phase::Rename {
            files,
            config,
        },
        (Phase::CloseStaged { files, .. }, RotationEvent::Failed(cause)) => Phase::CheckStaged {
            left: give_up(files, RotationStage::Shutdown, error::io_failure(cause)),
        },
        (Phase::Rename { files, config }, RotationEvent::Succeeded) => Phase::Resume {
            files,
            config,
        },
        (Phase::Rename { files, config }, RotationEvent::Failed(cause)) => Phase::CopyOver {
            files,
            config,
            rename_error: cause,
        },
        (Phase::CopyOver { files, config, .. }, RotationEvent::Succeeded) => {
            Phase::RemoveCopied { files, config }
        },
        (Phase::CopyOver { files, rename_error, .. }, RotationEvent::Failed(cause)) => {
            let e = replace_error(&files, rename_error.as_str(), cause.as_str());
            Phase::CheckStaged { left: give_up(files, RotationStage::Install, e) }
        },
        (Phase::RemoveCopied { files, config }, RotationEvent::Succeeded) => Phase::Resume {
            files,
            config,
        },
        (Phase::RemoveCopied { files, .. }, RotationEvent::Failed(cause)) => {
            let e = remove_error(&files, cause.as_str());
            Phase::CheckStaged { left: give_up(files, RotationStage::Install, e) }
        },
        (Phase::Resume { files, .. }, RotationEvent::Succeeded) => Phase::Install { files },
        (Phase::Resume { .. }, RotationEvent::Failed(cause)) => fail(
            lifecycle::caused_error(
                "failed to resume rotated local thread recorder: ",
                cause.as_str(),
            ),
        ),
        (Phase::Install { .. }, RotationEvent::Installed(result)) => Phase::Finished { result },
        (Phase::Abandon { left }, RotationEvent::Succeeded | RotationEvent::Failed(_)) => {
            Phase::CheckStaged { left }
        },
        (Phase::CheckStaged { left }, RotationEvent::Exists(there)) => if there {
            Phase::DropStaged { left }
        } else {
            Phase::CheckArchive { left }
        },
        (Phase::DropStaged { left }, RotationEvent::Succeeded | RotationEvent::Failed(_)) => {
            Phase::CheckArchive { left }
        },
        (Phase::CheckArchive { left }, RotationEvent::Exists(there)) => if there {
            Phase::DropArchive { left }
        } else {
            fail(left.error)
        },
        (Phase::DropArchive { left }, RotationEvent::Succeeded | RotationEvent::Failed(_)) => fail(
            left.error,
        ),
        (phase, _) => phase,
    }
}

impl<Item, Origin, Version, Source, Instructions, Tools> SegmentRotation<
    Item,
    Origin,
    Version,
    Source,
    Instructions,
    Tools,
> {
    #[verifier::type_invariant]
    spec fn is_sound(self) -> bool {
        &&& archive_has_parent(self.phase@)
        &&& config_in(self.phase@) matches Some(config) ==> suits(config, self.request@)
        &&& is_before_writing(self.phase@) ==> self.items is Given
        &&& self.phase@ matches PhaseView::WriteStaged { files, .. } ==> {
            &&& self.items matches SegmentItems::Initial(items)
            &&& start_with(items@, reference_of(self.request@, files), self.given())
        }
        &&& segment_in(self.phase@) matches Some(segment_id) ==> {
            &&& self.head matches Some(head)
            &&& head.id == self.request.thread_id
            &&& head.segment_id == segment_id
        }
    }

    /// Begins a rotation whose staged file bears the given mark.
    pub fn new(
        request: RotationRequest,
        settings: SegmentSettings<Source, Instructions, Tools>,
        initial_items: Vec<RolloutItem<Item>>,
    ) -> (rotation: Self)
        ensures
            rotation.request() == request@,
            rotation.request().thread_id == request.thread_id,
            rotation.request().homes.codex_home == request.homes.codex_home@,
            rotation.request().homes.sqlite_home == request.homes.sqlite_home@,
            rotation.request().segments_dir == request.segments_dir@,
            rotation.request().metadata.cwd is Some <==> request.metadata.cwd is Some,
            rotation.request().metadata.cwd is Some ==> rotation.request().metadata.cwd->0
                == request.metadata.cwd->0@,
            rotation.request().metadata.model_provider == request.metadata.model_provider@,
            rotation.request().depth == request.previous_segment_reference_depth,
            rotation.request().staging_id == request.staging_id,
            rotation.settings() == settings,
            rotation.given() == initial_items@,
            rotation.head() is None,
            rotation.phase() is FindLive,
    {
        SegmentRotation {
            request,
            settings,
            items: SegmentItems::Given(initial_items),
            head: None,
            phase: Phase::FindLive,
        }
    }

    /// Begins a rotation whose staged file bears a new mark.
    pub fn rotate_thread_segment(
        thread_id: ThreadId,
        homes: StoreHomes,
        segments_dir: String,
        metadata: ThreadMetadata,
        previous_segment_reference_depth: Option<usize>,
        settings: SegmentSettings<Source, Instructions, Tools>,
        initial_items: Vec<RolloutItem<Item>>,
    ) -> (rotation: Self)
        ensures
            rotation.phase() is FindLive,
            rotation.request().thread_id == thread_id,
            rotation.request().homes == homes@,
            rotation.request().segments_dir == segments_dir@,
            rotation.request().metadata == metadata@,
            rotation.request().depth == previous_segment_reference_depth,
            rotation.request().staging_id.is_drawn(),
            rotation.settings() == settings,
            rotation.given() == initial_items@,
            rotation.head() is None,
    {
        SegmentRotation::new(
            RotationRequest {
                thread_id,
                homes,
                segments_dir,
                metadata,
                previous_segment_reference_depth,
                staging_id: SegmentId::new(),
            },
            settings,
            initial_items,
        )
    }

    /// What is to be done next.
    pub fn action(&self) -> (action: RotationAction<
        '_,
        Item,
        Origin,
        Version,
        Source,
        Instructions,
        Tools,
    >)
        ensures
            action.deed() == action_in(self.request(), self.phase()),
            action matches RotationAction::OpenStaged { config, .. } ==> {
                &&& Some(config.cwd@) == self.request().metadata.cwd
                &&& config.model_provider_id@ == self.request().metadata.model_provider
                &&& config.codex_home@ == self.request().homes.codex_home
                &&& config.sqlite_home@ == self.request().homes.sqlite_home
            },
            action matches RotationAction::ResumeLive { config, .. } ==> {
                &&& Some(config.cwd@) == self.request().metadata.cwd
                &&& config.model_provider_id@ == self.request().metadata.model_provider
                &&& config.codex_home@ == self.request().homes.codex_home
                &&& config.sqlite_home@ == self.request().homes.sqlite_home
            },
            action matches RotationAction::OpenStaged { recorder, .. } ==> {
                &&& self.head() matches Some(head)
                &&& head.id == self.request().thread_id
                &&& follows(recorder, self.request().thread_id, head, self.settings())
            },
            action matches RotationAction::WriteStaged { items } ==> {
                &&& self.head() matches Some(head)
                &&& self.phase() matches PhaseView::WriteStaged { files, .. }
                &&& files.segment_id == head.segment_id
                &&& start_with(items@, reference_of(self.request(), files), self.given())
            },
    {
        proof {
            use_type_invariant(self);
        }
        match &self.phase {
            Phase::FindLive => RotationAction::FindLiveRollout,
            Phase::FlushLive { .. } => RotationAction::FlushLive,
            Phase::ReadHead { live } => RotationAction::ReadHead { path: live.clone() },
            Phase::CloseLive { .. } => RotationAction::CloseLive,
            Phase::RecheckLive { .. } => RotationAction::FindLiveRollout,
            Phase::CreateDirectory { files, .. } => match files.archive.parent() {
                Some(path) => RotationAction::CreateDirectory { path },
                None => RotationAction::Return,
            },
            Phase::Archive { files, .. } => RotationAction::Copy {
                from: files.live.clone(),
                to: files.archive.clone(),
            },
            Phase::OpenStaged { files, config } => match &self.head {
                Some(head) => RotationAction::OpenStaged {
                    path: files.staged.clone(),
                    config: config.clone(),
                    recorder: StagedRecorder {
                        conversation_id: self.request.thread_id,
                        forked_from_id: head.forked_from_id,
                        parent_thread_id: head.parent_thread_id,
                        source: &self.settings.source,
                        thread_source: &head.thread_source,
                        base_instructions: &self.settings.base_instructions,
                        dynamic_tools: &self.settings.dynamic_tools,
                        multi_agent_version: &head.multi_agent_version,
                        session_timestamp: Some(head.timestamp.as_str()),
                    },
                },
                None => RotationAction::Return,
            },
            Phase::WriteStaged { .. } => match &self.items {
                SegmentItems::Initial(items) => RotationAction::WriteStaged {
                    items: items.as_slice(),
                },
                SegmentItems::Given(_) => RotationAction::Return,
            },
            Phase::FlushStaged { .. } => RotationAction::FlushStaged,
            Phase::CloseStaged { .. } => RotationAction::CloseStaged,
            Phase::Rename { files, .. } => RotationAction::Rename {
                from: files.staged.clone(),
                to: files.live.clone(),
            },
            Phase::CopyOver { files, .. } => RotationAction::Copy {
                from: files.staged.clone(),
                to: files.live.clone(),
            },
            Phase::RemoveCopied { files, .. } => RotationAction::Remove {
                path: files.staged.clone(),
            },
            Phase::Resume { files, config } => RotationAction::ResumeLive {
                path: files.live.clone(),
                config: config.clone(),
            },
            Phase::Install { files } => RotationAction::InstallRecorder {
                expected: files.live.clone(),
            },
            Phase::Abandon { .. } => RotationAction::CloseStaged,
            Phase::CheckStaged { left } => RotationAction::CheckExists {
                path: left.staged.clone(),
            },
            Phase::DropStaged { left } => RotationAction::Remove { path: left.staged.clone() },
            Phase::CheckArchive { left } => RotationAction::CheckExists {
                path: left.archive.clone(),
            },
            Phase::DropArchive { left } => RotationAction::Remove { path: left.archive.clone() },
            Phase::Finished { .. } => RotationAction::Return,
        }
    }

    /// The rotation after its action came to something. A head is remembered when
    /// it is what the rotation waits for.
    pub fn step(self, event: RotationEvent<Origin, Version>) -> (next: Self)
        ensures
            next.request() == self.request(),
            next.settings() == self.settings(),
            next.given() == self.given(),
            next.phase() == next_phase(self.request(), self.phase(), event.outcome()),
            next.head() == match (self.phase(), event) {
                (PhaseView::ReadHead { .. }, RotationEvent::Head(head)) => Some(head),
                _ => self.head(),
            },
    {
        proof {
            use_type_invariant(&self);
        }
        let SegmentRotation { request, settings, items, head, phase } = self;
        match (phase, event) {
            (Phase::ReadHead { live }, RotationEvent::Head(head)) => {
                let phase = head_read(&request, live, head.id, head.segment_id);
                SegmentRotation { request, settings, items, head: Some(head), phase }
            },
            (Phase::OpenStaged { files, config }, RotationEvent::Succeeded) => {
                let items = begun_items(&request, &files, items);
                let phase = Phase::WriteStaged { files, config };
                SegmentRotation { request, settings, items, head, phase }
            },
            (phase, event) => {
                let phase = advance(&request, phase, event);
                SegmentRotation { request, settings, items, head, phase }
            },
        }
    }

    /// After which stage the rotation was given up, while its files are removed.
    pub fn abandoned_stage(&self) -> (stage: Option<RotationStage>)
        ensures
            stage == match self.phase() {
                PhaseView::Abandon { left } => Some(left.stage),
                PhaseView::CheckStaged { left } => Some(left.stage),
                PhaseView::DropStaged { left } => Some(left.stage),
                PhaseView::CheckArchive { left } => Some(left.stage),
                PhaseView::DropArchive { left } => Some(left.stage),
                _ => None,
            },
    {
        match &self.phase {
            Phase::Abandon { left } => Some(left.stage),
            Phase::CheckStaged { left } => Some(left.stage),
            Phase::DropStaged { left } => Some(left.stage),
            Phase::CheckArchive { left } => Some(left.stage),
            Phase::DropArchive { left } => Some(left.stage),
            _ => None,
        }
    }

    /// The rotation's result, once it has ended.
    pub fn finish(self) -> (res: Option<ThreadStoreResult<()>>)
        ensures
            match self.phase() {
                PhaseView::Finished { result } => res matches Some(r) && error::result_view(r)
                    == result,
                _ => res is None,
            },
    {
        match self.phase {
            Phase::Finished { result } => Some(result),
            _ => None,
        }
    }
}

/// The recorder of the next segment belongs to the thread; it keeps from the old head
/// whom the thread was forked from, its parent, its source, its agent version and its
/// timestamp, and takes source, instructions and tools from the request.
pub proof fn law_next_segment_keeps_lineage<Origin, Version, Source, Instructions, Tools>(
    recorder: StagedRecorder<Origin, Version, Source, Instructions, Tools>,
    thread_id: ThreadId,
    head: SessionHead<Origin, Version>,
    settings: SegmentSettings<Source, Instructions, Tools>,
)
    requires
        follows(recorder, thread_id, head, settings),
    ensures
        recorder.conversation_id == thread_id,
        recorder.forked_from_id == head.forked_from_id,
        recorder.parent_thread_id == head.parent_thread_id,
        *recorder.thread_source == head.thread_source,
        *recorder.multi_agent_version == head.multi_agent_version,
        recorder.session_timestamp is Some,
        recorder.session_timestamp->0@ == head.timestamp@,
        *recorder.source == settings.source,
        *recorder.base_instructions == settings.base_instructions,
        *recorder.dynamic_tools == settings.dynamic_tools,
{
}

/// The next segment starts with one reference, to the archived segment, and then holds
/// every item that it was given, in order, and no other.
pub proof fn law_next_segment_starts_with_reference<Item>(
    items: Seq<RolloutItem<Item>>,
    reference: ReferenceView,
    given: Seq<RolloutItem<Item>>,
)
    requires
        start_with(items, reference, given),
    ensures
        items.len() == given.len() + 1,
        items[0] matches RolloutItem::RolloutReference(first) && first@ == reference,
        forall|i: int| 0 <= i < given.len() ==> #[trigger] given[i] == items[i + 1],
{
    let first = choose|first: RolloutReferenceItem|
        items == seq![RolloutItem::<Item>::RolloutReference(first)] + given && #[trigger] first@
            == reference;
    assert(items[0] == RolloutItem::<Item>::RolloutReference(first));
}

} // verus!
