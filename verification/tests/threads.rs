use codex_host::ids::{SegmentId, ThreadId};
use codex_host::threads::error::{io_failure, thread_store_io_error, ThreadStoreError};
use codex_host::threads::lifecycle::{
    finish_resume, resume_after_read, resume_thread, rollout_config, CallResult, ReadThreadParams,
    ResumeStep, ResumeThreadParams, RolloutSync, StoreHomes, SyncEvent, ThreadMemoryMode,
    ThreadMetadata, WriterCall, WriterOperation, WriterRun,
};
use codex_host::threads::path::{LocalPath, PathPart};
use codex_host::threads::registry::LiveRecorders;
use codex_host::threads::rotation::{
    RotationAction, RotationEvent, RotationRequest, RotationStage, SegmentRotation,
    SegmentSettings, SessionHead, StagedRecorder,
};
use codex_host::threads::segments::{
    initial_items, rollout_timestamp_from_path, rotated_segment_path, segment_reference,
    staged_path_for, staged_rollout_path, RolloutItem,
};

const THREAD: ThreadId = ThreadId { value: 0x0000_0000_0000_4000_8000_0000_0000_0001 };
const THREAD_TEXT: &str = "00000000-0000-4000-8000-000000000001";
const STAGING: SegmentId = SegmentId { value: 0x0000_0000_0000_7000_8000_0000_0000_0002 };
const STAGING_TEXT: &str = "00000000-0000-7000-8000-000000000002";

fn path(parts: &[&str]) -> LocalPath {
    LocalPath {
        root: "/".to_string(),
        parts: parts.iter().map(|p| PathPart::from_text(p)).collect(),
        windows: false,
    }
}

fn live() -> LocalPath {
    path(&["s", "rollout-2025-01-02T03-04-05-00000000-0000-4000-8000-000000000001.jsonl"])
}

fn internal(message: &str) -> ThreadStoreError {
    ThreadStoreError::Internal { message: message.to_string() }
}

fn metadata(cwd: Option<LocalPath>) -> ThreadMetadata {
    ThreadMetadata {
        cwd,
        model_provider: "openai".to_string(),
        memory_mode: ThreadMemoryMode::Enabled,
    }
}

fn homes() -> StoreHomes {
    StoreHomes { codex_home: path(&["home"]), sqlite_home: path(&["db"]) }
}

const FORKED_FROM: ThreadId = ThreadId { value: 11 };
const PARENT: ThreadId = ThreadId { value: 12 };

type Rotation =
    SegmentRotation<u8, &'static str, u8, &'static str, &'static str, [&'static str; 2]>;
type Event = RotationEvent<&'static str, u8>;
type Action<'a> =
    RotationAction<'a, u8, &'static str, u8, &'static str, &'static str, [&'static str; 2]>;

fn settings() -> SegmentSettings<&'static str, &'static str, [&'static str; 2]> {
    SegmentSettings {
        source: "cli",
        base_instructions: "be brief",
        dynamic_tools: ["grep", "find"],
    }
}

fn rotation() -> Rotation {
    rotation_with(metadata(Some(path(&["w"]))))
}

fn rotation_with(metadata: ThreadMetadata) -> Rotation {
    SegmentRotation::new(
        RotationRequest {
            thread_id: THREAD,
            homes: homes(),
            segments_dir: "rotated".to_string(),
            metadata,
            previous_segment_reference_depth: Some(3),
            staging_id: STAGING,
        },
        settings(),
        vec![RolloutItem::Other(7), RolloutItem::Other(8)],
    )
}

/// What the next segment starts with, by default.
fn first_items(segment_id: Option<SegmentId>) -> Vec<RolloutItem<u8>> {
    let archive = match segment_id {
        None => archive(),
        Some(id) => path(&[
            "home",
            "rotated",
            THREAD_TEXT,
            &id.text(),
            "rollout-2025-01-02T03-04-05-00000000-0000-4000-8000-000000000001.jsonl",
        ]),
    };
    let reference = segment_reference(&archive, THREAD, &live(), segment_id, Some(3));
    vec![
        RolloutItem::RolloutReference(reference),
        RolloutItem::Other(7),
        RolloutItem::Other(8),
    ]
}

/// What the recorder of the next segment is opened with.
fn recorder() -> StagedRecorder<'static, &'static str, u8, &'static str, &'static str, [&'static str; 2]>
{
    StagedRecorder {
        conversation_id: THREAD,
        forked_from_id: Some(FORKED_FROM),
        parent_thread_id: Some(PARENT),
        source: &"cli",
        thread_source: &"user",
        base_instructions: &"be brief",
        dynamic_tools: &["grep", "find"],
        multi_agent_version: &2,
        session_timestamp: Some("2025-01-02T03:04:05Z"),
    }
}

/// An action that outlives its rotation.
fn kept(action: Action<'_>) -> Action<'static> {
    match action {
        RotationAction::OpenStaged { path, config, recorder: opened } => {
            assert_eq!(opened, recorder());
            RotationAction::OpenStaged { path, config, recorder: recorder() }
        }
        RotationAction::FindLiveRollout => RotationAction::FindLiveRollout,
        RotationAction::FlushLive => RotationAction::FlushLive,
        RotationAction::ReadHead { path } => RotationAction::ReadHead { path },
        RotationAction::CloseLive => RotationAction::CloseLive,
        RotationAction::CreateDirectory { path } => RotationAction::CreateDirectory { path },
        RotationAction::Copy { from, to } => RotationAction::Copy { from, to },
        RotationAction::WriteStaged { items } => {
            assert_eq!(items, first_items(None).as_slice());
            RotationAction::WriteStaged { items: &[] }
        }
        RotationAction::FlushStaged => RotationAction::FlushStaged,
        RotationAction::CloseStaged => RotationAction::CloseStaged,
        RotationAction::Rename { from, to } => RotationAction::Rename { from, to },
        RotationAction::Remove { path } => RotationAction::Remove { path },
        RotationAction::ResumeLive { path, config } => RotationAction::ResumeLive { path, config },
        RotationAction::InstallRecorder { expected } => {
            RotationAction::InstallRecorder { expected }
        }
        RotationAction::CheckExists { path } => RotationAction::CheckExists { path },
        RotationAction::Return => RotationAction::Return,
    }
}

/// Steps through a rotation, collecting its actions.
fn run(mut rotation: Rotation, events: Vec<Event>) -> (Rotation, Vec<Action<'static>>) {
    let mut actions = Vec::new();
    for event in events {
        actions.push(kept(rotation.action()));
        rotation = rotation.step(event);
    }
    (rotation, actions)
}

fn ok() -> Event {
    RotationEvent::Succeeded
}

fn failed(text: &str) -> Event {
    RotationEvent::Failed(text.to_string())
}

fn head_of(id: ThreadId, segment_id: Option<SegmentId>) -> Event {
    RotationEvent::Head(SessionHead {
        id,
        segment_id,
        forked_from_id: Some(FORKED_FROM),
        parent_thread_id: Some(PARENT),
        thread_source: "user",
        multi_agent_version: 2,
        timestamp: "2025-01-02T03:04:05Z".to_string(),
    })
}

fn head() -> Event {
    head_of(THREAD, None)
}

/// The events of a rotation that goes well up to, but not with, an action.
fn prefix(count: usize) -> Vec<Event> {
    let mut all = vec![
        RotationEvent::Found(Some(live())),
        ok(),
        head(),
        ok(),
        RotationEvent::Found(Some(live())),
        ok(),
        ok(),
        ok(),
        ok(),
        ok(),
        ok(),
        ok(),
        ok(),
    ];
    all.truncate(count);
    all
}

fn archive() -> LocalPath {
    path(&[
        "home",
        "rotated",
        THREAD_TEXT,
        "initial",
        "rollout-2025-01-02T03-04-05-00000000-0000-4000-8000-000000000001.jsonl",
    ])
}

fn staged() -> LocalPath {
    let name = format!(
        "rollout-2025-01-02T03-04-05-00000000-0000-4000-8000-000000000001.jsonl.staged-{STAGING_TEXT}.tmp"
    );
    path(&["s", &name])
}

fn result(rotation: Rotation) -> Result<(), ThreadStoreError> {
    rotation.finish().expect("ended")
}

#[test]
fn a_rotation_that_goes_well() {
    let mut events = prefix(13);
    events.push(RotationEvent::Installed(Ok(())));
    let (ended, actions) = run(rotation(), events);
    assert_eq!(result(ended), Ok(()));
    let config = rollout_config(&homes(), &metadata(Some(path(&["w"])))).expect("config");
    assert!(config.generate_memories);
    assert_eq!(
        actions,
        vec![
            RotationAction::FindLiveRollout,
            RotationAction::FlushLive,
            RotationAction::ReadHead { path: live() },
            RotationAction::CloseLive,
            RotationAction::FindLiveRollout,
            RotationAction::CreateDirectory {
                path: path(&["home", "rotated", THREAD_TEXT, "initial"]),
            },
            RotationAction::Copy { from: live(), to: archive() },
            RotationAction::OpenStaged {
                path: staged(),
                config: config.clone(),
                recorder: recorder(),
            },
            RotationAction::WriteStaged { items: &[] },
            RotationAction::FlushStaged,
            RotationAction::CloseStaged,
            RotationAction::Rename { from: staged(), to: live() },
            RotationAction::ResumeLive { path: live(), config },
            RotationAction::InstallRecorder { expected: live() },
        ]
    );
}

#[test]
fn a_rename_that_fails_is_made_up_by_a_copy() {
    let mut events = prefix(11);
    events.extend([failed("cross-device"), ok(), ok(), ok(), RotationEvent::Installed(Ok(()))]);
    let (ended, actions) = run(rotation(), events);
    assert_eq!(result(ended), Ok(()));
    assert_eq!(actions[12], RotationAction::Copy { from: staged(), to: live() });
    assert_eq!(actions[13], RotationAction::Remove { path: staged() });
}

#[test]
fn early_failures_end_a_rotation_at_once() {
    let end = |count: usize, event: Event| {
        let mut events = prefix(count);
        events.push(event);
        result(run(rotation(), events).0)
    };
    let live_text = live().display();
    assert_eq!(
        end(0, RotationEvent::Found(None)),
        Err(ThreadStoreError::ThreadNotFound { thread_id: THREAD })
    );
    assert_eq!(end(1, failed("flush")), Err(internal("flush")));
    assert_eq!(
        end(2, failed("no head")),
        Err(internal(&format!(
            "failed to read current rollout metadata from {live_text}: no head"
        )))
    );
    let foreign = ThreadId { value: 5 };
    assert_eq!(
        end(2, head_of(foreign, None)),
        Err(internal(&format!(
            "live rollout {live_text} belongs to thread 00000000-0000-0000-0000-000000000005 \
             instead of {THREAD_TEXT}"
        )))
    );
    assert_eq!(
        end(4, RotationEvent::Found(None)),
        Err(ThreadStoreError::ThreadNotFound { thread_id: THREAD })
    );
    assert_eq!(
        end(4, RotationEvent::Found(Some(path(&["other"])))),
        Err(ThreadStoreError::Conflict {
            message: format!(
                "live writer for thread {THREAD_TEXT} changed during segment rotation"
            ),
        })
    );
    assert_eq!(end(5, failed("mkdir")), Err(internal("mkdir")));
    assert_eq!(
        end(6, failed("disk full")),
        Err(internal(&format!(
            "failed to copy previous rollout segment {live_text} to {}: disk full",
            archive().display()
        )))
    );
    assert_eq!(
        end(12, failed("locked")),
        Err(internal("failed to resume rotated local thread recorder: locked"))
    );
    let conflict = ThreadStoreError::Conflict { message: "x".to_string() };
    assert_eq!(end(13, RotationEvent::Installed(Err(conflict.clone()))), Err(conflict));
}

#[test]
fn a_live_writer_that_does_not_close_is_no_obstacle() {
    let mut events = prefix(3);
    events.push(failed("stuck"));
    let (rotation, _) = run(rotation(), events);
    assert_eq!(rotation.action(), RotationAction::FindLiveRollout);
}

#[test]
fn a_rotation_needs_a_working_directory() {
    let (rotation, _) = run(rotation_with(metadata(None)), prefix(3));
    assert_eq!(
        result(rotation),
        Err(ThreadStoreError::InvalidRequest {
            message: "local thread store requires a cwd".to_string(),
        })
    );
}

#[test]
fn late_failures_remove_the_files() {
    let cases = [
        (7, failed("open"), RotationStage::Initialization, false,
            "failed to initialize rotated local thread recorder: open".to_string()),
        (8, failed("write"), RotationStage::Write, true, "write".to_string()),
        (9, failed("flush"), RotationStage::Flush, true, "flush".to_string()),
        (10, failed("close"), RotationStage::Shutdown, false, "close".to_string()),
    ];
    for (count, event, stage, closes, message) in cases {
        let mut events = prefix(count);
        events.push(event);
        let (mut rotation, _) = run(rotation(), events);
        assert_eq!(rotation.abandoned_stage(), Some(stage));
        if closes {
            assert_eq!(rotation.action(), RotationAction::CloseStaged);
            rotation = rotation.step(failed("ignored"));
        }
        let (ended, actions) = run(
            rotation,
            vec![
                RotationEvent::Exists(true),
                ok(),
                RotationEvent::Exists(true),
                failed("busy"),
            ],
        );
        assert_eq!(
            actions,
            vec![
                RotationAction::CheckExists { path: staged() },
                RotationAction::Remove { path: staged() },
                RotationAction::CheckExists { path: archive() },
                RotationAction::Remove { path: archive() },
            ]
        );
        assert_eq!(result(ended), Err(internal(&message)));
    }
    assert_eq!(RotationStage::Install.name(), "staged recorder install");
    assert_eq!(RotationStage::Initialization.name(), "staged recorder initialization");
}

#[test]
fn a_failed_installation_names_both_causes() {
    let mut events = prefix(11);
    events.extend([failed("rename"), failed("copy")]);
    let (rotation, _) = run(rotation(), events);
    let (ended, actions) =
        run(rotation, vec![RotationEvent::Exists(false), RotationEvent::Exists(false)]);
    assert_eq!(actions.len(), 2);
    assert_eq!(
        result(ended),
        Err(internal(&format!(
            "failed to replace live rollout {} from staged rollout {}: rename failed: rename; \
             copy failed: copy",
            live().display(),
            staged().display()
        )))
    );

    let mut events = prefix(11);
    events.extend([
        failed("rename"),
        ok(),
        failed("remove"),
        RotationEvent::Exists(false),
        RotationEvent::Exists(false),
    ]);
    let (ended, _) = run(self::rotation(), events);
    assert_eq!(
        result(ended),
        Err(internal(&format!(
            "failed to remove staged rollout {} after copying it to {}: remove",
            staged().display(),
            live().display()
        )))
    );
}

#[test]
fn unexpected_events_change_nothing() {
    let (rotation, _) = run(rotation(), vec![ok(), RotationEvent::Exists(true)]);
    assert_eq!(rotation.action(), RotationAction::FindLiveRollout);
    assert!(rotation.finish().is_none());
}

#[test]
fn a_new_rotation_draws_its_own_mark() {
    let begin = || -> Rotation {
        SegmentRotation::rotate_thread_segment(
            THREAD,
            homes(),
            "rotated".to_string(),
            metadata(Some(path(&["w"]))),
            None,
            settings(),
            vec![],
        )
    };
    let staged_of = |rotation: Rotation| match run(rotation, prefix(7)).0.action() {
        RotationAction::OpenStaged { path, .. } => path,
        other => panic!("unexpected {:?}", other),
    };
    assert!(!staged_of(begin()).is_same(&staged_of(begin())));
}

#[test]
fn where_segments_are_kept() {
    let segment = SegmentId { value: 0xff };
    assert_eq!(
        rotated_segment_path(&path(&["h"]), "rotated", THREAD, Some(segment), &live())
            .expect("path")
            .display(),
        format!(
            "/h/rotated/{THREAD_TEXT}/00000000-0000-0000-0000-0000000000ff/{}",
            live().file_name().expect("name").shown
        )
    );
    assert_eq!(
        rotated_segment_path(&path(&["h"]), "rotated", THREAD, None, &path(&["a", ".."])),
        Err(internal("previous rollout segment path /a/.. does not have a file name"))
    );
    assert_eq!(staged_path_for(&live(), STAGING), Ok(staged()));
    assert_eq!(
        staged_path_for(&path(&[]), STAGING),
        Err(internal("live rollout path / does not have a file name"))
    );
    let fresh = staged_rollout_path(&live()).expect("path");
    assert!(!fresh.is_same(&live()));
    let name = fresh.file_name().expect("name").as_text().expect("text");
    let id = name
        .strip_prefix(live().file_name().expect("name").shown.as_str())
        .and_then(|rest| rest.strip_prefix(".staged-"))
        .and_then(|rest| rest.strip_suffix(".tmp"))
        .expect("staged name");
    assert_eq!(id.len(), 36);
    assert_eq!(id.as_bytes()[14], b'7');
}

#[test]
fn timestamps_are_read_from_names() {
    assert_eq!(
        rollout_timestamp_from_path(&live()),
        Some("2025-01-02T03-04-05".to_string())
    );
    let of = |name: &str| rollout_timestamp_from_path(&path(&[name]));
    assert_eq!(of("rollout-x-00000000000040008000000000000001.jsonl"), Some("x".to_string()));
    assert_eq!(of("rollout-00000000-0000-4000-8000-000000000001.jsonl"), None);
    assert_eq!(of("rollout--00000000-0000-4000-8000-000000000001.jsonl"), Some(String::new()));
    assert_eq!(of("rollout-2025.jsonl"), None);
    assert_eq!(of("2025-00000000-0000-4000-8000-000000000001.jsonl"), None);
    assert_eq!(of("rollout-2025-00000000-0000-4000-8000-000000000001.json"), None);
    assert_eq!(rollout_timestamp_from_path(&path(&[])), None);
}

#[test]
fn a_segment_starts_with_the_reference() {
    let reference = segment_reference(&archive(), THREAD, &live(), Some(STAGING), None);
    assert_eq!(reference.rollout_path, archive());
    assert_eq!(reference.thread_id, Some(THREAD));
    assert_eq!(reference.rollout_timestamp, Some("2025-01-02T03-04-05".to_string()));
    assert_eq!(reference.segment_id, Some(STAGING));
    assert_eq!(reference.max_depth, None);
    assert_eq!(reference.nth_user_message, None);
    assert!(!reference.filter_fork_history);
    assert_eq!(reference.developer_message_filter_texts, None);
    let items = initial_items(reference.clone(), vec![RolloutItem::Other(1), RolloutItem::Other(2)]);
    assert_eq!(
        items,
        vec![
            RolloutItem::RolloutReference(reference),
            RolloutItem::Other(1),
            RolloutItem::Other(2),
        ]
    );
}

#[test]
fn live_writers() {
    let mut recorders = LiveRecorders::new();
    assert_eq!(recorders.ensure_live_recorder_absent(THREAD), Ok(()));
    assert_eq!(recorders.insert_live_recorder(THREAD, live(), "first"), Ok(()));
    let refused = ThreadStoreError::InvalidRequest {
        message: format!("thread {THREAD_TEXT} already has a live local writer"),
    };
    assert_eq!(recorders.ensure_live_recorder_absent(THREAD), Err(refused.clone()));
    assert_eq!(recorders.insert_live_recorder(THREAD, archive(), "second"), Err(refused));
    assert_eq!(recorders.live_recorder(THREAD), Ok(&"first"));
    assert_eq!(recorders.rollout_path(THREAD), Ok(live()));

    assert!(matches!(
        recorders.replace_unchanged(THREAD, &archive(), "third"),
        Err(ThreadStoreError::Conflict { .. })
    ));
    assert_eq!(recorders.live_recorder(THREAD), Ok(&"first"));
    assert_eq!(recorders.replace_unchanged(THREAD, &live(), "third"), Ok(()));
    assert_eq!(recorders.live_recorder(THREAD), Ok(&"third"));

    assert_eq!(recorders.discard_thread(THREAD), Ok(()));
    let missing = ThreadStoreError::ThreadNotFound { thread_id: THREAD };
    assert_eq!(recorders.discard_thread(THREAD), Err(missing.clone()));
    assert_eq!(recorders.live_recorder(THREAD), Err(missing.clone()));
    assert_eq!(recorders.rollout_path(THREAD), Err(missing.clone()));
    assert_eq!(recorders.replace_unchanged(THREAD, &live(), "fourth"), Err(missing));
}

fn resume_params(rollout_path: Option<LocalPath>, cwd: Option<LocalPath>) -> ResumeThreadParams {
    ResumeThreadParams {
        thread_id: THREAD,
        rollout_path,
        has_history: false,
        include_archived: true,
        metadata: metadata(cwd),
    }
}

#[test]
fn resuming_a_thread() {
    let mut recorders: LiveRecorders<u8> = LiveRecorders::new();
    let named = resume_params(Some(live()), Some(path(&["w"])));
    let config = rollout_config(&homes(), &named.metadata).expect("config");
    let open = ResumeStep::OpenRecorder { config, rollout_path: live() };
    assert_eq!(resume_thread(&recorders, &homes(), &named), Ok(open));

    let unnamed = resume_params(None, Some(path(&["w"])));
    assert_eq!(
        resume_thread(&recorders, &homes(), &unnamed),
        Ok(ResumeStep::ReadThread(ReadThreadParams {
            thread_id: THREAD,
            include_archived: true,
            include_history: true,
        }))
    );
    assert_eq!(
        resume_after_read(&homes(), &unnamed, Ok(None)),
        Err(internal(&format!("thread {THREAD_TEXT} does not have a rollout path")))
    );
    assert_eq!(
        resume_after_read(&homes(), &unnamed, Err(internal("db"))),
        Err(internal("db"))
    );
    assert!(matches!(
        resume_after_read(&homes(), &unnamed, Ok(Some(live()))),
        Ok(ResumeStep::OpenRecorder { .. })
    ));
    let homeless = resume_params(None, None);
    assert_eq!(
        resume_after_read(&homes(), &homeless, Ok(Some(live()))),
        Err(ThreadStoreError::InvalidRequest {
            message: "local thread store requires a cwd".to_string(),
        })
    );

    assert_eq!(
        finish_resume(&mut recorders, THREAD, live(), Err("locked".to_string())),
        Err(internal("failed to resume local thread recorder: locked"))
    );
    assert_eq!(finish_resume(&mut recorders, THREAD, live(), Ok(1)), Ok(()));
    assert_eq!(recorders.live_recorder(THREAD), Ok(&1));
    assert!(matches!(
        resume_thread(&recorders, &homes(), &named),
        Err(ThreadStoreError::InvalidRequest { .. })
    ));
}

#[test]
fn memories_only_where_enabled() {
    let mut off = metadata(Some(path(&["w"])));
    off.memory_mode = ThreadMemoryMode::Disabled;
    assert!(!rollout_config(&homes(), &off).expect("config").generate_memories);
}

#[test]
fn writer_operations_make_their_calls_in_order() {
    let cases = [
        (WriterOperation::Append, vec![WriterCall::RecordItems, WriterCall::Flush]),
        (WriterOperation::Persist, vec![WriterCall::Persist, WriterCall::SyncRolloutPath]),
        (WriterOperation::Flush, vec![WriterCall::Flush, WriterCall::SyncRolloutPath]),
        (
            WriterOperation::Shutdown,
            vec![WriterCall::Shutdown, WriterCall::SyncRolloutPath, WriterCall::Remove],
        ),
    ];
    for (operation, calls) in cases {
        let mut run = WriterRun::new(operation);
        for call in calls {
            assert_eq!(run.next_call(), Some(call));
            run.record(CallResult::Succeeded);
        }
        assert_eq!(run.next_call(), None);
        run.record(CallResult::IoFailed("late".to_string()));
        assert_eq!(run.finish(), Some(Ok(())));
    }
}

#[test]
fn the_first_failure_ends_an_operation() {
    let mut run = WriterRun::new(WriterOperation::Shutdown);
    run.record(CallResult::IoFailed("broken pipe".to_string()));
    assert_eq!(run.next_call(), None);
    assert_eq!(run.finish(), Some(Err(internal("broken pipe"))));

    let missing = ThreadStoreError::ThreadNotFound { thread_id: THREAD };
    let mut run = WriterRun::new(WriterOperation::Shutdown);
    run.record(CallResult::Succeeded);
    run.record(CallResult::StoreFailed(missing.clone()));
    assert_eq!(run.finish(), Some(Err(missing)));
    assert_eq!(WriterRun::new(WriterOperation::Append).finish(), None);
}

fn sync(events: Vec<SyncEvent>) -> RolloutSync {
    let mut state = RolloutSync::FindRollout;
    for event in events {
        state = state.step(THREAD, event);
    }
    state
}

#[test]
fn keeping_the_database_in_step() {
    let done = RolloutSync::Finished { result: Ok(()), ignored: None };
    let start = || vec![SyncEvent::Rollout(Ok(live())), SyncEvent::OnDisk(true)];
    let with = |more: Vec<SyncEvent>| {
        let mut events = start();
        events.extend(more);
        sync(events)
    };
    assert_eq!(sync(vec![SyncEvent::Rollout(Ok(live())), SyncEvent::OnDisk(false)]), done);
    assert_eq!(with(vec![SyncEvent::Database(false)]), done);
    assert_eq!(with(vec![SyncEvent::Database(true), SyncEvent::Stored(Ok(None))]), done);
    assert_eq!(with(vec![SyncEvent::Database(true), SyncEvent::Stored(Ok(Some(live())))]), done);
    let stale = || vec![SyncEvent::Database(true), SyncEvent::Stored(Ok(Some(archive())))];
    assert_eq!(with(stale()), RolloutSync::WriteMetadata { rollout_path: live() });
    let mut written = stale();
    written.push(SyncEvent::Written(Ok(())));
    assert_eq!(with(written), done);
    let mut unwritten = stale();
    unwritten.push(SyncEvent::Written(Err("locked".to_string())));
    assert_eq!(
        with(unwritten),
        RolloutSync::Finished {
            result: Ok(()),
            ignored: Some(internal(&format!(
                "failed to update thread metadata for {THREAD_TEXT}: locked"
            ))),
        }
    );
    assert_eq!(
        with(vec![SyncEvent::Database(true), SyncEvent::Stored(Err("io".to_string()))]),
        RolloutSync::Finished {
            result: Ok(()),
            ignored: Some(internal(&format!(
                "failed to read thread metadata for {THREAD_TEXT}: io"
            ))),
        }
    );
    let missing = ThreadStoreError::ThreadNotFound { thread_id: THREAD };
    assert_eq!(
        sync(vec![SyncEvent::Rollout(Err(missing.clone()))]),
        RolloutSync::Finished { result: Err(missing), ignored: None }
    );
}

#[test]
fn io_errors_keep_their_text() {
    let err = std::io::Error::new(std::io::ErrorKind::Other, "boom");
    assert_eq!(thread_store_io_error(err), internal("boom"));
    assert_eq!(io_failure("text".to_string()), internal("text"));
}

#[test]
fn paths() {
    let windows = LocalPath {
        root: r"C:\".to_string(),
        parts: vec![PathPart::from_text("a")],
        windows: true,
    };
    assert_eq!(windows.join(&PathPart::from_text("b")).display(), r"C:\a\b");
    assert_eq!(path(&["a"]).join(&PathPart::from_text("b")).display(), "/a/b");
    assert_eq!(path(&["a", "b"]).with_file_name(PathPart::from_text("c")).display(), "/a/c");
    assert_eq!(path(&["a", "b"]).parent(), Some(path(&["a"])));
    assert_eq!(path(&[]).parent(), None);
    assert_eq!(path(&["a", "."]).file_name(), None);
    assert!(path(&["a"]).is_same(&path(&["a"])));
    assert!(!path(&["a"]).is_same(&path(&["b"])));
    assert!(!path(&["a"]).is_same(&path(&["a", "b"])));
}

#[test]
fn the_reference_names_the_segment_of_the_head() {
    let mut events = prefix(8);
    events[2] = head_of(THREAD, Some(STAGING));
    match run(rotation(), events).0.action() {
        RotationAction::WriteStaged { items } => {
            assert_eq!(items, first_items(Some(STAGING)).as_slice());
        }
        other => panic!("unexpected {:?}", other),
    };
}

fn raw_name(before: &str, after: &str) -> PathPart {
    let mut bytes = before.as_bytes().to_vec();
    bytes.push(0xff);
    bytes.extend(after.as_bytes());
    PathPart { shown: format!("{before}\u{fffd}{after}"), raw: Some(bytes) }
}

#[test]
fn names_that_are_not_unicode_keep_their_bytes() {
    let id = "00000000-0000-4000-8000-000000000001";
    let name = || raw_name("rollout-2025", &format!("-{id}.jsonl"));
    let rollout = || LocalPath { root: "/".to_string(), parts: vec![name()], windows: false };
    assert_eq!(rollout().display(), format!("/rollout-2025\u{fffd}-{id}.jsonl"));
    assert_eq!(rollout_timestamp_from_path(&rollout()), None);
    assert_eq!(name().as_text(), None);

    let staged = staged_path_for(&rollout(), STAGING).expect("path");
    let suffix = format!(".staged-{STAGING_TEXT}.tmp");
    assert_eq!(
        staged.file_name(),
        Some(&raw_name("rollout-2025", &format!("-{id}.jsonl{suffix}")))
    );
    let archived =
        rotated_segment_path(&path(&["h"]), "rotated", THREAD, None, &rollout()).expect("path");
    assert_eq!(archived.file_name(), Some(&name()));

    let looks_alike = path(&[&name().shown]);
    assert!(!rollout().is_same(&looks_alike));
    assert!(rollout().is_same(&rollout()));
}
