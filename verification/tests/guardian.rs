use codex_host::guardian::eager_compaction::{
    is_released, may_begin, run_eager_compaction, warns_of_timeout, woken, CompactionFollowUp,
    EagerCompactionRunOutcome, GuardianEagerCompaction, MaintenanceEvent, MaintenanceStep,
    RunEvent, RunState, WaitEvent,
};

#[test]
fn cancellation_releases_eager_compaction_waiters() {
    let mut eager_compaction = GuardianEagerCompaction::default();
    let run = eager_compaction.begin().expect("start maintenance");
    assert!(!is_released(eager_compaction.wait()));

    let (outcome, _) = run.run_bounded(RunEvent::Cancelled);

    assert_eq!(outcome, EagerCompactionRunOutcome::Cancelled);
    assert!(is_released(eager_compaction.wait()));
}

#[test]
fn total_timeout_releases_eager_compaction_waiters() {
    let mut eager_compaction = GuardianEagerCompaction::default();
    let run = eager_compaction.begin().expect("start maintenance");
    assert!(!is_released(eager_compaction.wait()));

    let (outcome, _) = run.run_bounded(RunEvent::TimeElapsed);

    assert_eq!(outcome, EagerCompactionRunOutcome::TimedOut);
    assert!(warns_of_timeout(outcome));
    assert!(is_released(eager_compaction.wait()));
}

#[test]
fn only_one_run_at_a_time() {
    let mut eager_compaction = GuardianEagerCompaction::default();
    assert_eq!(eager_compaction.latest(), None);
    assert_eq!(eager_compaction.wait(), WaitEvent::NoRun);
    let run = eager_compaction.begin().expect("first");
    assert_eq!(eager_compaction.latest(), Some(RunState { finished: false, open: true }));
    assert!(eager_compaction.begin().is_none());
    let (outcome, _) = run.run_bounded(RunEvent::MaintenanceDone);
    assert_eq!(outcome, EagerCompactionRunOutcome::Completed);
    assert!(!warns_of_timeout(outcome));
    assert_eq!(eager_compaction.latest(), Some(RunState { finished: true, open: false }));
    assert!(eager_compaction.begin().is_some());
}

#[test]
fn a_vanished_run_does_not_block_the_next() {
    let mut eager_compaction = GuardianEagerCompaction::default();
    drop(eager_compaction.begin().expect("first"));
    assert_eq!(eager_compaction.latest(), Some(RunState { finished: false, open: false }));
    assert!(eager_compaction.begin().is_some());
}

#[test]
fn nothing_is_scheduled_without_need() {
    let mut eager_compaction = GuardianEagerCompaction::default();
    assert!(eager_compaction.schedule_eager_compaction(false).is_none());
    assert_eq!(eager_compaction.latest(), None);
    assert!(eager_compaction.schedule_eager_compaction(true).is_some());
}

#[test]
fn watchers_see_the_end_of_a_run() {
    let mut eager_compaction = GuardianEagerCompaction::default();
    assert!(eager_compaction.watcher().is_none());
    let run = eager_compaction.begin().expect("first");
    let receiver = eager_compaction.watcher().expect("watcher");
    assert_eq!(woken(&receiver, true), WaitEvent::Shown { finished: false });
    run.run_bounded(RunEvent::Cancelled);
    assert_eq!(woken(&receiver, true), WaitEvent::Shown { finished: true });
    assert_eq!(woken(&receiver, false), WaitEvent::Vanished);
    assert!(is_released(WaitEvent::Vanished));
}

#[test]
fn refusal_and_waiting_agree() {
    let states = [
        (None, WaitEvent::NoRun),
        (
            Some(RunState { finished: false, open: true }),
            WaitEvent::Shown { finished: false },
        ),
        (Some(RunState { finished: true, open: true }), WaitEvent::Shown { finished: true }),
        (Some(RunState { finished: false, open: false }), WaitEvent::Vanished),
    ];
    for (latest, event) in states {
        assert_eq!(may_begin(latest), is_released(event));
    }
}

#[test]
fn what_follows_a_compaction() {
    assert_eq!(run_eager_compaction(Ok(true)), CompactionFollowUp::RefreshSnapshot);
    assert_eq!(run_eager_compaction(Ok(false)), CompactionFollowUp::Nothing);
    assert_eq!(
        run_eager_compaction(Err("no model".to_string())),
        CompactionFollowUp::Warn("eager guardian compaction failed: no model".to_string())
    );
}

fn steps(events: Vec<MaintenanceEvent>) -> Vec<MaintenanceStep> {
    let mut seen = Vec::new();
    let mut step = MaintenanceStep::first();
    for event in events {
        step = step.next(event);
        seen.push(match &step {
            MaintenanceStep::AcquireReviewLock => MaintenanceStep::AcquireReviewLock,
            MaintenanceStep::Compact => MaintenanceStep::Compact,
            MaintenanceStep::RefreshSnapshot => MaintenanceStep::RefreshSnapshot,
            MaintenanceStep::ReleaseReviewLock { warning } => {
                MaintenanceStep::ReleaseReviewLock { warning: warning.clone() }
            }
            MaintenanceStep::Done => MaintenanceStep::Done,
        });
    }
    seen
}

#[test]
fn a_refused_lock_ends_maintenance() {
    assert_eq!(MaintenanceStep::first(), MaintenanceStep::AcquireReviewLock);
    assert_eq!(
        steps(vec![
            MaintenanceEvent::LockRefused,
            MaintenanceEvent::LockAcquired,
            MaintenanceEvent::Compacted(Ok(true)),
        ]),
        vec![MaintenanceStep::Done, MaintenanceStep::Done, MaintenanceStep::Done]
    );
}

#[test]
fn maintenance_refreshes_only_after_a_compaction_and_frees_the_lock_last() {
    assert_eq!(
        steps(vec![
            MaintenanceEvent::LockAcquired,
            MaintenanceEvent::Compacted(Ok(true)),
            MaintenanceEvent::SnapshotRefreshed,
            MaintenanceEvent::LockReleased,
        ]),
        vec![
            MaintenanceStep::Compact,
            MaintenanceStep::RefreshSnapshot,
            MaintenanceStep::ReleaseReviewLock { warning: None },
            MaintenanceStep::Done,
        ]
    );
    assert_eq!(
        steps(vec![
            MaintenanceEvent::LockAcquired,
            MaintenanceEvent::Compacted(Ok(false)),
            MaintenanceEvent::LockReleased,
        ]),
        vec![
            MaintenanceStep::Compact,
            MaintenanceStep::ReleaseReviewLock { warning: None },
            MaintenanceStep::Done,
        ]
    );
    assert_eq!(
        steps(vec![
            MaintenanceEvent::LockAcquired,
            MaintenanceEvent::Compacted(Err("no model".to_string())),
            MaintenanceEvent::SnapshotRefreshed,
        ]),
        vec![
            MaintenanceStep::Compact,
            MaintenanceStep::ReleaseReviewLock {
                warning: Some("eager guardian compaction failed: no model".to_string()),
            },
            MaintenanceStep::ReleaseReviewLock {
                warning: Some("eager guardian compaction failed: no model".to_string()),
            },
        ]
    );
}
