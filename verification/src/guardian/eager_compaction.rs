//! Compaction of a review session ahead of its next review.
//!
//! At most one run of maintenance is under way at a time. Whoever needs the
//! session waits for the run, and is let through however the run ends.
use crate::guardian::completion;
use crate::guardian::completion::{Announcer, Completion, Published};
use tokio::sync::watch;
use vstd::prelude::*;

verus! {

/// What the waiters of a new run are shown: that it is not over.
pub const FIRST_SHOWN: bool = false;

/// What is seen of the latest run.
#[derive(Clone, Copy, Debug, PartialEq, Eq, Structural)]
pub struct RunState {
    /// The run has published that it is over.
    pub finished: bool,
    /// The run still holds its end of the channel.
    pub open: bool,
}

/// Whether a run is under way: it has neither published its end nor vanished.
pub open spec fn is_under_way(latest: Option<RunState>) -> bool {
    latest matches Some(run) && !run.finished && run.open
}

/// Whether a new run may begin.
pub fn may_begin(latest: Option<RunState>) -> (res: bool)
    ensures
        res == !is_under_way(latest),
{
    match latest {
        None => true,
        Some(run) => run.finished || !run.open,
    }
}

/// What a waiter learns.
#[derive(Clone, Copy, Debug, PartialEq, Eq, Structural)]
pub enum WaitEvent {
    /// There has been no run.
    NoRun,
    /// The channel shows whether the run is over.
    Shown { finished: bool },
    /// The run vanished without publishing its end.
    Vanished,
}

/// Whether a waiter is let through.
pub open spec fn releases(event: WaitEvent) -> bool {
    match event {
        WaitEvent::NoRun => true,
        WaitEvent::Shown { finished } => finished,
        WaitEvent::Vanished => true,
    }
}

/// What a waiter learns of the latest run, as far as it goes: a run that has
/// vanished is noticed only where it published nothing.
pub open spec fn learnt(latest: Option<RunState>) -> WaitEvent {
    match latest {
        None => WaitEvent::NoRun,
        Some(run) => if run.finished || run.open {
            WaitEvent::Shown { finished: run.finished }
        } else {
            WaitEvent::Vanished
        },
    }
}

/// Whether a waiter is let through.
pub fn is_released(event: WaitEvent) -> (res: bool)
    ensures
        res == releases(event),
{
    match event {
        WaitEvent::NoRun => true,
        WaitEvent::Shown { finished } => finished,
        WaitEvent::Vanished => true,
    }
}

/// What a waiter learns when its wait on a receiver ends, by a change or because
/// the sender is gone.
pub fn woken(receiver: &watch::Receiver<bool>, changed: bool) -> (event: WaitEvent)
    ensures
        changed ==> (event matches WaitEvent::Shown { finished } && completion::can_show(
            *receiver,
            finished,
        )),
        !changed ==> event is Vanished,
{
    if changed {
        WaitEvent::Shown { finished: completion::is_over(receiver) }
    } else {
        WaitEvent::Vanished
    }
}

/// How a run came to its end.
#[derive(Clone, Copy, Debug, PartialEq, Eq, Structural)]
pub enum RunEvent {
    /// The session was cancelled.
    Cancelled,
    /// The maintenance was done in time.
    MaintenanceDone,
    /// The time was up.
    TimeElapsed,
}

/// The outcome of a run.
#[derive(Clone, Copy, Debug, PartialEq, Eq, Structural)]
pub enum EagerCompactionRunOutcome {
    Completed,
    Cancelled,
    TimedOut,
}

/// What a run comes to: its outcome, and whether its waiters are told that it is
/// over.
pub struct Settlement {
    pub outcome: EagerCompactionRunOutcome,
    pub finished: bool,
}

/// What a run that ended in some way comes to.
pub open spec fn settlement(event: RunEvent) -> Settlement {
    match event {
        RunEvent::Cancelled => Settlement {
            outcome: EagerCompactionRunOutcome::Cancelled,
            finished: true,
        },
        RunEvent::MaintenanceDone => Settlement {
            outcome: EagerCompactionRunOutcome::Completed,
            finished: true,
        },
        RunEvent::TimeElapsed => Settlement {
            outcome: EagerCompactionRunOutcome::TimedOut,
            finished: true,
        },
    }
}

/// A run of maintenance.
#[derive(Debug)]
pub struct EagerCompactionRun {
    completion: Announcer,
}

impl EagerCompactionRun {
    /// Whether the run is the latest of a session, so that what it publishes
    /// reaches the session's waiters; from the start they are shown `first`. A run
    /// publishes only when it ends, and is used up by that.
    pub closed spec fn announces_to(&self, session: GuardianEagerCompaction, first: bool) -> bool {
        session.completion matches Some(watched) && self.completion.is_paired_with(watched, first)
    }

    /// Whether what a receipt is for was published by this run.
    pub closed spec fn has_published(&self, receipt: Published) -> bool {
        receipt.was_sent_through(self.completion)
    }

    /// Ends the run: its waiters are told that it is over, however it ended.
    pub fn run_bounded(self, event: RunEvent) -> (res: (EagerCompactionRunOutcome, Published))
        ensures
            res.0 == settlement(event).outcome,
            res.1.value() == settlement(event).finished,
            self.has_published(res.1),
    {
        let outcome = match event {
            RunEvent::Cancelled => EagerCompactionRunOutcome::Cancelled,
            RunEvent::MaintenanceDone => EagerCompactionRunOutcome::Completed,
            RunEvent::TimeElapsed => EagerCompactionRunOutcome::TimedOut,
        };
        let receipt = self.completion.publish(true);
        (outcome, receipt)
    }
}

/// The maintenance of a session: the latest run, if there has been one.
#[derive(Debug)]
pub struct GuardianEagerCompaction {
    completion: Option<Completion>,
}

impl Default for GuardianEagerCompaction {
    fn default() -> (res: GuardianEagerCompaction)
        ensures
            !res.has_run(),
    {
        GuardianEagerCompaction { completion: None }
    }
}

impl GuardianEagerCompaction {
    /// Whether there has been a run.
    pub closed spec fn has_run(&self) -> bool {
        self.completion is Some
    }

    /// Whether a look at the latest run can come to this.
    pub closed spec fn can_be_seen(&self, latest: Option<RunState>) -> bool {
        match (self.completion, latest) {
            (None, None) => true,
            (Some(completion), Some(run)) => completion.can_show_finished(run.finished)
                && completion.can_be_open(run.open),
            _ => false,
        }
    }

    /// Whether waiters of the latest run can be shown this.
    pub closed spec fn can_show_finished(&self, finished: bool) -> bool {
        self.completion matches Some(completion) && completion.can_show_finished(finished)
    }

    /// Whether what a receipt is for went to the waiters of the latest run: it was
    /// sent through the end that was made with the one they watch.
    pub closed spec fn was_told(&self, receipt: Published) -> bool {
        self.completion matches Some(watched) && exists|announcer: Announcer, first: bool|
            #[trigger] announcer.is_paired_with(watched, first) && receipt.was_sent_through(
                announcer,
            )
    }

    /// Whether a receiver watches the latest run.
    pub closed spec fn is_watched_by(&self, receiver: watch::Receiver<bool>) -> bool {
        self.completion matches Some(completion) && completion.is_watched_by(receiver)
    }

    /// What is seen of the latest run at the moment of the call.
    pub fn latest(&self) -> (latest: Option<RunState>)
        ensures
            latest is Some <==> self.has_run(),
            self.can_be_seen(latest),
    {
        match &self.completion {
            None => None,
            Some(completion) => {
                let finished = completion.is_finished();
                let open = completion.is_open();
                Some(RunState { finished, open })
            },
        }
    }

    /// Begins a run, unless one is seen to be under way. The first run always
    /// begins.
    pub fn begin(&mut self) -> (res: Option<EagerCompactionRun>)
        ensures
            exists|latest: Option<RunState>| #[trigger]
                old(self).can_be_seen(latest) && (res is None <==> is_under_way(latest)),
            !old(self).has_run() ==> res is Some,
            res is Some ==> final(self).has_run(),
            res matches Some(run) ==> run.announces_to(*final(self), FIRST_SHOWN),
            res is None ==> *final(self) == *old(self),
    {
        let latest = self.latest();
        self.begin_after(latest)
    }

    /// Begins a run, unless one is under way by what was seen of the latest.
    pub fn begin_after(&mut self, latest: Option<RunState>) -> (res: Option<EagerCompactionRun>)
        ensures
            res is None <==> is_under_way(latest),
            res is Some ==> final(self).has_run(),
            res matches Some(run) ==> run.announces_to(*final(self), FIRST_SHOWN),
            res is None ==> *final(self) == *old(self),
    {
        if !may_begin(latest) {
            return None;
        }
        let (announcer, watched) = completion::completion_channel();
        self.completion = Some(watched);
        Some(EagerCompactionRun { completion: announcer })
    }

    /// Begins a run where compaction is needed and no run is seen to be under
    /// way.
    pub fn schedule_eager_compaction(&mut self, compaction_needed: bool) -> (res: Option<
        EagerCompactionRun,
    >)
        ensures
            !compaction_needed ==> res is None && *final(self) == *old(self),
            compaction_needed ==> exists|latest: Option<RunState>| #[trigger]
                old(self).can_be_seen(latest) && (res is None <==> is_under_way(latest)),
            compaction_needed && !old(self).has_run() ==> res is Some,
            res is Some ==> final(self).has_run(),
            res matches Some(run) ==> run.announces_to(*final(self), FIRST_SHOWN),
            res is None ==> *final(self) == *old(self),
    {
        if compaction_needed {
            self.begin()
        } else {
            None
        }
    }

    /// A receiver to wait on, where there has been a run.
    pub fn watcher(&self) -> (receiver: Option<watch::Receiver<bool>>)
        ensures
            receiver is Some <==> self.has_run(),
            receiver matches Some(watching) ==> self.is_watched_by(watching),
    {
        match &self.completion {
            None => None,
            Some(completion) => Some(completion.watcher()),
        }
    }

    /// What a waiter learns at the moment of the call: nothing more is waited for
    /// where there has been no run.
    pub fn wait(&self) -> (event: WaitEvent)
        ensures
            !self.has_run() ==> event == WaitEvent::NoRun,
            self.has_run() ==> (event matches WaitEvent::Shown { finished }
                && self.can_show_finished(finished)),
    {
        match &self.completion {
            None => WaitEvent::NoRun,
            Some(completion) => WaitEvent::Shown { finished: completion.is_finished() },
        }
    }
}

/// Whether the outcome of a run is worth a warning.
pub fn warns_of_timeout(outcome: EagerCompactionRunOutcome) -> (res: bool)
    ensures
        res == (outcome == EagerCompactionRunOutcome::TimedOut),
{
    matches!(outcome, EagerCompactionRunOutcome::TimedOut)
}

/// What follows a compaction.
#[derive(Debug, PartialEq, Eq)]
pub enum CompactionFollowUp {
    /// The session's latest committed snapshot is taken anew.
    RefreshSnapshot,
    Nothing,
    /// A warning is logged.
    Warn(String),
}

/// What follows a compaction: a snapshot where something was compacted, nothing
/// where there was no need, a warning where it failed.
pub fn run_eager_compaction(result: Result<bool, String>) -> (next: CompactionFollowUp)
    ensures
        match result {
            Ok(compacted) => next == if compacted {
                CompactionFollowUp::RefreshSnapshot
            } else {
                CompactionFollowUp::Nothing
            },
            Err(cause) => next matches CompactionFollowUp::Warn(message) && message@
                == "eager guardian compaction failed: "@ + cause@,
        },
{
    match result {
        Ok(true) => CompactionFollowUp::RefreshSnapshot,
        Ok(false) => CompactionFollowUp::Nothing,
        Err(cause) => {
            let mut message = "eager guardian compaction failed: ".to_owned();
            message.append(cause.as_str());
            CompactionFollowUp::Warn(message)
        },
    }
}

/// What the maintenance of a session does next.
#[derive(Debug, PartialEq, Eq)]
pub enum MaintenanceStep {
    /// Hold off reviews.
    AcquireReviewLock,
    /// Compact, where that is needed.
    Compact,
    /// Take the session's latest committed snapshot anew.
    RefreshSnapshot,
    /// Let reviews go on; a warning is logged where there is one.
    ReleaseReviewLock { warning: Option<String> },
    /// Nothing is left to do.
    Done,
}

/// The mathematical value of what maintenance does next.
pub enum MaintenanceView {
    AcquireReviewLock,
    Compact,
    RefreshSnapshot,
    ReleaseReviewLock { warning: Option<Seq<char>> },
    Done,
}

impl View for MaintenanceStep {
    type V = MaintenanceView;

    open spec fn view(&self) -> MaintenanceView {
        match *self {
            MaintenanceStep::AcquireReviewLock => MaintenanceView::AcquireReviewLock,
            MaintenanceStep::Compact => MaintenanceView::Compact,
            MaintenanceStep::RefreshSnapshot => MaintenanceView::RefreshSnapshot,
            MaintenanceStep::ReleaseReviewLock { warning } => MaintenanceView::ReleaseReviewLock {
                warning: match warning {
                    Some(message) => Some(message@),
                    None => None,
                },
            },
            MaintenanceStep::Done => MaintenanceView::Done,
        }
    }
}

/// What a step of maintenance comes to.
#[derive(Debug, PartialEq, Eq)]
pub enum MaintenanceEvent {
    /// Reviews cannot be held off any more.
    LockRefused,
    LockAcquired,
    /// Whether something was compacted, or why that failed.
    Compacted(Result<bool, String>),
    SnapshotRefreshed,
    LockReleased,
}

/// How maintenance goes on. An event that is not the one waited for changes
/// nothing.
pub open spec fn next_step(step: MaintenanceView, event: MaintenanceEvent) -> MaintenanceView {
    match (step, event) {
        (MaintenanceView::AcquireReviewLock, MaintenanceEvent::LockRefused) => {
            MaintenanceView::Done
        },
        (MaintenanceView::AcquireReviewLock, MaintenanceEvent::LockAcquired) => {
            MaintenanceView::Compact
        },
        (MaintenanceView::Compact, MaintenanceEvent::Compacted(result)) => match result {
            Ok(true) => MaintenanceView::RefreshSnapshot,
            Ok(false) => MaintenanceView::ReleaseReviewLock { warning: None },
            Err(cause) => MaintenanceView::ReleaseReviewLock {
                warning: Some("eager guardian compaction failed: "@ + cause@),
            },
        },
        (MaintenanceView::RefreshSnapshot, MaintenanceEvent::SnapshotRefreshed) => {
            MaintenanceView::ReleaseReviewLock { warning: None }
        },
        (MaintenanceView::ReleaseReviewLock { .. }, MaintenanceEvent::LockReleased) => {
            MaintenanceView::Done
        },
        _ => step,
    }
}

impl MaintenanceStep {
    /// What maintenance does first.
    pub fn first() -> (step: MaintenanceStep)
        ensures
            step@ == MaintenanceView::AcquireReviewLock,
    {
        MaintenanceStep::AcquireReviewLock
    }

    /// What maintenance does after a step came to something.
    pub fn next(self, event: MaintenanceEvent) -> (step: MaintenanceStep)
        ensures
            step@ == next_step(self@, event),
    {
        match (self, event) {
            (MaintenanceStep::AcquireReviewLock, MaintenanceEvent::LockRefused) => {
                MaintenanceStep::Done
            },
            (MaintenanceStep::AcquireReviewLock, MaintenanceEvent::LockAcquired) => {
                MaintenanceStep::Compact
            },
            (MaintenanceStep::Compact, MaintenanceEvent::Compacted(result)) => {
                match run_eager_compaction(result) {
                    CompactionFollowUp::RefreshSnapshot => MaintenanceStep::RefreshSnapshot,
                    CompactionFollowUp::Nothing => MaintenanceStep::ReleaseReviewLock {
                        warning: None,
                    },
                    CompactionFollowUp::Warn(message) => MaintenanceStep::ReleaseReviewLock {
                        warning: Some(message),
                    },
                }
            },
            (MaintenanceStep::RefreshSnapshot, MaintenanceEvent::SnapshotRefreshed) => {
                MaintenanceStep::ReleaseReviewLock { warning: None }
            },
            (MaintenanceStep::ReleaseReviewLock { .. }, MaintenanceEvent::LockReleased) => {
                MaintenanceStep::Done
            },
            (step, _) => step,
        }
    }
}

/// What maintenance does after its steps came to the given events.
pub open spec fn step_after(events: Seq<MaintenanceEvent>) -> MaintenanceView
    decreases events.len(),
{
    if events.len() == 0 {
        MaintenanceView::AcquireReviewLock
    } else {
        next_step(step_after(events.drop_last()), events.last())
    }
}

/// Whether the `k`-th event was waited for in a step and was as given.
pub open spec fn comes_at(
    events: Seq<MaintenanceEvent>,
    step: MaintenanceView,
    event: MaintenanceEvent,
    k: int,
) -> bool {
    0 <= k < events.len() && step_after(events.take(k)) == step && events[k] == event
}

/// Whether the review lock is held: it was acquired at one event and has not been
/// released at a later one.
pub open spec fn is_lock_held(events: Seq<MaintenanceEvent>) -> bool
    decreases events.len(),
{
    if events.len() == 0 {
        false
    } else {
        let step = step_after(events.drop_last());
        if step is AcquireReviewLock && events.last() is LockAcquired {
            true
        } else if step is ReleaseReviewLock && events.last() is LockReleased {
            false
        } else {
            is_lock_held(events.drop_last())
        }
    }
}

/// Compaction and the refresh of the snapshot both happen while the review lock
/// is held, and nothing does while it is not: at the end it is free.
pub proof fn law_maintenance_under_lock(events: Seq<MaintenanceEvent>)
    ensures
        is_lock_held(events) <==> (step_after(events) is Compact || step_after(
            events,
        ) is RefreshSnapshot || step_after(events) is ReleaseReviewLock),
        step_after(events) is Done ==> !is_lock_held(events),
    decreases events.len(),
{
    if events.len() > 0 {
        law_maintenance_under_lock(events.drop_last());
    }
}

/// Where the review lock is refused maintenance is over: there is no compaction
/// and no refresh, whatever comes after.
pub proof fn law_refused_lock_does_nothing(events: Seq<MaintenanceEvent>, k: int)
    requires
        comes_at(
            events,
            MaintenanceView::AcquireReviewLock,
            MaintenanceEvent::LockRefused,
            k,
        ),
    ensures
        step_after(events) is Done,
        !is_lock_held(events),
    decreases events.len(),
{
    law_maintenance_under_lock(events);
    if k < events.len() - 1 {
        let before = events.drop_last();
        assert(before.take(k) =~= events.take(k));
        law_refused_lock_does_nothing(before, k);
    } else {
        assert(events.take(k) =~= events.drop_last());
    }
}

/// The snapshot is taken anew exactly after a compaction that compacted
/// something, and a compaction is followed by no other.
pub proof fn law_refresh_follows_compaction(step: MaintenanceView, event: MaintenanceEvent)
    ensures
        step !is RefreshSnapshot ==> (next_step(step, event) is RefreshSnapshot <==> (
        step is Compact && event == MaintenanceEvent::Compacted(Ok(true)))),
        step !is Compact ==> (next_step(step, event) is Compact <==> (
        step is AcquireReviewLock && event is LockAcquired)),
        next_step(step, event) is AcquireReviewLock ==> step is AcquireReviewLock,
{
}

/// What has become of a run that was handed out.
pub enum RunFate {
    /// It is still held, and so has published nothing.
    Unfinished,
    /// It came to its end.
    Ended(RunEvent),
    /// It was dropped before its end.
    Dropped,
}

/// What the channel of a run shows: what was sent last or, where nothing was, what
/// it showed from the start. It is open exactly while the run is held.
pub open spec fn seen_of(first: bool, fate: RunFate) -> RunState {
    match fate {
        RunFate::Unfinished => RunState { finished: first, open: true },
        RunFate::Ended(event) => RunState { finished: settlement(event).finished, open: false },
        RunFate::Dropped => RunState { finished: first, open: false },
    }
}

/// What is seen of the latest of the runs that were handed out.
pub open spec fn latest_seen(runs: Seq<RunFate>) -> Option<RunState> {
    if runs.len() == 0 {
        None
    } else {
        Some(seen_of(FIRST_SHOWN, runs.last()))
    }
}

/// What happens to a session's runs.
pub enum SessionEvent {
    /// A run is asked for.
    Begin,
    /// The run with an index comes to its end.
    End { run: int, event: RunEvent },
    /// The run with an index is dropped.
    Drop { run: int },
}

/// The runs that were handed out, after one more event: a run is handed out unless
/// one is under way, and only an unfinished run can end or be dropped.
pub open spec fn runs_next(runs: Seq<RunFate>, event: SessionEvent) -> Seq<RunFate> {
    match event {
        SessionEvent::Begin => if is_under_way(latest_seen(runs)) {
            runs
        } else {
            runs.push(RunFate::Unfinished)
        },
        SessionEvent::End { run, event } => if 0 <= run < runs.len() && runs[run] is Unfinished {
            runs.update(run, RunFate::Ended(event))
        } else {
            runs
        },
        SessionEvent::Drop { run } => if 0 <= run < runs.len() && runs[run] is Unfinished {
            runs.update(run, RunFate::Dropped)
        } else {
            runs
        },
    }
}

/// The runs that were handed out in the course of the given events.
pub open spec fn runs_after(events: Seq<SessionEvent>) -> Seq<RunFate>
    decreases events.len(),
{
    if events.len() == 0 {
        Seq::empty()
    } else {
        runs_next(runs_after(events.drop_last()), events.last())
    }
}

/// Whatever happens to its runs, a session has at most one unfinished run, the
/// latest. A further run is refused exactly while that one is unfinished, so a run
/// that has ended or was dropped never stands in the way.
pub proof fn law_one_run_at_a_time(events: Seq<SessionEvent>)
    ensures
        ({
            let runs = runs_after(events);
            &&& forall|i: int| 0 <= i < runs.len() - 1 ==> !(#[trigger] runs[i] is Unfinished)
            &&& is_under_way(latest_seen(runs)) <==> (runs.len() > 0 && runs.last() is Unfinished)
            &&& is_under_way(latest_seen(runs)) ==> runs_next(runs, SessionEvent::Begin) == runs
        }),
    decreases events.len(),
{
    if events.len() > 0 {
        law_one_run_at_a_time(events.drop_last());
    }
}

/// Waiters are let through exactly when there has been no run, or the latest has
/// ended, however it did, or was dropped; while it is unfinished they wait.
pub proof fn law_waiters_wait_for_the_latest_run(events: Seq<SessionEvent>)
    ensures
        ({
            let runs = runs_after(events);
            releases(learnt(latest_seen(runs))) <==> (runs.len() == 0 || !(
            runs.last() is Unfinished))
        }),
{
    law_one_run_at_a_time(events);
    law_refused_while_waiters_wait(latest_seen(runs_after(events)));
}

/// A run fresh from a session holds its waiters back and keeps others from
/// beginning, since they were shown from the start that it is not over, and what is
/// still held has published nothing.
pub proof fn law_new_run_is_waited_for(
    session: GuardianEagerCompaction,
    run: EagerCompactionRun,
    first: bool,
)
    requires
        run.announces_to(session, first),
        first == FIRST_SHOWN,
    ensures
        session.has_run(),
        is_under_way(Some(seen_of(first, RunFate::Unfinished))),
        !releases(learnt(Some(seen_of(first, RunFate::Unfinished)))),
{
}

/// A run is refused exactly while a waiter for the latest run would have to wait:
/// nobody waits for a run that is not under way, and no run begins while somebody
/// may be waiting for another.
pub proof fn law_refused_while_waiters_wait(latest: Option<RunState>)
    ensures
        is_under_way(latest) <==> !releases(learnt(latest)),
{
}

/// However the latest run of a session ends, the session's own waiters are told
/// what lets them through and lets the next run begin, whether or not the run
/// still holds its end of the channel.
pub proof fn law_every_end_releases(
    session: GuardianEagerCompaction,
    run: EagerCompactionRun,
    event: RunEvent,
    receipt: Published,
    open: bool,
)
    requires
        run.announces_to(session, FIRST_SHOWN),
        run.has_published(receipt),
        receipt.value() == settlement(event).finished,
    ensures
        session.was_told(receipt),
        seen_of(FIRST_SHOWN, RunFate::Ended(event)).finished == receipt.value(),
        releases(WaitEvent::Shown { finished: receipt.value() }),
        !is_under_way(Some(RunState { finished: receipt.value(), open })),
{
    assert(run.completion.is_paired_with(session.completion.unwrap(), FIRST_SHOWN));
}

/// A run that vanishes without publishing its end lets its waiters through too,
/// and the next run may begin.
pub proof fn law_vanished_run_releases(finished: bool)
    ensures
        releases(learnt(Some(RunState { finished, open: false }))),
        !is_under_way(Some(RunState { finished, open: false })),
{
}

/// A run is under way exactly where there has been one that neither published its end nor
/// vanished.
pub proof fn law_under_way_exactly(run: RunState)
    ensures
        is_under_way(Some(run)) <==> (run.open && !run.finished),
        !is_under_way(None),
{
}

/// The outcome says how the run ended, each way its own; its waiters are told of the end
/// in every case.
pub proof fn law_outcome_says_how(event: RunEvent)
    ensures
        settlement(event).finished,
        settlement(event).outcome is Completed <==> event is MaintenanceDone,
        settlement(event).outcome is Cancelled <==> event is Cancelled,
        settlement(event).outcome is TimedOut <==> event is TimeElapsed,
{
}

/// A waiter is let through exactly by hearing that there is no run, that it is over, or
/// that it vanished.
pub proof fn law_let_through_exactly(event: WaitEvent, run: RunState)
    ensures
        releases(event) <==> event != (WaitEvent::Shown { finished: false }),
        learnt(None) is NoRun,
        learnt(Some(run)) is Vanished <==> !run.open && !run.finished,
        learnt(Some(run)) == (WaitEvent::Shown { finished: true }) <==> run.finished,
{
}

/// Maintenance that goes through: it holds reviews off, compacts, takes the snapshot anew
/// where something was compacted, lets reviews go on, and is done. A warning is logged
/// exactly where the compaction failed, and says why.
pub proof fn law_maintenance_in_order(result: Result<bool, String>)
    ensures
        ({
            let start = MaintenanceView::AcquireReviewLock;
            let locked = next_step(start, MaintenanceEvent::LockAcquired);
            let compacted = next_step(locked, MaintenanceEvent::Compacted(result));
            let refreshed = next_step(compacted, MaintenanceEvent::SnapshotRefreshed);
            &&& locked is Compact
            &&& compacted is RefreshSnapshot <==> result == Ok::<bool, String>(true)
            &&& refreshed is ReleaseReviewLock
            &&& refreshed->warning is Some <==> result is Err
            &&& result matches Err(cause) ==> refreshed->warning == Some(
                "eager guardian compaction failed: "@ + cause@,
            )
            &&& next_step(refreshed, MaintenanceEvent::LockReleased) is Done
        }),
{
}

/// Only the event that a step waits for moves it on: no step is left by another, and what
/// is done stays done.
pub proof fn law_steps_wait(step: MaintenanceView, event: MaintenanceEvent)
    ensures
        next_step(step, event) != step ==> match step {
            MaintenanceView::AcquireReviewLock => event is LockAcquired || event is LockRefused,
            MaintenanceView::Compact => event is Compacted,
            MaintenanceView::RefreshSnapshot => event is SnapshotRefreshed,
            MaintenanceView::ReleaseReviewLock { .. } => event is LockReleased,
            MaintenanceView::Done => false,
        },
{
}

} // verus!
