//! What holds of every rotation, whatever its actions come to.
use crate::ids;
use crate::ids::{SegmentId, ThreadId};
use crate::threads::error::ThreadErrorView;
use crate::threads::lifecycle::{ConfigView, ThreadMemoryMode};
use crate::threads::path;
use crate::threads::path::{PartView, PathView};
use crate::threads::rotation;
use crate::threads::rotation::{
    ActionView,
    EventView,
    FilesView,
    PhaseView,
    RequestView,
    RotationStage,
    SurrenderView,
};
use crate::threads::segments;
use crate::threads::segments::ReferenceView;
use vstd::prelude::*;

verus! {

/// Where a rotation of a live rollout is after its actions came to the given
/// events.
pub open spec fn phase_after(
    request: RequestView,
    live: PathView,
    events: Seq<EventView>,
) -> PhaseView
    decreases events.len(),
{
    if events.len() == 0 {
        PhaseView::FlushLive { live }
    } else {
        rotation::next_phase(request, phase_after(request, live, events.drop_last()), events.last())
    }
}

/// The place of a phase in a rotation that is not given up.
pub open spec fn rank(phase: PhaseView) -> int {
    match phase {
        PhaseView::FindLive => 0,
        PhaseView::FlushLive { .. } => 1,
        PhaseView::ReadHead { .. } => 2,
        PhaseView::CloseLive { .. } => 3,
        PhaseView::RecheckLive { .. } => 4,
        PhaseView::CreateDirectory { .. } => 5,
        PhaseView::Archive { .. } => 6,
        PhaseView::OpenStaged { .. } => 7,
        PhaseView::WriteStaged { .. } => 8,
        PhaseView::FlushStaged { .. } => 9,
        PhaseView::CloseStaged { .. } => 10,
        PhaseView::Rename { .. } => 11,
        PhaseView::CopyOver { .. } => 12,
        PhaseView::RemoveCopied { .. } => 13,
        PhaseView::Resume { .. } => 14,
        PhaseView::Install { .. } => 15,
        _ => -1,
    }
}

/// Whether the `k`-th event is the success of the phase with a rank.
pub open spec fn succeeds_at(
    request: RequestView,
    live: PathView,
    events: Seq<EventView>,
    place: int,
    k: int,
) -> bool {
    &&& 0 <= k < events.len()
    &&& rank(phase_after(request, live, events.take(k))) == place
    &&& events[k] is Succeeded
}

/// Whether the phase with a rank was gone through with success.
pub open spec fn succeeded(
    request: RequestView,
    live: PathView,
    events: Seq<EventView>,
    place: int,
) -> bool {
    exists|k: int| succeeds_at(request, live, events, place, k)
}

/// Whether the next segment is complete and the live rollout archived: copied,
/// and the segment opened, written, flushed and closed.
pub open spec fn is_prepared(
    request: RequestView,
    live: PathView,
    events: Seq<EventView>,
) -> bool {
    &&& succeeded(request, live, events, 6)
    &&& succeeded(request, live, events, 7)
    &&& succeeded(request, live, events, 8)
    &&& succeeded(request, live, events, 9)
    &&& succeeded(request, live, events, 10)
}

/// Whether the next segment took the live rollout's place: renamed, or copied and
/// then removed.
pub open spec fn is_replaced(
    request: RequestView,
    live: PathView,
    events: Seq<EventView>,
) -> bool {
    succeeded(request, live, events, 11) || succeeded(request, live, events, 13)
}

/// Whether the new writer took the old one's place at the `k`-th event.
pub open spec fn installs_at(
    request: RequestView,
    live: PathView,
    events: Seq<EventView>,
    k: int,
) -> bool {
    &&& 0 <= k < events.len()
    &&& phase_after(request, live, events.take(k)) is Install
    &&& events[k] matches EventView::Installed(Ok(_))
}

proof fn lemma_succeeded_extends(
    request: RequestView,
    live: PathView,
    events: Seq<EventView>,
    place: int,
)
    requires
        events.len() > 0,
        succeeded(request, live, events.drop_last(), place),
    ensures
        succeeded(request, live, events, place),
{
    let before = events.drop_last();
    let k = choose|k: int| succeeds_at(request, live, before, place, k);
    assert(events.take(k) =~= before.take(k));
    assert(succeeds_at(request, live, events, place, k));
}

proof fn lemma_succeeded_now(
    request: RequestView,
    live: PathView,
    events: Seq<EventView>,
)
    requires
        events.len() > 0,
        events.last() is Succeeded,
    ensures
        succeeded(
            request,
            live,
            events,
            rank(phase_after(request, live, events.drop_last())),
        ),
{
    let k = events.len() - 1;
    assert(events.take(k) =~= events.drop_last());
    assert(succeeds_at(
        request,
        live,
        events,
        rank(phase_after(request, live, events.drop_last())),
        k,
    ));
}

/// What was gone through before a phase.
spec fn history(request: RequestView, live: PathView, events: Seq<EventView>) -> bool {
    let phase = phase_after(request, live, events);
    &&& rank(phase) > 6 ==> succeeded(request, live, events, 6)
    &&& rank(phase) > 7 ==> succeeded(request, live, events, 7)
    &&& rank(phase) > 8 ==> succeeded(request, live, events, 8)
    &&& rank(phase) > 9 ==> succeeded(request, live, events, 9)
    &&& rank(phase) > 10 ==> succeeded(request, live, events, 10)
    &&& rank(phase) > 13 ==> is_replaced(request, live, events)
    &&& rank(phase) > 14 ==> succeeded(request, live, events, 14)
    &&& phase matches PhaseView::Finished { result: Ok(_) } ==> {
        &&& is_prepared(request, live, events)
        &&& is_replaced(request, live, events)
        &&& succeeded(request, live, events, 14)
        &&& exists|k: int| #[trigger] installs_at(request, live, events, k)
    }
}

/// A phase is reached from the one before it by success, or was passed already.
proof fn lemma_rank_step(request: RequestView, phase: PhaseView, event: EventView)
    ensures
        ({
            let next = rotation::next_phase(request, phase, event);
            &&& rank(next) > 6 ==> rank(phase) > 6 || (rank(phase) == 6 && event is Succeeded)
            &&& rank(next) > 7 ==> rank(phase) > 7 || (rank(phase) == 7 && event is Succeeded)
            &&& rank(next) > 8 ==> rank(phase) > 8 || (rank(phase) == 8 && event is Succeeded)
            &&& rank(next) > 9 ==> rank(phase) > 9 || (rank(phase) == 9 && event is Succeeded)
            &&& rank(next) > 10 ==> rank(phase) > 10 || (rank(phase) == 10 && event is Succeeded)
            &&& rank(next) > 13 ==> rank(phase) > 13 || (rank(phase) == 11 && event is Succeeded)
                || (rank(phase) == 13 && event is Succeeded)
            &&& rank(next) > 14 ==> rank(phase) > 14 || (rank(phase) == 14 && event is Succeeded)
            &&& next matches PhaseView::Finished { result: Ok(_) } ==> next == phase || (
            phase is Install && event matches EventView::Installed(Ok(_)))
        }),
{
}

proof fn lemma_history(request: RequestView, live: PathView, events: Seq<EventView>)
    ensures
        history(request, live, events),
    decreases events.len(),
{
    if events.len() > 0 {
        let before = events.drop_last();
        lemma_history(request, live, before);
        let phase = phase_after(request, live, before);
        assert(phase_after(request, live, events) == rotation::next_phase(
            request,
            phase,
            events.last(),
        ));
        lemma_rank_step(request, phase, events.last());
        assert forall|place: int| #[trigger]
            succeeded(request, live, before, place) implies succeeded(
            request,
            live,
            events,
            place,
        ) by {
            lemma_succeeded_extends(request, live, events, place);
        }
        if events.last() is Succeeded {
            lemma_succeeded_now(request, live, events);
        }
        if phase is Install && events.last() is Installed && events.last()->Installed_0 is Ok {
            let k = events.len() - 1;
            assert(events.take(k) =~= before);
            assert(installs_at(request, live, events, k));
        }
        if phase matches PhaseView::Finished { result: Ok(_) } {
            let k = choose|k: int| #[trigger] installs_at(request, live, before, k);
            assert(events.take(k) =~= before.take(k));
            assert(installs_at(request, live, events, k));
        }
    }
}

/// Nothing takes the live rollout's place before that rollout was archived and
/// the next segment opened, written, flushed and closed, all with success.
pub proof fn law_replaced_only_when_prepared(
    request: RequestView,
    live: PathView,
    events: Seq<EventView>,
)
    requires
        phase_after(request, live, events) is Rename || phase_after(
            request,
            live,
            events,
        ) is CopyOver,
    ensures
        is_prepared(request, live, events),
{
    lemma_history(request, live, events);
}

/// A rotation that succeeds has archived the live rollout, completed the next
/// segment, put it in the live rollout's place, opened a writer on it and put
/// that in the old writer's place.
pub proof fn law_success_is_complete(
    request: RequestView,
    live: PathView,
    events: Seq<EventView>,
)
    requires
        phase_after(request, live, events) == (PhaseView::Finished { result: Ok(()) }),
    ensures
        is_prepared(request, live, events),
        is_replaced(request, live, events),
        succeeded(request, live, events, 14),
        exists|k: int| #[trigger] installs_at(request, live, events, k),
{
    lemma_history(request, live, events);
}

/// The live writer is replaced last: when the next segment has taken the live
/// rollout's place and a writer was opened on it.
pub proof fn law_writer_replaced_last(
    request: RequestView,
    live: PathView,
    events: Seq<EventView>,
)
    requires
        rotation::action_in(request, phase_after(request, live, events)) is InstallRecorder,
    ensures
        is_prepared(request, live, events),
        is_replaced(request, live, events),
        succeeded(request, live, events, 14),
{
    lemma_history(request, live, events);
}

/// Whether files are those of a rotation of a live rollout.
pub open spec fn are_files_of(
    request: RequestView,
    live: PathView,
    segment_id: Option<SegmentId>,
    archive: PathView,
    staged: PathView,
) -> bool {
    &&& segments::archive_path(
        request.homes.codex_home,
        request.segments_dir,
        request.thread_id,
        segment_id,
        live,
    ) == Ok::<PathView, ThreadErrorView>(archive)
    &&& segments::staged_path(live, request.staging_id) == Ok::<PathView, ThreadErrorView>(staged)
}

/// Whether the files that a phase speaks of are those of the rotation.
pub open spec fn is_about(request: RequestView, live: PathView, phase: PhaseView) -> bool {
    &&& files_in(phase) matches Some(files) ==> files.live == live && are_files_of(
        request,
        live,
        files.segment_id,
        files.archive,
        files.staged,
    )
    &&& left_in(phase) matches Some(left) ==> exists|segment_id: Option<SegmentId>|
        #[trigger] are_files_of(request, live, segment_id, left.archive, left.staged)
    &&& phase matches PhaseView::FlushLive { live: l } ==> l == live
    &&& phase matches PhaseView::ReadHead { live: l } ==> l == live
    &&& phase matches PhaseView::CloseLive { live: l, .. } ==> l == live
    &&& phase matches PhaseView::RecheckLive { live: l, .. } ==> l == live
    &&& phase !is FindLive
}

/// The files that a phase holds.
pub open spec fn files_in(phase: PhaseView) -> Option<FilesView> {
    match phase {
        PhaseView::CreateDirectory { files, .. } => Some(files),
        PhaseView::Archive { files, .. } => Some(files),
        PhaseView::OpenStaged { files, .. } => Some(files),
        PhaseView::WriteStaged { files, .. } => Some(files),
        PhaseView::FlushStaged { files, .. } => Some(files),
        PhaseView::CloseStaged { files, .. } => Some(files),
        PhaseView::Rename { files, .. } => Some(files),
        PhaseView::CopyOver { files, .. } => Some(files),
        PhaseView::RemoveCopied { files, .. } => Some(files),
        PhaseView::Resume { files, .. } => Some(files),
        PhaseView::Install { files } => Some(files),
        _ => None,
    }
}

/// What is left to do in a phase of a rotation that was given up.
pub open spec fn left_in(phase: PhaseView) -> Option<SurrenderView> {
    match phase {
        PhaseView::Abandon { left } => Some(left),
        PhaseView::CheckStaged { left } => Some(left),
        PhaseView::DropStaged { left } => Some(left),
        PhaseView::CheckArchive { left } => Some(left),
        PhaseView::DropArchive { left } => Some(left),
        _ => None,
    }
}

proof fn lemma_about_step(
    request: RequestView,
    live: PathView,
    phase: PhaseView,
    event: EventView,
)
    requires
        is_about(request, live, phase),
    ensures
        is_about(request, live, rotation::next_phase(request, phase, event)),
{
    let next = rotation::next_phase(request, phase, event);
    match files_in(phase) {
        Some(files) => {
            assert(are_files_of(request, live, files.segment_id, files.archive, files.staged));
            assert(left_in(next) matches Some(l) ==> are_files_of(
                request,
                live,
                files.segment_id,
                l.archive,
                l.staged,
            ));
        },
        None => {},
    }
    match left_in(phase) {
        Some(left) => {
            let segment_id = choose|segment_id: Option<SegmentId>| #[trigger]
                are_files_of(request, live, segment_id, left.archive, left.staged);
            assert(left_in(next) matches Some(l) ==> are_files_of(
                request,
                live,
                segment_id,
                l.archive,
                l.staged,
            ));
        },
        None => {},
    }
    assert(files_in(next) matches Some(files) ==> files.live == live && are_files_of(
        request,
        live,
        files.segment_id,
        files.archive,
        files.staged,
    ));
}

proof fn lemma_about(request: RequestView, live: PathView, events: Seq<EventView>)
    ensures
        is_about(request, live, phase_after(request, live, events)),
    decreases events.len(),
{
    if events.len() > 0 {
        lemma_about(request, live, events.drop_last());
        lemma_about_step(
            request,
            live,
            phase_after(request, live, events.drop_last()),
            events.last(),
        );
    }
}

/// Whether an action writes or removes the file at a path.
pub open spec fn changes(action: ActionView, target: PathView) -> bool {
    match action {
        ActionView::Copy { to, .. } => path::same_path(to, target),
        ActionView::OpenStaged { path, .. } => path::same_path(path, target),
        ActionView::Rename { from, to } => path::same_path(from, target) || path::same_path(
            to,
            target,
        ),
        ActionView::Remove { path } => path::same_path(path, target),
        _ => false,
    }
}

/// Until all checks are passed no file is created, replaced or removed: a
/// rotation that fails in one of them leaves no trace beside the live rollout.
pub proof fn law_checks_change_nothing(request: RequestView, phase: PhaseView, target: PathView)
    requires
        0 <= rank(phase) < 5,
    ensures
        !changes(rotation::action_in(request, phase), target),
        !(rotation::action_in(request, phase) is CreateDirectory),
{
}

/// The only actions that write or remove the live rollout are the two by which
/// the next segment takes its place; a rotation that is given up never touches
/// it. The rollout must not lie where its own archive goes.
pub proof fn law_live_rollout_untouched(
    request: RequestView,
    live: PathView,
    events: Seq<EventView>,
)
    requires
        forall|segment_id: Option<SegmentId>, archive: PathView, staged: PathView|
            #[trigger] are_files_of(request, live, segment_id, archive, staged)
                ==> !path::same_path(archive, live),
    ensures
        ({
            let phase = phase_after(request, live, events);
            changes(rotation::action_in(request, phase), live) ==> phase is Rename
                || phase is CopyOver
        }),
{
    lemma_about(request, live, events);
    segments::law_staged_path_differs(live, request.staging_id);
}

/// A failure between the archiving of the live rollout and the replacement of it
/// gives the rotation up, and leaves both its files to be removed.
pub proof fn law_late_failure_gives_up(
    request: RequestView,
    phase: PhaseView,
    cause: Seq<char>,
)
    requires
        7 <= rank(phase) <= 10 || 12 <= rank(phase) <= 13,
    ensures
        left_in(rotation::next_phase(request, phase, EventView::Failed(cause))) matches Some(left)
            && left.staged == files_in(phase)->0.staged && left.archive
            == files_in(phase)->0.archive,
{
}

/// Whether a file was found missing, or its removal tried, at the `k`-th event.
pub open spec fn cleared_at(
    request: RequestView,
    live: PathView,
    events: Seq<EventView>,
    target: PathView,
    k: int,
) -> bool {
    let action = rotation::action_in(request, phase_after(request, live, events.take(k)));
    &&& 0 <= k < events.len()
    &&& {
        ||| action == (ActionView::CheckExists { path: target }) && events[k] == EventView::Exists(
            false,
        )
        ||| action == (ActionView::Remove { path: target }) && (events[k] is Succeeded
            || events[k] is Failed)
    }
}

/// Whether a file was found missing, or its removal tried.
pub open spec fn cleared(
    request: RequestView,
    live: PathView,
    events: Seq<EventView>,
    target: PathView,
) -> bool {
    exists|k: int| cleared_at(request, live, events, target, k)
}

proof fn lemma_cleared_extends(
    request: RequestView,
    live: PathView,
    events: Seq<EventView>,
    target: PathView,
)
    requires
        events.len() > 0,
        cleared(request, live, events.drop_last(), target),
    ensures
        cleared(request, live, events, target),
{
    let before = events.drop_last();
    let k = choose|k: int| cleared_at(request, live, before, target, k);
    assert(events.take(k) =~= before.take(k));
    assert(cleared_at(request, live, events, target, k));
}

/// How a rotation that was given up goes on.
proof fn lemma_left_step(
    request: RequestView,
    phase: PhaseView,
    event: EventView,
    left: SurrenderView,
)
    requires
        left_in(phase) == Some(left),
    ensures
        ({
            let next = rotation::next_phase(request, phase, event);
            let clears = event == EventView::Exists(false) || ((event is Succeeded
                || event is Failed) && (phase is DropStaged || phase is DropArchive));
            if next is Finished {
                &&& next == rotation::failed(left.error)
                &&& phase is CheckArchive || phase is DropArchive
                &&& clears
            } else {
                &&& left_in(next) == Some(left)
                &&& next is CheckArchive || next is DropArchive ==> phase is CheckArchive
                    || phase is DropArchive || ((phase is CheckStaged || phase is DropStaged)
                    && clears)
            }
        }),
        phase is CheckStaged ==> rotation::action_in(request, phase) == (ActionView::CheckExists {
            path: left.staged,
        }),
        phase is DropStaged ==> rotation::action_in(request, phase) == (ActionView::Remove {
            path: left.staged,
        }),
        phase is CheckArchive ==> rotation::action_in(request, phase) == (ActionView::CheckExists {
            path: left.archive,
        }),
        phase is DropArchive ==> rotation::action_in(request, phase) == (ActionView::Remove {
            path: left.archive,
        }),
{
}

/// A rotation that was given up goes on to remove its files, and ends only when
/// each of the two was found missing or its removal tried, with the error that it
/// was given up for.
pub proof fn law_given_up_is_cleaned_up(
    request: RequestView,
    live: PathView,
    events: Seq<EventView>,
    given_up_at: int,
    left: SurrenderView,
)
    requires
        0 <= given_up_at <= events.len(),
        phase_after(request, live, events.take(given_up_at)) == (PhaseView::Abandon { left })
            || phase_after(request, live, events.take(given_up_at)) == (PhaseView::CheckStaged {
            left,
        }),
    ensures
        ({
            let phase = phase_after(request, live, events);
            if phase is Finished {
                &&& phase == rotation::failed(left.error)
                &&& cleared(request, live, events, left.staged)
                &&& cleared(request, live, events, left.archive)
            } else {
                &&& left_in(phase) == Some(left)
                &&& phase is CheckArchive || phase is DropArchive ==> cleared(
                    request,
                    live,
                    events,
                    left.staged,
                )
            }
        }),
    decreases events.len(),
{
    if given_up_at == events.len() {
        assert(events.take(given_up_at) =~= events);
    } else {
        let before = events.drop_last();
        assert(before.take(given_up_at) =~= events.take(given_up_at));
        law_given_up_is_cleaned_up(request, live, before, given_up_at, left);
        let phase = phase_after(request, live, before);
        let k = events.len() - 1;
        assert(events.take(k) =~= before);
        if left_in(phase) == Some(left) {
            lemma_left_step(request, phase, events.last(), left);
        }
        if cleared(request, live, before, left.staged) {
            lemma_cleared_extends(request, live, events, left.staged);
        }
        if cleared(request, live, before, left.archive) {
            lemma_cleared_extends(request, live, events, left.archive);
        }
        assert(cleared_at(request, live, events, left.staged, k) ==> cleared(
            request,
            live,
            events,
            left.staged,
        ));
        assert(cleared_at(request, live, events, left.archive, k) ==> cleared(
            request,
            live,
            events,
            left.archive,
        ));
    }
}

/// Whether an event is what the action of a phase can come to.
pub open spec fn is_awaited(phase: PhaseView, event: EventView) -> bool {
    match phase {
        PhaseView::FindLive => event is Found,
        PhaseView::RecheckLive { .. } => event is Found,
        PhaseView::ReadHead { .. } => event is Head || event is Failed,
        PhaseView::CheckStaged { .. } => event is Exists,
        PhaseView::CheckArchive { .. } => event is Exists,
        PhaseView::Install { .. } => event is Installed,
        PhaseView::Finished { .. } => false,
        _ => event is Succeeded || event is Failed,
    }
}

/// A bound on the actions that a rotation still takes.
pub open spec fn actions_left(phase: PhaseView) -> nat {
    match phase {
        PhaseView::Finished { .. } => 0,
        PhaseView::DropArchive { .. } => 1,
        PhaseView::CheckArchive { .. } => 2,
        PhaseView::DropStaged { .. } => 3,
        PhaseView::CheckStaged { .. } => 4,
        PhaseView::Abandon { .. } => 5,
        _ => (21 - rank(phase)) as nat,
    }
}

/// Whatever an action comes to, a rotation gets closer to its end; so it takes at
/// most 21 actions. What no action can come to changes nothing.
pub proof fn law_rotation_advances(request: RequestView, phase: PhaseView, event: EventView)
    ensures
        is_awaited(phase, event) ==> actions_left(rotation::next_phase(request, phase, event))
            < actions_left(phase),
        !is_awaited(phase, event) ==> rotation::next_phase(request, phase, event) == phase,
        actions_left(phase) == 0 <==> phase is Finished,
        actions_left(phase) <= 21,
{
}

proof fn lemma_config(request: RequestView, live: PathView, events: Seq<EventView>)
    ensures
        rotation::config_in(phase_after(request, live, events)) matches Some(config)
            ==> rotation::suits(config, request) && config.generate_memories == (
        request.metadata.memory_mode == ThreadMemoryMode::Enabled),
    decreases events.len(),
{
    if events.len() > 0 {
        lemma_config(request, live, events.drop_last());
    }
}

/// Every recorder that a rotation opens, on the next segment or on the new live
/// rollout, is set up for the working directory, the provider and the memory mode of
/// the request, and for the store's two homes, each in its own place.
pub proof fn law_recorders_are_set_up_for_the_request(
    request: RequestView,
    live: PathView,
    events: Seq<EventView>,
    path: PathView,
    config: ConfigView,
)
    requires
        rotation::action_in(request, phase_after(request, live, events)) == (
        ActionView::OpenStaged { path, config }) || rotation::action_in(
            request,
            phase_after(request, live, events),
        ) == (ActionView::ResumeLive { path, config }),
    ensures
        request.metadata.cwd == Some(config.cwd),
        config.model_provider_id == request.metadata.model_provider,
        config.codex_home == request.homes.codex_home,
        config.sqlite_home == request.homes.sqlite_home,
        config.generate_memories <==> request.metadata.memory_mode == ThreadMemoryMode::Enabled,
{
    lemma_config(request, live, events);
}

/// A rotation goes on past the head of the live rollout exactly where the head names
/// its own thread and the request has a working directory.
pub proof fn law_head_is_checked(
    request: RequestView,
    live: PathView,
    owner: ThreadId,
    segment_id: Option<SegmentId>,
)
    ensures
        ({
            let next = rotation::next_phase(
                request,
                PhaseView::ReadHead { live },
                EventView::Head { thread_id: owner, segment_id },
            );
            if owner == request.thread_id && request.metadata.cwd is Some {
                next matches PhaseView::CloseLive { live: l, segment_id: archived, .. } && l
                    == live && archived == segment_id
            } else {
                next matches PhaseView::Finished { result: Err(_) }
            }
        }),
{
}

/// Once the files of a rotation are fixed they stay the same.
proof fn lemma_files_stay(
    request: RequestView,
    live: PathView,
    events: Seq<EventView>,
    k: int,
    files: FilesView,
)
    requires
        0 <= k <= events.len(),
        files_in(phase_after(request, live, events.take(k))) == Some(files),
    ensures
        ({
            let phase = phase_after(request, live, events);
            ||| files_in(phase) == Some(files)
            ||| left_in(phase) matches Some(left) && left.staged == files.staged && left.archive
                == files.archive
            ||| phase is Finished
        }),
    decreases events.len(),
{
    if k == events.len() {
        assert(events.take(k) =~= events);
    } else {
        let before = events.drop_last();
        assert(before.take(k) =~= events.take(k));
        lemma_files_stay(request, live, before, k, files);
        lemma_files_step(
            request,
            phase_after(request, live, before),
            events.last(),
            files,
        );
    }
}

proof fn lemma_files_step(
    request: RequestView,
    phase: PhaseView,
    event: EventView,
    files: FilesView,
)
    requires
        files_in(phase) == Some(files) || (left_in(phase) matches Some(left) && left.staged
            == files.staged && left.archive == files.archive) || phase is Finished,
    ensures
        ({
            let next = rotation::next_phase(request, phase, event);
            ||| files_in(next) == Some(files)
            ||| left_in(next) matches Some(left) && left.staged == files.staged && left.archive
                == files.archive
            ||| next is Finished
        }),
{
}

/// What takes the live rollout's place is the segment that was opened before, and
/// what it takes the place of is the rollout that was archived before; nothing else
/// is ever renamed or copied.
pub proof fn law_installed_is_what_was_staged(
    request: RequestView,
    live: PathView,
    events: Seq<EventView>,
    k: int,
    opened: PathView,
    config: ConfigView,
)
    requires
        0 <= k <= events.len(),
        rotation::action_in(request, phase_after(request, live, events.take(k))) == (
        ActionView::OpenStaged { path: opened, config }),
    ensures
        rotation::action_in(request, phase_after(request, live, events)) matches ActionView::Rename {
            from,
            to,
        } ==> from == opened && to == live,
        rotation::action_in(request, phase_after(request, live, events)) matches ActionView::Copy {
            from,
            to,
        } ==> from == opened && to == live || (from == live && phase_after(
            request,
            live,
            events,
        ) is Archive),
        rotation::action_in(
            request,
            phase_after(request, live, events),
        ) matches ActionView::ResumeLive { path, .. } ==> path == live,
{
    let then = phase_after(request, live, events.take(k));
    lemma_about(request, live, events.take(k));
    lemma_about(request, live, events);
    lemma_files_stay(request, live, events, k, files_in(then).unwrap());
}

/// The archive that the next segment refers to is the file that the live rollout was
/// copied to, and was not changed since.
pub proof fn law_reference_is_to_the_archive(
    request: RequestView,
    live: PathView,
    events: Seq<EventView>,
    k: int,
    from: PathView,
    archived: PathView,
    reference: ReferenceView,
)
    requires
        0 <= k <= events.len(),
        phase_after(request, live, events.take(k)) is Archive,
        rotation::action_in(request, phase_after(request, live, events.take(k))) == (
        ActionView::Copy { from, to: archived }),
        rotation::action_in(request, phase_after(request, live, events)) == (
        ActionView::WriteStaged { reference }),
    ensures
        from == live,
        reference.rollout_path == archived,
        reference.thread_id == Some(request.thread_id),
        reference.max_depth == request.depth,
        reference.rollout_timestamp == segments::timestamp_of(live),
{
    let then = phase_after(request, live, events.take(k));
    lemma_about(request, live, events.take(k));
    lemma_files_stay(request, live, events, k, files_in(then).unwrap());
}

/// A rotation whose actions all succeed comes to its end with what installing the new
/// writer came to: nothing else makes it fail, provided that the head names the
/// thread, there is a working directory, and the live rollout has a name.
#[verifier::rlimit(40)]
pub proof fn law_rotation_that_goes_well(
    request: RequestView,
    live: PathView,
    segment_id: Option<SegmentId>,
    result: Result<(), ThreadErrorView>,
)
    requires
        request.metadata.cwd is Some,
        path::file_name(live) is Some,
    ensures
        phase_after(
            request,
            live,
            seq![
                EventView::Succeeded,
                EventView::Head { thread_id: request.thread_id, segment_id },
                EventView::Succeeded,
                EventView::Found(Some(live)),
                EventView::Succeeded,
                EventView::Succeeded,
                EventView::Succeeded,
                EventView::Succeeded,
                EventView::Succeeded,
                EventView::Succeeded,
                EventView::Succeeded,
                EventView::Succeeded,
                EventView::Installed(result),
            ],
        ) == (PhaseView::Finished { result }),
{
    let e4 = seq![
        EventView::Succeeded,
        EventView::Head { thread_id: request.thread_id, segment_id },
        EventView::Succeeded,
        EventView::Found(Some(live)),
    ];
    lemma_checks_pass(request, live, segment_id);
    let e5 = e4.push(EventView::Succeeded);
    let e6 = e5.push(EventView::Succeeded);
    let e7 = e6.push(EventView::Succeeded);
    let e8 = e7.push(EventView::Succeeded);
    let e9 = e8.push(EventView::Succeeded);
    let e10 = e9.push(EventView::Succeeded);
    let e11 = e10.push(EventView::Succeeded);
    let e12 = e11.push(EventView::Succeeded);
    let e13 = e12.push(EventView::Installed(result));
    lemma_success_step(request, live, e4);
    lemma_success_step(request, live, e5);
    lemma_success_step(request, live, e6);
    lemma_success_step(request, live, e7);
    lemma_success_step(request, live, e8);
    lemma_success_step(request, live, e9);
    lemma_success_step(request, live, e10);
    lemma_success_step(request, live, e11);
    lemma_one_more(request, live, e12, EventView::Installed(result));
    assert(seq![
        EventView::Succeeded,
        EventView::Head { thread_id: request.thread_id, segment_id },
        EventView::Succeeded,
        EventView::Found(Some(live)),
        EventView::Succeeded,
        EventView::Succeeded,
        EventView::Succeeded,
        EventView::Succeeded,
        EventView::Succeeded,
        EventView::Succeeded,
        EventView::Succeeded,
        EventView::Succeeded,
        EventView::Installed(result),
    ] =~= e13);
}

proof fn lemma_checks_pass(request: RequestView, live: PathView, segment_id: Option<SegmentId>)
    requires
        request.metadata.cwd is Some,
        path::file_name(live) is Some,
    ensures
        phase_after(
            request,
            live,
            seq![
                EventView::Succeeded,
                EventView::Head { thread_id: request.thread_id, segment_id },
                EventView::Succeeded,
                EventView::Found(Some(live)),
            ],
        ) is CreateDirectory,
{
    let head = EventView::Head { thread_id: request.thread_id, segment_id };
    let e0 = Seq::<EventView>::empty();
    let e1 = e0.push(EventView::Succeeded);
    let e2 = e1.push(head);
    let e3 = e2.push(EventView::Succeeded);
    let e4 = e3.push(EventView::Found(Some(live)));
    lemma_one_more(request, live, e0, EventView::Succeeded);
    lemma_one_more(request, live, e1, head);
    lemma_one_more(request, live, e2, EventView::Succeeded);
    lemma_one_more(request, live, e3, EventView::Found(Some(live)));
    assert(seq![
        EventView::Succeeded,
        head,
        EventView::Succeeded,
        EventView::Found(Some(live)),
    ] =~= e4);
}

/// Success takes a rotation to its next phase.
proof fn lemma_success_step(request: RequestView, live: PathView, events: Seq<EventView>)
    ensures
        ({
            let phase = phase_after(request, live, events);
            let next = phase_after(request, live, events.push(EventView::Succeeded));
            &&& phase is CreateDirectory ==> next is Archive
            &&& phase is Archive ==> next is OpenStaged
            &&& phase is OpenStaged ==> next is WriteStaged
            &&& phase is WriteStaged ==> next is FlushStaged
            &&& phase is FlushStaged ==> next is CloseStaged
            &&& phase is CloseStaged ==> next is Rename
            &&& phase is Rename ==> next is Resume
            &&& phase is Resume ==> next is Install
        }),
{
    lemma_one_more(request, live, events, EventView::Succeeded);
}

proof fn lemma_one_more(
    request: RequestView,
    live: PathView,
    events: Seq<EventView>,
    event: EventView,
)
    ensures
        phase_after(request, live, events.push(event)) == rotation::next_phase(
            request,
            phase_after(request, live, events),
            event,
        ),
{
    assert(events.push(event).drop_last() =~= events);
}

/// Each failure that ends a rotation is told with what failed: of the flush and of
/// the directory its own text, of the rest a text that ends in the cause.
pub proof fn law_failures_are_told(request: RequestView, phase: PhaseView, cause: Seq<char>)
    ensures
        ({
            let next = rotation::next_phase(request, phase, EventView::Failed(cause));
            &&& phase is FlushLive || phase is CreateDirectory ==> next == (PhaseView::Finished {
                result: Err(ThreadErrorView::Internal { message: cause }),
            })
            &&& phase is WriteStaged || phase is FlushStaged || phase is CloseStaged ==> (
            left_in(next) matches Some(left) && left.error == ThreadErrorView::Internal {
                message: cause,
            })
            &&& phase is ReadHead || phase is Archive || phase is Resume ==> (
            next matches PhaseView::Finished {
                result: Err(ThreadErrorView::Internal { message }),
            } && message.len() >= cause.len() && message.skip(message.len() - cause.len())
                == cause)
            &&& phase is OpenStaged || phase is CopyOver || phase is RemoveCopied ==> (left_in(
                next,
            ) matches Some(left) && left.error matches ThreadErrorView::Internal { message }
                && message.len() >= cause.len() && message.skip(message.len() - cause.len())
                == cause)
        }),
{
    match rotation::next_phase(request, phase, EventView::Failed(cause)) {
        PhaseView::Finished { result: Err(ThreadErrorView::Internal { message }) } => {
            if message.len() >= cause.len() {
                assert(message.skip(message.len() - cause.len()) =~= cause || phase is Finished
                    || phase is CheckArchive || phase is DropArchive);
            }
        },
        PhaseView::CheckStaged { left } => match left.error {
            ThreadErrorView::Internal { message } => {
                if message.len() >= cause.len() && !(phase is Abandon || phase is CheckStaged) {
                    assert(message.skip(message.len() - cause.len()) =~= cause);
                }
            },
            _ => {},
        },
        _ => {},
    }
}

/// What a failure says names the files that it is about, each in its place: the rollout
/// whose head was read, the one that was copied and where to, and the segment that was
/// to take the place of which rollout, with both of its causes.
pub proof fn law_failure_texts(
    request: RequestView,
    files: FilesView,
    config: ConfigView,
    rename_error: Seq<char>,
    cause: Seq<char>,
)
    ensures
        ({
            let live = path::shown(files.live);
            let archive = path::shown(files.archive);
            let staged = path::shown(files.staged);
            let event = EventView::Failed(cause);
            &&& rotation::next_phase(request, PhaseView::ReadHead { live: files.live }, event)
                == (PhaseView::Finished {
                result: Err(
                    ThreadErrorView::Internal {
                        message: "failed to read current rollout metadata from "@ + live + ": "@
                            + cause,
                    },
                ),
            })
            &&& rotation::next_phase(request, PhaseView::Archive { files, config }, event)
                == (PhaseView::Finished {
                result: Err(
                    ThreadErrorView::Internal {
                        message: "failed to copy previous rollout segment "@ + live + " to "@
                            + archive + ": "@ + cause,
                    },
                ),
            })
            &&& rotation::next_phase(request, PhaseView::Resume { files, config }, event)
                == (PhaseView::Finished {
                result: Err(
                    ThreadErrorView::Internal {
                        message: "failed to resume rotated local thread recorder: "@ + cause,
                    },
                ),
            })
            &&& left_in(
                rotation::next_phase(request, PhaseView::OpenStaged { files, config }, event),
            ) matches Some(left) && left.error == (ThreadErrorView::Internal {
                message: "failed to initialize rotated local thread recorder: "@ + cause,
            })
            &&& left_in(
                rotation::next_phase(
                    request,
                    PhaseView::CopyOver { files, config, rename_error },
                    event,
                ),
            ) matches Some(left) && left.error == (ThreadErrorView::Internal {
                message: "failed to replace live rollout "@ + live + " from staged rollout "@
                    + staged + ": rename failed: "@ + rename_error + "; copy failed: "@ + cause,
            })
            &&& left_in(
                rotation::next_phase(request, PhaseView::RemoveCopied { files, config }, event),
            ) matches Some(left) && left.error == (ThreadErrorView::Internal {
                message: "failed to remove staged rollout "@ + staged
                    + " after copying it to "@ + live + ": "@ + cause,
            })
        }),
{
}

/// A rollout that belongs to another thread is told with its own thread first, and the
/// one that was asked for last.
pub proof fn law_foreign_rollout_is_told(
    request: RequestView,
    live: PathView,
    owner: ThreadId,
    segment_id: Option<SegmentId>,
)
    requires
        owner != request.thread_id,
    ensures
        rotation::next_phase(
            request,
            PhaseView::ReadHead { live },
            EventView::Head { thread_id: owner, segment_id },
        ) == (PhaseView::Finished {
            result: Err(
                ThreadErrorView::Internal {
                    message: "live rollout "@ + path::shown(live) + " belongs to thread "@
                        + ids::hyphenated(owner.value) + " instead of "@ + ids::hyphenated(
                        request.thread_id.value,
                    ),
                },
            ),
        }),
{
}

/// A rotation that is given up says at which stage: each stage its own, and none where
/// the action does not fail. The files that are left to remove are the rotation's.
pub proof fn law_stage_of_failure(
    request: RequestView,
    files: FilesView,
    config: ConfigView,
    rename_error: Seq<char>,
    cause: Seq<char>,
)
    ensures
        ({
            let event = EventView::Failed(cause);
            let opened = left_in(
                rotation::next_phase(request, PhaseView::OpenStaged { files, config }, event),
            );
            let written = left_in(
                rotation::next_phase(request, PhaseView::WriteStaged { files, config }, event),
            );
            let flushed = left_in(
                rotation::next_phase(request, PhaseView::FlushStaged { files, config }, event),
            );
            let closed = left_in(
                rotation::next_phase(request, PhaseView::CloseStaged { files, config }, event),
            );
            let copied = left_in(
                rotation::next_phase(
                    request,
                    PhaseView::CopyOver { files, config, rename_error },
                    event,
                ),
            );
            let removed = left_in(
                rotation::next_phase(request, PhaseView::RemoveCopied { files, config }, event),
            );
            &&& opened matches Some(left) && left.stage is Initialization && left.staged
                == files.staged && left.archive == files.archive
            &&& written matches Some(left) && left.stage is Write && left.staged == files.staged
                && left.archive == files.archive
            &&& flushed matches Some(left) && left.stage is Flush && left.staged == files.staged
                && left.archive == files.archive
            &&& closed matches Some(left) && left.stage is Shutdown && left.staged
                == files.staged && left.archive == files.archive
            &&& copied matches Some(left) && left.stage is Install && left.staged == files.staged
                && left.archive == files.archive
            &&& removed matches Some(left) && left.stage is Install && left.staged
                == files.staged && left.archive == files.archive
        }),
{
}

/// The writer of the next segment is closed before its file is removed exactly where it
/// was opened and not closed yet; a close that failed is not tried again.
pub proof fn law_closed_before_removed(
    request: RequestView,
    files: FilesView,
    config: ConfigView,
    cause: Seq<char>,
)
    ensures
        ({
            let event = EventView::Failed(cause);
            &&& rotation::next_phase(request, PhaseView::OpenStaged { files, config }, event)
                is CheckStaged
            &&& rotation::next_phase(request, PhaseView::WriteStaged { files, config }, event)
                is Abandon
            &&& rotation::next_phase(request, PhaseView::FlushStaged { files, config }, event)
                is Abandon
            &&& rotation::next_phase(request, PhaseView::CloseStaged { files, config }, event)
                is CheckStaged
        }),
{
}

/// The stages are named in the log each by its own name.
pub proof fn law_stage_names(stage: RotationStage)
    ensures
        rotation::stage_name(stage) == "staged recorder "@ + match stage {
            RotationStage::Initialization => "initialization"@,
            RotationStage::Write => "write"@,
            RotationStage::Flush => "flush"@,
            RotationStage::Shutdown => "shutdown"@,
            RotationStage::Install => "install"@,
        },
{
    reveal_strlit("staged recorder ");
    reveal_strlit("initialization");
    reveal_strlit("write");
    reveal_strlit("flush");
    reveal_strlit("shutdown");
    reveal_strlit("install");
    reveal_strlit("staged recorder initialization");
    reveal_strlit("staged recorder write");
    reveal_strlit("staged recorder flush");
    reveal_strlit("staged recorder shutdown");
    reveal_strlit("staged recorder install");
    assert(rotation::stage_name(stage) =~= "staged recorder "@ + match stage {
        RotationStage::Initialization => "initialization"@,
        RotationStage::Write => "write"@,
        RotationStage::Flush => "flush"@,
        RotationStage::Shutdown => "shutdown"@,
        RotationStage::Install => "install"@,
    });
}

/// What is done with which file: the live rollout's head is read, the directory is made
/// that the archive is put into, the live rollout is copied there, the next segment is
/// written to the staged file, which is moved or copied to the live one, and it is the
/// live rollout that the new writer is opened on and that the old one must still write.
pub proof fn law_actions_are_on_their_files(
    request: RequestView,
    directory: PathView,
    name: PartView,
    files: FilesView,
    config: ConfigView,
    rename_error: Seq<char>,
)
    requires
        files.archive == path::joined(directory, name),
    ensures
        rotation::action_in(request, PhaseView::ReadHead { live: files.live })
            == (ActionView::ReadHead { path: files.live }),
        rotation::action_in(request, PhaseView::CreateDirectory { files, config })
            == (ActionView::CreateDirectory { path: directory }),
        rotation::action_in(request, PhaseView::Archive { files, config }) == (ActionView::Copy {
            from: files.live,
            to: files.archive,
        }),
        rotation::action_in(request, PhaseView::OpenStaged { files, config })
            == (ActionView::OpenStaged { path: files.staged, config }),
        rotation::action_in(request, PhaseView::Rename { files, config })
            == (ActionView::Rename { from: files.staged, to: files.live }),
        rotation::action_in(request, PhaseView::CopyOver { files, config, rename_error })
            == (ActionView::Copy { from: files.staged, to: files.live }),
        rotation::action_in(request, PhaseView::RemoveCopied { files, config })
            == (ActionView::Remove { path: files.staged }),
        rotation::action_in(request, PhaseView::Resume { files, config })
            == (ActionView::ResumeLive { path: files.live, config }),
        rotation::action_in(request, PhaseView::Install { files })
            == (ActionView::InstallRecorder { expected: files.live }),
{
    path::law_join_and_parent(directory, name, name);
}

/// What is done before there are files, and what is done with those that a rotation
/// leaves when it is given up: the staged file first, then the archive, each looked for
/// and removed at its own path.
pub proof fn law_other_actions(
    request: RequestView,
    live: PathView,
    files: FilesView,
    segment_id: Option<SegmentId>,
    config: ConfigView,
    left: SurrenderView,
    result: Result<(), ThreadErrorView>,
)
    ensures
        rotation::action_in(request, PhaseView::FindLive) is FindLiveRollout,
        rotation::action_in(request, PhaseView::FlushLive { live }) is FlushLive,
        rotation::action_in(request, PhaseView::CloseLive { live, segment_id, config }) is CloseLive,
        rotation::action_in(
            request,
            PhaseView::RecheckLive { live, segment_id, config },
        ) is FindLiveRollout,
        rotation::action_in(request, PhaseView::FlushStaged { files, config }) is FlushStaged,
        rotation::action_in(request, PhaseView::CloseStaged { files, config }) is CloseStaged,
        rotation::action_in(request, PhaseView::Abandon { left }) is CloseStaged,
        rotation::action_in(request, PhaseView::CheckStaged { left })
            == (ActionView::CheckExists { path: left.staged }),
        rotation::action_in(request, PhaseView::DropStaged { left }) == (ActionView::Remove {
            path: left.staged,
        }),
        rotation::action_in(request, PhaseView::CheckArchive { left })
            == (ActionView::CheckExists { path: left.archive }),
        rotation::action_in(request, PhaseView::DropArchive { left }) == (ActionView::Remove {
            path: left.archive,
        }),
        rotation::action_in(request, PhaseView::Finished { result }) is Return,
        rotation::next_phase(
            request,
            PhaseView::Install { files },
            EventView::Installed(result),
        ) == (PhaseView::Finished { result }),
        rotation::next_phase(request, PhaseView::CheckStaged { left }, EventView::Exists(true))
            is DropStaged,
        rotation::next_phase(request, PhaseView::CheckStaged { left }, EventView::Exists(false))
            is CheckArchive,
        rotation::next_phase(request, PhaseView::CheckArchive { left }, EventView::Exists(true))
            is DropArchive,
        rotation::next_phase(request, PhaseView::CheckArchive { left }, EventView::Exists(false))
            == (PhaseView::Finished { result: Err(left.error) }),
{
}

} // verus!
