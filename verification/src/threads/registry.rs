//! The live writers of threads.
use crate::ids;
use crate::ids::ThreadId;
use crate::threads::error;
use crate::threads::error::{ThreadErrorView, ThreadStoreError, ThreadStoreResult};
use crate::threads::path;
use crate::threads::path::{LocalPath, PathView};
use crate::threads::segments;
use std::collections::HashMap;
use vstd::prelude::*;

verus! {

/// A writer and the rollout that it writes.
#[derive(Debug)]
pub struct LiveRecorder<R> {
    pub rollout_path: LocalPath,
    pub recorder: R,
}

/// The live writers, by thread: a thread has at most one.
#[derive(Debug)]
pub struct LiveRecorders<R> {
    recorders: HashMap<u128, LiveRecorder<R>>,
}

/// The value of a live writer.
pub open spec fn recorder_view<R>(live: LiveRecorder<R>) -> (PathView, R) {
    (live.rollout_path@, live.recorder)
}

impl<R> LiveRecorders<R> {
    /// The writers and the rollouts that they write, by thread.
    pub closed spec fn live(&self) -> Map<u128, (PathView, R)> {
        self.recorders@.map_values(|live: LiveRecorder<R>| recorder_view(live))
    }
}

/// What is returned for a thread that already has a live writer.
pub open spec fn already_live(thread_id: ThreadId) -> ThreadErrorView {
    ThreadErrorView::InvalidRequest {
        message: "thread "@ + ids::hyphenated(thread_id.value)
            + " already has a live local writer"@,
    }
}

/// What is returned where another writer came in between.
pub open spec fn changed_meanwhile(thread_id: ThreadId) -> ThreadErrorView {
    ThreadErrorView::Conflict {
        message: "live writer for thread "@ + ids::hyphenated(thread_id.value)
            + " changed during segment rotation"@,
    }
}

/// What is returned for a thread without a live writer.
pub open spec fn not_live(thread_id: ThreadId) -> ThreadErrorView {
    ThreadErrorView::ThreadNotFound { thread_id }
}

/// Whether the live writer of a thread still writes a rollout, given the rollout
/// that it is found to write, if there is one.
pub open spec fn recheck(
    thread_id: ThreadId,
    found: Option<PathView>,
    expected: PathView,
) -> Result<(), ThreadErrorView> {
    match found {
        None => Err(not_live(thread_id)),
        Some(current) => if path::same_path(current, expected) {
            Ok(())
        } else {
            Err(changed_meanwhile(thread_id))
        },
    }
}

fn already_live_error(thread_id: ThreadId) -> (error: ThreadStoreError)
    ensures
        error@ == already_live(thread_id),
{
    let mut message = "thread ".to_owned();
    let id = thread_id.text();
    message.append(id.as_str());
    message.append(" already has a live local writer");
    ThreadStoreError::InvalidRequest { message }
}

fn changed_error(thread_id: ThreadId) -> (error: ThreadStoreError)
    ensures
        error@ == changed_meanwhile(thread_id),
{
    let mut message = "live writer for thread ".to_owned();
    let id = thread_id.text();
    message.append(id.as_str());
    message.append(" changed during segment rotation");
    ThreadStoreError::Conflict { message }
}

/// The value of an optional path.
pub open spec fn optional_path(found: Option<LocalPath>) -> Option<PathView> {
    match found {
        Some(path) => Some(path@),
        None => None,
    }
}

/// Checks that the live writer of a thread still writes a rollout.
pub fn check_unchanged(
    thread_id: ThreadId,
    found: &Option<LocalPath>,
    expected: &LocalPath,
) -> (res: ThreadStoreResult<()>)
    ensures
        error::result_view(res) == recheck(thread_id, optional_path(*found), expected@),
{
    match found {
        None => Err(ThreadStoreError::ThreadNotFound { thread_id }),
        Some(current) => if current.is_same(expected) {
            Ok(())
        } else {
            Err(changed_error(thread_id))
        },
    }
}

impl<R> LiveRecorders<R> {
    /// No live writers.
    pub fn new() -> (res: Self)
        ensures
            res.live() == Map::<u128, (PathView, R)>::empty(),
    {
        let res = LiveRecorders { recorders: HashMap::new() };
        assert(res.live() =~= Map::empty());
        res
    }

    /// Fails if a thread has a live writer.
    pub fn ensure_live_recorder_absent(&self, thread_id: ThreadId) -> (res: ThreadStoreResult<()>)
        ensures
            error::result_view(res) == if self.live().contains_key(thread_id.value) {
                Err(already_live(thread_id))
            } else {
                Ok(())
            },
    {
        if self.recorders.contains_key(&thread_id.value) {
            Err(already_live_error(thread_id))
        } else {
            Ok(())
        }
    }

    /// Takes in the writer of a thread, unless the thread has one already.
    pub fn insert_live_recorder(
        &mut self,
        thread_id: ThreadId,
        rollout_path: LocalPath,
        recorder: R,
    ) -> (res: ThreadStoreResult<()>)
        ensures
            if old(self).live().contains_key(thread_id.value) {
                &&& error::result_view(res) == Err::<(), ThreadErrorView>(already_live(thread_id))
                &&& final(self).live() == old(self).live()
            } else {
                &&& res is Ok
                &&& final(self).live() == old(self).live().insert(
                    thread_id.value,
                    (rollout_path@, recorder),
                )
            },
    {
        if self.recorders.contains_key(&thread_id.value) {
            return Err(already_live_error(thread_id));
        }
        let live = LiveRecorder { rollout_path, recorder };
        self.recorders.insert(thread_id.value, live);
        assert(self.live() =~= old(self).live().insert(thread_id.value, recorder_view(live)));
        Ok(())
    }

    /// The writer of a thread.
    pub fn live_recorder(&self, thread_id: ThreadId) -> (res: ThreadStoreResult<&R>)
        ensures
            match res {
                Ok(recorder) => self.live().contains_key(thread_id.value)
                    && self.live()[thread_id.value].1 == *recorder,
                Err(e) => !self.live().contains_key(thread_id.value) && e@ == not_live(thread_id),
            },
    {
        match self.recorders.get(&thread_id.value) {
            Some(live) => Ok(&live.recorder),
            None => Err(ThreadStoreError::ThreadNotFound { thread_id }),
        }
    }

    /// The rollout that the writer of a thread writes, if the thread has one.
    pub fn find_rollout_path(&self, thread_id: ThreadId) -> (res: Option<LocalPath>)
        ensures
            optional_path(res) == if self.live().contains_key(thread_id.value) {
                Some(self.live()[thread_id.value].0)
            } else {
                None
            },
    {
        match self.recorders.get(&thread_id.value) {
            Some(live) => Some(live.rollout_path.clone()),
            None => None,
        }
    }

    /// The rollout that the writer of a thread writes.
    pub fn rollout_path(&self, thread_id: ThreadId) -> (res: ThreadStoreResult<LocalPath>)
        ensures
            segments::path_result(res) == if self.live().contains_key(thread_id.value) {
                Ok(self.live()[thread_id.value].0)
            } else {
                Err(not_live(thread_id))
            },
    {
        match self.find_rollout_path(thread_id) {
            Some(rollout_path) => Ok(rollout_path),
            None => Err(ThreadStoreError::ThreadNotFound { thread_id }),
        }
    }

    /// Drops the writer of a thread, where there is one.
    pub fn remove(&mut self, thread_id: ThreadId)
        ensures
            final(self).live() == old(self).live().remove(thread_id.value),
    {
        self.recorders.remove(&thread_id.value);
        assert(self.live() =~= old(self).live().remove(thread_id.value));
    }

    /// Drops the writer of a thread, without closing it.
    pub fn discard_thread(&mut self, thread_id: ThreadId) -> (res: ThreadStoreResult<()>)
        ensures
            final(self).live() == old(self).live().remove(thread_id.value),
            error::result_view(res) == if old(self).live().contains_key(thread_id.value) {
                Ok(())
            } else {
                Err(not_live(thread_id))
            },
    {
        let known = self.recorders.contains_key(&thread_id.value);
        self.remove(thread_id);
        if known {
            Ok(())
        } else {
            Err(ThreadStoreError::ThreadNotFound { thread_id })
        }
    }

    /// Replaces the writer of a thread, provided that the present one still
    /// writes the expected rollout.
    pub fn replace_unchanged(
        &mut self,
        thread_id: ThreadId,
        expected: &LocalPath,
        recorder: R,
    ) -> (res: ThreadStoreResult<()>)
        ensures
            ({
                let live = old(self).live();
                let found = if live.contains_key(thread_id.value) {
                    Some(live[thread_id.value].0)
                } else {
                    None
                };
                error::result_view(res) == recheck(thread_id, found, expected@)
            }),
            res is Ok ==> final(self).live() == old(self).live().insert(
                thread_id.value,
                (expected@, recorder),
            ),
            res is Err ==> final(self).live() == old(self).live(),
    {
        let found = self.find_rollout_path(thread_id);
        match check_unchanged(thread_id, &found, expected) {
            Err(error) => Err(error),
            Ok(_) => {
                let live = LiveRecorder { rollout_path: expected.clone(), recorder };
                self.recorders.insert(thread_id.value, live);
                assert(self.live() =~= old(self).live().insert(
                    thread_id.value,
                    recorder_view(live),
                ));
                Ok(())
            },
        }
    }
}

/// A writer is found unchanged exactly where there is one and it writes a path with
/// the expected root and components; a missing writer and another one are told
/// apart.
pub proof fn law_unchanged_exactly(
    thread_id: ThreadId,
    found: Option<PathView>,
    expected: PathView,
)
    ensures
        recheck(thread_id, found, expected) is Ok <==> (found matches Some(current)
            && current.root == expected.root && current.parts == expected.parts),
        found is None ==> recheck(thread_id, found, expected) == Err::<(), ThreadErrorView>(
            ThreadErrorView::ThreadNotFound { thread_id },
        ),
        found is Some && recheck(thread_id, found, expected) is Err ==> recheck(
            thread_id,
            found,
            expected,
        ) == Err::<(), ThreadErrorView>(
            ThreadErrorView::Conflict {
                message: "live writer for thread "@ + ids::hyphenated(thread_id.value)
                    + " changed during segment rotation"@,
            },
        ),
{
}

/// What is told of a thread's writer names the thread: that it has one already, that it
/// changed, that there is none.
pub proof fn law_messages_name_the_thread(thread_id: ThreadId, expected: PathView)
    ensures
        already_live(thread_id) == (ThreadErrorView::InvalidRequest {
            message: "thread "@ + ids::hyphenated(thread_id.value)
                + " already has a live local writer"@,
        }),
        recheck(thread_id, None, expected) == Err::<(), ThreadErrorView>(
            ThreadErrorView::ThreadNotFound { thread_id },
        ),
        changed_meanwhile(thread_id) == (ThreadErrorView::Conflict {
            message: "live writer for thread "@ + ids::hyphenated(thread_id.value)
                + " changed during segment rotation"@,
        }),
{
}

} // verus!
