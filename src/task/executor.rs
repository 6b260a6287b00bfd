//! Bookkeeping of the cooperative executor: which tasks exist, which are
//! ready to run, and which have a waker. The futures themselves are driven
//! by the caller, which reports each poll's outcome back.
use crate::queue::{id_capacity, id_items, new_id_queue, pop_id, push_id};
use crate::task::timer::Poll;
use crossbeam::queue::ArrayQueue;
use std::collections::HashSet;
use vstd::prelude::*;

verus! {

broadcast use vstd::std_specs::hash::group_hash_axioms;

/// Task table, ready queue and waker cache, keyed by task identity.
pub struct Executor {
    ready: ArrayQueue<u64>,
    tasks: HashSet<u64>,
    waker_cache: HashSet<u64>,
    next_id: u64,
}

impl Executor {
    /// Room the ready queue is created with.
    pub const QUEUE_CAPACITY: usize = 100;

    /// Identities of the tasks that exist (spawned and not completed).
    pub closed spec fn task_ids(&self) -> Set<u64> {
        self.tasks@
    }

    /// Identities queued for a poll, oldest first; some may belong to
    /// tasks that completed since, and are skipped.
    pub closed spec fn ready_ids(&self) -> Seq<u64> {
        id_items(self.ready)
    }

    /// Tasks for which a waker has been made.
    pub closed spec fn cached_wakers(&self) -> Set<u64> {
        self.waker_cache@
    }

    /// The identity the next spawned task receives.
    pub closed spec fn next_id(&self) -> nat {
        self.next_id as nat
    }

    pub closed spec fn wf(&self) -> bool {
        &&& id_capacity(self.ready) == Self::QUEUE_CAPACITY
        &&& id_items(self.ready).len() <= Self::QUEUE_CAPACITY
        &&& forall|id: u64| #[trigger] self.tasks@.contains(id) ==> id < self.next_id
        &&& self.waker_cache@.subset_of(self.tasks@)
    }

    /// `post` is `pre` after reporting that polling task `id` gave
    /// `outcome`: a finished task leaves the table and the waker cache, a
    /// pending one stays; the ready queue is untouched.
    pub open spec fn polled(pre: Self, id: u64, outcome: Poll, post: Self) -> bool {
        &&& post.wf()
        &&& outcome == Poll::Ready ==> post.task_ids() == pre.task_ids().remove(id)
            && post.cached_wakers() == pre.cached_wakers().remove(id)
        &&& outcome == Poll::Pending ==> post.task_ids() == pre.task_ids() && post.cached_wakers()
            == pre.cached_wakers()
        &&& post.ready_ids() == pre.ready_ids()
        &&& post.next_id() == pre.next_id()
    }

    pub fn new() -> (r: Self)
        ensures
            r.wf(),
            r.task_ids() == Set::<u64>::empty(),
            r.ready_ids() == Seq::<u64>::empty(),
            r.cached_wakers() == Set::<u64>::empty(),
            r.next_id() == 0,
    {
        Executor {
            ready: new_id_queue(Self::QUEUE_CAPACITY),
            tasks: HashSet::new(),
            waker_cache: HashSet::new(),
            next_id: 0,
        }
    }

    /// Creates a task with a fresh identity and queues it for its first
    /// poll. Fails, changing nothing, when the ready queue is full or the
    /// identities are used up.
    pub fn spawn(&mut self) -> (r: Option<u64>)
        requires
            old(self).wf(),
        ensures
            final(self).wf(),
            r is Some <==> (old(self).ready_ids().len() < Self::QUEUE_CAPACITY && old(self).next_id()
                < u64::MAX),
            match r {
                Some(id) => {
                    &&& id == old(self).next_id()
                    &&& !old(self).task_ids().contains(id)
                    &&& final(self).task_ids() == old(self).task_ids().insert(id)
                    &&& final(self).ready_ids() == old(self).ready_ids().push(id)
                    &&& final(self).cached_wakers() == old(self).cached_wakers()
                    &&& final(self).next_id() == id + 1
                },
                None => {
                    &&& final(self).task_ids() == old(self).task_ids()
                    &&& final(self).ready_ids() == old(self).ready_ids()
                    &&& final(self).cached_wakers() == old(self).cached_wakers()
                    &&& final(self).next_id() == old(self).next_id()
                },
            },
    {
        if self.next_id == u64::MAX {
            return None;
        }
        let id = self.next_id;
        match push_id(&mut self.ready, id) {
            Ok(()) => {
                self.tasks.insert(id);
                self.next_id = id + 1;
                Some(id)
            },
            Err(_) => None,
        }
    }

    /// Takes the next queued task that still exists, skipping identities of
    /// completed tasks, and makes sure it has a waker. `None` means nothing
    /// is ready: the caller halts until the next interrupt.
    pub fn next_task(&mut self) -> (r: Option<u64>)
        requires
            old(self).wf(),
        ensures
            final(self).wf(),
            final(self).task_ids() == old(self).task_ids(),
            final(self).next_id() == old(self).next_id(),
            match r {
                Some(id) => {
                    &&& old(self).task_ids().contains(id)
                    &&& final(self).cached_wakers() == old(self).cached_wakers().insert(id)
                    &&& exists|k: int|
                        0 <= k < old(self).ready_ids().len() && old(self).ready_ids()[k] == id
                            && final(self).ready_ids() == old(self).ready_ids().subrange(
                            k + 1,
                            old(self).ready_ids().len() as int,
                        ) && forall|j: int|
                            0 <= j < k ==> !old(self).task_ids().contains(
                                #[trigger] old(self).ready_ids()[j],
                            )
                },
                None => {
                    &&& final(self).ready_ids() == Seq::<u64>::empty()
                    &&& final(self).cached_wakers() == old(self).cached_wakers()
                    &&& forall|j: int|
                        0 <= j < old(self).ready_ids().len() ==> !old(self).task_ids().contains(
                            #[trigger] old(self).ready_ids()[j],
                        )
                },
            },
    {
        let ghost skipped: int = 0;
        loop
            invariant
                self.wf(),
                self.tasks@ == old(self).tasks@,
                self.waker_cache@ == old(self).waker_cache@,
                self.next_id == old(self).next_id,
                0 <= skipped <= old(self).ready_ids().len(),
                self.ready_ids() == old(self).ready_ids().subrange(
                    skipped,
                    old(self).ready_ids().len() as int,
                ),
                forall|j: int|
                    0 <= j < skipped ==> !old(self).task_ids().contains(
                        #[trigger] old(self).ready_ids()[j],
                    ),
            decreases self.ready_ids().len(),
        {
            match pop_id(&mut self.ready) {
                None => {
                    return None;
                },
                Some(id) => {
                    proof {
                        assert(old(self).ready_ids()[skipped] == id);
                    }
                    if self.tasks.contains(&id) {
                        self.waker_cache.insert(id);
                        proof {
                            assert(self.ready_ids() =~= old(self).ready_ids().subrange(
                                skipped + 1,
                                old(self).ready_ids().len() as int,
                            ));
                        }
                        return Some(id);
                    }
                    proof {
                        skipped = skipped + 1;
                        assert(self.ready_ids() =~= old(self).ready_ids().subrange(
                            skipped,
                            old(self).ready_ids().len() as int,
                        ));
                    }
                },
            }
        }
    }

    /// Removes a completed task from the task table and the waker cache.
    pub fn complete(&mut self, id: u64)
        requires
            old(self).wf(),
        ensures
            final(self).wf(),
            final(self).task_ids() == old(self).task_ids().remove(id),
            final(self).cached_wakers() == old(self).cached_wakers().remove(id),
            final(self).ready_ids() == old(self).ready_ids(),
            final(self).next_id() == old(self).next_id(),
    {
        self.tasks.remove(&id);
        self.waker_cache.remove(&id);
    }

    /// Records the outcome of polling task `id`: a finished task is removed
    /// everywhere; a pending one stays dormant until its waker queues it.
    pub fn task_polled(&mut self, id: u64, outcome: Poll)
        requires
            old(self).wf(),
        ensures
            Self::polled(*old(self), id, outcome, *final(self)),
    {
        match outcome {
            Poll::Ready => self.complete(id),
            Poll::Pending => {},
        }
    }

    /// What a task's waker does: queues its identity for another poll,
    /// without blocking. An identity that finds the queue full is dropped;
    /// returns whether it was queued.
    pub fn wake(&mut self, id: u64) -> (queued: bool)
        requires
            old(self).wf(),
        ensures
            final(self).wf(),
            final(self).task_ids() == old(self).task_ids(),
            final(self).cached_wakers() == old(self).cached_wakers(),
            final(self).next_id() == old(self).next_id(),
            queued == (old(self).ready_ids().len() < Self::QUEUE_CAPACITY),
            queued ==> final(self).ready_ids() == old(self).ready_ids().push(id),
            !queued ==> final(self).ready_ids() == old(self).ready_ids(),
    {
        push_id(&mut self.ready, id).is_ok()
    }

    /// Whether task `id` exists.
    pub fn contains(&self, id: u64) -> (r: bool)
        ensures
            r == self.task_ids().contains(id),
    {
        self.tasks.contains(&id)
    }

    /// Number of tasks that exist.
    pub fn task_count(&self) -> (r: usize)
        ensures
            r == self.task_ids().len(),
    {
        self.tasks.len()
    }
}

/// With one task that finishes on its poll and one that stays pending, the
/// table afterwards holds exactly the pending one, in whichever order the
/// two were polled.
pub proof fn lemma_only_pending_task_remains(
    e0: Executor,
    done: u64,
    pending: u64,
    e1: Executor,
    e2: Executor,
    done_first: bool,
)
    requires
        done != pending,
        e0.task_ids() == set![done, pending],
        done_first ==> Executor::polled(e0, done, Poll::Ready, e1) && Executor::polled(
            e1,
            pending,
            Poll::Pending,
            e2,
        ),
        !done_first ==> Executor::polled(e0, pending, Poll::Pending, e1) && Executor::polled(
            e1,
            done,
            Poll::Ready,
            e2,
        ),
    ensures
        e2.task_ids() == set![pending],
{
    assert(set![done, pending].remove(done) =~= set![pending]);
}

} // verus!
