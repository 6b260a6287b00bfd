//! The tick counter advanced by the timer interrupt, the registry of tasks
//! waiting for a tick, and the sleep future built on them.
use crate::queue::{id_capacity, id_items, new_id_queue, pop_id, push_id};
use crossbeam::queue::ArrayQueue;
use vstd::prelude::*;

verus! {

/// Outcome of resuming a suspended computation.
#[derive(Clone, Copy, Debug, PartialEq, Eq, Structural)]
pub enum Poll {
    Ready,
    Pending,
}

/// Ticks seen so far, and the tasks to wake on the next tick.
pub struct Timer {
    ticks: u64,
    wakers: ArrayQueue<u64>,
}

impl Timer {
    /// Room the waker registry is created with.
    pub const WAKER_CAPACITY: usize = 100;

    pub closed spec fn ticks(&self) -> nat {
        self.ticks as nat
    }

    /// Tasks registered for wake-up, oldest first.
    pub closed spec fn pending_wakers(&self) -> Seq<u64> {
        id_items(self.wakers)
    }

    pub closed spec fn waker_room(&self) -> nat {
        id_capacity(self.wakers)
    }

    pub open spec fn wf(&self) -> bool {
        &&& self.waker_room() == Self::WAKER_CAPACITY
        &&& self.pending_wakers().len() <= self.waker_room()
    }

    /// `post` is `pre` after one timer interrupt: one more tick, and every
    /// registered task handed out for wake-up.
    pub open spec fn ticked(pre: Self, post: Self) -> bool {
        &&& post.wf()
        &&& post.ticks() == pre.ticks() + 1
        &&& post.pending_wakers() == Seq::<u64>::empty()
    }

    pub fn new() -> (r: Self)
        ensures
            r.wf(),
            r.ticks() == 0,
            r.pending_wakers() == Seq::<u64>::empty(),
    {
        Timer { ticks: 0, wakers: new_id_queue(Self::WAKER_CAPACITY) }
    }

    /// The current tick count.
    pub fn now(&self) -> (r: u64)
        ensures
            r == self.ticks(),
    {
        self.ticks
    }

    /// Registers `task` to be woken on the next tick. A task that finds the
    /// registry full is dropped; returns whether it was kept.
    pub fn register_waker(&mut self, task: u64) -> (kept: bool)
        requires
            old(self).wf(),
        ensures
            final(self).wf(),
            final(self).ticks() == old(self).ticks(),
            kept == (old(self).pending_wakers().len() < Self::WAKER_CAPACITY),
            kept ==> final(self).pending_wakers() == old(self).pending_wakers().push(task),
            !kept ==> final(self).pending_wakers() == old(self).pending_wakers(),
    {
        push_id(&mut self.wakers, task).is_ok()
    }

    /// One timer interrupt: advances the counter by one and drains the
    /// whole registry, returning the tasks to wake in registration order.
    pub fn tick(&mut self) -> (woken: Vec<u64>)
        requires
            old(self).wf(),
            old(self).ticks() < u64::MAX,
        ensures
            Self::ticked(*old(self), *final(self)),
            woken@ == old(self).pending_wakers(),
    {
        self.ticks = self.ticks + 1;
        let mut woken: Vec<u64> = Vec::new();
        loop
            invariant
                self.wf(),
                self.ticks() == old(self).ticks() + 1,
                woken@ + self.pending_wakers() == old(self).pending_wakers(),
            decreases self.pending_wakers().len(),
        {
            let before = Ghost(self.pending_wakers());
            match pop_id(&mut self.wakers) {
                Some(task) => {
                    woken.push(task);
                    proof {
                        assert(woken@ + self.pending_wakers() =~= old(self).pending_wakers()) by {
                            assert(before@ =~= seq![task] + self.pending_wakers());
                        }
                    }
                },
                None => {
                    proof {
                        assert(self.pending_wakers() =~= Seq::<u64>::empty());
                        assert(woken@ =~= old(self).pending_wakers());
                    }
                    return woken;
                },
            }
        }
    }
}

/// A future that becomes ready once the tick counter reaches a target.
pub struct Sleeper {
    target_ticks: u64,
}

impl Sleeper {
    /// The tick count at which the sleeper becomes ready.
    pub closed spec fn target(&self) -> nat {
        self.target_ticks as nat
    }

    /// Whether the sleeper is ready under `timer`.
    pub open spec fn is_ready(&self, timer: Timer) -> bool {
        timer.ticks() >= self.target()
    }

    fn new(timer: &Timer, ticks: u64) -> (r: Self)
        requires
            timer.ticks() + ticks <= u64::MAX,
        ensures
            r.target() == timer.ticks() + ticks,
    {
        Sleeper { target_ticks: timer.ticks + ticks }
    }

    /// The tick count at which the sleeper becomes ready.
    pub fn target_ticks(&self) -> (r: u64)
        ensures
            r == self.target(),
    {
        self.target_ticks
    }

    /// Resumes the sleep on behalf of `task`. Ready once the target is
    /// reached, which also covers ticks that passed before the first poll;
    /// otherwise `task` is registered for the next tick. The timer is held
    /// exclusively for the whole call, so no tick can slip in between the
    /// check and the registration.
    pub fn poll(&self, timer: &mut Timer, task: u64) -> (r: Poll)
        requires
            old(timer).wf(),
        ensures
            final(timer).wf(),
            final(timer).ticks() == old(timer).ticks(),
            (r == Poll::Ready) == self.is_ready(*old(timer)),
            r == Poll::Ready ==> final(timer).pending_wakers() == old(timer).pending_wakers(),
            r == Poll::Pending && old(timer).pending_wakers().len() < Timer::WAKER_CAPACITY
                ==> final(timer).pending_wakers() == old(timer).pending_wakers().push(task),
            r == Poll::Pending && old(timer).pending_wakers().len() >= Timer::WAKER_CAPACITY
                ==> final(timer).pending_wakers() == old(timer).pending_wakers(),
    {
        if timer.now() >= self.target_ticks {
            return Poll::Ready;
        }
        timer.register_waker(task);
        Poll::Pending
    }
}

/// A sleeper that becomes ready `ticks` ticks from now.
pub fn sleep(timer: &Timer, ticks: u64) -> (r: Sleeper)
    requires
        timer.ticks() + ticks <= u64::MAX,
    ensures
        r.target() == timer.ticks() + ticks,
{
    Sleeper::new(timer, ticks)
}

/// The tick count goes up by exactly one per timer interrupt: after the
/// interrupts that lead from `states[0]` to its last element, it has grown
/// by their number.
pub proof fn lemma_ticks_count_interrupts(states: Seq<Timer>)
    requires
        states.len() >= 1,
        forall|i: int| 0 <= i < states.len() - 1 ==> Timer::ticked(#[trigger] states[i], states[i + 1]),
    ensures
        forall|i: int| 0 <= i < states.len() ==> #[trigger] states[i].ticks() == states[0].ticks() + i,
    decreases states.len(),
{
    if states.len() > 1 {
        let prefix = states.drop_last();
        assert forall|i: int| 0 <= i < prefix.len() - 1 implies Timer::ticked(#[trigger] prefix[i], prefix[i + 1]) by {
            assert(Timer::ticked(states[i], states[i + 1]));
        }
        lemma_ticks_count_interrupts(prefix);
        assert forall|i: int| 0 <= i < states.len() implies #[trigger] states[i].ticks() == states[0].ticks() + i by {
            if i < states.len() - 1 {
                assert(prefix[i] == states[i]);
            } else {
                assert(Timer::ticked(states[i - 1], states[i]));
                assert(prefix[i - 1] == states[i - 1]);
            }
        }
    }
}

/// A sleeper made with delta `d` at `states[0]`, with one tick between
/// consecutive states, is ready at `states[k]` exactly when `k >= d`.
pub proof fn lemma_sleep_ready_after_delta(states: Seq<Timer>, s: Sleeper, d: nat)
    requires
        states.len() >= 1,
        forall|i: int| 0 <= i < states.len() - 1 ==> Timer::ticked(#[trigger] states[i], states[i + 1]),
        s.target() == states[0].ticks() + d,
    ensures
        forall|k: int| 0 <= k < states.len() ==> (s.is_ready(#[trigger] states[k]) <==> k >= d),
{
    lemma_ticks_count_interrupts(states);
}

} // verus!
