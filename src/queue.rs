//! Bounded lock-free queues shared by interrupt handlers and the executor.
//!
//! The storage is crossbeam's `ArrayQueue`; what it holds is described by
//! the spec functions below, one pair for each item type in use.
use crossbeam::queue::ArrayQueue;
use vstd::prelude::*;

verus! {

#[verifier::external_type_specification]
#[verifier::external_body]
#[verifier::reject_recursive_types(T)]
pub struct ExArrayQueue<T>(ArrayQueue<T>);

/// What a push reports: `Err` hands back a value that did not fit.
pub type PushOutcome<T> = Result<(), T>;

/// Largest capacity this crate asks a queue to be built with.
pub const MAX_QUEUE_CAPACITY: usize = 65536;

/// The bytes held by a byte queue, oldest first.
pub uninterp spec fn byte_items(q: ArrayQueue<u8>) -> Seq<u8>;

/// The capacity a byte queue was created with.
pub uninterp spec fn byte_capacity(q: ArrayQueue<u8>) -> nat;

/// The identifiers held by an identifier queue, oldest first.
pub uninterp spec fn id_items(q: ArrayQueue<u64>) -> Seq<u64>;

/// The capacity an identifier queue was created with.
pub uninterp spec fn id_capacity(q: ArrayQueue<u64>) -> nat;

/// Relies on `ArrayQueue::new`: an empty queue with room for `cap` items
/// (it panics on a zero or oversized capacity, which `requires` excludes).
#[verifier::external_body]
pub(crate) fn new_byte_queue(cap: usize) -> (q: ArrayQueue<u8>)
    requires
        0 < cap <= MAX_QUEUE_CAPACITY,
    ensures
        byte_items(q) == Seq::<u8>::empty(),
        byte_capacity(q) == cap,
{
    ArrayQueue::new(cap)
}

/// Relies on `ArrayQueue::push_mut`: appends at the back unless the queue
/// is full, in which case the value is handed back and nothing changes.
#[verifier::external_body]
pub(crate) fn push_byte(q: &mut ArrayQueue<u8>, v: u8) -> (r: PushOutcome<u8>)
    ensures
        byte_capacity(*final(q)) == byte_capacity(*old(q)),
        byte_items(*old(q)).len() < byte_capacity(*old(q)) ==> r is Ok && byte_items(*final(q))
            == byte_items(*old(q)).push(v),
        byte_items(*old(q)).len() >= byte_capacity(*old(q)) ==> r == PushOutcome::<u8>::Err(v)
            && byte_items(*final(q)) == byte_items(*old(q)),
{
    q.push_mut(v)
}

/// Relies on `ArrayQueue::pop_mut`: removes and returns the oldest item,
/// or `None` when the queue is empty.
#[verifier::external_body]
pub(crate) fn pop_byte(q: &mut ArrayQueue<u8>) -> (r: Option<u8>)
    ensures
        byte_capacity(*final(q)) == byte_capacity(*old(q)),
        byte_items(*old(q)).len() == 0 ==> r is None && byte_items(*final(q)) == byte_items(
            *old(q),
        ),
        byte_items(*old(q)).len() > 0 ==> r == Some(byte_items(*old(q))[0]) && byte_items(
            *final(q),
        ) == byte_items(*old(q)).drop_first(),
{
    q.pop_mut()
}

/// Relies on `ArrayQueue::new`: an empty queue with room for `cap` items
/// (it panics on a zero or oversized capacity, which `requires` excludes).
#[verifier::external_body]
pub(crate) fn new_id_queue(cap: usize) -> (q: ArrayQueue<u64>)
    requires
        0 < cap <= MAX_QUEUE_CAPACITY,
    ensures
        id_items(q) == Seq::<u64>::empty(),
        id_capacity(q) == cap,
{
    ArrayQueue::new(cap)
}

/// Relies on `ArrayQueue::push_mut`: appends at the back unless the queue
/// is full, in which case the value is handed back and nothing changes.
#[verifier::external_body]
pub(crate) fn push_id(q: &mut ArrayQueue<u64>, v: u64) -> (r: PushOutcome<u64>)
    ensures
        id_capacity(*final(q)) == id_capacity(*old(q)),
        id_items(*old(q)).len() < id_capacity(*old(q)) ==> r is Ok && id_items(*final(q))
            == id_items(*old(q)).push(v),
        id_items(*old(q)).len() >= id_capacity(*old(q)) ==> r == PushOutcome::<u64>::Err(v) && id_items(
            *final(q),
        ) == id_items(*old(q)),
{
    q.push_mut(v)
}

/// Relies on `ArrayQueue::pop_mut`: removes and returns the oldest item,
/// or `None` when the queue is empty.
#[verifier::external_body]
pub(crate) fn pop_id(q: &mut ArrayQueue<u64>) -> (r: Option<u64>)
    ensures
        id_capacity(*final(q)) == id_capacity(*old(q)),
        id_items(*old(q)).len() == 0 ==> r is None && id_items(*final(q)) == id_items(*old(q)),
        id_items(*old(q)).len() > 0 ==> r == Some(id_items(*old(q))[0]) && id_items(*final(q))
            == id_items(*old(q)).drop_first(),
{
    q.pop_mut()
}

/// Bytes pushed by the keyboard interrupt handler and consumed by the
/// decoding task. Pushing never blocks: a byte that finds the queue full is
/// dropped.
pub struct ScancodeQueue {
    queue: ArrayQueue<u8>,
}

impl ScancodeQueue {
    /// Room the keyboard queue is created with.
    pub const CAPACITY: usize = 100;

    /// The bytes waiting, oldest first.
    pub closed spec fn contents(&self) -> Seq<u8> {
        byte_items(self.queue)
    }

    pub closed spec fn capacity(&self) -> nat {
        byte_capacity(self.queue)
    }

    pub open spec fn wf(&self) -> bool {
        &&& self.capacity() == Self::CAPACITY
        &&& self.contents().len() <= self.capacity()
    }

    /// `post` is `pre` after offering `scancode`: kept at the back when
    /// there is room, dropped otherwise.
    pub open spec fn added(pre: Self, scancode: u8, post: Self) -> bool {
        &&& post.wf()
        &&& pre.contents().len() < Self::CAPACITY ==> post.contents() == pre.contents().push(scancode)
        &&& pre.contents().len() >= Self::CAPACITY ==> post.contents() == pre.contents()
    }

    pub fn new() -> (r: Self)
        ensures
            r.wf(),
            r.contents() == Seq::<u8>::empty(),
    {
        ScancodeQueue { queue: new_byte_queue(Self::CAPACITY) }
    }

    /// Enqueues one scancode; returns whether it was kept.
    pub fn add_scancode(&mut self, scancode: u8) -> (kept: bool)
        requires
            old(self).wf(),
        ensures
            Self::added(*old(self), scancode, *final(self)),
            kept == (old(self).contents().len() < Self::CAPACITY),
            kept ==> final(self).contents() == old(self).contents().push(scancode),
            !kept ==> final(self).contents() == old(self).contents(),
    {
        let r = push_byte(&mut self.queue, scancode);
        r.is_ok()
    }

    /// Dequeues the oldest scancode, if any.
    pub fn next_scancode(&mut self) -> (r: Option<u8>)
        requires
            old(self).wf(),
        ensures
            final(self).wf(),
            old(self).contents().len() == 0 ==> r is None && final(self).contents()
                == old(self).contents(),
            old(self).contents().len() > 0 ==> r == Some(old(self).contents()[0])
                && final(self).contents() == old(self).contents().drop_first(),
    {
        pop_byte(&mut self.queue)
    }
}

/// Offering `bytes` one by one to an empty queue keeps exactly the first
/// `CAPACITY` of them (all, if fewer), in the order they were offered.
pub proof fn lemma_excess_dropped_order_kept(states: Seq<ScancodeQueue>, bytes: Seq<u8>)
    requires
        states.len() == bytes.len() + 1,
        states[0].contents() == Seq::<u8>::empty(),
        forall|i: int| 0 <= i < bytes.len() ==> ScancodeQueue::added(#[trigger] states[i], bytes[i], states[i + 1]),
    ensures
        states.last().contents() == bytes.take(
            if bytes.len() < ScancodeQueue::CAPACITY { bytes.len() as int } else { ScancodeQueue::CAPACITY as int },
        ),
    decreases bytes.len(),
{
    if bytes.len() > 0 {
        let n = bytes.len() - 1;
        let ps = states.drop_last();
        let pb = bytes.drop_last();
        assert forall|i: int| 0 <= i < pb.len() implies ScancodeQueue::added(#[trigger] ps[i], pb[i], ps[i + 1]) by {
            assert(ScancodeQueue::added(states[i], bytes[i], states[i + 1]));
        }
        lemma_excess_dropped_order_kept(ps, pb);
        assert(ScancodeQueue::added(states[n], bytes[n], states[n + 1]));
        assert(ps.last() == states[n]);
        if n < ScancodeQueue::CAPACITY {
            assert(bytes.take(n + 1) =~= pb.take(n).push(bytes[n]));
        } else {
            assert(bytes.take(ScancodeQueue::CAPACITY as int) =~= pb.take(ScancodeQueue::CAPACITY as int));
        }
    }
}

} // verus!
