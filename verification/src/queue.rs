use vstd::prelude::*;
use ringbuf::HeapRb;
use ringbuf::traits::{Consumer, Observer, Producer};

verus! {

/// A fixed-capacity FIFO queue of audio samples, each sample held as the bit
/// pattern of a 32-bit float. One queue exists per direction and channel;
/// its producer never blocks (a push onto a full queue drops the sample) and
/// its consumer never blocks (a pop from an empty queue reports emptiness).
#[verifier::external_body]
pub struct SampleQueue {
    rb: HeapRb<u32>,
}

/// The samples a queue currently holds, oldest first.
pub uninterp spec fn queue_samples(q: SampleQueue) -> Seq<u32>;

/// The fixed capacity the queue was created with.
pub uninterp spec fn queue_capacity(q: SampleQueue) -> nat;

impl SampleQueue {
    /// Relies on ringbuf's `SharedRb::new` (`HeapRb`): a ring buffer of the
    /// given capacity, initially empty. The constructor panics on a zero
    /// capacity, so that is required away.
    #[verifier::external_body]
    pub fn new(capacity: usize) -> (q: SampleQueue)
        requires
            capacity >= 1,
        ensures
            queue_samples(q) == Seq::<u32>::empty(),
            queue_capacity(q) == capacity as nat,
    {
        SampleQueue { rb: HeapRb::new(capacity) }
    }

    /// Relies on ringbuf's `Producer::try_push`: appends the item when the
    /// buffer is not full and reports whether it did; a full buffer is left
    /// unchanged.
    #[verifier::external_body]
    pub(crate) fn try_push(&mut self, sample: u32) -> (pushed: bool)
        ensures
            queue_capacity(*final(self)) == queue_capacity(*old(self)),
            pushed == (queue_samples(*old(self)).len() < queue_capacity(*old(self))),
            pushed ==> queue_samples(*final(self)) == queue_samples(*old(self)).push(sample),
            !pushed ==> queue_samples(*final(self)) == queue_samples(*old(self)),
    {
        self.rb.try_push(sample).is_ok()
    }

    /// Relies on ringbuf's `Consumer::try_pop`: removes and returns the
    /// oldest item; an empty buffer is left unchanged and yields nothing.
    #[verifier::external_body]
    pub(crate) fn try_pop(&mut self) -> (popped: Option<u32>)
        ensures
            queue_capacity(*final(self)) == queue_capacity(*old(self)),
            queue_samples(*old(self)).len() > 0 ==> popped == Some(queue_samples(*old(self))[0])
                && queue_samples(*final(self)) == queue_samples(*old(self)).skip(1),
            queue_samples(*old(self)).len() == 0 ==> popped == None::<u32>
                && queue_samples(*final(self)) == queue_samples(*old(self)),
    {
        self.rb.try_pop()
    }

    /// Relies on ringbuf's `Observer::occupied_len`: the number of items the
    /// buffer currently holds.
    #[verifier::external_body]
    pub(crate) fn occupied_len(&self) -> (n: usize)
        ensures
            n == queue_samples(*self).len(),
    {
        self.rb.occupied_len()
    }

    /// The number of samples currently queued.
    pub fn occupancy(&self) -> (n: usize)
        ensures
            n == queue_samples(*self).len(),
    {
        self.occupied_len()
    }
}

/// One operation offered to a sample queue: pushing a sample or popping one.
#[derive(Clone, Copy)]
pub enum QueueOp {
    Push(u32),
    Pop,
}

/// The samples held after running `ops` against an initially empty queue of
/// capacity `cap`, under the non-blocking policy: a push onto a full queue
/// drops the sample, a pop from an empty queue does nothing.
pub open spec fn run_contents(cap: nat, ops: Seq<QueueOp>) -> Seq<u32>
    decreases ops.len(),
{
    if ops.len() == 0 {
        Seq::empty()
    } else {
        let prev = run_contents(cap, ops.drop_last());
        match ops.last() {
            QueueOp::Push(v) => if prev.len() < cap {
                prev.push(v)
            } else {
                prev
            },
            QueueOp::Pop => if prev.len() > 0 {
                prev.skip(1)
            } else {
                prev
            },
        }
    }
}

/// The pushed samples that the queue accepted (those offered while it was
/// below capacity), in order.
pub open spec fn run_accepted(cap: nat, ops: Seq<QueueOp>) -> Seq<u32>
    decreases ops.len(),
{
    if ops.len() == 0 {
        Seq::empty()
    } else {
        let prev = run_accepted(cap, ops.drop_last());
        match ops.last() {
            QueueOp::Push(v) => if run_contents(cap, ops.drop_last()).len() < cap {
                prev.push(v)
            } else {
                prev
            },
            QueueOp::Pop => prev,
        }
    }
}

/// The samples the pops returned, in order.
pub open spec fn run_popped(cap: nat, ops: Seq<QueueOp>) -> Seq<u32>
    decreases ops.len(),
{
    if ops.len() == 0 {
        Seq::empty()
    } else {
        let prev = run_popped(cap, ops.drop_last());
        match ops.last() {
            QueueOp::Push(_) => prev,
            QueueOp::Pop => if run_contents(cap, ops.drop_last()).len() > 0 {
                prev.push(run_contents(cap, ops.drop_last())[0])
            } else {
                prev
            },
        }
    }
}

/// FIFO law: over any interleaving of pushes and pops, the accepted pushes
/// are exactly the samples popped so far followed by the samples still
/// queued, in order. Pushes are dropped only while the queue sits at
/// capacity, and nothing else is ever lost or reordered.
pub proof fn lemma_queue_fifo(cap: nat, ops: Seq<QueueOp>)
    ensures
        run_accepted(cap, ops) == run_popped(cap, ops) + run_contents(cap, ops),
    decreases ops.len(),
{
    if ops.len() == 0 {
        assert(run_accepted(cap, ops) =~= run_popped(cap, ops) + run_contents(cap, ops));
    } else {
        let prev = ops.drop_last();
        lemma_queue_fifo(cap, prev);
        match ops.last() {
            QueueOp::Push(v) => {
                assert(run_accepted(cap, ops) =~= run_popped(cap, ops) + run_contents(cap, ops));
            },
            QueueOp::Pop => {
                assert(run_accepted(cap, ops) =~= run_popped(cap, ops) + run_contents(cap, ops));
            },
        }
    }
}

/// The values popped equal the values pushed, in order: what the pops
/// returned is a prefix of the accepted pushes.
pub proof fn lemma_popped_prefix_of_accepted(cap: nat, ops: Seq<QueueOp>)
    ensures
        run_popped(cap, ops) == run_accepted(cap, ops).take(run_popped(cap, ops).len() as int),
{
    lemma_queue_fifo(cap, ops);
    assert(run_popped(cap, ops) =~= (run_popped(cap, ops) + run_contents(cap, ops)).take(
        run_popped(cap, ops).len() as int,
    ));
}

/// The occupancy never exceeds the capacity, whatever the operations were.
pub proof fn lemma_queue_occupancy_bounded(cap: nat, ops: Seq<QueueOp>)
    ensures
        run_contents(cap, ops).len() <= cap,
    decreases ops.len(),
{
    if ops.len() > 0 {
        lemma_queue_occupancy_bounded(cap, ops.drop_last());
    }
}

/// Runs a sequence of operations against a live queue, collecting what the
/// pops returned: the queue follows the model step for step.
pub fn run_ops(q: &mut SampleQueue, ops: &Vec<QueueOp>) -> (popped: Vec<u32>)
    requires
        queue_samples(*old(q)) == Seq::<u32>::empty(),
    ensures
        queue_capacity(*final(q)) == queue_capacity(*old(q)),
        queue_samples(*final(q)) == run_contents(queue_capacity(*old(q)), ops@),
        popped@ == run_popped(queue_capacity(*old(q)), ops@),
{
    let ghost cap = queue_capacity(*old(q));
    let mut popped: Vec<u32> = Vec::new();
    for i in 0..ops.len()
        invariant
            queue_capacity(*q) == cap,
            queue_samples(*q) == run_contents(cap, ops@.take(i as int)),
            popped@ == run_popped(cap, ops@.take(i as int)),
    {
        proof {
            assert(ops@.take(i + 1int).drop_last() =~= ops@.take(i as int));
            assert(ops@.take(i + 1int).last() == ops@[i as int]);
        }
        match ops[i] {
            QueueOp::Push(v) => {
                q.try_push(v);
            },
            QueueOp::Pop => {
                match q.try_pop() {
                    Some(v) => popped.push(v),
                    None => (),
                }
            },
        }
    }
    proof {
        assert(ops@.take(ops@.len() as int) =~= ops@);
    }
    popped
}

} // verus!
