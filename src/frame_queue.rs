use std::collections::VecDeque;
use vstd::prelude::*;

verus! {

/// The capacity of the frame queue in the reference configuration.
pub const DEFAULT_CAPACITY: usize = 5;

/// What `try_enqueue` did with the frame it was offered.
pub enum EnqueueOutcome {
    /// The frame now stands at the tail of the queue.
    Accepted,
    /// The queue was full; the frame is handed back untouched.
    Rejected(Vec<u8>),
}

/// A FIFO of captured frames that never holds more than `capacity` of them.
pub struct FrameQueue {
    frames: VecDeque<Vec<u8>>,
    capacity: usize,
}

/// The queue after offering `frame`: the frame is appended when there is room.
pub open spec fn offer(q: Seq<Seq<u8>>, capacity: nat, frame: Seq<u8>) -> Seq<Seq<u8>> {
    if q.len() < capacity {
        q.push(frame)
    } else {
        q
    }
}

impl FrameQueue {
    /// The frames held, head first.
    pub closed spec fn view(&self) -> Seq<Seq<u8>> {
        self.frames@.map_values(|f: Vec<u8>| f@)
    }

    /// The most frames the queue ever holds.
    pub closed spec fn capacity_spec(&self) -> nat {
        self.capacity as nat
    }

    pub open spec fn wf(&self) -> bool {
        self.view().len() <= self.capacity_spec()
    }

    pub open spec fn full_spec(&self) -> bool {
        self.view().len() >= self.capacity_spec()
    }

    /// An empty queue that holds at most `capacity` frames.
    pub fn with_capacity(capacity: usize) -> (q: Self)
        ensures
            q.wf(),
            q.view() == Seq::<Seq<u8>>::empty(),
            q.capacity_spec() == capacity,
    {
        let q = FrameQueue { frames: VecDeque::new(), capacity };
        assert(q.view() =~= Seq::<Seq<u8>>::empty());
        q
    }

    /// An empty queue of `DEFAULT_CAPACITY` frames.
    pub fn new() -> (q: Self)
        ensures
            q.wf(),
            q.view() == Seq::<Seq<u8>>::empty(),
            q.capacity_spec() == DEFAULT_CAPACITY,
    {
        Self::with_capacity(DEFAULT_CAPACITY)
    }

    pub fn capacity(&self) -> (r: usize)
        ensures
            r == self.capacity_spec(),
    {
        self.capacity
    }

    pub fn len(&self) -> (r: usize)
        ensures
            r == self.view().len(),
    {
        self.frames.len()
    }

    pub fn is_empty(&self) -> (r: bool)
        ensures
            r == (self.view().len() == 0),
    {
        self.frames.len() == 0
    }

    pub fn is_full(&self) -> (r: bool)
        ensures
            r == self.full_spec(),
    {
        self.frames.len() >= self.capacity
    }

    /// Adds `frame` at the tail when the queue has room; otherwise leaves the queue
    /// as it was and hands the frame back.
    pub fn try_enqueue(&mut self, frame: Vec<u8>) -> (r: EnqueueOutcome)
        requires
            old(self).wf(),
        ensures
            final(self).wf(),
            final(self).capacity_spec() == old(self).capacity_spec(),
            final(self).view() == offer(old(self).view(), old(self).capacity_spec(), frame@),
            old(self).full_spec() <==> r is Rejected,
            match r {
                EnqueueOutcome::Accepted => true,
                EnqueueOutcome::Rejected(f) => f == frame,
            },
    {
        if self.frames.len() >= self.capacity {
            EnqueueOutcome::Rejected(frame)
        } else {
            let ghost f = frame@;
            self.frames.push_back(frame);
            assert(self.view() =~= old(self).view().push(f));
            EnqueueOutcome::Accepted
        }
    }

    /// Removes and returns the head frame, or `None` when the queue is empty.
    pub fn try_dequeue(&mut self) -> (r: Option<Vec<u8>>)
        requires
            old(self).wf(),
        ensures
            final(self).wf(),
            final(self).capacity_spec() == old(self).capacity_spec(),
            old(self).view().len() == 0 ==> r is None && final(self).view() == old(self).view(),
            old(self).view().len() > 0 ==> r is Some && r->0@ == old(self).view()[0]
                && final(self).view() == old(self).view().drop_first(),
    {
        let r = self.frames.pop_front();
        assert(self.view() =~= if old(self).view().len() > 0 {
            old(self).view().drop_first()
        } else {
            old(self).view()
        });
        r
    }
}

/// The queue after removing its head, if it has one.
pub open spec fn take(q: Seq<Seq<u8>>) -> Seq<Seq<u8>> {
    if q.len() > 0 {
        q.drop_first()
    } else {
        q
    }
}

/// The queue after offering each of `frames` in turn, with no frame taken out.
pub open spec fn offer_all(q: Seq<Seq<u8>>, capacity: nat, frames: Seq<Seq<u8>>) -> Seq<Seq<u8>>
    decreases frames.len(),
{
    if frames.len() == 0 {
        q
    } else {
        offer_all(offer(q, capacity, frames[0]), capacity, frames.drop_first())
    }
}

/// One operation on the queue: a producer's offer or a consumer's take.
pub enum QueueOp {
    Offer(Seq<u8>),
    Take,
}

/// A run of operations from queue `q`: the final queue, the frames accepted and
/// the frames taken out, in order.
pub open spec fn run(q: Seq<Seq<u8>>, capacity: nat, ops: Seq<QueueOp>) -> (
    Seq<Seq<u8>>,
    Seq<Seq<u8>>,
    Seq<Seq<u8>>,
)
    decreases ops.len(),
{
    if ops.len() == 0 {
        (q, Seq::empty(), Seq::empty())
    } else {
        let rest = ops.drop_first();
        match ops[0] {
            QueueOp::Offer(f) => {
                let (fin, acc, tak) = run(offer(q, capacity, f), capacity, rest);
                if q.len() < capacity {
                    (fin, seq![f] + acc, tak)
                } else {
                    (fin, acc, tak)
                }
            },
            QueueOp::Take => {
                let (fin, acc, tak) = run(take(q), capacity, rest);
                if q.len() > 0 {
                    (fin, acc, seq![q[0]] + tak)
                } else {
                    (fin, acc, tak)
                }
            },
        }
    }
}

/// Offering frames to a queue with no consumer never takes it past its capacity, and
/// what it then holds is what it held followed by the first frames offered, as many as
/// there was room for, in the order offered.
pub proof fn lemma_offers_bounded(q: Seq<Seq<u8>>, capacity: nat, frames: Seq<Seq<u8>>)
    requires
        q.len() <= capacity,
    ensures
        offer_all(q, capacity, frames).len() <= capacity,
        offer_all(q, capacity, frames) == q + frames.take(
            if frames.len() <= capacity - q.len() {
                frames.len() as int
            } else {
                capacity - q.len()
            },
        ),
    decreases frames.len(),
{
    if frames.len() == 0 {
        assert(frames.take(0) =~= Seq::<Seq<u8>>::empty());
        assert(q + frames.take(0) =~= q);
    } else {
        let q1 = offer(q, capacity, frames[0]);
        let rest = frames.drop_first();
        lemma_offers_bounded(q1, capacity, rest);
        if q.len() < capacity {
            let k: int = if rest.len() <= capacity - q1.len() {
                rest.len() as int
            } else {
                capacity - q1.len()
            };
            assert(q1 + rest.take(k) =~= q + frames.take(k + 1));
        } else {
            assert(rest.take(0) =~= Seq::<Seq<u8>>::empty());
            assert(frames.take(0) =~= Seq::<Seq<u8>>::empty());
            assert(q1 + rest.take(0) =~= q + frames.take(0));
        }
    }
}

/// First in, first out: along any run of offers and takes, the frames held at the start
/// followed by the frames accepted are exactly the frames taken out followed by the
/// frames still held, so frames leave in the order they were accepted, and the queue
/// never holds more than its capacity.
pub proof fn lemma_fifo(q: Seq<Seq<u8>>, capacity: nat, ops: Seq<QueueOp>)
    requires
        q.len() <= capacity,
    ensures
        q + run(q, capacity, ops).1 == run(q, capacity, ops).2 + run(q, capacity, ops).0,
        run(q, capacity, ops).0.len() <= capacity,
    decreases ops.len(),
{
    if ops.len() > 0 {
        let rest = ops.drop_first();
        match ops[0] {
            QueueOp::Offer(f) => {
                let q1 = offer(q, capacity, f);
                lemma_fifo(q1, capacity, rest);
                let (fin, acc, tak) = run(q1, capacity, rest);
                if q.len() < capacity {
                    assert(q + (seq![f] + acc) =~= q1 + acc);
                }
            },
            QueueOp::Take => {
                let q1 = take(q);
                lemma_fifo(q1, capacity, rest);
                let (fin, acc, tak) = run(q1, capacity, rest);
                if q.len() > 0 {
                    assert(q + acc =~= seq![q[0]] + (q1 + acc));
                    assert(seq![q[0]] + (tak + fin) =~= (seq![q[0]] + tak) + fin);
                }
            },
        }
    } else {
        assert(q + Seq::<Seq<u8>>::empty() =~= Seq::<Seq<u8>>::empty() + q);
    }
}

/// Neither side waits forever: on a queue of positive capacity, a take from a full
/// queue makes room for the next offer, and an offer to an empty queue gives the
/// next take a frame.
pub proof fn lemma_progress(q: Seq<Seq<u8>>, capacity: nat, frame: Seq<u8>)
    requires
        q.len() <= capacity,
        capacity > 0,
    ensures
        q.len() == capacity ==> take(q).len() < capacity && offer(take(q), capacity, frame)
            == take(q).push(frame),
        q.len() == 0 ==> offer(q, capacity, frame).len() > 0 && offer(q, capacity, frame)[0]
            == frame,
{
}

/// Backpressure: an offer to a full queue leaves it exactly as it was, so it never
/// holds more than its capacity.
pub proof fn lemma_full_rejects(q: Seq<Seq<u8>>, capacity: nat, frame: Seq<u8>)
    requires
        q.len() == capacity,
    ensures
        offer(q, capacity, frame) == q,
        offer(q, capacity, frame).len() == capacity,
{
}

} // verus!
