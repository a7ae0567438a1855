//! Agent-side delivery queue: an ordered, bounded buffer of already-encoded
//! frames. Frames leave the queue only on a confirmed full write; a failed
//! write returns the frame to the front, so a transient connection failure
//! never loses, duplicates or reorders samples.

use std::collections::VecDeque;
use vstd::prelude::*;

verus! {

/// Soft capacity of the delivery queue: about two minutes of one-second
/// samples. When the queue is full, the oldest frame is dropped to admit the
/// newest, so a prolonged outage cannot grow the backlog without bound.
pub const QUEUE_CAPACITY: usize = 120;

/// Errors of the delivery path. Both are transient: the caller leaves the
/// backlog queued and tries again on the next tick.
#[derive(Clone, Copy, Debug, PartialEq, Eq, Structural)]
pub enum CollectorError {
    /// No connection to the server could be established.
    UnableToConnect,
    /// A connection was open but a frame could not be fully written.
    UnableToSend,
}

/// FIFO buffer of encoded frames, front at index zero.
pub struct DeliveryQueue {
    frames: VecDeque<Vec<u8>>,
}

impl View for DeliveryQueue {
    type V = Seq<Seq<u8>>;

    closed spec fn view(&self) -> Seq<Seq<u8>> {
        self.frames@.map_values(|f: Vec<u8>| f@)
    }
}

impl DeliveryQueue {
    /// An empty queue.
    pub fn new() -> (r: DeliveryQueue)
        ensures
            r@ == Seq::<Seq<u8>>::empty(),
    {
        let q = DeliveryQueue { frames: VecDeque::with_capacity(QUEUE_CAPACITY) };
        proof {
            assert(q@ =~= Seq::<Seq<u8>>::empty());
        }
        q
    }

    /// How many frames wait to be sent.
    pub fn len(&self) -> (r: usize)
        ensures
            r == self@.len(),
    {
        self.frames.len()
    }

    /// Whether nothing waits to be sent.
    pub fn is_empty(&self) -> (r: bool)
        ensures
            r == (self@.len() == 0),
    {
        self.frames.len() == 0
    }

    /// Appends a frame at the back. Below capacity the queue grows by that
    /// frame; at capacity the oldest frame is dropped to admit it.
    pub fn enqueue(&mut self, frame: Vec<u8>)
        ensures
            old(self)@.len() < QUEUE_CAPACITY ==> final(self)@ == old(self)@.push(frame@),
            old(self)@.len() >= QUEUE_CAPACITY ==> final(self)@ == old(self)@.drop_first().push(
                frame@,
            ),
    {
        let ghost pre = self@;
        if self.frames.len() >= QUEUE_CAPACITY {
            let _dropped = self.frames.pop_front();
            proof {
                assert(self@ =~= pre.drop_first());
            }
        }
        let ghost mid = self@;
        self.frames.push_back(frame);
        proof {
            assert(self@ =~= mid.push(frame@));
        }
    }

    /// Removes and returns the front frame, the next one owed to the wire;
    /// `None` exactly when the queue is empty.
    pub fn pop_front(&mut self) -> (r: Option<Vec<u8>>)
        ensures
            match r {
                Some(f) => old(self)@.len() > 0 && f@ == old(self)@[0] && final(self)@ == old(
                    self,
                )@.drop_first(),
                None => old(self)@.len() == 0 && final(self)@ == old(self)@,
            },
    {
        let ghost pre = self@;
        let r = self.frames.pop_front();
        proof {
            if pre.len() > 0 {
                assert(self@ =~= pre.drop_first());
            }
        }
        r
    }

    /// Returns a frame to the front after a failed write: the queue is as if
    /// the frame had never been popped.
    pub fn requeue_front(&mut self, frame: Vec<u8>)
        ensures
            final(self)@ == seq![frame@] + old(self)@,
    {
        let ghost pre = self@;
        self.frames.push_front(frame);
        proof {
            assert(self@ =~= seq![frame@] + pre);
        }
    }
}

/// Order under failure: a failed send loses and reorders nothing. Popping the
/// front frame and returning it to the front restores the queue exactly, so
/// frames still reach the wire in enqueue order, each exactly once.
pub proof fn lemma_requeue_restores_order(frames: Seq<Seq<u8>>)
    requires
        frames.len() > 0,
    ensures
        seq![frames[0]] + frames.drop_first() == frames,
{
    assert(seq![frames[0]] + frames.drop_first() =~= frames);
}

} // verus!
