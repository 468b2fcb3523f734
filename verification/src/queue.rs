//! The bounded outbound queue of one session.
//!
//! The queue has a single producer (the relay worker) and a single consumer
//! (the client-visible stream). Enqueue order equals the order the consumer
//! observes; a full queue refuses a frame without dropping it, so the
//! producer can wait and retry; a queue whose consumer is gone refuses every
//! frame in a way the producer can tell apart from backpressure.

use vstd::prelude::*;

use crate::frames::{FrameModel, OutboundFrame};

verus! {

/// The capacity every session's outbound queue is made with.
pub const OUTBOUND_QUEUE_CAPACITY: usize = 128;

/// What an enqueue attempt came to. The refused frame is handed back, so a
/// refusal never loses it.
#[derive(Debug)]
pub enum EnqueueResult {
    /// The frame now sits at the back of the queue.
    Sent,
    /// The queue held `capacity` frames; the producer must wait for the
    /// consumer to drain a slot and try again.
    Full(OutboundFrame),
    /// The consumer is gone; no frame will ever be accepted again.
    Closed(OutboundFrame),
}

/// A bounded first-in first-out queue of outbound frames, together with the
/// liveness of its two ends.
pub struct OutboundQueue {
    items: Vec<OutboundFrame>,
    capacity: usize,
    receiver_alive: bool,
    sender_alive: bool,
}

impl OutboundQueue {
    /// The frames waiting in the queue, oldest first, as their views.
    pub closed spec fn contents(self) -> Seq<FrameModel> {
        self.items@.map_values(|f: OutboundFrame| f@)
    }

    /// The fixed capacity the queue was made with.
    pub closed spec fn cap(self) -> nat {
        self.capacity as nat
    }

    /// Whether the consumer end still exists.
    pub closed spec fn receiver_live(self) -> bool {
        self.receiver_alive
    }

    /// Whether the producer end still exists.
    pub closed spec fn sender_live(self) -> bool {
        self.sender_alive
    }

    /// Well-formedness: the queue never holds more than its capacity.
    pub open spec fn wf(self) -> bool {
        self.contents().len() <= self.cap() && self.cap() >= 1
    }

    /// A fresh queue of the given capacity, both ends live.
    pub fn new(capacity: usize) -> (q: OutboundQueue)
        requires
            capacity >= 1,
        ensures
            q.wf(),
            q.contents() == Seq::<FrameModel>::empty(),
            q.cap() == capacity,
            q.receiver_live(),
            q.sender_live(),
    {
        let q = OutboundQueue {
            items: Vec::new(),
            capacity,
            receiver_alive: true,
            sender_alive: true,
        };
        proof {
            assert(q.contents() =~= Seq::<FrameModel>::empty());
        }
        q
    }

    /// How many frames wait in the queue.
    pub fn len(&self) -> (n: usize)
        ensures
            n == self.contents().len(),
    {
        self.items.len()
    }

    /// The producer's push. A full queue refuses without loss; a queue whose
    /// consumer is gone refuses distinguishably; otherwise the frame joins
    /// the back and order is preserved.
    pub fn try_enqueue(&mut self, frame: OutboundFrame) -> (r: EnqueueResult)
        requires
            old(self).wf(),
        ensures
            final(self).wf(),
            final(self).cap() == old(self).cap(),
            final(self).receiver_live() == old(self).receiver_live(),
            final(self).sender_live() == old(self).sender_live(),
            !old(self).receiver_live() ==> (r matches EnqueueResult::Closed(f) && f@ == frame@)
                && final(self).contents() == old(self).contents(),
            old(self).receiver_live() && old(self).contents().len() == old(self).cap() ==> (
                r matches EnqueueResult::Full(f) && f@ == frame@)
                && final(self).contents() == old(self).contents(),
            old(self).receiver_live() && old(self).contents().len() < old(self).cap() ==> (
                r matches EnqueueResult::Sent)
                && final(self).contents() == old(self).contents().push(frame@),
    {
        if !self.receiver_alive {
            return EnqueueResult::Closed(frame);
        }
        if self.items.len() == self.capacity {
            return EnqueueResult::Full(frame);
        }
        let ghost before = self.items@;
        self.items.push(frame);
        proof {
            assert(self.contents() =~= before.map_values(|f: OutboundFrame| f@).push(
                self.items@[before.len() as int]@,
            ));
        }
        EnqueueResult::Sent
    }

    /// The consumer's pop: the oldest frame, if any waits.
    pub fn dequeue(&mut self) -> (r: Option<OutboundFrame>)
        requires
            old(self).wf(),
        ensures
            final(self).wf(),
            final(self).cap() == old(self).cap(),
            final(self).receiver_live() == old(self).receiver_live(),
            final(self).sender_live() == old(self).sender_live(),
            old(self).contents().len() == 0 ==> r is None && final(self).contents()
                == old(self).contents(),
            old(self).contents().len() > 0 ==> (r matches Some(f) && f@ == old(
                self,
            ).contents()[0]) && final(self).contents() == old(self).contents().drop_first(),
    {
        if self.items.len() == 0 {
            return None;
        }
        let f = self.items.remove(0);
        proof {
            assert(self.contents() =~= old(self).contents().drop_first());
        }
        Some(f)
    }

    /// True exactly when the consumer has drained everything it will ever
    /// get: the queue is empty and the producer is gone. This is the moment
    /// the client-visible stream completes.
    pub fn is_finished(&self) -> (r: bool)
        ensures
            r == (self.contents().len() == 0 && !self.sender_live()),
    {
        self.items.len() == 0 && !self.sender_alive
    }

    /// The consumer disappears (the client is gone). Frames already queued
    /// stay, but no new one will be accepted.
    pub fn close_receiver(&mut self)
        ensures
            final(self).contents() == old(self).contents(),
            final(self).cap() == old(self).cap(),
            !final(self).receiver_live(),
            final(self).sender_live() == old(self).sender_live(),
    {
        self.receiver_alive = false;
    }

    /// The producer drops its end. The worker does this on every exit path;
    /// it is what lets the consumer see the stream complete.
    pub fn drop_sender(&mut self)
        ensures
            final(self).contents() == old(self).contents(),
            final(self).cap() == old(self).cap(),
            final(self).receiver_live() == old(self).receiver_live(),
            !final(self).sender_live(),
    {
        self.sender_alive = false;
    }
}

/// Every frame sequence that fits the capacity crosses the queue unchanged:
/// enqueueing the frames and then draining the queue hands the consumer
/// exactly those frames, in enqueue order.
pub fn transmit(frames: Vec<OutboundFrame>, capacity: usize) -> (out: Vec<OutboundFrame>)
    requires
        1 <= capacity,
        frames@.len() <= capacity,
    ensures
        out@.map_values(|f: OutboundFrame| f@) == frames@.map_values(|f: OutboundFrame| f@),
{
    let ghost sent = frames@.map_values(|f: OutboundFrame| f@);
    let mut q = OutboundQueue::new(capacity);
    let n = frames.len();
    let mut frames = frames;
    let mut i: usize = 0;
    while i < n
        invariant
            i + frames@.len() == n <= capacity,
            q.wf(),
            q.cap() == capacity,
            q.receiver_live(),
            q.contents() == sent.take(i as int),
            frames@.map_values(|f: OutboundFrame| f@) == sent.skip(i as int),
            n == sent.len(),
        decreases n - i,
    {
        let ghost pre = frames@;
        let f = frames.remove(0);
        proof {
            assert(f@ == pre.map_values(|g: OutboundFrame| g@)[0]);
            assert(f@ == sent[i as int]);
            assert(frames@ =~= pre.skip(1));
            assert forall|j: int| 0 <= j < frames@.len() implies #[trigger] sent.skip(
                i as int + 1,
            )[j] == frames@.map_values(|g: OutboundFrame| g@)[j] by {
                assert(frames@[j] == pre[j + 1]);
                assert(pre.map_values(|g: OutboundFrame| g@)[j + 1] == sent.skip(i as int)[j + 1]);
            }
            assert(frames@.map_values(|g: OutboundFrame| g@) =~= sent.skip(i as int + 1));
        }
        let _sent = q.try_enqueue(f);
        proof {
            assert(q.contents() =~= sent.take(i as int + 1));
        }
        i = i + 1;
    }
    let mut out: Vec<OutboundFrame> = Vec::new();
    proof {
        assert(sent.take(n as int) =~= sent);
    }
    while out.len() < n
        invariant
            q.wf(),
            out@.len() <= n,
            out@.map_values(|f: OutboundFrame| f@) == sent.take(out@.len() as int),
            q.contents() == sent.skip(out@.len() as int),
            n == sent.len(),
        decreases n - out.len(),
    {
        let ghost k = out@.len() as int;
        let f = q.dequeue();
        match f {
            Some(f) => {
                proof {
                    assert(f@ == sent[k]);
                }
                out.push(f);
                proof {
                    assert(out@.map_values(|f: OutboundFrame| f@) =~= sent.take(k + 1));
                    assert(q.contents() =~= sent.skip(k + 1));
                }
            },
            None => {
                proof {
                    assert(false);
                }
            },
        }
    }
    proof {
        assert(out@.map_values(|f: OutboundFrame| f@) =~= sent);
    }
    out
}

} // verus!
