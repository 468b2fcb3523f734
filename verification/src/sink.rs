//! The body sink: the hand-off that delivers reassembled request-body bytes
//! to business logic.
//!
//! The real hand-off is a single-slot channel owned by the surrounding
//! runtime; this type is its observable state: whether a consumer is
//! attached, every byte the consumer has been handed (in arrival order), and
//! whether the end-of-body marker has been seen. A push with no consumer is
//! refused, never fatal; the caller logs and drops the chunk.

use vstd::prelude::*;

verus! {

/// What one push attempt came to.
#[derive(Debug, Clone, Copy, PartialEq, Eq, Structural)]
pub enum PushStatus {
    /// The consumer was handed the chunk.
    Delivered,
    /// No consumer is attached; the chunk was dropped.
    NoConsumer,
}

/// The single-body hand-off of one session.
pub struct BodySink {
    consumer_attached: bool,
    received: Vec<u8>,
    ended: bool,
}

impl BodySink {
    /// Every byte the consumer has observed, in the order it arrived.
    pub closed spec fn received(self) -> Seq<u8> {
        self.received@
    }

    /// Whether a consumer is attached to the hand-off.
    pub closed spec fn consumer(self) -> bool {
        self.consumer_attached
    }

    /// Whether a chunk carrying the end-of-body marker has been delivered.
    pub closed spec fn ended(self) -> bool {
        self.ended
    }

    /// A fresh sink, with or without a consumer, no byte delivered yet.
    pub fn new(consumer_attached: bool) -> (s: BodySink)
        ensures
            s.consumer() == consumer_attached,
            s.received() == Seq::<u8>::empty(),
            !s.ended(),
    {
        BodySink { consumer_attached, received: Vec::new(), ended: false }
    }

    /// The bytes the consumer has observed so far, in arrival order.
    pub fn bytes_received(&self) -> (r: &Vec<u8>)
        ensures
            r@ == self.received(),
    {
        &self.received
    }

    /// Whether the end-of-body marker has been delivered.
    pub fn is_ended(&self) -> (r: bool)
        ensures
            r == self.ended(),
    {
        self.ended
    }

    /// Whether a consumer is attached.
    pub fn has_consumer(&self) -> (r: bool)
        ensures
            r == self.consumer(),
    {
        self.consumer_attached
    }

    /// The consumer tears its end down; later pushes are refused.
    pub fn detach_consumer(&mut self)
        ensures
            !final(self).consumer(),
            final(self).received() == old(self).received(),
            final(self).ended() == old(self).ended(),
    {
        self.consumer_attached = false;
    }

    /// Hand one body chunk to the consumer. With a consumer attached the
    /// bytes are appended to what it has observed, in order, and `is_end`
    /// marks the body complete; without one, nothing changes and the refusal
    /// is reported.
    pub fn push(&mut self, data: Vec<u8>, is_end: bool) -> (r: PushStatus)
        ensures
            final(self).consumer() == old(self).consumer(),
            !old(self).consumer() ==> r == PushStatus::NoConsumer && final(self).received() == old(
                self,
            ).received() && final(self).ended() == old(self).ended(),
            old(self).consumer() ==> r == PushStatus::Delivered && final(self).received() == old(
                self,
            ).received() + data@ && final(self).ended() == (old(self).ended() || is_end),
    {
        if !self.consumer_attached {
            return PushStatus::NoConsumer;
        }
        let mut data = data;
        self.received.append(&mut data);
        if is_end {
            self.ended = true;
        }
        PushStatus::Delivered
    }
}

} // verus!
