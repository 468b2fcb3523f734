//! The body-source capability: what business logic supplies so the relay
//! can answer `Send` actions with response-body bytes.

use vstd::prelude::*;

use crate::relay::SourceReadOutcome;

verus! {

/// The capability the relay invokes on a `Send` action. Business logic
/// supplies the implementation; the relay depends only on this interface.
pub trait BodySource {
    /// Read up to `limit` bytes. A successful answer never exceeds the
    /// limit; a failure ends the session after being reported outbound.
    fn read(&mut self, limit: u64) -> (r: SourceReadOutcome)
        ensures
            r matches SourceReadOutcome::Data { bytes, done } ==> bytes@.len() <= limit,
    ;

    /// Signal an in-flight read to cancel. Exact cancellation semantics are
    /// the implementation's contract, not the relay's.
    fn cancel(&mut self);
}

/// A body source over bytes already in memory: it hands them out from the
/// front, up to the asked-for limit, until none remain.
pub struct VecBodySource {
    remaining: Vec<u8>,
}

impl VecBodySource {
    /// The bytes not yet handed out, in order.
    pub closed spec fn remaining(self) -> Seq<u8> {
        self.remaining@
    }

    /// A source that will serve exactly the given bytes.
    pub fn new(bytes: Vec<u8>) -> (s: VecBodySource)
        ensures
            s.remaining() == bytes@,
    {
        VecBodySource { remaining: bytes }
    }

    /// Hand out the next chunk: the first `limit` remaining bytes (all of
    /// them, if fewer remain), with `done` exactly when the source is now
    /// drained. Never fails.
    pub fn take_chunk(&mut self, limit: u64) -> (r: SourceReadOutcome)
        ensures
            ({
                let k = if limit < old(self).remaining().len() {
                    limit as int
                } else {
                    old(self).remaining().len() as int
                };
                (r matches SourceReadOutcome::Data { bytes, done }
                    && bytes@ == old(self).remaining().take(k)
                    && done == (final(self).remaining().len() == 0))
                    && final(self).remaining() == old(self).remaining().skip(k)
            }),
    {
        let len = self.remaining.len();
        let k: usize = if limit < len as u64 {
            limit as usize
        } else {
            len
        };
        let mut chunk = self.remaining.split_off(k);
        core::mem::swap(&mut self.remaining, &mut chunk);
        let done = self.remaining.len() == 0;
        SourceReadOutcome::Data { bytes: chunk, done }
    }
}

impl BodySource for VecBodySource {
    fn read(&mut self, limit: u64) -> (r: SourceReadOutcome) {
        self.take_chunk(limit)
    }

    fn cancel(&mut self) {
        // Nothing is ever in flight: take_chunk answers synchronously.
    }
}

} // verus!
