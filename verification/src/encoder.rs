//! The outbound encoder: wrapping typed events as outbound frames and
//! enqueueing them on a session's queue.

use vstd::prelude::*;

use crate::frames::{DataValue, FrameModel, OutboundFrame, Pair, PairModel};
use crate::queue::{EnqueueResult, OutboundQueue};

verus! {

#[verifier::external_type_specification]
#[verifier::external_body]
pub struct ExStatusCode(http::StatusCode);

/// Relies on http::StatusCode::from_u16: it returns a status code exactly
/// when the number lies in 100..=999, and refuses it otherwise.
#[verifier::external_body]
pub fn status_from_u16(src: u16) -> (r: Option<http::StatusCode>)
    ensures
        r is Some <==> 100 <= src <= 999,
{
    http::StatusCode::from_u16(src).ok()
}

/// Relies on http::StatusCode::as_u16: every status code a `StatusCode`
/// can hold lies in 100..=999, its constructors admitting no other number.
#[verifier::external_body]
pub fn status_as_u16(status: &http::StatusCode) -> (r: u16)
    ensures
        100 <= r <= 999,
{
    status.as_u16()
}

/// Whether an enqueue attempt placed its frame.
pub open spec fn accepted(r: EnqueueResult) -> bool {
    r is Sent
}

/// Wrap nothing: hand one already-built frame to the session's queue. The
/// producer learns exactly what became of it; no outcome loses the frame.
pub fn send_event(q: &mut OutboundQueue, frame: OutboundFrame) -> (r: EnqueueResult)
    requires
        old(q).wf(),
    ensures
        final(q).wf(),
        final(q).cap() == old(q).cap(),
        final(q).receiver_live() == old(q).receiver_live(),
        final(q).sender_live() == old(q).sender_live(),
        !old(q).receiver_live() ==> (r matches EnqueueResult::Closed(f) && f@ == frame@)
            && final(q).contents() == old(q).contents(),
        old(q).receiver_live() && old(q).contents().len() == old(q).cap() ==> (
            r matches EnqueueResult::Full(f) && f@ == frame@)
            && final(q).contents() == old(q).contents(),
        old(q).receiver_live() && old(q).contents().len() < old(q).cap() ==> r is Sent
            && final(q).contents() == old(q).contents().push(frame@),
{
    q.try_enqueue(frame)
}

/// The view an error frame built from `(status, code, message)` must have:
/// the three fields as given and an empty context list.
pub open spec fn error_model(status: i32, code: Seq<char>, message: Seq<char>) -> FrameModel {
    FrameModel::Error { status, code, message, context: Seq::<Seq<u8>>::empty() }
}

/// Build an error event frame from `(status, code, message)`, its context
/// left empty.
pub fn error_frame(status: i32, code: String, message: String) -> (f: OutboundFrame)
    ensures
        f@ == error_model(status, code@, message@),
{
    let context: Vec<DataValue> = Vec::new();
    proof {
        assert(context@.map_values(|d: DataValue| d@) =~= Seq::<Seq<u8>>::empty());
    }
    OutboundFrame::Error { status, code, message, context }
}

/// The view a message frame built from `(status, headers, data)` must have.
pub open spec fn message_model(
    status: i32,
    headers: Seq<PairModel>,
    data: Seq<Seq<u8>>,
) -> FrameModel {
    FrameModel::Output { status: Some(status), headers, data }
}

/// Wrap a message event as an outbound frame and enqueue it: the frame
/// carries the given status, the headers in their order and the data values
/// in their order.
pub fn send_message(
    q: &mut OutboundQueue,
    status: i32,
    headers: Vec<Pair>,
    data: Vec<DataValue>,
) -> (r: EnqueueResult)
    requires
        old(q).wf(),
    ensures
        final(q).wf(),
        final(q).cap() == old(q).cap(),
        final(q).receiver_live() == old(q).receiver_live(),
        final(q).sender_live() == old(q).sender_live(),
        !old(q).receiver_live() ==> final(q).contents() == old(q).contents() && !accepted(r),
        old(q).receiver_live() && old(q).contents().len() == old(q).cap() ==> final(q).contents()
            == old(q).contents() && !accepted(r),
        old(q).receiver_live() && old(q).contents().len() < old(q).cap() ==> accepted(r)
            && final(q).contents() == old(q).contents().push(
            message_model(
                status,
                headers@.map_values(|p: Pair| p@),
                data@.map_values(|d: DataValue| d@),
            ),
        ),
{
    let frame = OutboundFrame::Output { status: Some(status), headers, data };
    send_event(q, frame)
}

/// Wrap an error event carrying an HTTP status as an outbound frame and
/// enqueue it: the frame's status is the code's number (always in
/// 100..=999), its code and message are the given strings, its context is
/// empty.
pub fn send_http_err(
    q: &mut OutboundQueue,
    code: String,
    status: http::StatusCode,
    reason: String,
) -> (r: EnqueueResult)
    requires
        old(q).wf(),
    ensures
        final(q).wf(),
        final(q).cap() == old(q).cap(),
        final(q).receiver_live() == old(q).receiver_live(),
        final(q).sender_live() == old(q).sender_live(),
        !old(q).receiver_live() ==> final(q).contents() == old(q).contents() && !accepted(r),
        old(q).receiver_live() && old(q).contents().len() == old(q).cap() ==> final(q).contents()
            == old(q).contents() && !accepted(r),
        old(q).receiver_live() && old(q).contents().len() < old(q).cap() ==> accepted(r) && (
        final(q).contents().last() matches FrameModel::Error {
            status: s,
            code: c,
            message: m,
            context: x,
        } && 100 <= s <= 999 && c == code@ && m == reason@ && x.len() == 0) && final(q).contents().drop_last() == old(q).contents(),
{
    let n = status_as_u16(&status);
    let frame = error_frame(n as i32, code, reason);
    send_event(q, frame)
}

} // verus!
