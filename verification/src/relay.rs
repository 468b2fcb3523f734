//! The session relay: the worker's decisions over the inbound frame stream.
//!
//! The worker owns one session. It awaits inbound events, dispatches each
//! frame, feeds request-body chunks to the body sink, answers `Send` actions
//! by emitting body chunks read from the body source, and leaves the loop on
//! an `End` frame, on the stream closing, on a source read failure, or on
//! the outbound consumer disappearing. On every exit path it drops the
//! outbound queue's producer end, which is what completes the
//! client-visible stream. The awaiting itself belongs to the surrounding
//! runtime; [`run_session`] is the worker with its awaited answers laid out
//! as values: the inbound events in order, and the body source's successive
//! answers.

use vstd::prelude::*;

use crate::encoder::{error_frame, error_model, send_event};
use crate::frames::{FrameModel, InboundEvent, InboundFrame, OutboundFrame, PayloadActionKind};
use crate::queue::{EnqueueResult, OutboundQueue};
use crate::sink::BodySink;

verus! {

/// The HTTP status an error frame carries when the body source fails.
pub const SOURCE_FAIL_STATUS: i32 = 500;

/// What the worker decides to do with one inbound frame. Exactly one
/// directive per frame; performing it is a separate step.
pub enum Directive {
    /// Hand the step event's payload to the business-logic extension point.
    ForwardStep { payload: Vec<u8> },
    /// Hand one body chunk to the body sink.
    DeliverBody { data: Vec<u8>, is_end: bool },
    /// Read up to `limit` bytes from the body source and send them.
    ReadBody { limit: u64 },
    /// Signal any in-flight body-source read to cancel.
    CancelRead,
    /// Hand the permission answer's payload to the extension point.
    ForwardPermission { payload: Vec<u8> },
    /// Leave the worker loop: the orchestrator asked the session to end.
    Finish,
}

/// The one directive each inbound frame maps to.
pub open spec fn dispatch_model(frame: InboundFrame) -> Directive {
    match frame {
        InboundFrame::Step { payload } => Directive::ForwardStep { payload },
        InboundFrame::InputPayload { data, is_end } => Directive::DeliverBody { data, is_end },
        InboundFrame::OutputPayloadAction { action, limit } => match action {
            PayloadActionKind::Send => Directive::ReadBody { limit },
            PayloadActionKind::Stop => Directive::CancelRead,
        },
        InboundFrame::PermissionResponse { payload } => Directive::ForwardPermission { payload },
        InboundFrame::End => Directive::Finish,
    }
}

/// Closed dispatch over the inbound frame variants: each frame yields its
/// one directive, payloads carried through unchanged.
pub fn dispatch(frame: InboundFrame) -> (d: Directive)
    ensures
        d == dispatch_model(frame),
{
    match frame {
        InboundFrame::Step { payload } => Directive::ForwardStep { payload },
        InboundFrame::InputPayload { data, is_end } => Directive::DeliverBody { data, is_end },
        InboundFrame::OutputPayloadAction { action, limit } => match action {
            PayloadActionKind::Send => Directive::ReadBody { limit },
            PayloadActionKind::Stop => Directive::CancelRead,
        },
        InboundFrame::PermissionResponse { payload } => Directive::ForwardPermission { payload },
        InboundFrame::End => Directive::Finish,
    }
}

/// One answer of the body source to a `Send` action.
#[derive(Debug, Clone, PartialEq, Eq)]
pub enum SourceReadOutcome {
    /// Up to the asked-for number of bytes; `done` marks the source drained.
    Data { bytes: Vec<u8>, done: bool },
    /// The read failed; the session must end after reporting it.
    Failed { reason: String },
}

/// The outbound frame the worker emits for one source answer: the bytes as
/// a body chunk, or an error event naming the failure.
pub open spec fn outcome_model(outcome: SourceReadOutcome) -> FrameModel {
    match outcome {
        SourceReadOutcome::Data { bytes, done } => FrameModel::OutputPayload { data: bytes@ },
        SourceReadOutcome::Failed { reason } => error_model(
            SOURCE_FAIL_STATUS,
            "body_source_read_failed"@,
            reason@,
        ),
    }
}

/// Turn one source answer into the frame to emit, and say whether the
/// worker must stop after emitting it (it must exactly on a failure).
pub fn outcome_action(outcome: SourceReadOutcome) -> (r: (OutboundFrame, bool))
    ensures
        r.0@ == outcome_model(outcome),
        r.1 == (outcome is Failed),
{
    match outcome {
        SourceReadOutcome::Data { bytes, done: _ } => (
            OutboundFrame::OutputPayload { data: bytes },
            false,
        ),
        SourceReadOutcome::Failed { reason } => (
            error_frame(SOURCE_FAIL_STATUS, "body_source_read_failed".to_string(), reason),
            true,
        ),
    }
}

/// Whether an event is a body chunk frame.
pub open spec fn is_payload(e: InboundEvent) -> bool {
    e matches InboundEvent::Frame(InboundFrame::InputPayload { .. })
}

/// Whether an event is a `Send` action frame (it consumes one source answer).
pub open spec fn is_send(e: InboundEvent) -> bool {
    e matches InboundEvent::Frame(
        InboundFrame::OutputPayloadAction { action: PayloadActionKind::Send, .. },
    )
}

/// Whether an event is the `End` frame.
pub open spec fn is_end_frame(e: InboundEvent) -> bool {
    e matches InboundEvent::Frame(InboundFrame::End)
}

/// The bytes the body sink is handed over a run of events: the body chunks'
/// bytes, concatenated in stream order.
pub open spec fn payload_bytes(events: Seq<InboundEvent>) -> Seq<u8>
    decreases events.len(),
{
    if events.len() == 0 {
        Seq::empty()
    } else {
        payload_bytes(events.drop_last()) + (match events.last() {
            InboundEvent::Frame(InboundFrame::InputPayload { data, is_end }) => data@,
            _ => Seq::empty(),
        })
    }
}

/// The sum of the body chunks' lengths over a run of events.
pub open spec fn payload_len_sum(events: Seq<InboundEvent>) -> int
    decreases events.len(),
{
    if events.len() == 0 {
        0
    } else {
        payload_len_sum(events.drop_last()) + (match events.last() {
            InboundEvent::Frame(InboundFrame::InputPayload { data, is_end }) => data@.len() as int,
            _ => 0,
        })
    }
}

/// Whether a run of events delivers the end-of-body marker.
pub open spec fn body_ended(events: Seq<InboundEvent>) -> bool
    decreases events.len(),
{
    if events.len() == 0 {
        false
    } else {
        body_ended(events.drop_last()) || (events.last() matches InboundEvent::Frame(
            InboundFrame::InputPayload { is_end: true, .. },
        ))
    }
}

/// The step payloads forwarded to the extension point, in stream order.
pub open spec fn step_payloads(events: Seq<InboundEvent>) -> Seq<Seq<u8>>
    decreases events.len(),
{
    if events.len() == 0 {
        Seq::empty()
    } else {
        step_payloads(events.drop_last()) + (match events.last() {
            InboundEvent::Frame(InboundFrame::Step { payload }) => seq![payload@],
            _ => Seq::empty(),
        })
    }
}

/// The permission payloads forwarded to the extension point, in stream order.
pub open spec fn permission_payloads(events: Seq<InboundEvent>) -> Seq<Seq<u8>>
    decreases events.len(),
{
    if events.len() == 0 {
        Seq::empty()
    } else {
        permission_payloads(events.drop_last()) + (match events.last() {
            InboundEvent::Frame(InboundFrame::PermissionResponse { payload }) => seq![payload@],
            _ => Seq::empty(),
        })
    }
}

/// How many `Send` actions a run of events holds: how many source answers
/// it consumes.
pub open spec fn send_count(events: Seq<InboundEvent>) -> int
    decreases events.len(),
{
    if events.len() == 0 {
        0
    } else {
        send_count(events.drop_last()) + (if is_send(events.last()) {
            1int
        } else {
            0int
        })
    }
}

/// Whether the source answer consumed by the `Send` at position `k` is a
/// failure (an answer past the end of the list counts as one).
pub open spec fn read_failed_at(
    events: Seq<InboundEvent>,
    outcomes: Seq<SourceReadOutcome>,
    k: int,
) -> bool {
    send_count(events.take(k)) >= outcomes.len() || outcomes[send_count(
        events.take(k),
    )] is Failed
}

/// Whether processing the event at position `k` makes the worker leave its
/// loop: the `End` frame; a `Send` whose read failed; or, with the outbound
/// consumer gone, any `Send` (its enqueue is refused).
pub open spec fn stopper(
    events: Seq<InboundEvent>,
    outcomes: Seq<SourceReadOutcome>,
    receiver: bool,
    k: int,
) -> bool {
    is_end_frame(events[k]) || (is_send(events[k]) && (read_failed_at(events, outcomes, k)
        || !receiver))
}

/// Why the worker left its loop.
#[derive(Debug, Clone, Copy, PartialEq, Eq, Structural)]
pub enum StopReason {
    /// The orchestrator sent the `End` frame: graceful termination.
    EndFrame,
    /// The inbound stream closed: no more events.
    StreamEnd,
    /// A body-source read failed; an error event was emitted if the
    /// outbound consumer still listened.
    SourceFailed,
    /// An enqueue found the outbound consumer gone.
    ClientGone,
}

/// The reason a run stopping at position `k` reports.
pub open spec fn reason_at(
    events: Seq<InboundEvent>,
    outcomes: Seq<SourceReadOutcome>,
    k: int,
) -> StopReason {
    if is_end_frame(events[k]) {
        StopReason::EndFrame
    } else if read_failed_at(events, outcomes, k) {
        StopReason::SourceFailed
    } else {
        StopReason::ClientGone
    }
}

/// The frames the worker enqueues over a run of events, in emit order, when
/// the outbound consumer is live: one body chunk per answered `Send`, one
/// error event per failed one.
pub open spec fn emitted_frames(
    events: Seq<InboundEvent>,
    outcomes: Seq<SourceReadOutcome>,
) -> Seq<FrameModel>
    decreases events.len(),
{
    if events.len() == 0 {
        Seq::empty()
    } else {
        emitted_frames(events.drop_last(), outcomes) + (if is_send(events.last()) && send_count(
            events.drop_last(),
        ) < outcomes.len() {
            seq![outcome_model(outcomes[send_count(events.drop_last())])]
        } else {
            Seq::empty()
        })
    }
}

/// A run of events consumes a non-negative number of source answers.
pub proof fn lemma_send_count_nonneg(events: Seq<InboundEvent>)
    ensures
        send_count(events) >= 0,
    decreases events.len(),
{
    if events.len() > 0 {
        lemma_send_count_nonneg(events.drop_last());
    }
}

/// A prefix never holds more `Send` actions than the whole run.
pub proof fn lemma_send_count_prefix(events: Seq<InboundEvent>, a: int)
    requires
        0 <= a <= events.len(),
    ensures
        send_count(events.take(a)) <= send_count(events),
        send_count(events.take(a)) >= 0,
    decreases events.len() - a,
{
    lemma_send_count_nonneg(events.take(a));
    if a == events.len() {
        assert(events.take(a) =~= events);
    } else {
        assert(events.take(a + 1).drop_last() =~= events.take(a));
        lemma_send_count_prefix(events, a + 1);
    }
}

/// The worker emits at most one frame per processed event.
pub proof fn lemma_emitted_le(events: Seq<InboundEvent>, outcomes: Seq<SourceReadOutcome>)
    ensures
        emitted_frames(events, outcomes).len() <= events.len(),
    decreases events.len(),
{
    if events.len() > 0 {
        lemma_emitted_le(events.drop_last(), outcomes);
    }
}

/// How each accumulated quantity grows when one more event is processed.
pub proof fn lemma_step_unfold(events: Seq<InboundEvent>, ocs: Seq<SourceReadOutcome>, i: int)
    requires
        0 <= i < events.len(),
    ensures
        !is_payload(events[i]) ==> payload_bytes(events.take(i + 1)) == payload_bytes(
            events.take(i),
        ),
        events[i] matches InboundEvent::Frame(InboundFrame::InputPayload { data, is_end })
            ==> payload_bytes(events.take(i + 1)) == payload_bytes(events.take(i)) + data@,
        body_ended(events.take(i + 1)) == (body_ended(events.take(i)) || events[i] matches
            InboundEvent::Frame(InboundFrame::InputPayload { is_end: true, .. })),
        !(events[i] matches InboundEvent::Frame(InboundFrame::Step { .. })) ==> step_payloads(
            events.take(i + 1),
        ) == step_payloads(events.take(i)),
        events[i] matches InboundEvent::Frame(InboundFrame::Step { payload }) ==> step_payloads(
            events.take(i + 1),
        ) == step_payloads(events.take(i)).push(payload@),
        !(events[i] matches InboundEvent::Frame(InboundFrame::PermissionResponse { .. }))
            ==> permission_payloads(events.take(i + 1)) == permission_payloads(events.take(i)),
        events[i] matches InboundEvent::Frame(InboundFrame::PermissionResponse { payload })
            ==> permission_payloads(events.take(i + 1)) == permission_payloads(
            events.take(i),
        ).push(payload@),
        send_count(events.take(i + 1)) == send_count(events.take(i)) + (if is_send(events[i]) {
            1int
        } else {
            0int
        }),
        !is_send(events[i]) ==> emitted_frames(events.take(i + 1), ocs) == emitted_frames(
            events.take(i),
            ocs,
        ),
        is_send(events[i]) && send_count(events.take(i)) < ocs.len() ==> emitted_frames(
            events.take(i + 1),
            ocs,
        ) == emitted_frames(events.take(i), ocs).push(
            outcome_model(ocs[send_count(events.take(i))]),
        ),
{
    let pre = events.take(i);
    assert(events.take(i + 1).drop_last() =~= pre);
    assert(events.take(i + 1).last() == events[i]);
    match events[i] {
        InboundEvent::Frame(frame) => match frame {
            InboundFrame::Step { payload } => {
                assert(step_payloads(events.take(i + 1)) =~= step_payloads(pre).push(payload@));
            },
            InboundFrame::InputPayload { data, is_end } => {
            },
            InboundFrame::PermissionResponse { payload } => {
                assert(permission_payloads(events.take(i + 1)) =~= permission_payloads(pre).push(
                    payload@,
                ));
            },
            _ => {},
        },
        InboundEvent::ReadError => {},
    }
    assert(payload_bytes(pre) + Seq::<u8>::empty() =~= payload_bytes(pre));
    assert(step_payloads(pre) + Seq::<Seq<u8>>::empty() =~= step_payloads(pre));
    assert(permission_payloads(pre) + Seq::<Seq<u8>>::empty() =~= permission_payloads(pre));
    assert(emitted_frames(pre, ocs) + Seq::<FrameModel>::empty() =~= emitted_frames(pre, ocs));
    if is_send(events[i]) && send_count(pre) < ocs.len() {
        assert(emitted_frames(events.take(i + 1), ocs) =~= emitted_frames(pre, ocs).push(
            outcome_model(ocs[send_count(pre)]),
        ));
    }
}

/// What one session run came to.
pub struct SessionReport {
    /// How many inbound events the worker processed before leaving.
    pub processed: usize,
    /// Why it left its loop.
    pub reason: StopReason,
    /// The step payloads handed to the extension point, in order.
    pub steps: Vec<Vec<u8>>,
    /// The permission payloads handed to the extension point, in order.
    pub permissions: Vec<Vec<u8>>,
}

/// The worker of one session, its awaited answers laid out as values.
///
/// `events` is what the inbound stream yields, in order; `outcomes` is what
/// the body source answers to the successive `Send` actions. The contract
/// pins, for every input: which prefix of the stream is processed (up to
/// and including the first stopping event, nothing after it); the exact
/// bytes the body sink receives, in order, and the end-of-body marker; the
/// exact frames enqueued outbound, in order, with none dropped and none
/// invented, and that nothing is enqueued once the consumer is gone; the
/// payloads forwarded to the extension point; the reported reason; and that
/// the queue's producer end is dropped on every exit path, completing the
/// client-visible stream.
pub fn run_session(
    events: Vec<InboundEvent>,
    outcomes: Vec<SourceReadOutcome>,
    sink: &mut BodySink,
    q: &mut OutboundQueue,
) -> (report: SessionReport)
    requires
        old(q).wf(),
        old(q).contents().len() + events@.len() <= old(q).cap(),
        outcomes@.len() >= send_count(events@),
    ensures
        report.processed <= events@.len(),
        forall|k: int|
            0 <= k < report.processed as int - 1 ==> !stopper(
                events@,
                outcomes@,
                old(q).receiver_live(),
                k,
            ),
        report.processed < events@.len() ==> report.processed >= 1 && stopper(
            events@,
            outcomes@,
            old(q).receiver_live(),
            report.processed as int - 1,
        ),
        report.reason == (if report.processed >= 1 && stopper(
            events@,
            outcomes@,
            old(q).receiver_live(),
            report.processed as int - 1,
        ) {
            reason_at(events@, outcomes@, report.processed as int - 1)
        } else {
            StopReason::StreamEnd
        }),
        final(sink).consumer() == old(sink).consumer(),
        old(sink).consumer() ==> final(sink).received() == old(sink).received() + payload_bytes(
            events@.take(report.processed as int),
        ),
        !old(sink).consumer() ==> final(sink).received() == old(sink).received(),
        final(sink).ended() == (old(sink).ended() || (old(sink).consumer() && body_ended(
            events@.take(report.processed as int),
        ))),
        final(q).wf(),
        final(q).cap() == old(q).cap(),
        final(q).receiver_live() == old(q).receiver_live(),
        old(q).receiver_live() ==> final(q).contents() == old(q).contents() + emitted_frames(
            events@.take(report.processed as int),
            outcomes@,
        ),
        !old(q).receiver_live() ==> final(q).contents() == old(q).contents(),
        !final(q).sender_live(),
        report.steps@.map_values(|p: Vec<u8>| p@) == step_payloads(
            events@.take(report.processed as int),
        ),
        report.permissions@.map_values(|p: Vec<u8>| p@) == permission_payloads(
            events@.take(report.processed as int),
        ),
{
    let ghost full = events@;
    let ghost ocfull = outcomes@;
    let ghost rcv = old(q).receiver_live();
    let ghost qc0 = old(q).contents();
    let n = events.len();
    let mut events = events;
    let mut outcomes = outcomes;
    let mut steps: Vec<Vec<u8>> = Vec::new();
    let mut permissions: Vec<Vec<u8>> = Vec::new();
    let mut i: usize = 0;
    let ghost mut j: int = 0;
    let mut running = true;
    let mut reason = StopReason::StreamEnd;
    proof {
        assert(full.take(0) =~= Seq::<InboundEvent>::empty());
        assert(steps@.map_values(|p: Vec<u8>| p@) =~= Seq::<Seq<u8>>::empty());
        assert(permissions@.map_values(|p: Vec<u8>| p@) =~= Seq::<Seq<u8>>::empty());
        assert(qc0 + emitted_frames(full.take(0), ocfull) =~= qc0);
        assert(old(sink).received() + payload_bytes(full.take(0)) =~= old(sink).received());
        assert(full.skip(0) =~= full);
        assert(ocfull.skip(0) =~= ocfull);
    }
    while running && i < n
        invariant
            i <= n,
            n == full.len(),
            events@ == full.skip(i as int),
            j == send_count(full.take(i as int)),
            0 <= j <= ocfull.len(),
            outcomes@ == ocfull.skip(j),
            ocfull.len() >= send_count(full),
            running ==> forall|k: int| 0 <= k < i as int ==> !stopper(full, ocfull, rcv, k),
            running ==> reason == StopReason::StreamEnd,
            !running ==> i >= 1 && stopper(full, ocfull, rcv, i as int - 1) && reason == reason_at(
                full,
                ocfull,
                i as int - 1,
            ),
            !running ==> forall|k: int| 0 <= k < i as int - 1 ==> !stopper(full, ocfull, rcv, k),
            sink.consumer() == old(sink).consumer(),
            old(sink).consumer() ==> sink.received() == old(sink).received() + payload_bytes(
                full.take(i as int),
            ),
            !old(sink).consumer() ==> sink.received() == old(sink).received(),
            sink.ended() == (old(sink).ended() || (old(sink).consumer() && body_ended(
                full.take(i as int),
            ))),
            q.wf(),
            q.cap() == old(q).cap(),
            q.receiver_live() == rcv,
            q.sender_live() == old(q).sender_live(),
            qc0 == old(q).contents(),
            qc0.len() + n <= q.cap(),
            rcv ==> q.contents() == qc0 + emitted_frames(full.take(i as int), ocfull),
            !rcv ==> q.contents() == qc0,
            steps@.map_values(|p: Vec<u8>| p@) == step_payloads(full.take(i as int)),
            permissions@.map_values(|p: Vec<u8>| p@) == permission_payloads(full.take(i as int)),
        decreases n - i,
    {
        proof {
            lemma_step_unfold(full, ocfull, i as int);
            lemma_emitted_le(full.take(i as int), ocfull);
            lemma_send_count_prefix(full, i as int + 1);
            assert(full.skip(i as int)[0] == full[i as int]);
        }
        let ev = events.remove(0);
        let ghost gev = ev;
        proof {
            assert(gev == full[i as int]);
            assert(events@ =~= full.skip(i as int + 1));
        }
        match ev {
            InboundEvent::ReadError => {
                // A per-frame transport read error keeps the session alive;
                // the runtime logs it and awaits the next frame.
            },
            InboundEvent::Frame(frame) => {
                let ghost gframe = frame;
                let d = dispatch(frame);
                proof {
                    assert(d == dispatch_model(gframe));
                }
                match d {
                    Directive::ForwardStep { payload } => {
                        let ghost sb = steps@.map_values(|p: Vec<u8>| p@);
                        let ghost gpayload = payload@;
                        proof {
                            assert(gframe matches InboundFrame::Step { payload: p2 } && p2@
                                == gpayload);
                        }
                        steps.push(payload);
                        proof {
                            assert(steps@.map_values(|p: Vec<u8>| p@) =~= sb.push(gpayload));
                        }
                    },
                    Directive::DeliverBody { data, is_end } => {
                        let ghost gdata = data@;
                        proof {
                            assert(gframe matches InboundFrame::InputPayload {
                                data: d2,
                                is_end: e2,
                            } && d2@ == gdata && e2 == is_end);
                        }
                        let _delivery = sink.push(data, is_end);
                        // A refusal means no consumer listens for this body;
                        // the chunk is dropped and the session stays alive.
                        proof {
                            if old(sink).consumer() {
                                assert(sink.received() =~= old(sink).received() + payload_bytes(
                                    full.take(i as int + 1),
                                ));
                            }
                        }
                    },
                    Directive::ReadBody { limit: _ } => {
                        proof {
                            assert(gframe matches InboundFrame::OutputPayloadAction {
                                action: PayloadActionKind::Send,
                                ..
                            });
                            assert(is_send(full[i as int]));
                            assert(send_count(full.take(i as int + 1)) == j + 1);
                            assert(j + 1 <= ocfull.len());
                        }
                        let oc = outcomes.remove(0);
                        let ghost goc = oc;
                        proof {
                            assert(goc == ocfull[j]);
                            assert(outcomes@ =~= ocfull.skip(j + 1));
                        }
                        let (frame_out, must_stop) = outcome_action(oc);
                        proof {
                            if rcv {
                                assert(q.contents().len() < q.cap());
                            }
                        }
                        let sent = send_event(q, frame_out);
                        proof {
                            if rcv {
                                assert(q.contents() =~= qc0 + emitted_frames(
                                    full.take(i as int + 1),
                                    ocfull,
                                ));
                            }
                        }
                        match sent {
                            EnqueueResult::Sent => {
                                if must_stop {
                                    proof {
                                        assert(read_failed_at(full, ocfull, i as int));
                                    }
                                    reason = StopReason::SourceFailed;
                                    running = false;
                                }
                            },
                            EnqueueResult::Closed(_) => {
                                reason = if must_stop {
                                    StopReason::SourceFailed
                                } else {
                                    StopReason::ClientGone
                                };
                                running = false;
                            },
                            EnqueueResult::Full(_) => {
                                proof {
                                    assert(false);
                                }
                                running = false;
                            },
                        }
                        proof {
                            j = j + 1;
                        }
                    },
                    Directive::CancelRead => {
                        // Cancellation of an in-flight read is an extension
                        // contract; with the answers laid out as values there
                        // is nothing in flight to signal.
                        proof {
                            assert(gframe matches InboundFrame::OutputPayloadAction {
                                action: PayloadActionKind::Stop,
                                ..
                            });
                            assert(!is_send(full[i as int]));
                        }
                    },
                    Directive::ForwardPermission { payload } => {
                        let ghost pb = permissions@.map_values(|p: Vec<u8>| p@);
                        let ghost gpayload = payload@;
                        proof {
                            assert(gframe matches InboundFrame::PermissionResponse { payload: p2 }
                                && p2@ == gpayload);
                        }
                        permissions.push(payload);
                        proof {
                            assert(permissions@.map_values(|p: Vec<u8>| p@) =~= pb.push(gpayload));
                        }
                    },
                    Directive::Finish => {
                        proof {
                            assert(is_end_frame(full[i as int]));
                        }
                        reason = StopReason::EndFrame;
                        running = false;
                    },
                }
            },
        }
        i = i + 1;
    }
    q.drop_sender();
    proof {
        if running {
            assert(i == n);
            assert(full.take(i as int) =~= full);
        }
    }
    SessionReport { processed: i, reason, steps, permissions }
}

/// No frame after `End` is processed: in any run whose processed prefix
/// holds no stopping event before its last position, an `End` frame at
/// position `e` bounds the prefix by `e + 1`.
pub proof fn lemma_end_frame_stops(
    events: Seq<InboundEvent>,
    outcomes: Seq<SourceReadOutcome>,
    receiver: bool,
    n: int,
    e: int,
)
    requires
        0 <= e < events.len(),
        is_end_frame(events[e]),
        forall|k: int| 0 <= k < n - 1 ==> !stopper(events, outcomes, receiver, k),
    ensures
        n <= e + 1,
{
    if e < n - 1 {
        assert(stopper(events, outcomes, receiver, e));
    }
}

/// With the outbound consumer gone, the first `Send` action ends the
/// session within that one processing step: the refused enqueue is observed
/// as a failure, never as a crash, and nothing past it is processed.
pub proof fn lemma_client_gone_stops(
    events: Seq<InboundEvent>,
    outcomes: Seq<SourceReadOutcome>,
    n: int,
    s: int,
)
    requires
        0 <= s < events.len(),
        is_send(events[s]),
        forall|k: int| 0 <= k < n - 1 ==> !stopper(events, outcomes, false, k),
    ensures
        n <= s + 1,
{
    if s < n - 1 {
        assert(stopper(events, outcomes, false, s));
    }
}

/// Closing the inbound stream terminates the worker: a run over events none
/// of which stops it processes every event and reports the stream's end —
/// and, the producer end being dropped, the outbound stream completes.
pub proof fn lemma_stream_close_completes(
    events: Seq<InboundEvent>,
    outcomes: Seq<SourceReadOutcome>,
    receiver: bool,
    n: int,
    reason: StopReason,
)
    requires
        forall|k: int| 0 <= k < events.len() ==> !stopper(events, outcomes, receiver, k),
        0 <= n <= events.len(),
        n < events.len() ==> n >= 1 && stopper(events, outcomes, receiver, n - 1),
        reason == (if n >= 1 && stopper(events, outcomes, receiver, n - 1) {
            reason_at(events, outcomes, n - 1)
        } else {
            StopReason::StreamEnd
        }),
    ensures
        n == events.len(),
        reason == StopReason::StreamEnd,
{
}

/// The sink receives exactly as many bytes as the chunks hold together: the
/// delivered sequence's length is the sum of the chunk lengths.
pub proof fn lemma_payload_total_len(events: Seq<InboundEvent>)
    ensures
        payload_bytes(events).len() == payload_len_sum(events),
        payload_len_sum(events) >= 0,
    decreases events.len(),
{
    if events.len() > 0 {
        lemma_payload_total_len(events.drop_last());
    }
}

/// A chunk bearing the end-of-body marker is observed: any run containing
/// one delivers the marker.
pub proof fn lemma_end_marker_seen(events: Seq<InboundEvent>, k: int)
    requires
        0 <= k < events.len(),
        events[k] matches InboundEvent::Frame(InboundFrame::InputPayload { is_end: true, .. }),
    ensures
        body_ended(events),
    decreases events.len(),
{
    if k < events.len() - 1 {
        assert(events.drop_last()[k] == events[k]);
        lemma_end_marker_seen(events.drop_last(), k);
    }
}

} // verus!
