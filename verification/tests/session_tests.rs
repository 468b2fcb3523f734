use session_relay::encoder::{
    error_frame, send_event, send_http_err, send_message, status_as_u16, status_from_u16,
};
use session_relay::errors::InternalPluginErr;
use session_relay::frames::{
    DataValue, InboundEvent, InboundFrame, OutboundFrame, Pair, PayloadActionKind,
};
use session_relay::ids::next_id;
use session_relay::queue::{EnqueueResult, OutboundQueue};
use session_relay::relay::{run_session, SourceReadOutcome, StopReason};
use session_relay::sink::{BodySink, PushStatus};
use session_relay::source::{BodySource, VecBodySource};

fn chunk(data: &[u8], is_end: bool) -> InboundEvent {
    InboundEvent::Frame(InboundFrame::InputPayload { data: data.to_vec(), is_end })
}

fn send_action(limit: u64) -> InboundEvent {
    InboundEvent::Frame(InboundFrame::OutputPayloadAction {
        action: PayloadActionKind::Send,
        limit,
    })
}

fn end_frame() -> InboundEvent {
    InboundEvent::Frame(InboundFrame::End)
}

fn step(payload: &[u8]) -> InboundEvent {
    InboundEvent::Frame(InboundFrame::Step { payload: payload.to_vec() })
}

fn payload_frame(f: OutboundFrame) -> Vec<u8> {
    match f {
        OutboundFrame::OutputPayload { data } => data,
        other => panic!("expected a body chunk frame, got {:?}", other),
    }
}

#[test]
fn error_event_fields_match_exactly() {
    let f = error_frame(404, "not_found".to_string(), "missing".to_string());
    match &f {
        OutboundFrame::Error { status, code, message, context } => {
            assert_eq!(*status, 404);
            assert_eq!(code, "not_found");
            assert_eq!(message, "missing");
            assert!(context.is_empty());
        }
        other => panic!("expected an error frame, got {:?}", other),
    }
    let mut q = OutboundQueue::new(4);
    let sent = send_event(&mut q, f.clone());
    assert!(matches!(sent, EnqueueResult::Sent));
    assert_eq!(q.dequeue(), Some(f));
}

#[test]
fn http_error_carries_status_number() {
    let status = status_from_u16(404).expect("404 is a valid status");
    let mut q = OutboundQueue::new(4);
    let sent = send_http_err(&mut q, "not_found".to_string(), status, "missing".to_string());
    assert!(matches!(sent, EnqueueResult::Sent));
    match q.dequeue().expect("one frame was enqueued") {
        OutboundFrame::Error { status, code, message, context } => {
            assert_eq!(status, 404);
            assert_eq!(code, "not_found");
            assert_eq!(message, "missing");
            assert!(context.is_empty());
        }
        other => panic!("expected an error frame, got {:?}", other),
    }
}

#[test]
fn status_code_wrappers_follow_the_documented_bounds() {
    assert!(status_from_u16(99).is_none());
    assert!(status_from_u16(1000).is_none());
    assert!(status_from_u16(100).is_some());
    assert!(status_from_u16(999).is_some());
    let sc = status_from_u16(503).unwrap();
    assert_eq!(status_as_u16(&sc), 503);
}

#[test]
fn message_frame_carries_fields_in_order() {
    let headers = vec![
        Pair { name: "content-type".to_string(), value: "text/plain".to_string() },
        Pair { name: "x-a".to_string(), value: "1".to_string() },
    ];
    let data = vec![DataValue { bytes: vec![1, 2] }, DataValue { bytes: vec![3] }];
    let mut q = OutboundQueue::new(4);
    let sent = send_message(&mut q, 200, headers.clone(), data.clone());
    assert!(matches!(sent, EnqueueResult::Sent));
    match q.dequeue().expect("one frame was enqueued") {
        OutboundFrame::Output { status, headers: h, data: d } => {
            assert_eq!(status, Some(200));
            assert_eq!(h, headers);
            assert_eq!(d, data);
        }
        other => panic!("expected a message frame, got {:?}", other),
    }
}

#[test]
fn queue_preserves_order_within_capacity() {
    let frames: Vec<OutboundFrame> = (0..5)
        .map(|k| OutboundFrame::OutputPayload { data: vec![k as u8] })
        .collect();
    let out = session_relay::queue::transmit(frames.clone(), 8);
    assert_eq!(out, frames);
    let out = session_relay::queue::transmit(
        frames.clone(),
        session_relay::queue::OUTBOUND_QUEUE_CAPACITY,
    );
    assert_eq!(out, frames);
}

#[test]
fn full_queue_refuses_without_loss_then_accepts_after_drain() {
    let mut q = OutboundQueue::new(2);
    let f1 = OutboundFrame::OutputPayload { data: vec![1] };
    let f2 = OutboundFrame::OutputPayload { data: vec![2] };
    let f3 = OutboundFrame::OutputPayload { data: vec![3] };
    assert!(matches!(q.try_enqueue(f1.clone()), EnqueueResult::Sent));
    assert!(matches!(q.try_enqueue(f2.clone()), EnqueueResult::Sent));
    let refused = match q.try_enqueue(f3.clone()) {
        EnqueueResult::Full(f) => f,
        other => panic!("a full queue must report Full, got {:?}", other),
    };
    assert_eq!(refused, f3, "the refused frame is handed back, not dropped");
    assert_eq!(q.len(), 2);
    assert_eq!(q.dequeue(), Some(f1));
    assert!(matches!(q.try_enqueue(refused), EnqueueResult::Sent));
    assert_eq!(q.dequeue(), Some(f2));
    assert_eq!(q.dequeue(), Some(f3));
    assert_eq!(q.dequeue(), None);
}

#[test]
fn closed_consumer_enqueue_is_distinguishable() {
    let mut q = OutboundQueue::new(4);
    q.close_receiver();
    let f = OutboundFrame::OutputPayload { data: vec![7] };
    match q.try_enqueue(f.clone()) {
        EnqueueResult::Closed(g) => assert_eq!(g, f),
        other => panic!("a gone consumer must be reported as Closed, got {:?}", other),
    }
}

#[test]
fn body_chunks_reach_sink_in_order() {
    let events = vec![chunk(b"he", false), chunk(b"llo", false), chunk(b"!", true), end_frame()];
    let mut sink = BodySink::new(true);
    let mut q = OutboundQueue::new(16);
    let report = run_session(events, Vec::new(), &mut sink, &mut q);
    assert_eq!(report.processed, 4);
    assert_eq!(report.reason, StopReason::EndFrame);
    assert_eq!(sink.bytes_received(), &b"hello!".to_vec());
    assert_eq!(sink.bytes_received().len(), 2 + 3 + 1);
    assert!(sink.is_ended());
}

#[test]
fn chunks_without_consumer_are_dropped_and_session_lives() {
    let events = vec![chunk(b"abc", false), step(b"s1"), chunk(b"def", true)];
    let mut sink = BodySink::new(false);
    let mut q = OutboundQueue::new(16);
    let report = run_session(events, Vec::new(), &mut sink, &mut q);
    assert_eq!(report.processed, 3);
    assert_eq!(report.reason, StopReason::StreamEnd);
    assert!(sink.bytes_received().is_empty());
    assert!(!sink.is_ended());
    assert_eq!(report.steps, vec![b"s1".to_vec()]);
}

#[test]
fn sink_push_is_refused_without_consumer() {
    let mut sink = BodySink::new(false);
    assert_eq!(sink.push(vec![1, 2, 3], true), PushStatus::NoConsumer);
    assert!(sink.bytes_received().is_empty());
    assert!(!sink.is_ended());
    let mut sink = BodySink::new(true);
    assert!(sink.has_consumer());
    assert_eq!(sink.push(vec![1, 2], false), PushStatus::Delivered);
    assert_eq!(sink.push(vec![3], true), PushStatus::Delivered);
    assert_eq!(sink.bytes_received(), &vec![1, 2, 3]);
    assert!(sink.is_ended());
    sink.detach_consumer();
    assert_eq!(sink.push(vec![4], false), PushStatus::NoConsumer);
    assert_eq!(sink.bytes_received(), &vec![1, 2, 3]);
}

#[test]
fn nothing_after_end_is_processed() {
    let events = vec![chunk(b"a", false), end_frame(), chunk(b"b", true), step(b"late")];
    let mut sink = BodySink::new(true);
    let mut q = OutboundQueue::new(16);
    let report = run_session(events, Vec::new(), &mut sink, &mut q);
    assert_eq!(report.processed, 2, "the End frame is the last one handled");
    assert_eq!(report.reason, StopReason::EndFrame);
    assert_eq!(sink.bytes_received(), &b"a".to_vec());
    assert!(!sink.is_ended());
    assert!(report.steps.is_empty());
}

#[test]
fn stream_close_completes_the_outbound_stream() {
    let events = vec![step(b"s"), chunk(b"xy", true)];
    let mut sink = BodySink::new(true);
    let mut q = OutboundQueue::new(16);
    let report = run_session(events, Vec::new(), &mut sink, &mut q);
    assert_eq!(report.processed, 2);
    assert_eq!(report.reason, StopReason::StreamEnd);
    assert_eq!(q.dequeue(), None);
    assert!(q.is_finished(), "producer dropped and queue drained: the stream completes");
}

#[test]
fn read_error_keeps_the_session_alive() {
    let events = vec![InboundEvent::ReadError, step(b"after"), end_frame()];
    let mut sink = BodySink::new(true);
    let mut q = OutboundQueue::new(16);
    let report = run_session(events, Vec::new(), &mut sink, &mut q);
    assert_eq!(report.processed, 3);
    assert_eq!(report.reason, StopReason::EndFrame);
    assert_eq!(report.steps, vec![b"after".to_vec()]);
}

#[test]
fn send_actions_emit_body_chunks_in_order() {
    let mut source = VecBodySource::new(b"abcdef".to_vec());
    let outcomes = vec![source.take_chunk(4), source.take_chunk(4)];
    let events = vec![send_action(4), send_action(4), end_frame()];
    let mut sink = BodySink::new(true);
    let mut q = OutboundQueue::new(16);
    let report = run_session(events, outcomes, &mut sink, &mut q);
    assert_eq!(report.processed, 3);
    assert_eq!(report.reason, StopReason::EndFrame);
    assert_eq!(payload_frame(q.dequeue().unwrap()), b"abcd".to_vec());
    assert_eq!(payload_frame(q.dequeue().unwrap()), b"ef".to_vec());
    assert_eq!(q.dequeue(), None);
}

#[test]
fn source_failure_emits_error_then_stops() {
    let outcomes = vec![SourceReadOutcome::Failed { reason: "boom".to_string() }];
    let events = vec![send_action(8), step(b"late")];
    let mut sink = BodySink::new(true);
    let mut q = OutboundQueue::new(16);
    let report = run_session(events, outcomes, &mut sink, &mut q);
    assert_eq!(report.processed, 1);
    assert_eq!(report.reason, StopReason::SourceFailed);
    assert!(report.steps.is_empty());
    match q.dequeue().expect("the failure is reported outbound") {
        OutboundFrame::Error { status, code, message, context } => {
            assert_eq!(status, 500);
            assert_eq!(code, "body_source_read_failed");
            assert_eq!(message, "boom");
            assert!(context.is_empty());
        }
        other => panic!("expected an error frame, got {:?}", other),
    }
    assert_eq!(q.dequeue(), None);
}

#[test]
fn client_gone_ends_session_within_one_step() {
    let mut q = OutboundQueue::new(16);
    q.close_receiver();
    let outcomes = vec![SourceReadOutcome::Data { bytes: vec![1], done: true }];
    let events = vec![step(b"s1"), send_action(1), step(b"s2"), end_frame()];
    let mut sink = BodySink::new(true);
    let report = run_session(events, outcomes, &mut sink, &mut q);
    assert_eq!(report.processed, 2, "the refused enqueue ends the session in that step");
    assert_eq!(report.reason, StopReason::ClientGone);
    assert_eq!(report.steps, vec![b"s1".to_vec()]);
    assert_eq!(q.dequeue(), None);
}

#[test]
fn vec_body_source_respects_the_limit() {
    let mut source = VecBodySource::new(b"hello world".to_vec());
    match source.read(5) {
        SourceReadOutcome::Data { bytes, done } => {
            assert_eq!(bytes, b"hello".to_vec());
            assert!(!done);
        }
        other => panic!("expected data, got {:?}", other),
    }
    match source.read(100) {
        SourceReadOutcome::Data { bytes, done } => {
            assert_eq!(bytes, b" world".to_vec());
            assert!(done);
        }
        other => panic!("expected data, got {:?}", other),
    }
    match source.read(3) {
        SourceReadOutcome::Data { bytes, done } => {
            assert!(bytes.is_empty());
            assert!(done);
        }
        other => panic!("expected data, got {:?}", other),
    }
    source.cancel();
}

#[test]
fn generated_ids_are_distinct() {
    let mut generator = snowflake::SnowflakeIdGenerator::new(1, 1);
    let mut ids = Vec::new();
    for _ in 0..8 {
        ids.push(next_id(&mut generator));
    }
    for a in 0..ids.len() {
        for b in (a + 1)..ids.len() {
            assert_ne!(ids[a], ids[b]);
        }
    }
}

#[test]
fn internal_error_message_names_the_io_failure() {
    let inner = std::io::Error::new(std::io::ErrorKind::PermissionDenied, "denied");
    let err = InternalPluginErr::Io(inner);
    let text = err.message();
    assert!(text.starts_with("IO Error."), "got: {}", text);
    assert!(text.contains("denied"), "got: {}", text);
}
