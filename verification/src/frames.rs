//! The in-memory form of the wire frames, with their mathematical views.

use vstd::prelude::*;

verus! {

/// One header of an outbound message: a (name, value) pair.
#[derive(Debug, Clone, PartialEq, Eq)]
pub struct Pair {
    pub name: String,
    pub value: String,
}

/// The view of a [`Pair`]: both strings as character sequences.
pub struct PairModel {
    pub name: Seq<char>,
    pub value: Seq<char>,
}

impl View for Pair {
    type V = PairModel;

    open spec fn view(&self) -> PairModel {
        PairModel { name: self.name@, value: self.value@ }
    }
}

/// One typed value of an outbound message, or one opaque context entry of an
/// error. The relay forwards these unread, so each is held as its encoded
/// bytes; its view is that byte sequence.
#[derive(Debug, Clone, PartialEq, Eq)]
pub struct DataValue {
    pub bytes: Vec<u8>,
}

impl View for DataValue {
    type V = Seq<u8>;

    open spec fn view(&self) -> Seq<u8> {
        self.bytes@
    }
}

/// What an `OutputPayloadAction` frame asks of the body source.
#[derive(Debug, Clone, Copy, PartialEq, Eq, Structural)]
pub enum PayloadActionKind {
    /// Read up to `limit` bytes from the body source and send them.
    Send,
    /// Cancel an in-flight body-source read.
    Stop,
}

/// One frame read from the inbound stream. Exactly one variant per frame.
#[derive(Debug, Clone, PartialEq, Eq)]
pub enum InboundFrame {
    /// A control/step event; its payload is forwarded unread to business logic.
    Step { payload: Vec<u8> },
    /// One chunk of the request body; `is_end` marks the last chunk.
    InputPayload { data: Vec<u8>, is_end: bool },
    /// An action on the outbound body source.
    OutputPayloadAction { action: PayloadActionKind, limit: u64 },
    /// A permission answer; forwarded unread to business logic.
    PermissionResponse { payload: Vec<u8> },
    /// The orchestrator asks the plugin to stop this session.
    End,
}

/// What one `await` of the inbound stream yielded: a frame, or a per-frame
/// transport read error (the session stays alive on the latter).
#[derive(Debug, Clone, PartialEq, Eq)]
pub enum InboundEvent {
    Frame(InboundFrame),
    ReadError,
}

/// One frame written to the outbound stream. Exactly one variant per frame.
#[derive(Debug, Clone, PartialEq, Eq)]
pub enum OutboundFrame {
    /// A response message: status, ordered headers, ordered data values.
    Output { status: Option<i32>, headers: Vec<Pair>, data: Vec<DataValue> },
    /// A terminal or diagnostic error event.
    Error { status: i32, code: String, message: String, context: Vec<DataValue> },
    /// One chunk of the outbound response body.
    OutputPayload { data: Vec<u8> },
}

/// The view of an [`OutboundFrame`]: every field as a mathematical value.
pub enum FrameModel {
    Output { status: Option<i32>, headers: Seq<PairModel>, data: Seq<Seq<u8>> },
    Error { status: i32, code: Seq<char>, message: Seq<char>, context: Seq<Seq<u8>> },
    OutputPayload { data: Seq<u8> },
}

impl View for OutboundFrame {
    type V = FrameModel;

    open spec fn view(&self) -> FrameModel {
        match self {
            OutboundFrame::Output { status, headers, data } => FrameModel::Output {
                status: *status,
                headers: headers@.map_values(|p: Pair| p@),
                data: data@.map_values(|d: DataValue| d@),
            },
            OutboundFrame::Error { status, code, message, context } => FrameModel::Error {
                status: *status,
                code: code@,
                message: message@,
                context: context@.map_values(|d: DataValue| d@),
            },
            OutboundFrame::OutputPayload { data } => FrameModel::OutputPayload { data: data@ },
        }
    }
}

} // verus!
