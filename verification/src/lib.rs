//! A verified session relay for a frame-streaming plugin endpoint.
//!
//! One bidirectional stream carries typed frames between an orchestrator and
//! this plugin. The relay decouples reading the inbound frames from writing
//! the outbound ones: a worker dispatches each inbound frame, feeds request
//! bodies to a single hand-off sink, and emits outbound frames through a
//! bounded single-producer queue whose consumer is the client-visible stream.

pub mod encoder;
pub mod errors;
pub mod frames;
pub mod ids;
pub mod queue;
pub mod relay;
pub mod sink;
pub mod source;
