//! Control-plane client model for a remote media worker process.
//!
//! The worker performs the media work; this library models the client side of
//! the control protocol: a correlated request/response channel with
//! notification fan-out, per-resource event slots (multi-fire, and single-fire
//! with replay to late subscribers), an idempotent close state machine with
//! cascading close, and strong/weak handle semantics over shared resource
//! state.
//!
//! All state transitions are plain, verified functions from state and event to
//! next state and effects; an embedder performs the transport I/O, the opaque
//! wire encoding and the callback invocation that the effects describe.
//!
//! - [`data`] holds the plain values the protocol carries;
//! - [`messages`] the request, reply and notification shapes;
//! - [`errors`] the failure taxonomy;
//! - [`event_slot`] the event bus slots and their once-only laws;
//! - [`channel`] the correlated channel and subscription registry;
//! - [`plain_transport`] the transport resource and its close machine;
//! - [`session`] the arena tying them together, with the handle pair.

pub mod channel;
pub mod data;
pub mod errors;
pub mod event_slot;
pub mod messages;
pub mod plain_transport;
pub mod session;
