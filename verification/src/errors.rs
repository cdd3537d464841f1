//! Error taxonomy of the control plane.

use vstd::prelude::*;

verus! {

/// A channel-level request failure, surfaced to the caller of the operation
/// that triggered the request.
#[derive(PartialEq, Eq, Debug)]
pub enum RequestError {
    /// The channel was closed before a reply arrived, or was already closed
    /// when the request was issued.
    ChannelClosed,
    /// The outgoing request could not be encoded; nothing was sent. Raised at
    /// the embedder's wire boundary, never by this library's own logic.
    EncodeFailed,
    /// The worker answered with an explicit error.
    WorkerRejected {
        /// The worker's reason.
        reason: String,
    },
    /// The reply's body did not match what the request asked for.
    MalformedResponse,
}

/// Why an inbound notification was dropped. Dropping one never halts
/// dispatch of subsequent notifications.
#[derive(PartialEq, Eq, Structural, Debug, Clone, Copy)]
pub enum NotificationParseError {
    /// The event tag was not recognized.
    InvalidEvent,
    /// The tag was known but the body did not match it.
    MalformedPayload,
}

/// A mutating operation was attempted on a resource already closed.
#[derive(PartialEq, Eq, Structural, Debug, Clone, Copy)]
pub struct ClosedError;

/// Why a transport operation failed.
#[derive(PartialEq, Eq, Debug)]
pub enum TransportError {
    /// The transport is closed.
    Closed(ClosedError),
    /// The request behind the operation failed.
    Request(RequestError),
}

} // verus!
