//! Messages exchanged with the worker over the channel, as structured plain
//! values: the opaque wire encoding and decoding of these values is the
//! embedder's business.

use vstd::prelude::*;
use crate::data::{
    IpAddress, SctpState, SrtpParameters, TraceEventType, TransportTraceEventData, TransportTuple,
};

verus! {

/// A request body, keyed by method.
#[derive(PartialEq, Eq, Debug)]
pub enum RequestMethod {
    /// Provide the transport with remote parameters.
    TransportConnectPlain {
        /// Remote IP.
        ip: Option<IpAddress>,
        /// Remote port.
        port: Option<u16>,
        /// Remote RTCP port.
        rtcp_port: Option<u16>,
        /// Remote SRTP parameters.
        srtp_parameters: Option<SrtpParameters>,
    },
    /// Cap the bitrate of media the remote endpoint sends here.
    TransportSetMaxIncomingBitrate {
        /// Bits per second.
        bitrate: u32,
    },
    /// Select which trace event kinds the worker reports.
    TransportEnableTraceEvent {
        /// Kinds to report.
        types: Vec<TraceEventType>,
    },
    /// Ask the worker for a dump of the transport.
    TransportDump,
    /// Ask the worker for transport statistics.
    TransportGetStats,
    /// Tell the worker to tear a transport down.
    TransportClose {
        /// The transport to close; the request itself targets its owner.
        transport_id: u64,
    },
}

/// A correlated request as handed to the wire.
#[derive(PartialEq, Eq, Debug)]
pub struct RequestMessage {
    /// The resource the request concerns.
    pub target_id: u64,
    /// Correlation token; the matching reply carries it back.
    pub token: u64,
    /// What is asked.
    pub method: RequestMethod,
}

/// A successful reply's body.
#[derive(PartialEq, Eq, Debug)]
pub enum ResponseBody {
    /// Reply to a connect request: the negotiated endpoints.
    ConnectPlain {
        /// Negotiated transport tuple.
        tuple: TransportTuple,
        /// Negotiated RTCP tuple, when RTCP-mux is off.
        rtcp_tuple: Option<TransportTuple>,
        /// SRTP parameters after negotiation.
        srtp_parameters: Option<SrtpParameters>,
    },
    /// A plain acknowledgement without data.
    Accepted,
}

/// What the worker answered to a request.
#[derive(PartialEq, Eq, Debug)]
pub enum WorkerReply {
    /// The request succeeded.
    Completed(ResponseBody),
    /// The worker rejected the request.
    Rejected {
        /// The worker's reason.
        reason: String,
    },
}

/// Event tag of a notification reporting a discovered RTP origin.
pub const EVENT_PLAIN_TRANSPORT_TUPLE: u32 = 1;

/// Event tag of a notification reporting a discovered RTCP origin.
pub const EVENT_PLAIN_TRANSPORT_RTCP_TUPLE: u32 = 2;

/// Event tag of a notification reporting an SCTP state change.
pub const EVENT_TRANSPORT_SCTP_STATE_CHANGE: u32 = 3;

/// Event tag of a trace notification.
pub const EVENT_TRANSPORT_TRACE: u32 = 4;

/// Event tag of a notification that the worker closed the transport itself.
pub const EVENT_TRANSPORT_CLOSED: u32 = 5;

/// The decoded body of a notification, before it is checked against the
/// event tag.
#[derive(Clone, Copy, PartialEq, Eq, Structural, Debug)]
pub enum NotificationBody {
    /// Body of a tuple notification.
    PlainTransportTuple {
        /// The discovered tuple.
        tuple: TransportTuple,
    },
    /// Body of an RTCP tuple notification.
    PlainTransportRtcpTuple {
        /// The discovered RTCP tuple.
        tuple: TransportTuple,
    },
    /// Body of an SCTP state change notification.
    TransportSctpStateChange {
        /// The new association state.
        sctp_state: SctpState,
    },
    /// Body of a trace notification.
    TransportTrace {
        /// The trace record.
        data: TransportTraceEventData,
    },
    /// No body.
    Empty,
}

/// An inbound notification as it comes off the wire, not yet interpreted.
#[derive(Clone, Copy, PartialEq, Eq, Structural, Debug)]
pub struct NotificationMessage {
    /// The resource the notification concerns.
    pub target_id: u64,
    /// Event tag; unrecognized tags are dropped with a diagnostic.
    pub event: u32,
    /// Decoded body.
    pub body: NotificationBody,
}

} // verus!
