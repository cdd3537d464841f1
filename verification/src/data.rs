//! Plain data carried by the control protocol: endpoints, tuples, SCTP and
//! SRTP parameters, and custom application data.

use vstd::prelude::*;

verus! {

/// Transport-layer protocol of an endpoint.
#[derive(Clone, Copy, PartialEq, Eq, Structural, Debug)]
pub enum TransportProtocol {
    Udp,
    Tcp,
}

/// An IP address, held as plain bits.
#[derive(Clone, Copy, PartialEq, Eq, Structural, Debug)]
pub enum IpAddress {
    V4(u32),
    V6(u128),
}

/// Local (and, once discovered or connected, remote) endpoint of a transport.
#[derive(Clone, Copy, PartialEq, Eq, Structural, Debug)]
pub enum TransportTuple {
    /// Only the local side is known yet.
    LocalOnly {
        local_address: IpAddress,
        local_port: u16,
        protocol: TransportProtocol,
    },
    /// Remote origin is known as well.
    WithRemote {
        local_address: IpAddress,
        local_port: u16,
        remote_ip: IpAddress,
        remote_port: u16,
        protocol: TransportProtocol,
    },
}

/// State of the SCTP association of a transport.
#[derive(Clone, Copy, PartialEq, Eq, Structural, Debug)]
pub enum SctpState {
    New,
    Connecting,
    Connected,
    Failed,
    Closed,
}

/// SRTP crypto suite negotiated for a transport.
#[derive(Clone, Copy, PartialEq, Eq, Structural, Debug)]
pub enum SrtpCryptoSuite {
    AeadAes256Gcm,
    AeadAes128Gcm,
    AesCm128HmacSha180,
    AesCm128HmacSha132,
}

impl Default for SrtpCryptoSuite {
    /// The default crypto suite.
    fn default() -> (suite: Self)
        ensures
            suite == SrtpCryptoSuite::AesCm128HmacSha180,
    {
        SrtpCryptoSuite::AesCm128HmacSha180
    }
}

/// SRTP key material and the suite it belongs to.
#[derive(Clone, PartialEq, Eq, Debug)]
pub struct SrtpParameters {
    /// Crypto suite of the key.
    pub crypto_suite: SrtpCryptoSuite,
    /// Key material, base64-encoded.
    pub key_base64: String,
}

impl SrtpParameters {
    /// An owned copy, field for field.
    pub fn duplicate(&self) -> (copy: Self)
        ensures
            copy == *self,
    {
        SrtpParameters { crypto_suite: self.crypto_suite, key_base64: self.key_base64.clone() }
    }
}

/// Number of inbound and outbound SCTP streams asked of the worker.
#[derive(Clone, Copy, PartialEq, Eq, Structural, Debug)]
pub struct NumSctpStreams {
    /// Outbound streams.
    pub os: u16,
    /// Maximum inbound streams.
    pub mis: u16,
}

impl Default for NumSctpStreams {
    /// The default stream counts.
    fn default() -> (streams: Self)
        ensures
            streams == (NumSctpStreams { os: 1024, mis: 1024 }),
    {
        NumSctpStreams { os: 1024, mis: 1024 }
    }
}

/// SCTP association parameters reported by the worker at creation.
#[derive(Clone, Copy, PartialEq, Eq, Structural, Debug)]
pub struct SctpParameters {
    /// SCTP port.
    pub port: u16,
    /// Outbound streams.
    pub os: u16,
    /// Maximum inbound streams.
    pub mis: u16,
    /// Maximum allowed size for SCTP messages.
    pub max_message_size: u32,
}

/// Where a transport listens, as handed to the worker at creation.
#[derive(Clone, PartialEq, Eq, Debug)]
pub struct ListenInfo {
    /// Protocol to listen on.
    pub protocol: TransportProtocol,
    /// Listening IP.
    pub ip: IpAddress,
    /// Address announced to clients in place of the listening IP.
    pub announced_address: Option<String>,
    /// Fixed listening port; the worker picks one when absent.
    pub port: Option<u16>,
    /// Send buffer size of the socket.
    pub send_buffer_size: u32,
    /// Receive buffer size of the socket.
    pub recv_buffer_size: u32,
}

/// Opaque custom application data attached to a resource.
#[derive(Clone, PartialEq, Eq, Debug)]
pub struct AppData(pub Vec<u8>);

impl Default for AppData {
    /// Empty application data.
    fn default() -> (data: Self)
        ensures
            data.0@ == Seq::<u8>::empty(),
    {
        AppData(Vec::new())
    }
}

/// Direction a traced packet travelled.
#[derive(Clone, Copy, PartialEq, Eq, Structural, Debug)]
pub enum TraceDirection {
    In,
    Out,
}

/// Kind of a trace event.
#[derive(Clone, Copy, PartialEq, Eq, Structural, Debug)]
pub enum TraceEventType {
    Probation,
    Bwe,
}

/// A trace notification reported by the worker.
#[derive(Clone, Copy, PartialEq, Eq, Structural, Debug)]
pub struct TransportTraceEventData {
    /// Kind of the event.
    pub event_type: TraceEventType,
    /// Worker timestamp of the event.
    pub timestamp: u64,
    /// Direction of the traced packet.
    pub direction: TraceDirection,
}

} // verus!
