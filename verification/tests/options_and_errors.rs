use mediasoup::data::{
    AppData, IpAddress, ListenInfo, NumSctpStreams, SctpParameters, SrtpCryptoSuite,
    SrtpParameters, TransportProtocol, TransportTuple,
};
use mediasoup::errors::{ClosedError, RequestError, TransportError};
use mediasoup::messages::{ResponseBody, WorkerReply};
use mediasoup::plain_transport::{
    PlainTransportData, PlainTransportOptions, PlainTransportRemoteParameters,
};
use mediasoup::session::Session;

fn listen_info() -> ListenInfo {
    ListenInfo {
        protocol: TransportProtocol::Udp,
        ip: IpAddress::V4(0x7f000001),
        announced_address: None,
        port: Some(40000),
        send_buffer_size: 0,
        recv_buffer_size: 0,
    }
}

fn sample_data() -> PlainTransportData {
    PlainTransportData {
        tuple: TransportTuple::LocalOnly {
            local_address: IpAddress::V4(0x7f000001),
            local_port: 40000,
            protocol: TransportProtocol::Udp,
        },
        rtcp_tuple: None,
        sctp_parameters: Some(SctpParameters { port: 5000, os: 1024, mis: 8, max_message_size: 262144 }),
        sctp_state: None,
        srtp_parameters: None,
        rtcp_mux: true,
        comedia: false,
    }
}

fn remote_parameters() -> PlainTransportRemoteParameters {
    PlainTransportRemoteParameters {
        ip: Some(IpAddress::V4(0x01020304)),
        port: Some(9998),
        rtcp_port: None,
        srtp_parameters: None,
    }
}

#[test]
fn options_new_applies_documented_defaults() {
    let options = PlainTransportOptions::new(listen_info());
    assert_eq!(options.listen_info, listen_info());
    assert_eq!(options.rtcp_listen_info, None);
    assert!(options.rtcp_mux);
    assert!(!options.comedia);
    assert!(!options.enable_sctp);
    assert_eq!(options.num_sctp_streams, NumSctpStreams { os: 1024, mis: 1024 });
    assert_eq!(options.max_sctp_message_size, 262_144);
    assert_eq!(options.sctp_send_buffer_size, 262_144);
    assert!(!options.enable_srtp);
    assert_eq!(options.srtp_crypto_suite, SrtpCryptoSuite::AesCm128HmacSha180);
    assert_eq!(options.app_data, AppData::default());
}

#[test]
fn sctp_stream_slots_follow_negotiated_mis() {
    let mut session = Session::new();
    let router = session.create_router();
    let h = session.create_plain_transport(router, sample_data(), AppData::default());
    let inner = &session.transports[h.slot].inner;
    assert_eq!(inner.used_sctp_stream_ids.len(), 8);
    assert!(inner.used_sctp_stream_ids.iter().all(|used| !used));
    assert_eq!(h.sctp_parameters(&session).unwrap().mis, 8);
}

#[test]
fn operations_on_a_closed_transport_fail_clearly() {
    let mut session = Session::new();
    let router = session.create_router();
    let h = session.create_plain_transport(router, sample_data(), AppData::default());
    h.close(&mut session);
    assert_eq!(
        h.connect(&mut session, remote_parameters()),
        Err(TransportError::Closed(ClosedError))
    );
    assert_eq!(
        h.set_max_incoming_bitrate(&mut session, 100_000),
        Err(TransportError::Closed(ClosedError))
    );
    assert_eq!(h.dump(&mut session), Err(TransportError::Closed(ClosedError)));
    assert_eq!(h.get_stats(&mut session), Err(TransportError::Closed(ClosedError)));
}

#[test]
fn requests_on_a_closed_channel_fail_with_channel_closed() {
    let mut session = Session::new();
    let router = session.create_router();
    let h = session.create_plain_transport(router, sample_data(), AppData::default());
    session.channel.close();
    assert_eq!(
        h.connect(&mut session, remote_parameters()),
        Err(TransportError::Request(RequestError::ChannelClosed))
    );
}

#[test]
fn worker_rejection_surfaces_its_reason() {
    let mut session = Session::new();
    let router = session.create_router();
    let h = session.create_plain_transport(router, sample_data(), AppData::default());
    let before = h.tuple(&session);
    let r = h.connect_complete(
        &mut session,
        WorkerReply::Rejected { reason: String::from("no ip given") },
    );
    assert_eq!(
        r,
        Err(TransportError::Request(RequestError::WorkerRejected {
            reason: String::from("no ip given"),
        }))
    );
    // A failed connect leaves the projection untouched.
    assert_eq!(h.tuple(&session), before);
}

#[test]
fn wrong_response_body_is_malformed() {
    let mut session = Session::new();
    let router = session.create_router();
    let h = session.create_plain_transport(router, sample_data(), AppData::default());
    let r = h.connect_complete(&mut session, WorkerReply::Completed(ResponseBody::Accepted));
    assert_eq!(r, Err(TransportError::Request(RequestError::MalformedResponse)));
}

#[test]
fn connect_success_updates_srtp_and_rtcp_only_when_present() {
    let mut session = Session::new();
    let router = session.create_router();
    let h = session.create_plain_transport(router, sample_data(), AppData::default());
    let srtp = SrtpParameters {
        crypto_suite: SrtpCryptoSuite::AesCm128HmacSha180,
        key_base64: String::from("ZnQ3eWJraDg0d3ZoYzM5cXN1Y2pnaHU5NWxrZTVv"),
    };
    let negotiated = TransportTuple::WithRemote {
        local_address: IpAddress::V4(0x7f000001),
        local_port: 40000,
        remote_ip: IpAddress::V4(0x01020304),
        remote_port: 9998,
        protocol: TransportProtocol::Udp,
    };
    let r = h.connect_complete(
        &mut session,
        WorkerReply::Completed(ResponseBody::ConnectPlain {
            tuple: negotiated,
            rtcp_tuple: None,
            srtp_parameters: Some(srtp.clone()),
        }),
    );
    assert_eq!(r, Ok(()));
    assert_eq!(h.tuple(&session), negotiated);
    // Absent reply fields leave the cached values alone.
    assert_eq!(h.rtcp_tuple(&session), None);
    assert_eq!(h.srtp_parameters(&session), Some(srtp));
}

#[test]
fn requests_carry_their_method_and_fresh_tokens() {
    let mut session = Session::new();
    let router = session.create_router();
    let h = session.create_plain_transport(router, sample_data(), AppData::default());
    let id = h.id(&session);

    let t1 = h.set_max_incoming_bitrate(&mut session, 500_000).unwrap();
    let t2 = h
        .enable_trace_event(&mut session, vec![mediasoup::data::TraceEventType::Probation])
        .unwrap();
    let t3 = h.dump(&mut session).unwrap();
    let t4 = h.get_stats(&mut session).unwrap();
    assert!(t1 < t2 && t2 < t3 && t3 < t4);

    let outbox = session.channel.drain_outbox();
    assert_eq!(outbox.len(), 4);
    assert!(outbox.iter().all(|m| m.target_id == id));
    assert_eq!(
        outbox[0].method,
        mediasoup::messages::RequestMethod::TransportSetMaxIncomingBitrate { bitrate: 500_000 }
    );
    assert_eq!(
        outbox[2].method,
        mediasoup::messages::RequestMethod::TransportDump
    );
}
