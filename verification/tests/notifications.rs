use mediasoup::data::{
    AppData, IpAddress, SctpState, TraceDirection, TraceEventType, TransportProtocol,
    TransportTraceEventData, TransportTuple,
};
use mediasoup::errors::NotificationParseError;
use mediasoup::messages::{
    NotificationBody, NotificationMessage, RequestMethod, ResponseBody, WorkerReply,
    EVENT_PLAIN_TRANSPORT_RTCP_TUPLE, EVENT_PLAIN_TRANSPORT_TUPLE, EVENT_TRANSPORT_CLOSED,
    EVENT_TRANSPORT_SCTP_STATE_CHANGE, EVENT_TRANSPORT_TRACE,
};
use mediasoup::plain_transport::{Notification, PlainTransportData};
use mediasoup::session::{NotificationOutcome, Session};

fn local_tuple() -> TransportTuple {
    TransportTuple::LocalOnly {
        local_address: IpAddress::V4(0x7f000001),
        local_port: 40000,
        protocol: TransportProtocol::Udp,
    }
}

fn remote_tuple(port: u16) -> TransportTuple {
    TransportTuple::WithRemote {
        local_address: IpAddress::V4(0x7f000001),
        local_port: 40000,
        remote_ip: IpAddress::V4(0x01020304),
        remote_port: port,
        protocol: TransportProtocol::Udp,
    }
}

fn sample_data() -> PlainTransportData {
    PlainTransportData {
        tuple: local_tuple(),
        rtcp_tuple: None,
        sctp_parameters: None,
        sctp_state: None,
        srtp_parameters: None,
        rtcp_mux: true,
        comedia: false,
    }
}

#[test]
fn parse_accepts_matching_tag_and_body() {
    let t = remote_tuple(9998);
    assert_eq!(
        Notification::parse(
            EVENT_PLAIN_TRANSPORT_TUPLE,
            NotificationBody::PlainTransportTuple { tuple: t },
        ),
        Ok(Notification::Tuple { tuple: t })
    );
    assert_eq!(
        Notification::parse(
            EVENT_TRANSPORT_SCTP_STATE_CHANGE,
            NotificationBody::TransportSctpStateChange { sctp_state: SctpState::Connected },
        ),
        Ok(Notification::SctpStateChange { sctp_state: SctpState::Connected })
    );
    assert_eq!(
        Notification::parse(EVENT_TRANSPORT_CLOSED, NotificationBody::Empty),
        Ok(Notification::Closed)
    );
}

#[test]
fn parse_rejects_unknown_tag_and_mismatched_body() {
    assert_eq!(
        Notification::parse(0xdead, NotificationBody::Empty),
        Err(NotificationParseError::InvalidEvent)
    );
    assert_eq!(
        Notification::parse(EVENT_PLAIN_TRANSPORT_TUPLE, NotificationBody::Empty),
        Err(NotificationParseError::MalformedPayload)
    );
    assert_eq!(
        Notification::parse(
            EVENT_PLAIN_TRANSPORT_RTCP_TUPLE,
            NotificationBody::PlainTransportTuple { tuple: remote_tuple(1) },
        ),
        Err(NotificationParseError::MalformedPayload)
    );
}

#[test]
fn invalid_notification_does_not_affect_the_next_one() {
    let mut session = Session::new();
    let router = session.create_router();
    let h = session.create_plain_transport(router, sample_data(), AppData::default());
    let id = h.id(&session);

    // Unrecognized event tag: dropped, nothing changes.
    let bad = session.deliver_notification(NotificationMessage {
        target_id: id,
        event: 0xdead,
        body: NotificationBody::Empty,
    });
    assert!(matches!(bad, NotificationOutcome::Unparsable(NotificationParseError::InvalidEvent)));
    assert_eq!(h.tuple(&session), local_tuple());
    assert!(!h.closed(&session));

    // The next, valid notification for the same id is delivered normally.
    let good = session.deliver_notification(NotificationMessage {
        target_id: id,
        event: EVENT_PLAIN_TRANSPORT_TUPLE,
        body: NotificationBody::PlainTransportTuple { tuple: remote_tuple(777) },
    });
    assert!(matches!(good, NotificationOutcome::Delivered { .. }));
    assert_eq!(h.tuple(&session), remote_tuple(777));
}

#[test]
fn notification_for_unknown_target_is_dropped() {
    let mut session = Session::new();
    let router = session.create_router();
    let h = session.create_plain_transport(router, sample_data(), AppData::default());
    let outcome = session.deliver_notification(NotificationMessage {
        target_id: 0xffff,
        event: EVENT_PLAIN_TRANSPORT_TUPLE,
        body: NotificationBody::PlainTransportTuple { tuple: remote_tuple(5) },
    });
    assert!(matches!(outcome, NotificationOutcome::NoSubscriber));
    assert_eq!(h.tuple(&session), local_tuple());
}

#[test]
fn connect_then_notification_last_writer_wins() {
    let mut session = Session::new();
    let router = session.create_router();
    let h = session.create_plain_transport(router, sample_data(), AppData::default());
    let id = h.id(&session);

    // connect(): worker acknowledges with negotiated tuple T1.
    let token = h
        .connect(
            &mut session,
            mediasoup::plain_transport::PlainTransportRemoteParameters {
                ip: Some(IpAddress::V4(0x01020304)),
                port: Some(9998),
                rtcp_port: None,
                srtp_parameters: None,
            },
        )
        .unwrap();
    let reply = session
        .channel
        .deliver_response(
            token,
            WorkerReply::Completed(ResponseBody::ConnectPlain {
                tuple: remote_tuple(9998),
                rtcp_tuple: None,
                srtp_parameters: None,
            }),
        )
        .expect("the waiter is pending");
    h.connect_complete(&mut session, reply).unwrap();
    assert_eq!(h.tuple(&session), remote_tuple(9998));

    // The worker's notification stream is authoritative: a later tuple
    // notification overrides what connect negotiated.
    session.deliver_notification(NotificationMessage {
        target_id: id,
        event: EVENT_PLAIN_TRANSPORT_TUPLE,
        body: NotificationBody::PlainTransportTuple { tuple: remote_tuple(7000) },
    });
    assert_eq!(h.tuple(&session), remote_tuple(7000));

    // Close twice: exactly one close request goes to the worker.
    let e1 = h.close(&mut session);
    let e2 = h.close(&mut session);
    assert!(e1.transitioned && !e2.transitioned);
    let close_requests = session
        .channel
        .outbox
        .iter()
        .filter(|m| m.method == RequestMethod::TransportClose { transport_id: id })
        .count();
    assert_eq!(close_requests, 1);
    assert!(h.closed(&session));
}

#[test]
fn rtcp_tuple_sctp_state_and_trace_notifications_update_projection() {
    let mut session = Session::new();
    let router = session.create_router();
    let h = session.create_plain_transport(router, sample_data(), AppData::default());
    let id = h.id(&session);
    let trace_cb = h.on_trace(&mut session);
    let sctp_cb = h.on_sctp_state_change(&mut session);

    session.deliver_notification(NotificationMessage {
        target_id: id,
        event: EVENT_PLAIN_TRANSPORT_RTCP_TUPLE,
        body: NotificationBody::PlainTransportRtcpTuple { tuple: remote_tuple(9999) },
    });
    assert_eq!(h.rtcp_tuple(&session), Some(remote_tuple(9999)));

    let outcome = session.deliver_notification(NotificationMessage {
        target_id: id,
        event: EVENT_TRANSPORT_SCTP_STATE_CHANGE,
        body: NotificationBody::TransportSctpStateChange { sctp_state: SctpState::Connecting },
    });
    assert_eq!(h.sctp_state(&session), Some(SctpState::Connecting));
    match outcome {
        NotificationOutcome::Delivered { fired, .. } => assert_eq!(fired, vec![sctp_cb]),
        _ => panic!("expected delivery"),
    }

    let outcome = session.deliver_notification(NotificationMessage {
        target_id: id,
        event: EVENT_TRANSPORT_TRACE,
        body: NotificationBody::TransportTrace {
            data: TransportTraceEventData {
                event_type: TraceEventType::Bwe,
                timestamp: 123,
                direction: TraceDirection::In,
            },
        },
    });
    match outcome {
        NotificationOutcome::Delivered { fired, .. } => assert_eq!(fired, vec![trace_cb]),
        _ => panic!("expected delivery"),
    }
}

#[test]
fn worker_initiated_close_notification_closes_without_request() {
    let mut session = Session::new();
    let router = session.create_router();
    let h = session.create_plain_transport(router, sample_data(), AppData::default());
    let id = h.id(&session);
    let (close_cb, _) = h.on_close(&mut session);

    let outcome = session.deliver_notification(NotificationMessage {
        target_id: id,
        event: EVENT_TRANSPORT_CLOSED,
        body: NotificationBody::Empty,
    });
    match outcome {
        NotificationOutcome::Delivered { fired, notification, .. } => {
            assert_eq!(notification, Notification::Closed);
            assert_eq!(fired, vec![close_cb]);
        },
        _ => panic!("expected delivery"),
    }
    assert!(h.closed(&session));
    // No redundant close request goes back to the worker.
    assert!(session.channel.outbox.is_empty());
}
