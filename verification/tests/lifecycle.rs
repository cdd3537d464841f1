use mediasoup::data::{AppData, IpAddress, TransportProtocol, TransportTuple};
use mediasoup::messages::{
    NotificationBody, NotificationMessage, RequestMethod, EVENT_TRANSPORT_CLOSED,
};
use mediasoup::plain_transport::PlainTransportData;
use mediasoup::session::Session;

fn sample_data() -> PlainTransportData {
    PlainTransportData {
        tuple: TransportTuple::LocalOnly {
            local_address: IpAddress::V4(0x7f000001),
            local_port: 40000,
            protocol: TransportProtocol::Udp,
        },
        rtcp_tuple: None,
        sctp_parameters: None,
        sctp_state: None,
        srtp_parameters: None,
        rtcp_mux: true,
        comedia: false,
    }
}

fn count_close_requests(session: &Session, transport_id: u64) -> usize {
    session
        .channel
        .outbox
        .iter()
        .filter(|m| m.method == RequestMethod::TransportClose { transport_id })
        .count()
}

#[test]
fn close_is_idempotent_and_sends_one_request() {
    let mut session = Session::new();
    let router = session.create_router();
    let h = session.create_plain_transport(router, sample_data(), AppData::default());
    let id = h.id(&session);
    let (_cb, replayed) = h.on_close(&mut session);
    assert!(!replayed);
    assert!(!h.closed(&session));

    let first = h.close(&mut session);
    assert!(first.transitioned);
    assert_eq!(first.fired, vec![0]);
    assert!(first.send_close_request);
    assert!(h.closed(&session));

    let second = h.close(&mut session);
    assert!(!second.transitioned);
    assert!(second.fired.is_empty());
    assert!(!second.send_close_request);
    assert!(h.closed(&session));

    assert_eq!(count_close_requests(&session, id), 1);
}

#[test]
fn late_closed_subscriber_replays_exactly_once() {
    let mut session = Session::new();
    let router = session.create_router();
    let h = session.create_plain_transport(router, sample_data(), AppData::default());

    let effects = h.close(&mut session);
    assert!(effects.transitioned);
    assert!(effects.fired.is_empty());

    // Registered after the fact: invoked immediately, exactly once.
    let (late_id, replay_now) = h.on_close(&mut session);
    assert!(replay_now);

    // No later close reaches it again.
    let again = h.close(&mut session);
    assert!(!again.transitioned);
    assert!(!again.fired.contains(&late_id));
}

#[test]
fn owner_close_cascades_without_worker_request() {
    let mut session = Session::new();
    let router = session.create_router();
    let h = session.create_plain_transport(router, sample_data(), AppData::default());
    let id = h.id(&session);
    let (close_cb, _) = h.on_close(&mut session);
    let (router_cb, fired_already) = h.on_router_close(&mut session);
    assert!(!fired_already);

    let events = session.close_router(router);
    assert_eq!(events.len(), 1);
    assert_eq!(events[0].transport_slot, h.slot);
    assert_eq!(events[0].router_close_fired, vec![router_cb]);
    assert!(events[0].close_effects.transitioned);
    assert_eq!(events[0].close_effects.fired, vec![close_cb]);
    assert!(!events[0].close_effects.send_close_request);

    assert!(h.closed(&session));
    // The dependent never sent its own close request to the worker.
    assert_eq!(count_close_requests(&session, id), 0);
    assert!(session.channel.outbox.is_empty());
}

#[test]
fn closing_router_twice_cascades_nothing_twice() {
    let mut session = Session::new();
    let router = session.create_router();
    let h = session.create_plain_transport(router, sample_data(), AppData::default());
    let first = session.close_router(router);
    assert_eq!(first.len(), 1);
    let second = session.close_router(router);
    assert!(second.is_empty());
    assert!(h.closed(&session));
}

#[test]
fn close_after_cascade_is_a_no_op() {
    let mut session = Session::new();
    let router = session.create_router();
    let h = session.create_plain_transport(router, sample_data(), AppData::default());
    let id = h.id(&session);
    session.close_router(router);
    assert!(h.closed(&session));
    let effects = h.close(&mut session);
    assert!(!effects.transitioned);
    assert!(!effects.send_close_request);
    assert_eq!(count_close_requests(&session, id), 0);
}

#[test]
fn releasing_last_handle_closes_and_cleans_up() {
    let mut session = Session::new();
    let router = session.create_router();
    let h = session.create_plain_transport(router, sample_data(), AppData::default());
    let id = h.id(&session);
    let slot = h.slot;

    let effects = h.release(&mut session).expect("last handle tears down");
    assert!(effects.transitioned);
    assert!(effects.send_close_request);
    assert_eq!(session.transports[slot].strong, 0);
    assert!(session.transports[slot].inner.closed);
    assert_eq!(count_close_requests(&session, id), 1);
    // The notification consumer is deregistered.
    assert!(!session.channel.subscriptions.iter().any(|e| e.target_id == id));
    // The cascade registration is gone.
    assert!(!session.parent_links.iter().any(|l| l.transport_slot == slot));
}

#[test]
fn release_after_explicit_close_sends_no_second_request() {
    let mut session = Session::new();
    let router = session.create_router();
    let h = session.create_plain_transport(router, sample_data(), AppData::default());
    let id = h.id(&session);
    let effects = h.close(&mut session);
    assert!(effects.send_close_request);
    let drop_effects = h.release(&mut session).expect("last handle");
    assert!(!drop_effects.transitioned);
    assert!(!drop_effects.send_close_request);
    assert_eq!(count_close_requests(&session, id), 1);
}

#[test]
fn mixed_triggers_still_close_exactly_once() {
    let mut session = Session::new();
    let router = session.create_router();
    let h = session.create_plain_transport(router, sample_data(), AppData::default());
    let id = h.id(&session);
    let (close_cb, _) = h.on_close(&mut session);

    // The worker's close notification wins the race...
    session.deliver_notification(NotificationMessage {
        target_id: id,
        event: EVENT_TRANSPORT_CLOSED,
        body: NotificationBody::Empty,
    });
    assert!(h.closed(&session));

    // ...and the explicit close and the owner cascade that follow are no-ops:
    // the "closed" slot fired exactly once, and the worker is owed nothing.
    let explicit = h.close(&mut session);
    assert!(!explicit.transitioned && explicit.fired.is_empty());
    let events = session.close_router(router);
    assert!(!events[0].close_effects.transitioned);
    assert!(events[0].close_effects.fired.is_empty());
    assert!(!events[0].close_effects.fired.contains(&close_cb));
    assert_eq!(count_close_requests(&session, id), 0);
}
