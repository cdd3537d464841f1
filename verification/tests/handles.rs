use mediasoup::data::{AppData, IpAddress, TransportProtocol, TransportTuple};
use mediasoup::plain_transport::PlainTransportData;
use mediasoup::session::Session;

fn sample_data() -> PlainTransportData {
    PlainTransportData {
        tuple: TransportTuple::LocalOnly {
            local_address: IpAddress::V6(1),
            local_port: 41000,
            protocol: TransportProtocol::Tcp,
        },
        rtcp_tuple: None,
        sctp_parameters: None,
        sctp_state: None,
        srtp_parameters: None,
        rtcp_mux: true,
        comedia: false,
    }
}

#[test]
fn upgrade_succeeds_while_any_strong_handle_exists_and_never_after() {
    let mut session = Session::new();
    let router = session.create_router();
    let h1 = session.create_plain_transport(router, sample_data(), AppData::default());
    let weak = h1.downgrade();

    // One strong handle exists: upgrading succeeds (and shares ownership).
    let h2 = weak.upgrade(&mut session).expect("still referenced");
    assert_eq!(session.transports[weak.slot].strong, 2);

    // Dropping one of two strong handles keeps the slot alive.
    assert!(h2.release(&mut session).is_none());
    let h3 = weak.upgrade(&mut session).expect("still referenced");
    assert!(h3.release(&mut session).is_none());

    // Releasing the last strong handle makes upgrades unavailable, for good.
    assert!(h1.release(&mut session).is_some());
    assert!(weak.upgrade(&mut session).is_none());
    assert!(weak.upgrade(&mut session).is_none());
}

#[test]
fn duplicating_a_handle_shares_the_same_state() {
    let mut session = Session::new();
    let router = session.create_router();
    let h1 = session.create_plain_transport(router, sample_data(), AppData::default());
    let h2 = h1.duplicate(&mut session);
    assert_eq!(h1.slot, h2.slot);
    assert_eq!(session.transports[h1.slot].strong, 2);

    // A close through one handle is visible through the other.
    h1.close(&mut session);
    assert!(h2.closed(&session));

    // The representation stays alive while a handle remains, even closed.
    assert!(h2.release(&mut session).is_none());
    assert!(session.transports[h1.slot].strong == 1);
    assert!(h1.release(&mut session).is_some());
}

#[test]
fn closing_does_not_destroy_while_a_handle_is_held() {
    let mut session = Session::new();
    let router = session.create_router();
    let h = session.create_plain_transport(router, sample_data(), AppData::default());
    let weak = h.downgrade();
    h.close(&mut session);
    // Closed, but still referenced: a weak handle still upgrades.
    let h2 = weak.upgrade(&mut session).expect("closed but alive");
    assert!(h2.closed(&session));
    assert!(h2.release(&mut session).is_none());
    assert!(h.release(&mut session).is_some());
    assert!(weak.upgrade(&mut session).is_none());
}
