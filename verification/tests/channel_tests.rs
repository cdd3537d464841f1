use mediasoup::channel::Channel;
use mediasoup::errors::RequestError;
use mediasoup::messages::{RequestMethod, ResponseBody, WorkerReply};

#[test]
fn concurrent_requests_resolve_by_their_own_token() {
    let mut c = Channel::new();
    let t1 = c.request(7, RequestMethod::TransportDump).unwrap();
    let t2 = c.request(7, RequestMethod::TransportGetStats).unwrap();
    assert_ne!(t1, t2);

    // Replies arrive out of order: each resolves its own request.
    let r2 = c.deliver_response(t2, WorkerReply::Completed(ResponseBody::Accepted));
    assert_eq!(r2, Some(WorkerReply::Completed(ResponseBody::Accepted)));
    let r1 = c.deliver_response(
        t1,
        WorkerReply::Rejected { reason: String::from("busy") },
    );
    assert_eq!(r1, Some(WorkerReply::Rejected { reason: String::from("busy") }));
}

#[test]
fn reply_for_unknown_token_is_discarded() {
    let mut c = Channel::new();
    let t1 = c.request(3, RequestMethod::TransportDump).unwrap();
    // Resolve it once; a duplicate reply (or one for a dropped waiter) is
    // discarded rather than resolving anything.
    assert!(c.deliver_response(t1, WorkerReply::Completed(ResponseBody::Accepted)).is_some());
    assert!(c.deliver_response(t1, WorkerReply::Completed(ResponseBody::Accepted)).is_none());
    assert!(c.deliver_response(999, WorkerReply::Completed(ResponseBody::Accepted)).is_none());
}

#[test]
fn closed_channel_rejects_requests_and_aborts_waiters() {
    let mut c = Channel::new();
    let t1 = c.request(1, RequestMethod::TransportDump).unwrap();
    let t2 = c.request(2, RequestMethod::TransportGetStats).unwrap();
    let aborted = c.close();
    assert_eq!(aborted, vec![t1, t2]);
    let r = c.request(3, RequestMethod::TransportDump);
    assert_eq!(r, Err(RequestError::ChannelClosed));
    // A straggler reply after close is discarded.
    assert!(c.deliver_response(t1, WorkerReply::Completed(ResponseBody::Accepted)).is_none());
}

#[test]
fn outbox_carries_each_request_once() {
    let mut c = Channel::new();
    let t1 = c.request(5, RequestMethod::TransportDump).unwrap();
    let msgs = c.drain_outbox();
    assert_eq!(msgs.len(), 1);
    assert_eq!(msgs[0].target_id, 5);
    assert_eq!(msgs[0].token, t1);
    assert_eq!(msgs[0].method, RequestMethod::TransportDump);
    assert!(c.drain_outbox().is_empty());
}

#[test]
fn one_consumer_per_target_and_release_is_idempotent() {
    let mut c = Channel::new();
    let _h1 = c.subscribe(10, 0);
    assert_eq!(c.route_notification(10), Some(0));
    // A second registration replaces the first: one consumer per id.
    let _h2 = c.subscribe(10, 1);
    assert_eq!(c.route_notification(10), Some(1));
    c.release_subscription(10);
    assert_eq!(c.route_notification(10), None);
    // Releasing again is harmless.
    c.release_subscription(10);
    assert_eq!(c.route_notification(10), None);
}
