//! The session: one channel to the worker, the routers (owners), and the
//! transports they own, held in an arena so that strong and weak handles can
//! share state.
//!
//! A strong handle keeps the transport's in-process representation alive;
//! the representation is reclaimed when the last strong handle is released —
//! which may be long after the transport closed. A weak handle observes the
//! same state without extending its life.

use vstd::prelude::*;
use crate::channel::{has_subscription, is_subscribed, request_step, Channel, SubscriptionEntry};
use crate::data::{AppData, SctpParameters, SctpState, SrtpParameters, TraceEventType, TransportTuple};
use crate::errors::{ClosedError, NotificationParseError, RequestError, TransportError};
use crate::messages::{NotificationMessage, RequestMethod, ResponseBody, WorkerReply};
use crate::event_slot::{once_step, OnceSlotOp};
use crate::plain_transport::{
    cascade_step, close_step, connect_apply, dispatch_step, parse_notification, CloseEffects,
    CloseTrigger, Inner, InnerModel, Notification, PlainTransportData,
    PlainTransportRemoteParameters,
};

verus! {

/// An owning resource (a router); transports hold a non-owning back
/// reference to it, used only to cascade its close.
#[derive(Clone, Copy, PartialEq, Eq, Structural, Debug)]
pub struct RouterEntry {
    /// The router's id, the target of transport close requests.
    pub id: u64,
    /// Whether the router has closed.
    pub closed: bool,
}

/// A cascade registration: when the router closes, the transport follows.
/// The link never keeps the router alive and is never read for data access.
#[derive(Clone, Copy, PartialEq, Eq, Structural, Debug)]
pub struct ParentLink {
    /// The owning router.
    pub router_index: usize,
    /// The dependent transport's arena slot.
    pub transport_slot: usize,
}

/// One arena slot: a transport representation and its strong-handle count.
#[derive(Debug)]
pub struct TransportSlot {
    /// How many strong handles share this slot.
    pub strong: u64,
    /// The transport's in-process representation.
    pub inner: Inner,
}

/// A strong handle to a plain transport. Duplicating it shares the
/// representation (never the worker-side resource); the representation lives
/// until the last strong handle is released.
#[derive(PartialEq, Eq, Debug)]
pub struct PlainTransport {
    /// The arena slot of the shared representation.
    pub slot: usize,
}

/// A non-owning handle to a plain transport: observes the same slot but does
/// not keep it alive. Upgrading yields a strong handle exactly while one
/// still exists, and never a dangling reference.
#[derive(Clone, Copy, PartialEq, Eq, Structural, Debug)]
pub struct WeakPlainTransport {
    /// The arena slot of the shared representation.
    pub slot: usize,
}

/// The session around one worker channel.
#[derive(Debug)]
pub struct Session {
    /// The correlated channel to the worker.
    pub channel: Channel,
    /// The owning resources.
    pub routers: Vec<RouterEntry>,
    /// Cascade registrations, in registration order.
    pub parent_links: Vec<ParentLink>,
    /// The transport arena.
    pub transports: Vec<TransportSlot>,
    /// Source of fresh resource ids.
    pub next_resource_id: u64,
}

impl Session {
    /// Everything hangs together: the channel is well formed; every transport
    /// representation is well formed, has a fresh unique id and a live owner
    /// index; every subscription points at the slot whose transport carries
    /// its target id; and every parent link is in range, one per transport.
    pub open spec fn wf(self) -> bool {
        &&& self.channel.wf()
        &&& forall|i: int|
            0 <= i < self.transports@.len() ==> (#[trigger] self.transports@[i].inner)@.wf()
        &&& forall|i: int|
            0 <= i < self.transports@.len() ==> (#[trigger] self.transports@[i].inner)@.router_index
                < self.routers@.len()
        &&& forall|i: int|
            0 <= i < self.transports@.len() ==> (#[trigger] self.transports@[i].inner)@.id
                < self.next_resource_id
        &&& forall|i: int, j: int|
            0 <= i < j < self.transports@.len() ==> (#[trigger] self.transports@[i].inner)@.id != (
            #[trigger] self.transports@[j].inner)@.id
        &&& forall|k: int|
            0 <= k < self.channel@.subscriptions.len() ==> {
                let entry = #[trigger] self.channel@.subscriptions[k];
                &&& entry.subscriber < self.transports@.len()
                &&& self.transports@[entry.subscriber as int].inner@.id == entry.target_id
            }
        &&& forall|k: int|
            0 <= k < self.parent_links@.len() ==> {
                let link = #[trigger] self.parent_links@[k];
                &&& link.router_index < self.routers@.len()
                &&& link.transport_slot < self.transports@.len()
            }
        &&& forall|k: int, l: int|
            0 <= k < l < self.parent_links@.len() ==> (#[trigger] self.parent_links@[k]).transport_slot
                != (#[trigger] self.parent_links@[l]).transport_slot
    }

    /// Whether a slot index carries a live (still referenced) transport.
    pub open spec fn live(self, slot: usize) -> bool {
        slot < self.transports@.len() && self.transports@[slot as int].strong > 0
    }

    /// A fresh session: open channel, no resources.
    pub fn new() -> (s: Self)
        ensures
            s.wf(),
            s.routers@ == Seq::<RouterEntry>::empty(),
            s.parent_links@ == Seq::<ParentLink>::empty(),
            s.transports@.len() == 0,
            s.channel@.pending == Seq::<crate::channel::PendingRequest>::empty(),
            s.channel@.outbox == Seq::<crate::messages::RequestMessage>::empty(),
            !s.channel@.closed,
            s.channel@.next_token == 0,
            s.next_resource_id == 0,
    {
        Session {
            channel: Channel::new(),
            routers: Vec::new(),
            parent_links: Vec::new(),
            transports: Vec::new(),
            next_resource_id: 0,
        }
    }

    /// Creates an owning resource.
    pub fn create_router(&mut self) -> (r: usize)
        requires
            old(self).wf(),
            old(self).next_resource_id < u64::MAX,
        ensures
            final(self).wf(),
            r == old(self).routers@.len(),
            final(self).routers@ == old(self).routers@.push(
                RouterEntry { id: old(self).next_resource_id, closed: false },
            ),
            final(self).transports@ == old(self).transports@,
            final(self).parent_links@ == old(self).parent_links@,
            final(self).channel@ == old(self).channel@,
            final(self).next_resource_id == old(self).next_resource_id + 1,
    {
        let r = self.routers.len();
        self.routers.push(RouterEntry { id: self.next_resource_id, closed: false });
        self.next_resource_id = self.next_resource_id + 1;
        r
    }

    /// Creates a plain transport owned by a router, from the data the worker
    /// reported at creation: registers the single notification consumer for
    /// its fresh id, registers the cascade link on the owner, and hands back
    /// the first strong handle.
    pub fn create_plain_transport(
        &mut self,
        router_index: usize,
        data: PlainTransportData,
        app_data: AppData,
    ) -> (h: PlainTransport)
        requires
            old(self).wf(),
            router_index < old(self).routers@.len(),
            !old(self).routers@[router_index as int].closed,
            old(self).next_resource_id < u64::MAX,
        ensures
            final(self).wf(),
            h.slot == old(self).transports@.len(),
            final(self).transports@.len() == old(self).transports@.len() + 1,
            forall|j: int|
                0 <= j < old(self).transports@.len() ==> final(self).transports@[j]
                    == old(self).transports@[j],
            final(self).live(h.slot),
            final(self).transports@[h.slot as int].strong == 1,
            ({
                let inner = final(self).transports@[h.slot as int].inner@;
                &&& inner.id == old(self).next_resource_id
                &&& inner.data == data
                &&& inner.app_data == app_data
                &&& inner.router_index == router_index
                &&& !inner.closed
                &&& inner.handlers.close.handlers == Seq::<u64>::empty()
                &&& !inner.handlers.close.fired
                &&& inner.handlers.close.next == 0
                &&& !inner.handlers.router_close.fired
            }),
            is_subscribed(
                final(self).channel@.subscriptions,
                old(self).next_resource_id,
                h.slot,
            ),
            final(self).parent_links@ == old(self).parent_links@.push(
                ParentLink { router_index, transport_slot: h.slot },
            ),
            final(self).routers@ == old(self).routers@,
            final(self).channel@.pending == old(self).channel@.pending,
            final(self).channel@.outbox == old(self).channel@.outbox,
            final(self).channel@.next_token == old(self).channel@.next_token,
            final(self).channel@.closed == old(self).channel@.closed,
            final(self).next_resource_id == old(self).next_resource_id + 1,
    {
        let id = self.next_resource_id;
        self.next_resource_id = self.next_resource_id + 1;
        let slot_index = self.transports.len();
        let subscription = self.channel.subscribe(id, slot_index);
        let inner = Inner::new(id, data, app_data, router_index, subscription);
        self.transports.push(TransportSlot { strong: 1, inner });
        self.parent_links.push(ParentLink { router_index, transport_slot: slot_index });
        proof {
            let s = *final(self);
            let o = *old(self);
            assert forall|k: int| 0 <= k < s.channel@.subscriptions.len() implies {
                let entry = #[trigger] s.channel@.subscriptions[k];
                &&& entry.subscriber < s.transports@.len()
                &&& s.transports@[entry.subscriber as int].inner@.id == entry.target_id
            } by {
                let entry = s.channel@.subscriptions[k];
                if entry == (SubscriptionEntry { target_id: id, subscriber: slot_index }) {
                } else {
                    assert(o.channel@.subscriptions.contains(entry));
                    let k0 = choose|k0: int|
                        0 <= k0 < o.channel@.subscriptions.len() && o.channel@.subscriptions[k0]
                            == entry;
                    assert(entry.subscriber < o.transports@.len());
                    assert(entry.target_id != id) by {
                        assert(o.transports@[entry.subscriber as int].inner@.id
                            < o.next_resource_id);
                    }
                }
            }
        }
        PlainTransport { slot: slot_index }
    }
}

/// A mutable borrow of one arena slot.
pub(crate) fn transport_mut(v: &mut Vec<TransportSlot>, i: usize) -> (t: &mut TransportSlot)
    requires
        i < old(v).len(),
    ensures
        *t == old(v)@[i as int],
        final(v)@ == old(v)@.update(i as int, *final(t)),
{
    &mut v[i]
}

} // verus!

verus! {

/// The outcome of dispatching one inbound notification.
#[derive(Debug)]
pub enum NotificationOutcome {
    /// No consumer is registered for the target id: dropped with a
    /// diagnostic, not an error.
    NoSubscriber,
    /// The notification did not parse: reported and dropped, with no effect
    /// on any state and none on later notifications.
    Unparsable(NotificationParseError),
    /// Delivered to the transport in `slot`: its projection is updated and
    /// the subscribers in `fired` are to be invoked, in registration order.
    Delivered {
        /// The arena slot the notification reached.
        slot: usize,
        /// The interpreted notification.
        notification: Notification,
        /// Subscriber ids to invoke.
        fired: Vec<u64>,
    },
}

impl Session {
    /// Issues a request targeted at a transport's id, gated the way every
    /// mutating transport operation is: a closed transport fails with
    /// [`ClosedError`] and a closed channel with
    /// [`RequestError::ChannelClosed`]; otherwise the request is in the
    /// outbox and the fresh token comes back.
    fn issue_for_transport(&mut self, slot: usize, method: RequestMethod) -> (r: Result<
        u64,
        TransportError,
    >)
        requires
            old(self).wf(),
            slot < old(self).transports@.len(),
            old(self).channel@.next_token < u64::MAX,
        ensures
            final(self).wf(),
            final(self).transports@ == old(self).transports@,
            final(self).routers@ == old(self).routers@,
            final(self).parent_links@ == old(self).parent_links@,
            final(self).next_resource_id == old(self).next_resource_id,
            old(self).transports@[slot as int].inner@.closed ==> r == Err::<u64, TransportError>(
                TransportError::Closed(ClosedError),
            ) && final(self).channel@ == old(self).channel@,
            !old(self).transports@[slot as int].inner@.closed && old(self).channel@.closed ==> r
                == Err::<u64, TransportError>(TransportError::Request(RequestError::ChannelClosed))
                && final(self).channel@ == old(self).channel@,
            !old(self).transports@[slot as int].inner@.closed && !old(self).channel@.closed ==> {
                &&& r == Ok::<u64, TransportError>(old(self).channel@.next_token)
                &&& final(self).channel@ == request_step(
                    old(self).channel@,
                    old(self).transports@[slot as int].inner@.id,
                    method,
                ).0
            },
    {
        if self.transports[slot].inner.closed {
            return Err(TransportError::Closed(ClosedError));
        }
        let target_id = self.transports[slot].inner.id;
        match self.channel.request(target_id, method) {
            Ok(token) => Ok(token),
            Err(e) => Err(TransportError::Request(e)),
        }
    }

    /// Dispatches one inbound notification: looks up the single consumer for
    /// its target id, interprets it, updates that transport's projection and
    /// fires the matching slot. A notification for an unknown target, an
    /// unrecognized tag or a mismatched body is dropped, leaving every piece
    /// of state exactly as it was — dispatch of later notifications is
    /// unaffected.
    pub fn deliver_notification(&mut self, msg: NotificationMessage) -> (outcome:
        NotificationOutcome)
        requires
            old(self).wf(),
        ensures
            final(self).wf(),
            final(self).routers@ == old(self).routers@,
            final(self).parent_links@ == old(self).parent_links@,
            final(self).next_resource_id == old(self).next_resource_id,
            final(self).channel@ == old(self).channel@,
            !has_subscription(old(self).channel@.subscriptions, msg.target_id) <==> outcome
                is NoSubscriber,
            outcome is NoSubscriber ==> final(self).transports@ == old(self).transports@,
            outcome matches NotificationOutcome::Unparsable(e) ==> parse_notification(
                msg.event,
                msg.body,
            ) == Err::<Notification, NotificationParseError>(e) && final(self).transports@ == old(self).transports@,
            has_subscription(old(self).channel@.subscriptions, msg.target_id)
                && parse_notification(msg.event, msg.body) is Err ==> outcome is Unparsable,
            outcome matches NotificationOutcome::Delivered { slot, notification, fired } ==> {
                &&& is_subscribed(old(self).channel@.subscriptions, msg.target_id, slot)
                &&& slot < old(self).transports@.len()
                &&& old(self).transports@[slot as int].inner@.id == msg.target_id
                &&& parse_notification(msg.event, msg.body) == Ok::<
                    Notification,
                    NotificationParseError,
                >(notification)
                &&& final(self).transports@[slot as int].inner@ == dispatch_step(
                    old(self).transports@[slot as int].inner@,
                    msg.event,
                    msg.body,
                ).state
                &&& fired@ == dispatch_step(
                    old(self).transports@[slot as int].inner@,
                    msg.event,
                    msg.body,
                ).invoked
                &&& final(self).transports@[slot as int].strong == old(self).transports@[slot
                    as int].strong
                &&& forall|j: int|
                    0 <= j < old(self).transports@.len() && j != slot as int ==> final(self).transports@[j] == old(self).transports@[j]
            },
            has_subscription(old(self).channel@.subscriptions, msg.target_id)
                && parse_notification(msg.event, msg.body) is Ok ==> outcome is Delivered,
    {
        let routed = self.channel.route_notification(msg.target_id);
        match routed {
            None => NotificationOutcome::NoSubscriber,
            Some(subscriber) => {
                proof {
                    let k = choose|k: int|
                        0 <= k < self.channel@.subscriptions.len() && self.channel@.subscriptions[k]
                            == (SubscriptionEntry { target_id: msg.target_id, subscriber });
                    assert(self.channel@.subscriptions[k].subscriber < self.transports@.len());
                    assert(subscriber < self.transports@.len());
                }
                let slot = subscriber;
                assert(self.transports@[slot as int].inner@.id == msg.target_id);
                match Notification::parse(msg.event, msg.body) {
                    Err(e) => NotificationOutcome::Unparsable(e),
                    Ok(notification) => {
                        let ghost old_inner = self.transports@[slot as int].inner@;
                        let ghost old_strong = self.transports@[slot as int].strong;
                        let entry = transport_mut(&mut self.transports, slot);
                        let fired = entry.inner.handle_notification(notification);
                        proof {
                            assert(self.transports@[slot as int].inner@ == dispatch_step(
                                old_inner,
                                msg.event,
                                msg.body,
                            ).state);
                            assert(fired@ == dispatch_step(old_inner, msg.event, msg.body).invoked);
                            assert(self.transports@[slot as int].strong == old_strong);
                            assert(forall|j: int|
                                0 <= j < old(self).transports@.len() && j != slot as int
                                    ==> self.transports@[j] == old(self).transports@[j]);
                            assert forall|k: int|
                                0 <= k < self.channel@.subscriptions.len() implies {
                                let e = #[trigger] self.channel@.subscriptions[k];
                                &&& e.subscriber < self.transports@.len()
                                &&& self.transports@[e.subscriber as int].inner@.id == e.target_id
                            } by {
                                let e = self.channel@.subscriptions[k];
                                assert(old(self).transports@[e.subscriber as int].inner@.id
                                    == e.target_id);
                            }
                        }
                        NotificationOutcome::Delivered { slot, notification, fired }
                    },
                }
            },
        }
    }
}

impl PlainTransport {
    /// Whether the handle points at a live slot of the session. Every strong
    /// handle the session handed out stays valid until released.
    pub open spec fn valid(self, s: Session) -> bool {
        s.live(self.slot)
    }

    /// The transport's id.
    pub fn id(&self, session: &Session) -> (id: u64)
        requires
            session.wf(),
            self.valid(*session),
        ensures
            id == session.transports@[self.slot as int].inner@.id,
    {
        session.transports[self.slot].inner.id
    }

    /// The index of the owning router.
    pub fn router(&self, session: &Session) -> (r: usize)
        requires
            session.wf(),
            self.valid(*session),
        ensures
            r == session.transports@[self.slot as int].inner@.router_index,
    {
        session.transports[self.slot].inner.router_index
    }

    /// Whether the transport has closed. Reports only open or closed; the
    /// closing instant itself is not separately observable.
    pub fn closed(&self, session: &Session) -> (c: bool)
        requires
            session.wf(),
            self.valid(*session),
        ensures
            c == session.transports@[self.slot as int].inner@.closed,
    {
        session.transports[self.slot].inner.closed
    }

    /// The custom application data.
    pub fn app_data<'a>(&self, session: &'a Session) -> (d: &'a AppData)
        requires
            session.wf(),
            self.valid(*session),
        ensures
            *d == session.transports@[self.slot as int].inner@.app_data,
    {
        &session.transports[self.slot].inner.app_data
    }

    /// The transport tuple: a point-in-time copy of the cached projection.
    /// With RTCP-mux on it covers RTP and RTCP both.
    pub fn tuple(&self, session: &Session) -> (t: TransportTuple)
        requires
            session.wf(),
            self.valid(*session),
        ensures
            t == session.transports@[self.slot as int].inner@.data.tuple,
    {
        session.transports[self.slot].inner.data.tuple
    }

    /// The RTCP tuple, present only with RTCP-mux off.
    pub fn rtcp_tuple(&self, session: &Session) -> (t: Option<TransportTuple>)
        requires
            session.wf(),
            self.valid(*session),
        ensures
            t == session.transports@[self.slot as int].inner@.data.rtcp_tuple,
    {
        session.transports[self.slot].inner.data.rtcp_tuple
    }

    /// SCTP parameters, when SCTP was enabled at creation.
    pub fn sctp_parameters(&self, session: &Session) -> (p: Option<SctpParameters>)
        requires
            session.wf(),
            self.valid(*session),
        ensures
            p == session.transports@[self.slot as int].inner@.data.sctp_parameters,
    {
        session.transports[self.slot].inner.data.sctp_parameters
    }

    /// Current SCTP association state, when SCTP is enabled.
    pub fn sctp_state(&self, session: &Session) -> (s: Option<SctpState>)
        requires
            session.wf(),
            self.valid(*session),
        ensures
            s == session.transports@[self.slot as int].inner@.data.sctp_state,
    {
        session.transports[self.slot].inner.data.sctp_state
    }

    /// Local SRTP parameters: a point-in-time copy of the cached projection.
    pub fn srtp_parameters(&self, session: &Session) -> (p: Option<SrtpParameters>)
        requires
            session.wf(),
            self.valid(*session),
        ensures
            p == session.transports@[self.slot as int].inner@.data.srtp_parameters,
    {
        match &session.transports[self.slot].inner.data.srtp_parameters {
            None => None,
            Some(p) => Some(p.duplicate()),
        }
    }

    /// Hands the worker the remote parameters. The request goes out tagged
    /// with this transport's id and a fresh correlation token, which comes
    /// back here; the caller suspends on it and completes the operation with
    /// [`PlainTransport::connect_complete`] when the reply arrives. Fails
    /// with [`ClosedError`] on a closed transport and with
    /// [`RequestError::ChannelClosed`] on a closed channel; otherwise it
    /// succeeds.
    pub fn connect(&self, session: &mut Session, remote_parameters: PlainTransportRemoteParameters)
        -> (r: Result<u64, TransportError>)
        requires
            old(session).wf(),
            self.valid(*old(session)),
            old(session).channel@.next_token < u64::MAX,
        ensures
            final(session).wf(),
            final(session).transports@ == old(session).transports@,
            final(session).routers@ == old(session).routers@,
            final(session).parent_links@ == old(session).parent_links@,
            final(session).next_resource_id == old(session).next_resource_id,
            old(session).transports@[self.slot as int].inner@.closed ==> r == Err::<
                u64,
                TransportError,
            >(TransportError::Closed(ClosedError)) && final(session).channel@ == old(session).channel@,
            !old(session).transports@[self.slot as int].inner@.closed && old(session).channel@.closed ==> r == Err::<u64, TransportError>(
                TransportError::Request(RequestError::ChannelClosed),
            ) && final(session).channel@ == old(session).channel@,
            !old(session).transports@[self.slot as int].inner@.closed && !old(session).channel@.closed ==> {
                &&& r == Ok::<u64, TransportError>(old(session).channel@.next_token)
                &&& final(session).channel@ == request_step(
                    old(session).channel@,
                    old(session).transports@[self.slot as int].inner@.id,
                    RequestMethod::TransportConnectPlain {
                        ip: remote_parameters.ip,
                        port: remote_parameters.port,
                        rtcp_port: remote_parameters.rtcp_port,
                        srtp_parameters: remote_parameters.srtp_parameters,
                    },
                ).0
            },
    {
        session.issue_for_transport(
            self.slot,
            RequestMethod::TransportConnectPlain {
                ip: remote_parameters.ip,
                port: remote_parameters.port,
                rtcp_port: remote_parameters.rtcp_port,
                srtp_parameters: remote_parameters.srtp_parameters,
            },
        )
    }

    /// Completes a connect with the worker's reply: a success overwrites the
    /// cached tuple, and the RTCP tuple and SRTP parameters where the reply
    /// carries them; a rejection surfaces the worker's reason; a reply whose
    /// body is not a connect response is a malformed response. Nothing else
    /// changes either way.
    pub fn connect_complete(&self, session: &mut Session, reply: WorkerReply) -> (r: Result<
        (),
        TransportError,
    >)
        requires
            old(session).wf(),
            self.valid(*old(session)),
        ensures
            final(session).wf(),
            final(session).routers@ == old(session).routers@,
            final(session).parent_links@ == old(session).parent_links@,
            final(session).next_resource_id == old(session).next_resource_id,
            final(session).channel@ == old(session).channel@,
            forall|j: int|
                0 <= j < old(session).transports@.len() && j != self.slot as int ==> final(session).transports@[j] == old(session).transports@[j],
            final(session).transports@[self.slot as int].strong == old(session).transports@[self.slot
                as int].strong,
            reply matches WorkerReply::Rejected { reason } ==> r == Err::<(), TransportError>(
                TransportError::Request(RequestError::WorkerRejected { reason }),
            ) && final(session).transports@ == old(session).transports@,
            reply matches WorkerReply::Completed(ResponseBody::ConnectPlain {
                tuple,
                rtcp_tuple,
                srtp_parameters,
            }) ==> r == Ok::<(), TransportError>(()) && final(session).transports@[self.slot
                as int].inner@ == (InnerModel {
                data: connect_apply(
                    old(session).transports@[self.slot as int].inner@.data,
                    tuple,
                    rtcp_tuple,
                    srtp_parameters,
                ),
                ..old(session).transports@[self.slot as int].inner@
            }),
            reply == WorkerReply::Completed(ResponseBody::Accepted) ==> r == Err::<
                (),
                TransportError,
            >(TransportError::Request(RequestError::MalformedResponse)) && final(session).transports@ == old(session).transports@,
    {
        match reply {
            WorkerReply::Rejected { reason } => Err(
                TransportError::Request(RequestError::WorkerRejected { reason }),
            ),
            WorkerReply::Completed(
                ResponseBody::ConnectPlain { tuple, rtcp_tuple, srtp_parameters },
            ) => {
                let entry = transport_mut(&mut session.transports, self.slot);
                entry.inner.apply_connect_response(tuple, rtcp_tuple, srtp_parameters);
                proof {
                    assert forall|k: int|
                        0 <= k < session.channel@.subscriptions.len() implies {
                        let e = #[trigger] session.channel@.subscriptions[k];
                        &&& e.subscriber < session.transports@.len()
                        &&& session.transports@[e.subscriber as int].inner@.id == e.target_id
                    } by {
                        let e = session.channel@.subscriptions[k];
                        assert(old(session).transports@[e.subscriber as int].inner@.id
                            == e.target_id);
                    }
                }
                Ok(())
            },
            WorkerReply::Completed(ResponseBody::Accepted) => Err(
                TransportError::Request(RequestError::MalformedResponse),
            ),
        }
    }

    /// Caps the bitrate of media the remote endpoint sends over this
    /// transport. Gated and correlated like every request.
    pub fn set_max_incoming_bitrate(&self, session: &mut Session, bitrate: u32) -> (r: Result<
        u64,
        TransportError,
    >)
        requires
            old(session).wf(),
            self.valid(*old(session)),
            old(session).channel@.next_token < u64::MAX,
        ensures
            final(session).wf(),
            final(session).transports@ == old(session).transports@,
            final(session).routers@ == old(session).routers@,
            final(session).parent_links@ == old(session).parent_links@,
            final(session).next_resource_id == old(session).next_resource_id,
            old(session).transports@[self.slot as int].inner@.closed ==> r == Err::<
                u64,
                TransportError,
            >(TransportError::Closed(ClosedError)) && final(session).channel@ == old(session).channel@,
            !old(session).transports@[self.slot as int].inner@.closed && old(session).channel@.closed ==> r == Err::<u64, TransportError>(
                TransportError::Request(RequestError::ChannelClosed),
            ) && final(session).channel@ == old(session).channel@,
            !old(session).transports@[self.slot as int].inner@.closed && !old(session).channel@.closed ==> {
                &&& r == Ok::<u64, TransportError>(old(session).channel@.next_token)
                &&& final(session).channel@ == request_step(
                    old(session).channel@,
                    old(session).transports@[self.slot as int].inner@.id,
                    RequestMethod::TransportSetMaxIncomingBitrate { bitrate },
                ).0
            },
    {
        session.issue_for_transport(
            self.slot,
            RequestMethod::TransportSetMaxIncomingBitrate { bitrate },
        )
    }

    /// Selects which trace event kinds the worker reports for this
    /// transport. Gated and correlated like every request.
    pub fn enable_trace_event(&self, session: &mut Session, types: Vec<TraceEventType>) -> (r: Result<
        u64,
        TransportError,
    >)
        requires
            old(session).wf(),
            self.valid(*old(session)),
            old(session).channel@.next_token < u64::MAX,
        ensures
            final(session).wf(),
            final(session).transports@ == old(session).transports@,
            final(session).routers@ == old(session).routers@,
            final(session).parent_links@ == old(session).parent_links@,
            final(session).next_resource_id == old(session).next_resource_id,
            old(session).transports@[self.slot as int].inner@.closed ==> r == Err::<
                u64,
                TransportError,
            >(TransportError::Closed(ClosedError)) && final(session).channel@ == old(session).channel@,
            !old(session).transports@[self.slot as int].inner@.closed && old(session).channel@.closed ==> r == Err::<u64, TransportError>(
                TransportError::Request(RequestError::ChannelClosed),
            ) && final(session).channel@ == old(session).channel@,
            !old(session).transports@[self.slot as int].inner@.closed && !old(session).channel@.closed ==> {
                &&& r == Ok::<u64, TransportError>(old(session).channel@.next_token)
                &&& final(session).channel@ == request_step(
                    old(session).channel@,
                    old(session).transports@[self.slot as int].inner@.id,
                    RequestMethod::TransportEnableTraceEvent { types },
                ).0
            },
    {
        session.issue_for_transport(
            self.slot,
            RequestMethod::TransportEnableTraceEvent { types },
        )
    }

    /// Asks the worker for a dump of this transport. Gated and correlated
    /// like every request.
    pub fn dump(&self, session: &mut Session) -> (r: Result<
        u64,
        TransportError,
    >)
        requires
            old(session).wf(),
            self.valid(*old(session)),
            old(session).channel@.next_token < u64::MAX,
        ensures
            final(session).wf(),
            final(session).transports@ == old(session).transports@,
            final(session).routers@ == old(session).routers@,
            final(session).parent_links@ == old(session).parent_links@,
            final(session).next_resource_id == old(session).next_resource_id,
            old(session).transports@[self.slot as int].inner@.closed ==> r == Err::<
                u64,
                TransportError,
            >(TransportError::Closed(ClosedError)) && final(session).channel@ == old(session).channel@,
            !old(session).transports@[self.slot as int].inner@.closed && old(session).channel@.closed ==> r == Err::<u64, TransportError>(
                TransportError::Request(RequestError::ChannelClosed),
            ) && final(session).channel@ == old(session).channel@,
            !old(session).transports@[self.slot as int].inner@.closed && !old(session).channel@.closed ==> {
                &&& r == Ok::<u64, TransportError>(old(session).channel@.next_token)
                &&& final(session).channel@ == request_step(
                    old(session).channel@,
                    old(session).transports@[self.slot as int].inner@.id,
                    RequestMethod::TransportDump,
                ).0
            },
    {
        session.issue_for_transport(
            self.slot,
            RequestMethod::TransportDump,
        )
    }

    /// Asks the worker for this transport's statistics. Gated and
    /// correlated like every request.
    pub fn get_stats(&self, session: &mut Session) -> (r: Result<
        u64,
        TransportError,
    >)
        requires
            old(session).wf(),
            self.valid(*old(session)),
            old(session).channel@.next_token < u64::MAX,
        ensures
            final(session).wf(),
            final(session).transports@ == old(session).transports@,
            final(session).routers@ == old(session).routers@,
            final(session).parent_links@ == old(session).parent_links@,
            final(session).next_resource_id == old(session).next_resource_id,
            old(session).transports@[self.slot as int].inner@.closed ==> r == Err::<
                u64,
                TransportError,
            >(TransportError::Closed(ClosedError)) && final(session).channel@ == old(session).channel@,
            !old(session).transports@[self.slot as int].inner@.closed && old(session).channel@.closed ==> r == Err::<u64, TransportError>(
                TransportError::Request(RequestError::ChannelClosed),
            ) && final(session).channel@ == old(session).channel@,
            !old(session).transports@[self.slot as int].inner@.closed && !old(session).channel@.closed ==> {
                &&& r == Ok::<u64, TransportError>(old(session).channel@.next_token)
                &&& final(session).channel@ == request_step(
                    old(session).channel@,
                    old(session).transports@[self.slot as int].inner@.id,
                    RequestMethod::TransportGetStats,
                ).0
            },
    {
        session.issue_for_transport(
            self.slot,
            RequestMethod::TransportGetStats,
        )
    }
}

} // verus!

verus! {

/// Updating one transport's representation in place — keeping its id, owner
/// and well-formedness — preserves the session's well-formedness, whatever
/// happens to its strong count.
proof fn lemma_wf_after_inner_update(o: Session, s: Session, slot: int)
    requires
        o.wf(),
        0 <= slot < o.transports@.len(),
        s.channel == o.channel,
        s.routers == o.routers,
        s.parent_links == o.parent_links,
        s.next_resource_id == o.next_resource_id,
        s.transports@.len() == o.transports@.len(),
        forall|j: int|
            0 <= j < o.transports@.len() && j != slot ==> s.transports@[j] == o.transports@[j],
        s.transports@[slot].inner@.wf(),
        s.transports@[slot].inner@.id == o.transports@[slot].inner@.id,
        s.transports@[slot].inner@.router_index == o.transports@[slot].inner@.router_index,
    ensures
        s.wf(),
{
    assert forall|k: int| 0 <= k < s.channel@.subscriptions.len() implies {
        let entry = #[trigger] s.channel@.subscriptions[k];
        &&& entry.subscriber < s.transports@.len()
        &&& s.transports@[entry.subscriber as int].inner@.id == entry.target_id
    } by {
        let entry = s.channel@.subscriptions[k];
        assert(o.channel@.subscriptions[k] == entry);
        assert(o.transports@[entry.subscriber as int].inner@.id == entry.target_id);
    }
}

/// A channel operation that leaves the registry alone — issuing or resolving
/// a request, closing the channel — preserves the session's well-formedness.
proof fn lemma_wf_after_channel_step(o: Session, s: Session)
    requires
        o.wf(),
        s.transports == o.transports,
        s.routers == o.routers,
        s.parent_links == o.parent_links,
        s.next_resource_id == o.next_resource_id,
        s.channel.wf(),
        s.channel@.subscriptions == o.channel@.subscriptions,
    ensures
        s.wf(),
{
    assert forall|k: int| 0 <= k < s.channel@.subscriptions.len() implies {
        let entry = #[trigger] s.channel@.subscriptions[k];
        &&& entry.subscriber < s.transports@.len()
        &&& s.transports@[entry.subscriber as int].inner@.id == entry.target_id
    } by {
        let entry = o.channel@.subscriptions[k];
        assert(o.transports@[entry.subscriber as int].inner@.id == entry.target_id);
    }
}

impl PlainTransport {
    /// Registers a "remote RTP origin discovered" callback; returns its
    /// handler id.
    pub fn on_tuple(&self, session: &mut Session) -> (id: u64)
        requires
            old(session).wf(),
            self.valid(*old(session)),
            old(session).transports@[self.slot as int].inner@.handlers.tuple.next < u64::MAX,
        ensures
            final(session).wf(),
            id == old(session).transports@[self.slot as int].inner@.handlers.tuple.next,
            final(session).transports@[self.slot as int].inner@.handlers.tuple.handlers == old(session).transports@[self.slot as int].inner@.handlers.tuple.handlers.push(id),
            final(session).transports@[self.slot as int].inner@.closed == old(session).transports@[self.slot as int].inner@.closed,
            final(session).transports@[self.slot as int].strong == old(session).transports@[self.slot
                as int].strong,
            forall|j: int|
                0 <= j < old(session).transports@.len() && j != self.slot as int ==> final(session).transports@[j] == old(session).transports@[j],
            final(session).channel@ == old(session).channel@,
            final(session).routers@ == old(session).routers@,
            final(session).parent_links@ == old(session).parent_links@,
            final(session).next_resource_id == old(session).next_resource_id,
    {
        let entry = transport_mut(&mut session.transports, self.slot);
        let id = entry.inner.on_tuple();
        proof {
            lemma_wf_after_inner_update(*old(session), *session, self.slot as int);
        }
        id
    }

    /// Registers a "remote RTCP origin discovered" callback; returns its
    /// handler id.
    pub fn on_rtcp_tuple(&self, session: &mut Session) -> (id: u64)
        requires
            old(session).wf(),
            self.valid(*old(session)),
            old(session).transports@[self.slot as int].inner@.handlers.rtcp_tuple.next < u64::MAX,
        ensures
            final(session).wf(),
            id == old(session).transports@[self.slot as int].inner@.handlers.rtcp_tuple.next,
            final(session).transports@[self.slot as int].inner@.handlers.rtcp_tuple.handlers == old(session).transports@[self.slot as int].inner@.handlers.rtcp_tuple.handlers.push(id),
            forall|j: int|
                0 <= j < old(session).transports@.len() && j != self.slot as int ==> final(session).transports@[j] == old(session).transports@[j],
            final(session).channel@ == old(session).channel@,
            final(session).routers@ == old(session).routers@,
            final(session).parent_links@ == old(session).parent_links@,
            final(session).next_resource_id == old(session).next_resource_id,
    {
        let entry = transport_mut(&mut session.transports, self.slot);
        let id = entry.inner.on_rtcp_tuple();
        proof {
            lemma_wf_after_inner_update(*old(session), *session, self.slot as int);
        }
        id
    }

    /// Registers an "SCTP state changed" callback; returns its handler id.
    pub fn on_sctp_state_change(&self, session: &mut Session) -> (id: u64)
        requires
            old(session).wf(),
            self.valid(*old(session)),
            old(session).transports@[self.slot as int].inner@.handlers.sctp_state_change.next
                < u64::MAX,
        ensures
            final(session).wf(),
            id == old(session).transports@[self.slot as int].inner@.handlers.sctp_state_change.next,
            final(session).transports@[self.slot
                as int].inner@.handlers.sctp_state_change.handlers == old(session).transports@[self.slot
                as int].inner@.handlers.sctp_state_change.handlers.push(id),
            forall|j: int|
                0 <= j < old(session).transports@.len() && j != self.slot as int ==> final(session).transports@[j] == old(session).transports@[j],
            final(session).channel@ == old(session).channel@,
            final(session).routers@ == old(session).routers@,
            final(session).parent_links@ == old(session).parent_links@,
            final(session).next_resource_id == old(session).next_resource_id,
    {
        let entry = transport_mut(&mut session.transports, self.slot);
        let id = entry.inner.on_sctp_state_change();
        proof {
            lemma_wf_after_inner_update(*old(session), *session, self.slot as int);
        }
        id
    }

    /// Registers a trace callback; returns its handler id.
    pub fn on_trace(&self, session: &mut Session) -> (id: u64)
        requires
            old(session).wf(),
            self.valid(*old(session)),
            old(session).transports@[self.slot as int].inner@.handlers.trace.next < u64::MAX,
        ensures
            final(session).wf(),
            id == old(session).transports@[self.slot as int].inner@.handlers.trace.next,
            final(session).transports@[self.slot as int].inner@.handlers.trace.handlers == old(session).transports@[self.slot as int].inner@.handlers.trace.handlers.push(id),
            forall|j: int|
                0 <= j < old(session).transports@.len() && j != self.slot as int ==> final(session).transports@[j] == old(session).transports@[j],
            final(session).channel@ == old(session).channel@,
            final(session).routers@ == old(session).routers@,
            final(session).parent_links@ == old(session).parent_links@,
            final(session).next_resource_id == old(session).next_resource_id,
    {
        let entry = transport_mut(&mut session.transports, self.slot);
        let id = entry.inner.on_trace();
        proof {
            lemma_wf_after_inner_update(*old(session), *session, self.slot as int);
        }
        id
    }

    /// Registers an "owner closed" callback. When the owner has already
    /// closed and cascaded here, the callback is to be invoked immediately
    /// (the flag in the result), exactly once.
    pub fn on_router_close(&self, session: &mut Session) -> (r: (u64, bool))
        requires
            old(session).wf(),
            self.valid(*old(session)),
            old(session).transports@[self.slot as int].inner@.handlers.router_close.next
                < u64::MAX,
        ensures
            final(session).wf(),
            r.0 == old(session).transports@[self.slot as int].inner@.handlers.router_close.next,
            r.1 == old(session).transports@[self.slot as int].inner@.handlers.router_close.fired,
            final(session).transports@[self.slot as int].inner@.handlers.router_close == once_step(
                old(session).transports@[self.slot as int].inner@.handlers.router_close,
                OnceSlotOp::Add,
            ).0,
            forall|j: int|
                0 <= j < old(session).transports@.len() && j != self.slot as int ==> final(session).transports@[j] == old(session).transports@[j],
            final(session).channel@ == old(session).channel@,
            final(session).routers@ == old(session).routers@,
            final(session).parent_links@ == old(session).parent_links@,
            final(session).next_resource_id == old(session).next_resource_id,
    {
        let entry = transport_mut(&mut session.transports, self.slot);
        let r = entry.inner.on_router_close();
        proof {
            lemma_wf_after_inner_update(*old(session), *session, self.slot as int);
        }
        r
    }

    /// Registers a "closed" callback. When the transport is already closed,
    /// the callback is to be invoked immediately (the flag in the result),
    /// exactly once, with no duplicate from the original fire — late
    /// observers are never silently missed.
    pub fn on_close(&self, session: &mut Session) -> (r: (u64, bool))
        requires
            old(session).wf(),
            self.valid(*old(session)),
            old(session).transports@[self.slot as int].inner@.handlers.close.next < u64::MAX,
        ensures
            final(session).wf(),
            r.0 == old(session).transports@[self.slot as int].inner@.handlers.close.next,
            r.1 == old(session).transports@[self.slot as int].inner@.handlers.close.fired,
            old(session).transports@[self.slot as int].inner@.closed ==> r.1,
            final(session).transports@[self.slot as int].inner@.handlers.close == once_step(
                old(session).transports@[self.slot as int].inner@.handlers.close,
                OnceSlotOp::Add,
            ).0,
            final(session).transports@[self.slot as int].inner@.closed == old(session).transports@[self.slot as int].inner@.closed,
            forall|j: int|
                0 <= j < old(session).transports@.len() && j != self.slot as int ==> final(session).transports@[j] == old(session).transports@[j],
            final(session).channel@ == old(session).channel@,
            final(session).routers@ == old(session).routers@,
            final(session).parent_links@ == old(session).parent_links@,
            final(session).next_resource_id == old(session).next_resource_id,
    {
        let entry = transport_mut(&mut session.transports, self.slot);
        let r = entry.inner.on_close();
        proof {
            lemma_wf_after_inner_update(*old(session), *session, self.slot as int);
        }
        r
    }

    /// Closes the transport: idempotent and always safe. Exactly the call
    /// that wins the race sets the flag, fires the "closed" slot and sends
    /// one close request to the worker (best effort: a closed channel is
    /// tolerated, the transport counts as closed locally regardless); every
    /// later call does nothing at all.
    pub fn close(&self, session: &mut Session) -> (effects: CloseEffects)
        requires
            old(session).wf(),
            self.valid(*old(session)),
            old(session).channel@.next_token < u64::MAX,
        ensures
            final(session).wf(),
            final(session).transports@[self.slot as int].inner@ == close_step(
                old(session).transports@[self.slot as int].inner@,
                CloseTrigger::Explicit,
            ).state,
            final(session).transports@[self.slot as int].inner@.closed,
            effects.transitioned == !old(session).transports@[self.slot as int].inner@.closed,
            effects.fired@ == close_step(
                old(session).transports@[self.slot as int].inner@,
                CloseTrigger::Explicit,
            ).invoked,
            effects.send_close_request == effects.transitioned,
            final(session).transports@[self.slot as int].strong == old(session).transports@[self.slot
                as int].strong,
            forall|j: int|
                0 <= j < old(session).transports@.len() && j != self.slot as int ==> final(session).transports@[j] == old(session).transports@[j],
            // The one close request, sent exactly by the winning call on an
            // open channel, targeted at the owning router.
            final(session).channel@ == (if effects.send_close_request && !old(session).channel@.closed {
                request_step(
                    old(session).channel@,
                    old(session).routers@[old(session).transports@[self.slot
                        as int].inner@.router_index as int].id,
                    RequestMethod::TransportClose {
                        transport_id: old(session).transports@[self.slot as int].inner@.id,
                    },
                ).0
            } else {
                old(session).channel@
            }),
            final(session).routers@ == old(session).routers@,
            final(session).parent_links@ == old(session).parent_links@,
            final(session).next_resource_id == old(session).next_resource_id,
    {
        let transport_id = session.transports[self.slot].inner.id;
        let router_index = session.transports[self.slot].inner.router_index;
        let router_id = session.routers[router_index].id;
        let entry = transport_mut(&mut session.transports, self.slot);
        let effects = entry.inner.close(CloseTrigger::Explicit);
        proof {
            lemma_wf_after_inner_update(*old(session), *session, self.slot as int);
        }
        if effects.send_close_request {
            let ghost mid = *session;
            let _best_effort = session.channel.request(
                router_id,
                RequestMethod::TransportClose { transport_id },
            );
            proof {
                lemma_wf_after_channel_step(mid, *session);
            }
        }
        effects
    }

    /// Duplicates the strong handle: the representation is shared, its
    /// strong count rises by one, and nothing worker-side is touched.
    pub fn duplicate(&self, session: &mut Session) -> (h: PlainTransport)
        requires
            old(session).wf(),
            self.valid(*old(session)),
            old(session).transports@[self.slot as int].strong < u64::MAX,
        ensures
            final(session).wf(),
            h.slot == self.slot,
            final(session).transports@[self.slot as int].strong == old(session).transports@[self.slot
                as int].strong + 1,
            final(session).transports@[self.slot as int].inner == old(session).transports@[self.slot
                as int].inner,
            forall|j: int|
                0 <= j < old(session).transports@.len() && j != self.slot as int ==> final(session).transports@[j] == old(session).transports@[j],
            final(session).channel@ == old(session).channel@,
            final(session).routers@ == old(session).routers@,
            final(session).parent_links@ == old(session).parent_links@,
            final(session).next_resource_id == old(session).next_resource_id,
    {
        let entry = transport_mut(&mut session.transports, self.slot);
        entry.strong = entry.strong + 1;
        proof {
            lemma_wf_after_inner_update(*old(session), *session, self.slot as int);
        }
        PlainTransport { slot: self.slot }
    }

    /// Downgrades to a weak handle on the same slot: same state observed, no
    /// influence on its lifetime.
    pub fn downgrade(&self) -> (w: WeakPlainTransport)
        ensures
            w.slot == self.slot,
    {
        WeakPlainTransport { slot: self.slot }
    }
}

} // verus!

verus! {

/// What the cascade of one router close did at one dependent transport.
#[derive(Debug)]
pub struct RouterCloseEvent {
    /// The dependent transport's arena slot.
    pub transport_slot: usize,
    /// Subscriber ids of its "router closed" slot to invoke.
    pub router_close_fired: Vec<u64>,
    /// What its close sequence did; never owes the worker a request.
    pub close_effects: CloseEffects,
}

/// Whether some parent link ties a transport slot to a router.
pub open spec fn linked_to(links: Seq<ParentLink>, router_index: usize, slot: int) -> bool {
    exists|k: int|
        0 <= k < links.len() && links[k].router_index == router_index
            && links[k].transport_slot == slot
}

impl Session {
    /// Closes an owning router. Every transport holding a parent link to it
    /// runs the same close sequence as an explicit close, except that no
    /// close request is sent to the worker for any of them — the worker
    /// cascades the teardown itself: the channel is untouched. Closing a
    /// router twice cascades nothing twice.
    pub fn close_router(&mut self, router_index: usize) -> (events: Vec<RouterCloseEvent>)
        requires
            old(self).wf(),
            router_index < old(self).routers@.len(),
        ensures
            final(self).wf(),
            final(self).routers@ == old(self).routers@.update(
                router_index as int,
                RouterEntry { id: old(self).routers@[router_index as int].id, closed: true },
            ),
            final(self).channel@ == old(self).channel@,
            final(self).parent_links@ == old(self).parent_links@,
            final(self).next_resource_id == old(self).next_resource_id,
            final(self).transports@.len() == old(self).transports@.len(),
            old(self).routers@[router_index as int].closed ==> final(self).transports@ == old(self).transports@ && events@.len() == 0,
            !old(self).routers@[router_index as int].closed ==> {
                &&& forall|j: int|
                    0 <= j < old(self).transports@.len() && linked_to(
                        old(self).parent_links@,
                        router_index,
                        j,
                    ) ==> (#[trigger] final(self).transports@[j]).strong == old(self).transports@[j].strong && final(self).transports@[j].inner@ == cascade_step(
                        old(self).transports@[j].inner@,
                    ).0
                &&& forall|j: int|
                    0 <= j < old(self).transports@.len() && !linked_to(
                        old(self).parent_links@,
                        router_index,
                        j,
                    ) ==> (#[trigger] final(self).transports@[j]) == old(self).transports@[j]
                &&& forall|e: int|
                    0 <= e < events@.len() ==> {
                        let ev = #[trigger] events@[e];
                        &&& linked_to(
                            old(self).parent_links@,
                            router_index,
                            ev.transport_slot as int,
                        )
                        &&& ev.router_close_fired@ == cascade_step(
                            old(self).transports@[ev.transport_slot as int].inner@,
                        ).1
                        &&& ev.close_effects.fired@ == cascade_step(
                            old(self).transports@[ev.transport_slot as int].inner@,
                        ).2.invoked
                        &&& !ev.close_effects.send_close_request
                        &&& final(self).transports@[ev.transport_slot as int].inner@.closed
                    }
            },
    {
        if self.routers[router_index].closed {
            let entry = self.routers[router_index];
            self.routers.set(router_index, RouterEntry { id: entry.id, closed: true });
            proof {
                assert(final(self).routers@ =~= old(self).routers@.update(
                    router_index as int,
                    RouterEntry { id: old(self).routers@[router_index as int].id, closed: true },
                ));
                lemma_wf_after_router_update(*old(self), *self);
            }
            return Vec::new();
        }
        let entry = self.routers[router_index];
        self.routers.set(router_index, RouterEntry { id: entry.id, closed: true });
        proof {
            lemma_wf_after_router_update(*old(self), *self);
        }
        let ghost routers_set = *self;
        let mut events: Vec<RouterCloseEvent> = Vec::new();
        let mut k: usize = 0;
        #[verifier::loop_isolation(false)]
        while k < self.parent_links.len()
            invariant
                0 <= k <= self.parent_links@.len(),
                self.wf(),
                self.channel == old(self).channel,
                self.routers == routers_set.routers,
                self.parent_links == old(self).parent_links,
                self.next_resource_id == old(self).next_resource_id,
                self.transports@.len() == old(self).transports@.len(),
                forall|j: int|
                    (0 <= j < old(self).transports@.len() && (exists|l: int|
                        0 <= l < k && (#[trigger] old(self).parent_links@[l]).router_index
                            == router_index && old(self).parent_links@[l].transport_slot == j)) ==> (
                    #[trigger] self.transports@[j]).strong == old(self).transports@[j].strong
                        && self.transports@[j].inner@ == cascade_step(
                        old(self).transports@[j].inner@,
                    ).0,
                forall|j: int|
                    0 <= j < old(self).transports@.len() && !(exists|l: int|
                        0 <= l < k && (#[trigger] old(self).parent_links@[l]).router_index
                            == router_index && old(self).parent_links@[l].transport_slot == j) ==> (
                    #[trigger] self.transports@[j]) == old(self).transports@[j],
                forall|e: int|
                    0 <= e < events@.len() ==> {
                        let ev = #[trigger] events@[e];
                        &&& linked_to(
                            old(self).parent_links@,
                            router_index,
                            ev.transport_slot as int,
                        )
                        &&& ev.router_close_fired@ == cascade_step(
                            old(self).transports@[ev.transport_slot as int].inner@,
                        ).1
                        &&& ev.close_effects.fired@ == cascade_step(
                            old(self).transports@[ev.transport_slot as int].inner@,
                        ).2.invoked
                        &&& !ev.close_effects.send_close_request
                        &&& self.transports@[ev.transport_slot as int].inner@.closed
                    },
            decreases self.parent_links@.len() - k,
        {
            let link = self.parent_links[k];
            if link.router_index == router_index {
                proof {
                    assert(!(exists|l: int|
                        0 <= l < k && (#[trigger] old(self).parent_links@[l]).router_index
                            == router_index && old(self).parent_links@[l].transport_slot
                            == link.transport_slot as int)) by {
                        if exists|l: int|
                            0 <= l < k && (#[trigger] old(self).parent_links@[l]).router_index
                                == router_index && old(self).parent_links@[l].transport_slot
                                == link.transport_slot as int {
                            let l = choose|l: int|
                                0 <= l < k && (#[trigger] old(self).parent_links@[l]).router_index
                                    == router_index && old(self).parent_links@[l].transport_slot
                                    == link.transport_slot as int;
                            assert(old(self).parent_links@[l].transport_slot != old(self).parent_links@[k as int].transport_slot);
                        }
                    }
                    assert(self.transports@[link.transport_slot as int] == old(self).transports@[link.transport_slot as int]);
                }
                let ghost before_step = *self;
                let entry = transport_mut(&mut self.transports, link.transport_slot);
                let (router_close_fired, close_effects) = entry.inner.cascade_close();
                proof {
                    lemma_wf_after_inner_update(before_step, *self, link.transport_slot as int);
                }
                events.push(
                    RouterCloseEvent {
                        transport_slot: link.transport_slot,
                        router_close_fired,
                        close_effects,
                    },
                );
                proof {
                    assert forall|j: int|
                        0 <= j < old(self).transports@.len() && (exists|l: int|
                            0 <= l < k + 1 && (#[trigger] old(self).parent_links@[l]).router_index
                                == router_index && old(self).parent_links@[l].transport_slot
                                == j) implies (#[trigger] self.transports@[j]).strong == old(self).transports@[j].strong && self.transports@[j].inner@ == cascade_step(
                        old(self).transports@[j].inner@,
                    ).0 by {
                        if j != link.transport_slot as int {
                            let l = choose|l: int|
                                0 <= l < k + 1 && (#[trigger] old(self).parent_links@[l]).router_index == router_index && old(self).parent_links@[l].transport_slot == j;
                            assert(l < k);
                            assert(before_step.transports@[j].inner@ == cascade_step(
                                old(self).transports@[j].inner@,
                            ).0);
                        }
                    }
                }
            } else {
                proof {
                    assert forall|j: int|
                        0 <= j < old(self).transports@.len() && (exists|l: int|
                            0 <= l < k + 1 && (#[trigger] old(self).parent_links@[l]).router_index
                                == router_index && old(self).parent_links@[l].transport_slot
                                == j) implies (#[trigger] self.transports@[j]).strong == old(self).transports@[j].strong && self.transports@[j].inner@ == cascade_step(
                        old(self).transports@[j].inner@,
                    ).0 by {
                        let l = choose|l: int|
                            0 <= l < k + 1 && (#[trigger] old(self).parent_links@[l]).router_index
                                == router_index && old(self).parent_links@[l].transport_slot == j;
                        assert(l < k);
                    }
                }
            }
            k = k + 1;
        }
        proof {
            assert forall|j: int|
                0 <= j < old(self).transports@.len() && linked_to(
                    old(self).parent_links@,
                    router_index,
                    j,
                ) implies (#[trigger] final(self).transports@[j]).strong == old(self).transports@[j].strong && final(self).transports@[j].inner@ == cascade_step(
                old(self).transports@[j].inner@,
            ).0 by {
                let l = choose|l: int|
                    0 <= l < old(self).parent_links@.len() && old(self).parent_links@[l].router_index == router_index && old(self).parent_links@[l].transport_slot == j;
            }
            assert forall|j: int|
                0 <= j < old(self).transports@.len() && !linked_to(
                    old(self).parent_links@,
                    router_index,
                    j,
                ) implies (#[trigger] final(self).transports@[j]) == old(self).transports@[j] by {
                if exists|l: int|
                    0 <= l < self.parent_links@.len() && (#[trigger] old(self).parent_links@[l]).router_index == router_index && old(self).parent_links@[l].transport_slot == j as int {
                    let l = choose|l: int|
                        0 <= l < self.parent_links@.len() && (#[trigger] old(self).parent_links@[l]).router_index == router_index && old(self).parent_links@[l].transport_slot == j;
                    assert(linked_to(old(self).parent_links@, router_index, j));
                }
            }
            assert(final(self).routers@ =~= old(self).routers@.update(
                router_index as int,
                RouterEntry { id: old(self).routers@[router_index as int].id, closed: true },
            ));
        }
        events
    }
}

/// Setting a router's closed flag — ids and everything else untouched —
/// preserves the session's well-formedness.
proof fn lemma_wf_after_router_update(o: Session, s: Session)
    requires
        o.wf(),
        s.channel == o.channel,
        s.transports == o.transports,
        s.parent_links == o.parent_links,
        s.next_resource_id == o.next_resource_id,
        s.routers@.len() == o.routers@.len(),
    ensures
        s.wf(),
{
    assert forall|k: int| 0 <= k < s.channel@.subscriptions.len() implies {
        let entry = #[trigger] s.channel@.subscriptions[k];
        &&& entry.subscriber < s.transports@.len()
        &&& s.transports@[entry.subscriber as int].inner@.id == entry.target_id
    } by {
        let entry = o.channel@.subscriptions[k];
        assert(o.transports@[entry.subscriber as int].inner@.id == entry.target_id);
    }
}

} // verus!

verus! {

/// Shrinking the registry (releasing a subscription) preserves the session's
/// well-formedness.
proof fn lemma_wf_after_subscription_shrink(o: Session, s: Session)
    requires
        o.wf(),
        s.transports == o.transports,
        s.routers == o.routers,
        s.parent_links == o.parent_links,
        s.next_resource_id == o.next_resource_id,
        s.channel.wf(),
        forall|k: int|
            0 <= k < s.channel@.subscriptions.len() ==> o.channel@.subscriptions.contains(
                #[trigger] s.channel@.subscriptions[k],
            ),
    ensures
        s.wf(),
{
    assert forall|k: int| 0 <= k < s.channel@.subscriptions.len() implies {
        let entry = #[trigger] s.channel@.subscriptions[k];
        &&& entry.subscriber < s.transports@.len()
        &&& s.transports@[entry.subscriber as int].inner@.id == entry.target_id
    } by {
        let entry = s.channel@.subscriptions[k];
        let k0 = choose|k0: int|
            0 <= k0 < o.channel@.subscriptions.len() && o.channel@.subscriptions[k0] == entry;
        assert(o.transports@[entry.subscriber as int].inner@.id == entry.target_id);
    }
}

impl Session {
    /// Drops the cascade registration of a transport slot, if any.
    #[verifier::loop_isolation(false)]
    fn remove_parent_link(&mut self, slot: usize)
        requires
            old(self).wf(),
        ensures
            final(self).wf(),
            forall|k: int|
                0 <= k < final(self).parent_links@.len() ==> (#[trigger] final(self).parent_links@[k]).transport_slot != slot,
            forall|k: int|
                0 <= k < final(self).parent_links@.len() ==> old(self).parent_links@.contains(
                    #[trigger] final(self).parent_links@[k],
                ),
            final(self).channel@ == old(self).channel@,
            final(self).routers@ == old(self).routers@,
            final(self).transports@ == old(self).transports@,
            final(self).next_resource_id == old(self).next_resource_id,
    {
        let ghost before = self.parent_links@;
        let mut i: usize = 0;
        while i < self.parent_links.len()
            invariant
                *self == *old(self),
                0 <= i <= self.parent_links@.len(),
                forall|k: int| 0 <= k < i ==> self.parent_links@[k].transport_slot != slot,
            decreases self.parent_links@.len() - i,
        {
            if self.parent_links[i].transport_slot == slot {
                self.parent_links.remove(i);
                proof {
                    assert(self.parent_links@ == before.remove(i as int));
                    assert forall|k: int|
                        0 <= k < self.parent_links@.len() implies (#[trigger] self.parent_links@[k]).transport_slot
                        != slot && before.contains(self.parent_links@[k]) by {
                        if k < i {
                            assert(self.parent_links@[k] == before[k]);
                        } else {
                            assert(self.parent_links@[k] == before[k + 1]);
                            assert(before[k + 1].transport_slot != before[i as int].transport_slot);
                        }
                    }
                    assert forall|a: int, b: int|
                        0 <= a < b < self.parent_links@.len() implies (
                    #[trigger] self.parent_links@[a]).transport_slot != (
                    #[trigger] self.parent_links@[b]).transport_slot by {
                        if b < i {
                            assert(before[a].transport_slot != before[b].transport_slot);
                        } else if a < i {
                            assert(before[a].transport_slot != before[b + 1].transport_slot);
                        } else {
                            assert(before[a + 1].transport_slot != before[b + 1].transport_slot);
                        }
                    }
                }
                return ;
            }
            i = i + 1;
        }
    }
}

impl PlainTransport {
    /// Releases this strong handle. The share count drops by one; the call
    /// that releases the last one tears the representation down: it runs the
    /// close sequence (sending the one close request when nothing had closed
    /// the transport yet), deregisters the notification consumer, and drops
    /// the cascade registration. The transport may long be Closed by then —
    /// destruction is driven by ownership, not by closing.
    pub fn release(self, session: &mut Session) -> (r: Option<CloseEffects>)
        requires
            old(session).wf(),
            self.valid(*old(session)),
            old(session).channel@.next_token < u64::MAX,
        ensures
            final(session).wf(),
            final(session).transports@.len() == old(session).transports@.len(),
            final(session).transports@[self.slot as int].strong == old(session).transports@[self.slot
                as int].strong - 1,
            forall|j: int|
                0 <= j < old(session).transports@.len() && j != self.slot as int ==> final(session).transports@[j] == old(session).transports@[j],
            final(session).routers@ == old(session).routers@,
            final(session).next_resource_id == old(session).next_resource_id,
            r is Some <==> old(session).transports@[self.slot as int].strong == 1,
            old(session).transports@[self.slot as int].strong > 1 ==> final(session).transports@[self.slot as int].inner == old(session).transports@[self.slot
                as int].inner && final(session).channel@ == old(session).channel@ && final(session).parent_links@ == old(session).parent_links@,
            old(session).transports@[self.slot as int].strong == 1 ==> {
                let old_inner = old(session).transports@[self.slot as int].inner@;
                let step = close_step(old_inner, CloseTrigger::LastHandleDropped);
                let requested = (if step.transitioned && !old(session).channel@.closed {
                    request_step(
                        old(session).channel@,
                        old(session).routers@[old_inner.router_index as int].id,
                        RequestMethod::TransportClose { transport_id: old_inner.id },
                    ).0
                } else {
                    old(session).channel@
                });
                &&& final(session).transports@[self.slot as int].inner@ == step.state
                &&& final(session).transports@[self.slot as int].inner@.closed
                &&& r matches Some(effects) && effects.transitioned == step.transitioned
                    && effects.fired@ == step.invoked && effects.send_close_request
                    == step.send_request
                &&& final(session).channel@.pending == requested.pending
                &&& final(session).channel@.outbox == requested.outbox
                &&& final(session).channel@.next_token == requested.next_token
                &&& final(session).channel@.closed == requested.closed
                &&& !has_subscription(final(session).channel@.subscriptions, old_inner.id)
                &&& forall|k: int|
                    0 <= k < final(session).parent_links@.len() ==> (#[trigger] final(session).parent_links@[k]).transport_slot != self.slot
            },
    {
        let strong = session.transports[self.slot].strong;
        if strong > 1 {
            let entry = transport_mut(&mut session.transports, self.slot);
            entry.strong = entry.strong - 1;
            proof {
                lemma_wf_after_inner_update(*old(session), *session, self.slot as int);
            }
            return None;
        }
        let transport_id = session.transports[self.slot].inner.id;
        let router_index = session.transports[self.slot].inner.router_index;
        let router_id = session.routers[router_index].id;
        let entry = transport_mut(&mut session.transports, self.slot);
        entry.strong = entry.strong - 1;
        let effects = entry.inner.close(CloseTrigger::LastHandleDropped);
        proof {
            lemma_wf_after_inner_update(*old(session), *session, self.slot as int);
        }
        if effects.send_close_request {
            let ghost mid = *session;
            let _best_effort = session.channel.request(
                router_id,
                RequestMethod::TransportClose { transport_id },
            );
            proof {
                lemma_wf_after_channel_step(mid, *session);
            }
        }
        let ghost mid2 = *session;
        session.channel.release_subscription(transport_id);
        proof {
            lemma_wf_after_subscription_shrink(mid2, *session);
        }
        session.remove_parent_link(self.slot);
        Some(effects)
    }
}

impl WeakPlainTransport {
    /// Attempts to upgrade to a strong handle. Succeeds — raising the share
    /// count — exactly while at least one strong handle still exists;
    /// afterwards it reports unavailable, never a dangling reference, and
    /// never creates anything worker-side.
    pub fn upgrade(&self, session: &mut Session) -> (r: Option<PlainTransport>)
        requires
            old(session).wf(),
            self.slot < old(session).transports@.len(),
            old(session).transports@[self.slot as int].strong < u64::MAX,
        ensures
            final(session).wf(),
            r is Some <==> old(session).transports@[self.slot as int].strong > 0,
            r matches Some(h) ==> {
                &&& h.slot == self.slot
                &&& final(session).transports@[self.slot as int].strong == old(session).transports@[self.slot as int].strong + 1
                &&& final(session).transports@[self.slot as int].inner == old(session).transports@[self.slot as int].inner
                &&& forall|j: int|
                    0 <= j < old(session).transports@.len() && j != self.slot as int ==> final(session).transports@[j] == old(session).transports@[j]
                &&& final(session).channel@ == old(session).channel@
                &&& final(session).routers@ == old(session).routers@
                &&& final(session).parent_links@ == old(session).parent_links@
                &&& final(session).next_resource_id == old(session).next_resource_id
            },
            r is None ==> *final(session) == *old(session),
    {
        if session.transports[self.slot].strong == 0 {
            return None;
        }
        let entry = transport_mut(&mut session.transports, self.slot);
        entry.strong = entry.strong + 1;
        proof {
            lemma_wf_after_inner_update(*old(session), *session, self.slot as int);
        }
        Some(PlainTransport { slot: self.slot })
    }
}

/// A handle-count event of one transport slot: a strong handle was
/// duplicated (or a weak one upgraded), or a strong handle was released.
#[derive(Clone, Copy, PartialEq, Eq, Structural, Debug)]
pub enum HandleOp {
    /// One more strong handle.
    Duplicate,
    /// One strong handle gone.
    Release,
}

/// The strong-handle count after creation (count one) and a run of events.
pub open spec fn strong_after(ops: Seq<HandleOp>) -> int
    decreases ops.len(),
{
    if ops.len() == 0 {
        1
    } else {
        strong_after(ops.drop_last()) + (if ops.last() == HandleOp::Duplicate {
            1int
        } else {
            -1int
        })
    }
}

/// Upgrading a weak handle succeeds exactly while the strong count is
/// positive (the contract of `upgrade`); this lemma pins the other half
/// down: in any run where every event happens through a then-existing strong
/// handle, the count stays non-negative and reaches zero only at the very
/// end — after the last strong handle is released nothing can revive the
/// slot, so upgrades are unavailable from then on, and never before.
pub proof fn lemma_unavailable_only_after_last_release(ops: Seq<HandleOp>, k: int)
    requires
        forall|j: int| 0 <= j < ops.len() ==> strong_after(#[trigger] ops.take(j)) > 0,
        0 <= k <= ops.len(),
    ensures
        strong_after(ops.take(k)) >= 0,
        strong_after(ops.take(k)) == 0 ==> k == ops.len(),
{
    if k > 0 {
        assert(strong_after(ops.take(k - 1)) > 0) by {
            assert(ops.take(k).drop_last() =~= ops.take(k - 1));
        }
        assert(ops.take(k).drop_last() =~= ops.take(k - 1));
        assert(strong_after(ops.take(k)) >= strong_after(ops.take(k - 1)) - 1);
    }
    if strong_after(ops.take(k)) == 0 && k < ops.len() {
        assert(strong_after(ops.take(k)) > 0);
    }
}

} // verus!
