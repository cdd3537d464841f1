//! The plain transport resource: its options, its locally cached projection of
//! worker-reported state, its event slots, and its close state machine.
//!
//! The projection is mutated only by notification delivery and by successful
//! request completion; the closed flag transitions false to true exactly once,
//! whichever close trigger wins the race, and the "closed" slot fires exactly
//! once with it.

use vstd::prelude::*;
use crate::channel::SubscriptionHandle;
use crate::data::{
    AppData, IpAddress, ListenInfo, NumSctpStreams, SctpParameters, SctpState, SrtpCryptoSuite,
    TraceEventType,
    SrtpParameters, TransportTraceEventData, TransportTuple,
};
use crate::errors::NotificationParseError;
use crate::event_slot::{
    occurrences, once_step, MultiSlot, MultiSlotModel, OnceSlot, OnceSlotModel, OnceSlotOp,
};
use crate::messages::{
    NotificationBody, EVENT_PLAIN_TRANSPORT_RTCP_TUPLE, EVENT_PLAIN_TRANSPORT_TUPLE,
    EVENT_TRANSPORT_CLOSED, EVENT_TRANSPORT_SCTP_STATE_CHANGE, EVENT_TRANSPORT_TRACE,
};

verus! {

/// Options a plain transport is created with.
#[derive(Clone, PartialEq, Eq, Debug)]
pub struct PlainTransportOptions {
    /// Listening info.
    pub listen_info: ListenInfo,
    /// Optional listening info for RTCP.
    pub rtcp_listen_info: Option<ListenInfo>,
    /// Use RTCP-mux (RTP and RTCP in the same port). Default true.
    pub rtcp_mux: bool,
    /// Whether the remote origin should be auto-detected from the first
    /// packet received. Default false.
    pub comedia: bool,
    /// Create an SCTP association. Default false.
    pub enable_sctp: bool,
    /// SCTP streams number.
    pub num_sctp_streams: NumSctpStreams,
    /// Maximum allowed size for SCTP messages. Default 262144.
    pub max_sctp_message_size: u32,
    /// Maximum SCTP send buffer size. Default 262144.
    pub sctp_send_buffer_size: u32,
    /// Enable SRTP. Default false.
    pub enable_srtp: bool,
    /// The SRTP crypto suite to use when SRTP is enabled.
    pub srtp_crypto_suite: SrtpCryptoSuite,
    /// Custom application data.
    pub app_data: AppData,
}

impl PlainTransportOptions {
    /// Plain transport options with the given listening info and the
    /// documented defaults for everything else.
    pub fn new(listen_info: ListenInfo) -> (options: Self)
        ensures
            options.listen_info == listen_info,
            options.rtcp_listen_info is None,
            options.rtcp_mux == true,
            options.comedia == false,
            options.enable_sctp == false,
            options.num_sctp_streams == (NumSctpStreams { os: 1024, mis: 1024 }),
            options.max_sctp_message_size == 262144,
            options.sctp_send_buffer_size == 262144,
            options.enable_srtp == false,
            options.srtp_crypto_suite == SrtpCryptoSuite::AesCm128HmacSha180,
            options.app_data.0@ == Seq::<u8>::empty(),
    {
        Self {
            listen_info,
            rtcp_listen_info: None,
            rtcp_mux: true,
            comedia: false,
            enable_sctp: false,
            num_sctp_streams: NumSctpStreams::default(),
            max_sctp_message_size: 262_144,
            sctp_send_buffer_size: 262_144,
            enable_srtp: false,
            srtp_crypto_suite: SrtpCryptoSuite::default(),
            app_data: AppData::default(),
        }
    }
}

/// Remote parameters handed to `connect`.
#[derive(Clone, PartialEq, Eq, Debug)]
pub struct PlainTransportRemoteParameters {
    /// Remote IP. Required unless `comedia` is set.
    pub ip: Option<IpAddress>,
    /// Remote port. Required unless `comedia` is set.
    pub port: Option<u16>,
    /// Remote RTCP port. Required unless `comedia` is set or RTCP-mux is on.
    pub rtcp_port: Option<u16>,
    /// SRTP parameters of the remote endpoint. Required when SRTP is enabled.
    pub srtp_parameters: Option<SrtpParameters>,
}

/// The locally cached projection of worker-reported transport state.
#[derive(Clone, PartialEq, Eq, Debug)]
pub struct PlainTransportData {
    /// The transport tuple; remote side filled in by `connect` or discovery.
    pub tuple: TransportTuple,
    /// The RTCP tuple when RTCP-mux is off.
    pub rtcp_tuple: Option<TransportTuple>,
    /// SCTP parameters the transport was created with.
    pub sctp_parameters: Option<SctpParameters>,
    /// Current SCTP association state.
    pub sctp_state: Option<SctpState>,
    /// Local SRTP parameters.
    pub srtp_parameters: Option<SrtpParameters>,
    /// Whether RTCP-mux is on.
    pub rtcp_mux: bool,
    /// Whether remote-origin auto-detection is on.
    pub comedia: bool,
}

/// Abstract state of the event slots of one transport.
#[verifier::ext_equal]
pub struct HandlersModel {
    /// Fires when the remote RTP origin is discovered.
    pub tuple: MultiSlotModel,
    /// Fires when the remote RTCP origin is discovered.
    pub rtcp_tuple: MultiSlotModel,
    /// Fires when the SCTP association state changes.
    pub sctp_state_change: MultiSlotModel,
    /// Fires on a trace notification.
    pub trace: MultiSlotModel,
    /// Fires once when the owning resource closes.
    pub router_close: OnceSlotModel,
    /// Fires once when the transport closes; replays to late subscribers.
    pub close: OnceSlotModel,
}

impl HandlersModel {
    /// All slots are well formed.
    pub open spec fn wf(self) -> bool {
        &&& self.tuple.wf()
        &&& self.rtcp_tuple.wf()
        &&& self.sctp_state_change.wf()
        &&& self.trace.wf()
        &&& self.router_close.wf()
        &&& self.close.wf()
    }
}

/// The event slots of one transport.
#[derive(Debug)]
pub struct Handlers {
    /// Fires when the remote RTP origin is discovered.
    pub tuple: MultiSlot,
    /// Fires when the remote RTCP origin is discovered.
    pub rtcp_tuple: MultiSlot,
    /// Fires when the SCTP association state changes.
    pub sctp_state_change: MultiSlot,
    /// Fires on a trace notification.
    pub trace: MultiSlot,
    /// Fires once when the owning resource closes.
    pub router_close: OnceSlot,
    /// Fires once when the transport closes; replays to late subscribers.
    pub close: OnceSlot,
}

impl View for Handlers {
    type V = HandlersModel;

    open spec fn view(&self) -> HandlersModel {
        HandlersModel {
            tuple: self.tuple@,
            rtcp_tuple: self.rtcp_tuple@,
            sctp_state_change: self.sctp_state_change@,
            trace: self.trace@,
            router_close: self.router_close@,
            close: self.close@,
        }
    }
}

impl Handlers {
    /// All slots empty and unfired.
    pub fn new() -> (h: Self)
        ensures
            h@.wf(),
            h@.tuple.handlers == Seq::<u64>::empty(),
            h@.rtcp_tuple.handlers == Seq::<u64>::empty(),
            h@.sctp_state_change.handlers == Seq::<u64>::empty(),
            h@.trace.handlers == Seq::<u64>::empty(),
            h@.router_close.handlers == Seq::<u64>::empty(),
            !h@.router_close.fired,
            h@.close.handlers == Seq::<u64>::empty(),
            !h@.close.fired,
            h@.close.next == 0,
    {
        Handlers {
            tuple: MultiSlot::new(),
            rtcp_tuple: MultiSlot::new(),
            sctp_state_change: MultiSlot::new(),
            trace: MultiSlot::new(),
            router_close: OnceSlot::new(),
            close: OnceSlot::new(),
        }
    }
}

/// What drove a close. All triggers converge on the same idempotent effect;
/// only a local decision (an explicit close, or the last handle going away)
/// also tells the worker, since a cascading or worker-initiated close is
/// already known there.
#[derive(Clone, Copy, PartialEq, Eq, Structural, Debug)]
pub enum CloseTrigger {
    /// The caller invoked close.
    Explicit,
    /// The last strong handle was released.
    LastHandleDropped,
    /// The owning resource closed and cascaded here.
    OwnerCascade,
    /// The worker reported the transport closed remotely.
    WorkerNotification,
}

/// Whether a trigger also sends a close request to the worker.
pub open spec fn trigger_sends_request(t: CloseTrigger) -> bool {
    t == CloseTrigger::Explicit || t == CloseTrigger::LastHandleDropped
}

impl CloseTrigger {
    /// Whether this trigger also sends a close request to the worker.
    pub fn requests_worker_close(&self) -> (r: bool)
        ensures
            r == trigger_sends_request(*self),
    {
        match self {
            CloseTrigger::Explicit => true,
            CloseTrigger::LastHandleDropped => true,
            CloseTrigger::OwnerCascade => false,
            CloseTrigger::WorkerNotification => false,
        }
    }
}

/// What a close call did: whether it won the transition, which "closed"
/// subscribers to invoke, and whether to send a close request to the worker.
#[derive(Debug)]
pub struct CloseEffects {
    /// True for exactly the one call that moved the flag false to true.
    pub transitioned: bool,
    /// Subscriber ids of the "closed" slot to invoke, in registration order;
    /// empty unless this call transitioned.
    pub fired: Vec<u64>,
    /// Whether a close request must go to the worker; set only when this call
    /// transitioned on a trigger that owes one.
    pub send_close_request: bool,
}

/// An interpreted notification for a plain transport.
#[derive(Clone, Copy, PartialEq, Eq, Structural, Debug)]
pub enum Notification {
    /// The remote RTP origin was discovered.
    Tuple {
        /// The discovered tuple.
        tuple: TransportTuple,
    },
    /// The remote RTCP origin was discovered.
    RtcpTuple {
        /// The discovered RTCP tuple.
        rtcp_tuple: TransportTuple,
    },
    /// The SCTP association state changed.
    SctpStateChange {
        /// The new state.
        sctp_state: SctpState,
    },
    /// A trace event was recorded.
    Trace(TransportTraceEventData),
    /// The worker closed the transport remotely.
    Closed,
}

/// What a notification with the given tag and body means: a known tag with
/// its matching body parses; a known tag with any other body is malformed; an
/// unknown tag is an invalid event. Never anything else.
pub open spec fn parse_notification(event: u32, body: NotificationBody) -> Result<
    Notification,
    NotificationParseError,
> {
    if event == EVENT_PLAIN_TRANSPORT_TUPLE {
        match body {
            NotificationBody::PlainTransportTuple { tuple } => Ok(Notification::Tuple { tuple }),
            _ => Err(NotificationParseError::MalformedPayload),
        }
    } else if event == EVENT_PLAIN_TRANSPORT_RTCP_TUPLE {
        match body {
            NotificationBody::PlainTransportRtcpTuple { tuple } => Ok(
                Notification::RtcpTuple { rtcp_tuple: tuple },
            ),
            _ => Err(NotificationParseError::MalformedPayload),
        }
    } else if event == EVENT_TRANSPORT_SCTP_STATE_CHANGE {
        match body {
            NotificationBody::TransportSctpStateChange { sctp_state } => Ok(
                Notification::SctpStateChange { sctp_state },
            ),
            _ => Err(NotificationParseError::MalformedPayload),
        }
    } else if event == EVENT_TRANSPORT_TRACE {
        match body {
            NotificationBody::TransportTrace { data } => Ok(Notification::Trace(data)),
            _ => Err(NotificationParseError::MalformedPayload),
        }
    } else if event == EVENT_TRANSPORT_CLOSED {
        Ok(Notification::Closed)
    } else {
        Err(NotificationParseError::InvalidEvent)
    }
}

impl Notification {
    /// Interprets an inbound notification. A failure here is reported and the
    /// notification dropped; it never halts dispatch.
    pub fn parse(event: u32, body: NotificationBody) -> (r: Result<
        Notification,
        NotificationParseError,
    >)
        ensures
            r == parse_notification(event, body),
    {
        if event == EVENT_PLAIN_TRANSPORT_TUPLE {
            match body {
                NotificationBody::PlainTransportTuple { tuple } => Ok(
                    Notification::Tuple { tuple },
                ),
                _ => Err(NotificationParseError::MalformedPayload),
            }
        } else if event == EVENT_PLAIN_TRANSPORT_RTCP_TUPLE {
            match body {
                NotificationBody::PlainTransportRtcpTuple { tuple } => Ok(
                    Notification::RtcpTuple { rtcp_tuple: tuple },
                ),
                _ => Err(NotificationParseError::MalformedPayload),
            }
        } else if event == EVENT_TRANSPORT_SCTP_STATE_CHANGE {
            match body {
                NotificationBody::TransportSctpStateChange { sctp_state } => Ok(
                    Notification::SctpStateChange { sctp_state },
                ),
                _ => Err(NotificationParseError::MalformedPayload),
            }
        } else if event == EVENT_TRANSPORT_TRACE {
            match body {
                NotificationBody::TransportTrace { data } => Ok(Notification::Trace(data)),
                _ => Err(NotificationParseError::MalformedPayload),
            }
        } else if event == EVENT_TRANSPORT_CLOSED {
            Ok(Notification::Closed)
        } else {
            Err(NotificationParseError::InvalidEvent)
        }
    }
}

/// Abstract state of one transport's in-process representation.
#[verifier::ext_equal]
pub struct InnerModel {
    /// The transport's id, the routing key for its notifications.
    pub id: u64,
    /// Cached projection of worker-reported state.
    pub data: PlainTransportData,
    /// Custom application data.
    pub app_data: AppData,
    /// Index of the owning router.
    pub router_index: usize,
    /// The monotonic closed flag.
    pub closed: bool,
    /// The event slots.
    pub handlers: HandlersModel,
    /// Mid counter for consumers created on this transport.
    pub next_mid_for_consumers: u64,
    /// Which SCTP stream ids are taken, indexed by stream id.
    pub used_sctp_stream_ids: Seq<bool>,
    /// Canonical name shared by producers on this transport.
    pub cname_for_producers: Option<String>,
    /// The channel registration whose release stops notification delivery.
    pub subscription: SubscriptionHandle,
}

impl InnerModel {
    /// The slots are well formed, the subscription carries this transport's
    /// own id, and a closed transport has its "closed" slot fired.
    pub open spec fn wf(self) -> bool {
        &&& self.handlers.wf()
        &&& self.subscription.target_id == self.id
        &&& self.closed ==> self.handlers.close.fired
    }
}

/// One step of the close state machine.
#[verifier::ext_equal]
pub struct CloseStep {
    /// The state after the step.
    pub state: InnerModel,
    /// Whether this step moved the flag.
    pub transitioned: bool,
    /// "closed" subscribers invoked by this step.
    pub invoked: Seq<u64>,
    /// Whether this step owes the worker a close request.
    pub send_request: bool,
}

/// Closing an already-closed transport does nothing at all; the first close
/// sets the flag, fires the "closed" slot, and owes the worker a request
/// exactly when the trigger is a local decision.
pub open spec fn close_step(m: InnerModel, trigger: CloseTrigger) -> CloseStep {
    if m.closed {
        CloseStep { state: m, transitioned: false, invoked: Seq::empty(), send_request: false }
    } else {
        CloseStep {
            state: InnerModel {
                closed: true,
                handlers: HandlersModel {
                    close: once_step(m.handlers.close, OnceSlotOp::Fire).0,
                    ..m.handlers
                },
                ..m
            },
            transitioned: true,
            invoked: m.handlers.close.handlers,
            send_request: trigger_sends_request(trigger),
        }
    }
}

/// A whole run of close triggers: the final state, everything the "closed"
/// slot invoked, and how many transitions and worker requests happened.
#[verifier::ext_equal]
pub struct CloseRun {
    /// The state after the run.
    pub state: InnerModel,
    /// All "closed" subscribers invoked, in order.
    pub invoked: Seq<u64>,
    /// How many steps transitioned.
    pub transitions: nat,
    /// How many close requests the worker is owed.
    pub requests: nat,
}

/// Applies a sequence of close triggers in order.
pub open spec fn close_run(m: InnerModel, triggers: Seq<CloseTrigger>) -> CloseRun
    decreases triggers.len(),
{
    if triggers.len() == 0 {
        CloseRun { state: m, invoked: Seq::empty(), transitions: 0, requests: 0 }
    } else {
        let prefix = close_run(m, triggers.drop_last());
        let step = close_step(prefix.state, triggers.last());
        CloseRun {
            state: step.state,
            invoked: prefix.invoked + step.invoked,
            transitions: prefix.transitions + (if step.transitioned {
                1nat
            } else {
                0nat
            }),
            requests: prefix.requests + (if step.send_request {
                1nat
            } else {
                0nat
            }),
        }
    }
}

/// However many close triggers race on one transport — explicit calls,
/// owner cascades, worker notifications, in any order — the closed flag ends
/// true, the transition happens exactly once, the "closed" slot fires exactly
/// once (its subscribers at the first trigger, each invoked exactly once, in
/// registration order), and the worker is owed at most one close request:
/// exactly one when the winning trigger was a local decision, none otherwise.
pub proof fn lemma_close_exactly_once(m: InnerModel, triggers: Seq<CloseTrigger>)
    requires
        m.wf(),
    ensures
        close_run(m, triggers).state.closed == (m.closed || triggers.len() > 0),
        m.closed ==> close_run(m, triggers) == (CloseRun {
            state: m,
            invoked: Seq::<u64>::empty(),
            transitions: 0,
            requests: 0,
        }),
        !m.closed && triggers.len() > 0 ==> {
            &&& close_run(m, triggers).invoked == m.handlers.close.handlers
            &&& close_run(m, triggers).transitions == 1
            &&& close_run(m, triggers).requests == (if trigger_sends_request(triggers[0]) {
                1nat
            } else {
                0nat
            })
        },
        forall|x: u64| occurrences(close_run(m, triggers).invoked, x) <= 1,
    decreases triggers.len(),
{
    if triggers.len() == 0 {
        assert forall|x: u64| occurrences(close_run(m, triggers).invoked, x) <= 1 by {
            assert(occurrences(Seq::<u64>::empty(), x) == 0);
        }
    } else {
        let prefix = triggers.drop_last();
        lemma_close_exactly_once(m, prefix);
        let before = close_run(m, prefix);
        let step = close_step(before.state, triggers.last());
        if m.closed {
            assert(close_run(m, triggers).invoked =~= Seq::<u64>::empty());
            assert(close_run(m, triggers) =~= (CloseRun {
                state: m,
                invoked: Seq::<u64>::empty(),
                transitions: 0,
                requests: 0,
            }));
        } else if prefix.len() == 0 {
            assert(before.state == m);
            assert(triggers[0] == triggers.last());
            assert(close_run(m, triggers).invoked =~= m.handlers.close.handlers);
        } else {
            assert(before.state.closed);
            assert(step.invoked =~= Seq::<u64>::empty());
            assert(close_run(m, triggers).invoked =~= before.invoked);
            assert(triggers[0] == prefix[0]);
        }
        assert forall|x: u64| occurrences(close_run(m, triggers).invoked, x) <= 1 by {
            if !m.closed && triggers.len() > 0 {
                crate::event_slot::lemma_occurrences_of_distinct(m.handlers.close.handlers, x);
                assert(occurrences(m.handlers.close.handlers, x) <= 1);
            }
        }
    }
}

/// One transport's in-process representation: id, projection, flags and
/// event slots.
#[derive(Debug)]
pub struct Inner {
    /// The transport's id.
    pub id: u64,
    /// Cached projection of worker-reported state.
    pub data: PlainTransportData,
    /// Custom application data.
    pub app_data: AppData,
    /// Index of the owning router.
    pub router_index: usize,
    /// The monotonic closed flag.
    pub closed: bool,
    /// The event slots.
    pub handlers: Handlers,
    /// Mid counter for consumers created on this transport.
    pub next_mid_for_consumers: u64,
    /// Which SCTP stream ids are taken, indexed by stream id.
    pub used_sctp_stream_ids: Vec<bool>,
    /// Canonical name shared by producers on this transport.
    pub cname_for_producers: Option<String>,
    /// The channel registration whose release stops notification delivery.
    pub subscription: SubscriptionHandle,
}

impl View for Inner {
    type V = InnerModel;

    open spec fn view(&self) -> InnerModel {
        InnerModel {
            id: self.id,
            data: self.data,
            app_data: self.app_data,
            router_index: self.router_index,
            closed: self.closed,
            handlers: self.handlers@,
            next_mid_for_consumers: self.next_mid_for_consumers,
            used_sctp_stream_ids: self.used_sctp_stream_ids@,
            cname_for_producers: self.cname_for_producers,
            subscription: self.subscription,
        }
    }
}

impl Inner {
    /// The representation matches its abstract model.
    pub open spec fn wf(self) -> bool {
        self@.wf()
    }

    /// A fresh, open representation: empty slots, the projection as handed
    /// in, and one free entry per negotiated inbound SCTP stream.
    #[verifier::loop_isolation(false)]
    pub fn new(
        id: u64,
        data: PlainTransportData,
        app_data: AppData,
        router_index: usize,
        subscription: SubscriptionHandle,
    ) -> (inner: Self)
        requires
            subscription.target_id == id,
        ensures
            inner.wf(),
            inner@.id == id,
            inner@.data == data,
            inner@.app_data == app_data,
            inner@.router_index == router_index,
            !inner@.closed,
            inner@.handlers.close.handlers == Seq::<u64>::empty(),
            !inner@.handlers.close.fired,
            inner@.handlers.close.next == 0,
            inner@.handlers.router_close.handlers == Seq::<u64>::empty(),
            !inner@.handlers.router_close.fired,
            inner@.handlers.tuple.handlers == Seq::<u64>::empty(),
            inner@.handlers.rtcp_tuple.handlers == Seq::<u64>::empty(),
            inner@.handlers.sctp_state_change.handlers == Seq::<u64>::empty(),
            inner@.handlers.trace.handlers == Seq::<u64>::empty(),
            inner@.next_mid_for_consumers == 0,
            inner@.used_sctp_stream_ids.len() == (match data.sctp_parameters {
                Some(p) => p.mis as int,
                None => 0,
            }),
            forall|k: int|
                0 <= k < inner@.used_sctp_stream_ids.len() ==> !inner@.used_sctp_stream_ids[k],
            inner@.cname_for_producers is None,
            inner@.subscription == subscription,
    {
        let stream_count: u16 = match &data.sctp_parameters {
            Some(p) => p.mis,
            None => 0,
        };
        let mut used_sctp_stream_ids: Vec<bool> = Vec::new();
        let mut i: u16 = 0;
        while i < stream_count
            invariant
                0 <= i <= stream_count,
                used_sctp_stream_ids@.len() == i as int,
                forall|k: int| 0 <= k < i as int ==> !used_sctp_stream_ids@[k],
            decreases stream_count - i,
        {
            used_sctp_stream_ids.push(false);
            i = i + 1;
        }
        Inner {
            id,
            data,
            app_data,
            router_index,
            closed: false,
            handlers: Handlers::new(),
            next_mid_for_consumers: 0,
            used_sctp_stream_ids,
            cname_for_producers: None,
            subscription,
        }
    }

    /// Runs the close sequence: a test-and-set on the closed flag, so exactly
    /// one of any number of racing triggers transitions and fires the
    /// "closed" slot; every other call is a harmless no-op. The effects say
    /// whether the worker is owed a close request.
    pub fn close(&mut self, trigger: CloseTrigger) -> (effects: CloseEffects)
        requires
            old(self).wf(),
        ensures
            final(self).wf(),
            final(self)@ == close_step(old(self)@, trigger).state,
            effects.transitioned == close_step(old(self)@, trigger).transitioned,
            effects.fired@ == close_step(old(self)@, trigger).invoked,
            effects.send_close_request == close_step(old(self)@, trigger).send_request,
            effects.transitioned == !old(self)@.closed,
            final(self)@.closed,
            final(self)@.id == old(self)@.id,
            final(self)@.data == old(self)@.data,
            final(self)@.subscription == old(self)@.subscription,
            final(self)@.router_index == old(self)@.router_index,
    {
        if self.closed {
            CloseEffects { transitioned: false, fired: Vec::new(), send_close_request: false }
        } else {
            self.closed = true;
            let fired = self.handlers.close.fire();
            proof {
                assert(final(self)@ =~= close_step(old(self)@, trigger).state);
            }
            CloseEffects {
                transitioned: true,
                fired,
                send_close_request: trigger.requests_worker_close(),
            }
        }
    }
}

/// One step of notification dispatch at the transport: the state after it,
/// the subscribers to invoke, and whether the notification was delivered at
/// all (a parse failure is dropped and changes nothing).
#[verifier::ext_equal]
pub struct DispatchStep {
    /// The state after the step.
    pub state: InnerModel,
    /// Subscribers to invoke, in registration order.
    pub invoked: Seq<u64>,
    /// The parse outcome.
    pub parsed: Result<Notification, NotificationParseError>,
}

/// Applying one interpreted notification: the projection field it owns is
/// overwritten with the worker's value (the worker's stream is authoritative,
/// last writer wins) and the matching slot fires.
pub open spec fn apply_notification(m: InnerModel, n: Notification) -> (InnerModel, Seq<u64>) {
    match n {
        Notification::Tuple { tuple } => (
            InnerModel { data: PlainTransportData { tuple, ..m.data }, ..m },
            m.handlers.tuple.handlers,
        ),
        Notification::RtcpTuple { rtcp_tuple } => (
            InnerModel { data: PlainTransportData { rtcp_tuple: Some(rtcp_tuple), ..m.data }, ..m },
            m.handlers.rtcp_tuple.handlers,
        ),
        Notification::SctpStateChange { sctp_state } => (
            InnerModel { data: PlainTransportData { sctp_state: Some(sctp_state), ..m.data }, ..m },
            m.handlers.sctp_state_change.handlers,
        ),
        Notification::Trace(_) => (m, m.handlers.trace.handlers),
        Notification::Closed => {
            let step = close_step(m, CloseTrigger::WorkerNotification);
            (step.state, step.invoked)
        },
    }
}

/// Dispatching a raw notification: parse, then apply; a notification that
/// does not parse is dropped without any effect.
pub open spec fn dispatch_step(m: InnerModel, event: u32, body: NotificationBody) -> DispatchStep {
    match parse_notification(event, body) {
        Ok(n) => DispatchStep {
            state: apply_notification(m, n).0,
            invoked: apply_notification(m, n).1,
            parsed: Ok(n),
        },
        Err(e) => DispatchStep { state: m, invoked: Seq::empty(), parsed: Err(e) },
    }
}

/// A notification with an unrecognized tag or a mismatched body is dropped
/// without a trace: a subsequent notification — valid or not — is dispatched
/// exactly as if the dropped one had never arrived.
pub proof fn lemma_dropped_notification_is_inert(
    m: InnerModel,
    bad_event: u32,
    bad_body: NotificationBody,
    next_event: u32,
    next_body: NotificationBody,
)
    requires
        parse_notification(bad_event, bad_body) is Err,
    ensures
        dispatch_step(m, bad_event, bad_body).state == m,
        dispatch_step(m, bad_event, bad_body).invoked == Seq::<u64>::empty(),
        dispatch_step(dispatch_step(m, bad_event, bad_body).state, next_event, next_body)
            == dispatch_step(m, next_event, next_body),
{
}

impl Inner {
    /// Delivers an interpreted notification: updates the projection field the
    /// worker overwrote and fires the matching slot, whose subscriber ids are
    /// returned in registration order. A remote close runs the close
    /// sequence, without owing the worker a request.
    pub fn handle_notification(&mut self, n: Notification) -> (fired: Vec<u64>)
        requires
            old(self).wf(),
        ensures
            final(self).wf(),
            final(self)@ == apply_notification(old(self)@, n).0,
            fired@ == apply_notification(old(self)@, n).1,
            final(self)@.id == old(self)@.id,
            final(self)@.subscription == old(self)@.subscription,
            final(self)@.router_index == old(self)@.router_index,
    {
        match n {
            Notification::Tuple { tuple } => {
                self.data.tuple = tuple;
                let fired = self.handlers.tuple.fire();
                proof {
                    assert(final(self)@ =~= apply_notification(old(self)@, n).0);
                }
                fired
            },
            Notification::RtcpTuple { rtcp_tuple } => {
                self.data.rtcp_tuple = Some(rtcp_tuple);
                let fired = self.handlers.rtcp_tuple.fire();
                proof {
                    assert(final(self)@ =~= apply_notification(old(self)@, n).0);
                }
                fired
            },
            Notification::SctpStateChange { sctp_state } => {
                self.data.sctp_state = Some(sctp_state);
                let fired = self.handlers.sctp_state_change.fire();
                proof {
                    assert(final(self)@ =~= apply_notification(old(self)@, n).0);
                }
                fired
            },
            Notification::Trace(_) => {
                let fired = self.handlers.trace.fire();
                proof {
                    assert(final(self)@ =~= apply_notification(old(self)@, n).0);
                }
                fired
            },
            Notification::Closed => {
                let effects = self.close(CloseTrigger::WorkerNotification);
                effects.fired
            },
        }
    }

    /// Registers a callback for the discovery of the remote RTP origin
    /// (`comedia` mode only).
    pub fn on_tuple(&mut self) -> (id: u64)
        requires
            old(self).wf(),
            old(self)@.handlers.tuple.next < u64::MAX,
        ensures
            final(self).wf(),
            id == old(self)@.handlers.tuple.next,
            final(self)@ == (InnerModel {
                handlers: HandlersModel {
                    tuple: MultiSlotModel {
                        handlers: old(self)@.handlers.tuple.handlers.push(id),
                        next: (id + 1) as u64,
                    },
                    ..old(self)@.handlers
                },
                ..old(self)@
            }),
    {
        let id = self.handlers.tuple.add();
        proof {
            assert(final(self)@ =~= (InnerModel {
                handlers: HandlersModel {
                    tuple: MultiSlotModel {
                        handlers: old(self)@.handlers.tuple.handlers.push(id),
                        next: (id + 1) as u64,
                    },
                    ..old(self)@.handlers
                },
                ..old(self)@
            }));
        }
        id
    }

    /// Registers a callback for the discovery of the remote RTCP origin
    /// (`comedia` mode with RTCP-mux off only).
    pub fn on_rtcp_tuple(&mut self) -> (id: u64)
        requires
            old(self).wf(),
            old(self)@.handlers.rtcp_tuple.next < u64::MAX,
        ensures
            final(self).wf(),
            id == old(self)@.handlers.rtcp_tuple.next,
            final(self)@ == (InnerModel {
                handlers: HandlersModel {
                    rtcp_tuple: MultiSlotModel {
                        handlers: old(self)@.handlers.rtcp_tuple.handlers.push(id),
                        next: (id + 1) as u64,
                    },
                    ..old(self)@.handlers
                },
                ..old(self)@
            }),
    {
        let id = self.handlers.rtcp_tuple.add();
        proof {
            assert(final(self)@ =~= (InnerModel {
                handlers: HandlersModel {
                    rtcp_tuple: MultiSlotModel {
                        handlers: old(self)@.handlers.rtcp_tuple.handlers.push(id),
                        next: (id + 1) as u64,
                    },
                    ..old(self)@.handlers
                },
                ..old(self)@
            }));
        }
        id
    }

    /// Registers a callback for SCTP association state changes.
    pub fn on_sctp_state_change(&mut self) -> (id: u64)
        requires
            old(self).wf(),
            old(self)@.handlers.sctp_state_change.next < u64::MAX,
        ensures
            final(self).wf(),
            id == old(self)@.handlers.sctp_state_change.next,
            final(self)@ == (InnerModel {
                handlers: HandlersModel {
                    sctp_state_change: MultiSlotModel {
                        handlers: old(self)@.handlers.sctp_state_change.handlers.push(id),
                        next: (id + 1) as u64,
                    },
                    ..old(self)@.handlers
                },
                ..old(self)@
            }),
    {
        let id = self.handlers.sctp_state_change.add();
        proof {
            assert(final(self)@ =~= (InnerModel {
                handlers: HandlersModel {
                    sctp_state_change: MultiSlotModel {
                        handlers: old(self)@.handlers.sctp_state_change.handlers.push(id),
                        next: (id + 1) as u64,
                    },
                    ..old(self)@.handlers
                },
                ..old(self)@
            }));
        }
        id
    }

    /// Registers a callback for trace notifications.
    pub fn on_trace(&mut self) -> (id: u64)
        requires
            old(self).wf(),
            old(self)@.handlers.trace.next < u64::MAX,
        ensures
            final(self).wf(),
            id == old(self)@.handlers.trace.next,
            final(self)@ == (InnerModel {
                handlers: HandlersModel {
                    trace: MultiSlotModel {
                        handlers: old(self)@.handlers.trace.handlers.push(id),
                        next: (id + 1) as u64,
                    },
                    ..old(self)@.handlers
                },
                ..old(self)@
            }),
    {
        let id = self.handlers.trace.add();
        proof {
            assert(final(self)@ =~= (InnerModel {
                handlers: HandlersModel {
                    trace: MultiSlotModel {
                        handlers: old(self)@.handlers.trace.handlers.push(id),
                        next: (id + 1) as u64,
                    },
                    ..old(self)@.handlers
                },
                ..old(self)@
            }));
        }
        id
    }

    /// Registers a callback for the owner's closing; fires once, and replays
    /// immediately when the owner has already closed.
    pub fn on_router_close(&mut self) -> (r: (u64, bool))
        requires
            old(self).wf(),
            old(self)@.handlers.router_close.next < u64::MAX,
        ensures
            final(self).wf(),
            r.0 == old(self)@.handlers.router_close.next,
            r.1 == old(self)@.handlers.router_close.fired,
            final(self)@ == (InnerModel {
                handlers: HandlersModel {
                    router_close: once_step(
                        old(self)@.handlers.router_close,
                        OnceSlotOp::Add,
                    ).0,
                    ..old(self)@.handlers
                },
                ..old(self)@
            }),
    {
        let r = self.handlers.router_close.add();
        proof {
            assert(final(self)@ =~= (InnerModel {
                handlers: HandlersModel {
                    router_close: once_step(old(self)@.handlers.router_close, OnceSlotOp::Add).0,
                    ..old(self)@.handlers
                },
                ..old(self)@
            }));
        }
        r
    }

    /// Registers a callback for this transport's own close. When the
    /// transport is already closed, the callback is to be invoked immediately
    /// (`r.1` is true), exactly once, and is not retained — the guarantee
    /// that late observers are not silently missed.
    pub fn on_close(&mut self) -> (r: (u64, bool))
        requires
            old(self).wf(),
            old(self)@.handlers.close.next < u64::MAX,
        ensures
            final(self).wf(),
            r.0 == old(self)@.handlers.close.next,
            r.1 == old(self)@.handlers.close.fired,
            old(self)@.closed ==> r.1,
            final(self)@ == (InnerModel {
                handlers: HandlersModel {
                    close: once_step(old(self)@.handlers.close, OnceSlotOp::Add).0,
                    ..old(self)@.handlers
                },
                ..old(self)@
            }),
    {
        let r = self.handlers.close.add();
        proof {
            assert(final(self)@ =~= (InnerModel {
                handlers: HandlersModel {
                    close: once_step(old(self)@.handlers.close, OnceSlotOp::Add).0,
                    ..old(self)@.handlers
                },
                ..old(self)@
            }));
        }
        r
    }
}

} // verus!

verus! {

/// What a successful connect reply does to the projection: the tuple is
/// overwritten, and the RTCP tuple and SRTP parameters are overwritten
/// exactly when the reply carries them.
pub open spec fn connect_apply(
    data: PlainTransportData,
    tuple: TransportTuple,
    rtcp_tuple: Option<TransportTuple>,
    srtp_parameters: Option<SrtpParameters>,
) -> PlainTransportData {
    PlainTransportData {
        tuple,
        rtcp_tuple: if rtcp_tuple is Some {
            rtcp_tuple
        } else {
            data.rtcp_tuple
        },
        srtp_parameters: if srtp_parameters is Some {
            srtp_parameters
        } else {
            data.srtp_parameters
        },
        ..data
    }
}

/// An owner's close arriving at a dependent: its "router close" slot fires
/// once, then the ordinary close sequence runs with the cascade trigger —
/// which never owes the worker a request.
pub open spec fn cascade_step(m: InnerModel) -> (InnerModel, Seq<u64>, CloseStep) {
    let rc = once_step(m.handlers.router_close, OnceSlotOp::Fire);
    let m1 = InnerModel { handlers: HandlersModel { router_close: rc.0, ..m.handlers }, ..m };
    let step = close_step(m1, CloseTrigger::OwnerCascade);
    (step.state, rc.1, step)
}

impl Inner {
    /// Applies a successful connect reply to the projection. Nothing else
    /// changes: not the flags, not the slots.
    pub fn apply_connect_response(
        &mut self,
        tuple: TransportTuple,
        rtcp_tuple: Option<TransportTuple>,
        srtp_parameters: Option<SrtpParameters>,
    )
        requires
            old(self).wf(),
        ensures
            final(self).wf(),
            final(self)@ == (InnerModel {
                data: connect_apply(old(self)@.data, tuple, rtcp_tuple, srtp_parameters),
                ..old(self)@
            }),
    {
        self.data.tuple = tuple;
        if let Some(t) = rtcp_tuple {
            self.data.rtcp_tuple = Some(t);
        }
        if let Some(p) = srtp_parameters {
            self.data.srtp_parameters = Some(p);
        }
        proof {
            assert(final(self)@ =~= (InnerModel {
                data: connect_apply(old(self)@.data, tuple, rtcp_tuple, srtp_parameters),
                ..old(self)@
            }));
        }
    }

    /// Reacts to the owner's close: fires the "router close" slot, then runs
    /// the close sequence with the cascade trigger, so no close request is
    /// sent — the worker cascades the teardown itself.
    pub fn cascade_close(&mut self) -> (r: (Vec<u64>, CloseEffects))
        requires
            old(self).wf(),
        ensures
            final(self).wf(),
            final(self)@ == cascade_step(old(self)@).0,
            r.0@ == cascade_step(old(self)@).1,
            r.1.transitioned == cascade_step(old(self)@).2.transitioned,
            r.1.fired@ == cascade_step(old(self)@).2.invoked,
            !r.1.send_close_request,
            final(self)@.closed,
            final(self)@.id == old(self)@.id,
            final(self)@.data == old(self)@.data,
            final(self)@.subscription == old(self)@.subscription,
            final(self)@.router_index == old(self)@.router_index,
    {
        let router_close_fired = self.handlers.router_close.fire();
        let effects = self.close(CloseTrigger::OwnerCascade);
        proof {
            assert(final(self)@ =~= cascade_step(old(self)@).0);
        }
        (router_close_fired, effects)
    }
}

} // verus!

verus! {

/// A snapshot of the worker's own view of a plain transport, as plain
/// values. The wire decoding of such a snapshot is the embedder's marshal
/// boundary; ids are the session's plain resource ids.
#[derive(Clone, PartialEq, Eq, Debug)]
pub struct PlainTransportDump {
    /// The transport's id.
    pub id: u64,
    /// Whether this is a direct transport (never, for plain transports).
    pub direct: bool,
    /// Producers living on the transport.
    pub producer_ids: Vec<u64>,
    /// Consumers living on the transport.
    pub consumer_ids: Vec<u64>,
    /// SSRC to consumer id.
    pub map_ssrc_consumer_id: Vec<(u32, u64)>,
    /// RTX SSRC to consumer id.
    pub map_rtx_ssrc_consumer_id: Vec<(u32, u64)>,
    /// Data producers living on the transport.
    pub data_producer_ids: Vec<u64>,
    /// Data consumers living on the transport.
    pub data_consumer_ids: Vec<u64>,
    /// Maximum allowed message size.
    pub max_message_size: u32,
    /// SCTP parameters, when SCTP is on.
    pub sctp_parameters: Option<SctpParameters>,
    /// SCTP association state, when SCTP is on.
    pub sctp_state: Option<SctpState>,
    /// Trace event kinds currently reported.
    pub trace_event_types: Vec<TraceEventType>,
    /// Whether RTCP-mux is on.
    pub rtcp_mux: bool,
    /// Whether remote-origin auto-detection is on.
    pub comedia: bool,
    /// The transport tuple.
    pub tuple: TransportTuple,
    /// The RTCP tuple, with RTCP-mux off.
    pub rtcp_tuple: Option<TransportTuple>,
    /// Local SRTP parameters.
    pub srtp_parameters: Option<SrtpParameters>,
}

/// RTC statistics of a plain transport, as plain values. Rate fields are in
/// bits per second; packet-loss ratios, which the worker reports as
/// fractions, are out of this model.
#[derive(Clone, Copy, PartialEq, Eq, Structural, Debug)]
pub struct PlainTransportStat {
    /// The transport's id.
    pub transport_id: u64,
    /// Worker timestamp of the snapshot.
    pub timestamp: u64,
    /// SCTP association state, when SCTP is on.
    pub sctp_state: Option<SctpState>,
    /// Bytes received.
    pub bytes_received: u64,
    /// Receive bitrate.
    pub recv_bitrate: u32,
    /// Bytes sent.
    pub bytes_sent: u64,
    /// Send bitrate.
    pub send_bitrate: u32,
    /// RTP bytes received.
    pub rtp_bytes_received: u64,
    /// RTP receive bitrate.
    pub rtp_recv_bitrate: u32,
    /// RTP bytes sent.
    pub rtp_bytes_sent: u64,
    /// RTP send bitrate.
    pub rtp_send_bitrate: u32,
    /// RTX bytes received.
    pub rtx_bytes_received: u64,
    /// RTX receive bitrate.
    pub rtx_recv_bitrate: u32,
    /// RTX bytes sent.
    pub rtx_bytes_sent: u64,
    /// RTX send bitrate.
    pub rtx_send_bitrate: u32,
    /// Probation bytes sent.
    pub probation_bytes_sent: u64,
    /// Probation send bitrate.
    pub probation_send_bitrate: u32,
    /// Available outgoing bitrate, when known.
    pub available_outgoing_bitrate: Option<u32>,
    /// Available incoming bitrate, when known.
    pub available_incoming_bitrate: Option<u32>,
    /// Configured cap on incoming bitrate.
    pub max_incoming_bitrate: Option<u32>,
    /// Configured cap on outgoing bitrate.
    pub max_outgoing_bitrate: Option<u32>,
    /// Configured floor on outgoing bitrate.
    pub min_outgoing_bitrate: Option<u32>,
    /// Whether RTCP-mux is on.
    pub rtcp_mux: bool,
    /// Whether remote-origin auto-detection is on.
    pub comedia: bool,
    /// The transport tuple.
    pub tuple: TransportTuple,
    /// The RTCP tuple, with RTCP-mux off.
    pub rtcp_tuple: Option<TransportTuple>,
}

} // verus!
