//! The correlated channel and its subscription registry.
//!
//! A request is tagged with a resource id and a fresh correlation token and
//! recorded as pending until the matching reply arrives; replies for unknown
//! tokens (a waiter that went away) are discarded. Inbound notifications are
//! routed to the single consumer subscribed for their resource id, or dropped.
//! The embedder transmits what [`Channel::request`] appends to the outbox and
//! feeds replies and notifications back in.

use vstd::prelude::*;
use crate::errors::RequestError;
use crate::messages::{RequestMessage, RequestMethod, WorkerReply};

verus! {

/// An in-flight request awaiting its reply.
#[derive(Clone, Copy, PartialEq, Eq, Structural, Debug)]
pub struct PendingRequest {
    /// Correlation token of the request.
    pub token: u64,
    /// The resource it targets.
    pub target_id: u64,
}

/// One registered notification consumer.
#[derive(Clone, Copy, PartialEq, Eq, Structural, Debug)]
pub struct SubscriptionEntry {
    /// The resource id whose notifications are consumed.
    pub target_id: u64,
    /// The consumer, named by the embedder.
    pub subscriber: usize,
}

/// A handle for a registration; releasing it deregisters the consumer, and
/// releasing it twice is harmless.
#[derive(Clone, Copy, PartialEq, Eq, Structural, Debug)]
pub struct SubscriptionHandle {
    /// The resource id the registration was made for.
    pub target_id: u64,
}

/// Abstract state of a [`Channel`].
#[verifier::ext_equal]
pub struct ChannelModel {
    /// Next correlation token to hand out.
    pub next_token: u64,
    /// In-flight requests, oldest first.
    pub pending: Seq<PendingRequest>,
    /// Requests handed to the wire, oldest first.
    pub outbox: Seq<RequestMessage>,
    /// Registered notification consumers.
    pub subscriptions: Seq<SubscriptionEntry>,
    /// Whether the channel is closed.
    pub closed: bool,
}

/// Whether a token is in flight.
pub open spec fn contains_token(s: Seq<PendingRequest>, token: u64) -> bool {
    exists|k: int| 0 <= k < s.len() && s[k].token == token
}

/// The in-flight set with the request of a token taken out (the only one,
/// as tokens are unique).
pub open spec fn remove_token(s: Seq<PendingRequest>, token: u64) -> Seq<PendingRequest>
    decreases s.len(),
{
    if s.len() == 0 {
        s
    } else if s.last().token == token {
        s.drop_last()
    } else {
        remove_token(s.drop_last(), token).push(s.last())
    }
}

/// Whether a consumer is registered for a target under a given name.
pub open spec fn is_subscribed(s: Seq<SubscriptionEntry>, target_id: u64, subscriber: usize) -> bool {
    exists|k: int| 0 <= k < s.len() && s[k] == (SubscriptionEntry { target_id, subscriber })
}

/// Whether any consumer is registered for a target.
pub open spec fn has_subscription(s: Seq<SubscriptionEntry>, target_id: u64) -> bool {
    exists|k: int| 0 <= k < s.len() && s[k].target_id == target_id
}

impl ChannelModel {
    /// Tokens are handed out in increasing order and never reused, and each
    /// target has at most one registered consumer.
    pub open spec fn wf(self) -> bool {
        &&& forall|i: int, j: int|
            0 <= i < j < self.pending.len() ==> self.pending[i].token < self.pending[j].token
        &&& forall|i: int| 0 <= i < self.pending.len() ==> self.pending[i].token < self.next_token
        &&& forall|i: int, j: int|
            0 <= i < j < self.subscriptions.len() ==> self.subscriptions[i].target_id
                != self.subscriptions[j].target_id
    }
}

/// Issuing a request on an open channel: the fresh token, the pending record
/// and the wire message.
pub open spec fn request_step(c: ChannelModel, target_id: u64, method: RequestMethod) -> (
    ChannelModel,
    u64,
) {
    (
        ChannelModel {
            next_token: (c.next_token + 1) as u64,
            pending: c.pending.push(PendingRequest { token: c.next_token, target_id }),
            outbox: c.outbox.push(RequestMessage { target_id, token: c.next_token, method }),
            ..c
        },
        c.next_token,
    )
}

/// Delivering a reply for a token: resolved and forgotten when in flight,
/// discarded otherwise.
pub open spec fn response_step(c: ChannelModel, token: u64) -> (ChannelModel, bool) {
    (
        ChannelModel { pending: remove_token(c.pending, token), ..c },
        contains_token(c.pending, token),
    )
}

/// The correlated channel: request bookkeeping and the notification registry.
#[derive(Debug)]
pub struct Channel {
    /// Next correlation token to hand out.
    pub next_token: u64,
    /// In-flight requests, oldest first.
    pub pending: Vec<PendingRequest>,
    /// Requests handed to the wire and not yet drained by the embedder.
    pub outbox: Vec<RequestMessage>,
    /// Registered notification consumers.
    pub subscriptions: Vec<SubscriptionEntry>,
    /// Whether the channel is closed.
    pub closed: bool,
}

impl View for Channel {
    type V = ChannelModel;

    open spec fn view(&self) -> ChannelModel {
        ChannelModel {
            next_token: self.next_token,
            pending: self.pending@,
            outbox: self.outbox@,
            subscriptions: self.subscriptions@,
            closed: self.closed,
        }
    }
}

impl Channel {
    /// The channel matches its abstract model.
    pub open spec fn wf(self) -> bool {
        self@.wf()
    }

    /// An open channel with nothing in flight.
    pub fn new() -> (c: Self)
        ensures
            c.wf(),
            c@.next_token == 0,
            c@.pending == Seq::<PendingRequest>::empty(),
            c@.outbox == Seq::<RequestMessage>::empty(),
            c@.subscriptions == Seq::<SubscriptionEntry>::empty(),
            !c@.closed,
    {
        Channel {
            next_token: 0,
            pending: Vec::new(),
            outbox: Vec::new(),
            subscriptions: Vec::new(),
            closed: false,
        }
    }

    /// Issues a request: tags it with a fresh correlation token, records it as
    /// in flight and appends it to the outbox for the embedder to transmit.
    /// On a closed channel nothing is sent and the caller fails right away.
    #[verifier::loop_isolation(false)]
    pub fn request(&mut self, target_id: u64, method: RequestMethod) -> (r: Result<
        u64,
        RequestError,
    >)
        requires
            old(self).wf(),
            old(self)@.next_token < u64::MAX,
        ensures
            final(self).wf(),
            old(self)@.closed ==> r == Err::<u64, RequestError>(RequestError::ChannelClosed)
                && *final(self) == *old(self),
            !old(self)@.closed ==> {
                &&& r == Ok::<u64, RequestError>(request_step(old(self)@, target_id, method).1)
                &&& final(self)@ == request_step(old(self)@, target_id, method).0
            },
    {
        if self.closed {
            return Err(RequestError::ChannelClosed);
        }
        let token = self.next_token;
        self.next_token = self.next_token + 1;
        self.pending.push(PendingRequest { token, target_id });
        self.outbox.push(RequestMessage { target_id, token, method });
        proof {
            assert forall|i: int, j: int|
                0 <= i < j < self.pending@.len() implies self.pending@[i].token
                < self.pending@[j].token by {
                let m = old(self)@;
                if j + 1 < self.pending@.len() {
                    assert(m.pending[i].token < m.pending[j].token);
                } else {
                    assert(m.pending[i].token < m.next_token);
                }
            }
            assert(final(self)@ =~= request_step(old(self)@, target_id, method).0);
        }
        Ok(token)
    }

    /// Hands the accumulated wire messages to the embedder, oldest first.
    pub fn drain_outbox(&mut self) -> (msgs: Vec<RequestMessage>)
        requires
            old(self).wf(),
        ensures
            final(self).wf(),
            msgs@ == old(self)@.outbox,
            final(self)@ == (ChannelModel { outbox: Seq::<RequestMessage>::empty(), ..old(self)@ }),
    {
        let mut msgs: Vec<RequestMessage> = Vec::new();
        std::mem::swap(&mut msgs, &mut self.outbox);
        proof {
            assert(final(self)@ =~= (ChannelModel {
                outbox: Seq::<RequestMessage>::empty(),
                ..old(self)@
            }));
        }
        msgs
    }

    /// Delivers the worker's reply for a token. The reply comes back to the
    /// caller exactly when that token is in flight, and only that request is
    /// forgotten; a reply for an unknown token (its waiter was dropped, or it
    /// was answered before) is discarded.
    #[verifier::loop_isolation(false)]
    pub fn deliver_response(&mut self, token: u64, reply: WorkerReply) -> (r: Option<WorkerReply>)
        requires
            old(self).wf(),
        ensures
            final(self).wf(),
            r is Some <==> contains_token(old(self)@.pending, token),
            r matches Some(rr) ==> rr == reply,
            final(self)@ == response_step(old(self)@, token).0,
    {
        let ghost before = self.pending@;
        let mut i: usize = 0;
        while i < self.pending.len()
            invariant
                *self == *old(self),
                0 <= i <= self.pending@.len(),
                forall|k: int| 0 <= k < i ==> self.pending@[k].token != token,
            decreases self.pending@.len() - i,
        {
            if self.pending[i].token == token {
                proof {
                    assert(before[i as int].token == token);
                    assert forall|k: int|
                        0 <= k < before.len() && k != i implies before[k].token != token by {
                        let m = old(self)@;
                        if k < i {
                            assert(m.pending[k].token < m.pending[i as int].token);
                        } else {
                            assert(m.pending[i as int].token < m.pending[k].token);
                        }
                    }
                    lemma_remove_token_at(before, i as int, token);
                }
                self.pending.remove(i);
                proof {
                    assert(final(self)@ =~= response_step(old(self)@, token).0);
                    assert forall|a: int, b: int|
                        0 <= a < b < self.pending@.len() implies self.pending@[a].token
                        < self.pending@[b].token by {
                        let m = old(self)@;
                        if b < i {
                            assert(m.pending[a].token < m.pending[b].token);
                        } else if a < i {
                            assert(m.pending[a].token < m.pending[b + 1].token);
                        } else {
                            assert(m.pending[a + 1].token < m.pending[b + 1].token);
                        }
                    }
                    assert forall|k: int| 0 <= k < self.pending@.len() implies self.pending@[k].token
                        < self.next_token by {
                        let m = old(self)@;
                        if k < i {
                            assert(m.pending[k].token < m.next_token);
                        } else {
                            assert(m.pending[k + 1].token < m.next_token);
                        }
                    }
                }
                return Some(reply);
            }
            i = i + 1;
        }
        proof {
            assert(!contains_token(before, token)) by {
                if contains_token(before, token) {
                    let k = choose|k: int| 0 <= k < before.len() && before[k].token == token;
                }
            }
            lemma_remove_token_absent(before, token);
            assert(final(self)@ =~= response_step(old(self)@, token).0);
        }
        None
    }

    /// Registers the single notification consumer for a target, replacing a
    /// previous one. The returned handle deregisters it when released.
    pub fn subscribe(&mut self, target_id: u64, subscriber: usize) -> (h: SubscriptionHandle)
        requires
            old(self).wf(),
        ensures
            final(self).wf(),
            h.target_id == target_id,
            is_subscribed(final(self)@.subscriptions, target_id, subscriber),
            forall|k: int|
                0 <= k < final(self)@.subscriptions.len() ==> (
                #[trigger] final(self)@.subscriptions[k]) == (SubscriptionEntry {
                    target_id,
                    subscriber,
                }) || old(self)@.subscriptions.contains(final(self)@.subscriptions[k]),
            forall|t: u64, s: usize|
                t != target_id ==> is_subscribed(final(self)@.subscriptions, t, s) == is_subscribed(
                    old(self)@.subscriptions,
                    t,
                    s,
                ),
            final(self)@.pending == old(self)@.pending,
            final(self)@.outbox == old(self)@.outbox,
            final(self)@.next_token == old(self)@.next_token,
            final(self)@.closed == old(self)@.closed,
    {
        self.release_subscription(target_id);
        let ghost mid = self.subscriptions@;
        self.subscriptions.push(SubscriptionEntry { target_id, subscriber });
        proof {
            assert(self.subscriptions@[mid.len() as int] == (SubscriptionEntry {
                target_id,
                subscriber,
            }));
            assert forall|i: int, j: int|
                0 <= i < j < self.subscriptions@.len() implies self.subscriptions@[i].target_id
                != self.subscriptions@[j].target_id by {
                if j + 1 < self.subscriptions@.len() {
                    assert(mid[i].target_id != mid[j].target_id);
                } else {
                    assert(!has_subscription(mid, target_id));
                    assert(mid[i].target_id != target_id);
                }
            }
            assert forall|t: u64, s: usize|
                t != target_id implies is_subscribed(self.subscriptions@, t, s) == is_subscribed(
                mid,
                t,
                s,
            ) by {
                if is_subscribed(mid, t, s) {
                    let k = choose|k: int|
                        0 <= k < mid.len() && mid[k] == (SubscriptionEntry {
                            target_id: t,
                            subscriber: s,
                        });
                    assert(self.subscriptions@[k] == mid[k]);
                }
                if is_subscribed(self.subscriptions@, t, s) {
                    let k = choose|k: int|
                        0 <= k < self.subscriptions@.len() && self.subscriptions@[k]
                            == (SubscriptionEntry { target_id: t, subscriber: s });
                    assert(k < mid.len());
                }
            }
        }
        SubscriptionHandle { target_id }
    }

    /// Releases the registration for a target, if any: notifications for it
    /// are dropped from then on. Releasing twice is harmless.
    #[verifier::loop_isolation(false)]
    pub fn release_subscription(&mut self, target_id: u64)
        requires
            old(self).wf(),
        ensures
            final(self).wf(),
            !has_subscription(final(self)@.subscriptions, target_id),
            forall|t: u64, s: usize|
                t != target_id ==> is_subscribed(final(self)@.subscriptions, t, s) == is_subscribed(
                    old(self)@.subscriptions,
                    t,
                    s,
                ),
            forall|k: int|
                0 <= k < final(self)@.subscriptions.len() ==> old(self)@.subscriptions.contains(
                    #[trigger] final(self)@.subscriptions[k]),
            final(self)@.pending == old(self)@.pending,
            final(self)@.outbox == old(self)@.outbox,
            final(self)@.next_token == old(self)@.next_token,
            final(self)@.closed == old(self)@.closed,
    {
        let ghost before = self.subscriptions@;
        let mut i: usize = 0;
        while i < self.subscriptions.len()
            invariant
                *self == *old(self),
                0 <= i <= self.subscriptions@.len(),
                forall|k: int| 0 <= k < i ==> self.subscriptions@[k].target_id != target_id,
            decreases self.subscriptions@.len() - i,
        {
            if self.subscriptions[i].target_id == target_id {
                self.subscriptions.remove(i);
                proof {
                    assert(self.subscriptions@ == before.remove(i as int));
                    assert forall|a: int, b: int|
                        0 <= a < b < self.subscriptions@.len() implies self.subscriptions@[a].target_id
                        != self.subscriptions@[b].target_id by {
                        let m = old(self)@;
                        if b < i {
                            assert(m.subscriptions[a].target_id != m.subscriptions[b].target_id);
                        } else if a < i {
                            assert(m.subscriptions[a].target_id != m.subscriptions[b
                                + 1].target_id);
                        } else {
                            assert(m.subscriptions[a + 1].target_id != m.subscriptions[b
                                + 1].target_id);
                        }
                    }
                    assert forall|k: int|
                        0 <= k
                            < self.subscriptions@.len() implies self.subscriptions@[k].target_id
                        != target_id by {
                        let m = old(self)@;
                        if k >= i {
                            assert(m.subscriptions[k + 1].target_id != m.subscriptions[i as int].target_id);
                        }
                    }
                    assert(!has_subscription(self.subscriptions@, target_id)) by {
                        if has_subscription(self.subscriptions@, target_id) {
                            let k = choose|k: int|
                                0 <= k < self.subscriptions@.len()
                                    && self.subscriptions@[k].target_id == target_id;
                        }
                    }
                    assert forall|t: u64, s: usize|
                        t != target_id implies is_subscribed(self.subscriptions@, t, s)
                        == is_subscribed(before, t, s) by {
                        if is_subscribed(before, t, s) {
                            let k = choose|k: int|
                                0 <= k < before.len() && before[k] == (SubscriptionEntry {
                                    target_id: t,
                                    subscriber: s,
                                });
                            if k < i {
                                assert(self.subscriptions@[k] == before[k]);
                            } else {
                                assert(self.subscriptions@[k - 1] == before[k]);
                            }
                        }
                        if is_subscribed(self.subscriptions@, t, s) {
                            let k = choose|k: int|
                                0 <= k < self.subscriptions@.len() && self.subscriptions@[k]
                                    == (SubscriptionEntry { target_id: t, subscriber: s });
                            if k < i {
                                assert(before[k] == self.subscriptions@[k]);
                            } else {
                                assert(before[k + 1] == self.subscriptions@[k]);
                            }
                        }
                    }
                    assert forall|k: int|
                        0 <= k < self.subscriptions@.len() implies before.contains(
                        #[trigger] self.subscriptions@[k],
                    ) by {
                        if k < i {
                            assert(self.subscriptions@[k] == before[k]);
                        } else {
                            assert(self.subscriptions@[k] == before[k + 1]);
                        }
                    }
                    assert(self@.pending == old(self)@.pending);
                    assert(self@.next_token == old(self)@.next_token);
                    assert forall|a: int, b: int|
                        0 <= a < b < self@.pending.len() implies self@.pending[a].token
                        < self@.pending[b].token by {
                        let m = old(self)@;
                        assert(m.pending[a].token < m.pending[b].token);
                    }
                    assert forall|k: int|
                        0 <= k < self@.pending.len() implies self@.pending[k].token
                        < self@.next_token by {
                        let m = old(self)@;
                        assert(m.pending[k].token < m.next_token);
                    }
                    assert(self.wf());
                }
                return ;
            }
            i = i + 1;
        }
        proof {
            assert(!has_subscription(self.subscriptions@, target_id)) by {
                if has_subscription(self.subscriptions@, target_id) {
                    let k = choose|k: int|
                        0 <= k < self.subscriptions@.len() && self.subscriptions@[k].target_id
                            == target_id;
                }
            }
        }
    }

    /// Looks up the consumer for a notification's target. `None` means the
    /// notification is dropped with a diagnostic, not an error.
    #[verifier::loop_isolation(false)]
    pub fn route_notification(&self, target_id: u64) -> (r: Option<usize>)
        requires
            self.wf(),
        ensures
            r matches Some(subscriber) ==> is_subscribed(self@.subscriptions, target_id, subscriber),
            r is None ==> !has_subscription(self@.subscriptions, target_id),
    {
        let mut i: usize = 0;
        while i < self.subscriptions.len()
            invariant
                0 <= i <= self.subscriptions@.len(),
                forall|k: int| 0 <= k < i ==> self.subscriptions@[k].target_id != target_id,
            decreases self.subscriptions@.len() - i,
        {
            if self.subscriptions[i].target_id == target_id {
                return Some(self.subscriptions[i].subscriber);
            }
            i = i + 1;
        }
        proof {
            if has_subscription(self@.subscriptions, target_id) {
                let k = choose|k: int|
                    0 <= k < self@.subscriptions.len() && self@.subscriptions[k].target_id
                        == target_id;
            }
        }
        None
    }

    /// Closes the channel: every in-flight request fails with
    /// [`RequestError::ChannelClosed`]; the returned tokens say which waiters
    /// to fail. Later requests fail immediately.
    #[verifier::loop_isolation(false)]
    pub fn close(&mut self) -> (aborted: Vec<u64>)
        requires
            old(self).wf(),
        ensures
            final(self).wf(),
            final(self)@.closed,
            final(self)@.pending == Seq::<PendingRequest>::empty(),
            aborted@.len() == old(self)@.pending.len(),
            forall|k: int|
                0 <= k < aborted@.len() ==> aborted@[k] == old(self)@.pending[k].token,
            final(self)@.outbox == old(self)@.outbox,
            final(self)@.subscriptions == old(self)@.subscriptions,
            final(self)@.next_token == old(self)@.next_token,
    {
        self.closed = true;
        let mut aborted: Vec<u64> = Vec::new();
        let mut drained: Vec<PendingRequest> = Vec::new();
        std::mem::swap(&mut drained, &mut self.pending);
        let mut i: usize = 0;
        while i < drained.len()
            invariant
                0 <= i <= drained@.len(),
                aborted@.len() == i,
                forall|k: int| 0 <= k < i ==> aborted@[k] == drained@[k].token,
            decreases drained@.len() - i,
        {
            aborted.push(drained[i].token);
            i = i + 1;
        }
        proof {
            let m = old(self)@;
            assert forall|a: int, b: int|
                0 <= a < b < self@.subscriptions.len() implies self@.subscriptions[a].target_id
                != self@.subscriptions[b].target_id by {
                assert(m.subscriptions[a].target_id != m.subscriptions[b].target_id);
            }
            assert(self@.pending =~= Seq::<PendingRequest>::empty());
            assert(self.wf());
        }
        aborted
    }
}

/// Removing the only matching token takes out exactly that record.
pub proof fn lemma_remove_token_at(s: Seq<PendingRequest>, i: int, token: u64)
    requires
        0 <= i < s.len(),
        s[i].token == token,
        forall|k: int| 0 <= k < s.len() && k != i ==> s[k].token != token,
    ensures
        contains_token(s, token),
        remove_token(s, token) == s.remove(i),
    decreases s.len(),
{
    if i == s.len() - 1 {
        assert(remove_token(s, token) == s.drop_last());
        assert(s.drop_last() =~= s.remove(i));
    } else {
        assert(s.last().token != token);
        assert forall|k: int|
            0 <= k < s.drop_last().len() && k != i implies s.drop_last()[k].token != token by {
            assert(s[k].token != token);
        }
        lemma_remove_token_at(s.drop_last(), i, token);
        assert(remove_token(s, token) == s.drop_last().remove(i).push(s.last()));
        assert(s.drop_last().remove(i).push(s.last()) =~= s.remove(i));
    }
}

/// Removing an absent token changes nothing.
pub proof fn lemma_remove_token_absent(s: Seq<PendingRequest>, token: u64)
    requires
        !contains_token(s, token),
    ensures
        remove_token(s, token) == s,
    decreases s.len(),
{
    if s.len() > 0 {
        assert(s[s.len() - 1].token != token);
        assert(!contains_token(s.drop_last(), token)) by {
            if contains_token(s.drop_last(), token) {
                let k = choose|k: int|
                    0 <= k < s.drop_last().len() && s.drop_last()[k].token == token;
                assert(s[k].token == token);
            }
        }
        lemma_remove_token_absent(s.drop_last(), token);
        assert(remove_token(s, token) =~= s);
    }
}

/// Two in-flight requests with different correlation tokens resolve
/// independently: whichever reply arrives first, each request is resolved by
/// the delivery for its own token and by no other, with no head-of-line
/// blocking between them.
pub proof fn lemma_requests_resolve_independently(
    c: ChannelModel,
    target1: u64,
    method1: RequestMethod,
    target2: u64,
    method2: RequestMethod,
)
    requires
        c.wf(),
        !c.closed,
        c.next_token + 2 <= u64::MAX,
    ensures
        ({
            let c1 = request_step(c, target1, method1).0;
            let token1 = request_step(c, target1, method1).1;
            let c2 = request_step(c1, target2, method2).0;
            let token2 = request_step(c1, target2, method2).1;
            &&& token1 != token2
            // Replies arriving in either order resolve their own request...
            &&& response_step(c2, token2).1
            &&& response_step(response_step(c2, token2).0, token1).1
            &&& response_step(c2, token1).1
            &&& response_step(response_step(c2, token1).0, token2).1
            // ...and a reply for one leaves the other in flight untouched.
            &&& contains_token(response_step(c2, token2).0.pending, token1)
            &&& contains_token(response_step(c2, token1).0.pending, token2)
        }),
{
    let c1 = request_step(c, target1, method1).0;
    let token1 = request_step(c, target1, method1).1;
    let c2 = request_step(c1, target2, method2).0;
    let token2 = request_step(c1, target2, method2).1;
    let n = c.pending.len() as int;
    let p1 = PendingRequest { token: token1, target_id: target1 };
    let p2 = PendingRequest { token: token2, target_id: target2 };
    assert(c2.pending == c.pending.push(p1).push(p2));
    assert(c2.pending[n] == p1);
    assert(c2.pending[n + 1] == p2);
    assert forall|k: int| 0 <= k < c2.pending.len() && k != n + 1 implies c2.pending[k].token
        != token2 by {
        if k < n {
            assert(c.pending[k].token < c.next_token);
        }
    }
    assert forall|k: int| 0 <= k < c2.pending.len() && k != n implies c2.pending[k].token
        != token1 by {
        if k < n {
            assert(c.pending[k].token < c.next_token);
        }
    }
    lemma_remove_token_at(c2.pending, n + 1, token2);
    assert(c2.pending.remove(n + 1) =~= c.pending.push(p1));
    assert(response_step(c2, token2).0.pending[n] == p1);
    lemma_remove_token_at(c2.pending, n, token1);
    assert(c2.pending.remove(n) =~= c.pending.push(p2));
    assert(response_step(c2, token1).0.pending[n] == p2);
    let after2 = response_step(c2, token2).0;
    assert forall|k: int| 0 <= k < after2.pending.len() && k != n implies after2.pending[k].token
        != token1 by {
        if k < n {
            assert(c.pending[k].token < c.next_token);
        }
    }
    lemma_remove_token_at(after2.pending, n, token1);
    let after1 = response_step(c2, token1).0;
    assert forall|k: int| 0 <= k < after1.pending.len() && k != n implies after1.pending[k].token
        != token2 by {
        if k < n {
            assert(c.pending[k].token < c.next_token);
        }
    }
    lemma_remove_token_at(after1.pending, n, token2);
}

} // verus!
