//! Event slots: per-resource named callback collections.
//!
//! A subscriber is identified by a handler id; firing a slot yields the ids to
//! invoke, in registration order, and the embedder maps ids to its callbacks.
//! A [`MultiSlot`] keeps its subscribers across fires; a [`OnceSlot`] delivers
//! to all current subscribers exactly once, then stays fired and replays
//! itself immediately to anyone who subscribes late.

use vstd::prelude::*;

verus! {

/// How often a handler id occurs in a sequence of invocations.
pub open spec fn occurrences(s: Seq<u64>, x: u64) -> nat
    decreases s.len(),
{
    if s.len() == 0 {
        0
    } else {
        occurrences(s.drop_last(), x) + (if s.last() == x {
            1nat
        } else {
            0nat
        })
    }
}

/// Occurrence counting distributes over concatenation.
pub proof fn lemma_occurrences_add(a: Seq<u64>, b: Seq<u64>, x: u64)
    ensures
        occurrences(a + b, x) == occurrences(a, x) + occurrences(b, x),
    decreases b.len(),
{
    if b.len() == 0 {
        assert(a + b =~= a);
    } else {
        lemma_occurrences_add(a, b.drop_last(), x);
        assert((a + b).drop_last() =~= a + b.drop_last());
        assert((a + b).last() == b.last());
    }
}

/// A sequence of distinct ids contains each id at most once.
pub proof fn lemma_occurrences_of_distinct(s: Seq<u64>, x: u64)
    requires
        forall|i: int, j: int| 0 <= i < j < s.len() ==> s[i] != s[j],
    ensures
        occurrences(s, x) <= 1,
        occurrences(s, x) == 1 <==> s.contains(x),
    decreases s.len(),
{
    if s.len() > 0 {
        lemma_occurrences_of_distinct(s.drop_last(), x);
        if s.drop_last().contains(x) {
            let i = choose|i: int| 0 <= i < s.len() - 1 && s.drop_last()[i] == x;
            assert(s[i] == x);
            assert(s.last() != x);
        }
        if s.contains(x) && s.last() != x {
            let i = choose|i: int| 0 <= i < s.len() && s[i] == x;
            assert(s.drop_last()[i] == x);
        }
    }
}

/// A one-element sequence counts exactly its element.
pub proof fn lemma_occurrences_singleton(a: u64, x: u64)
    ensures
        occurrences(seq![a], x) == (if a == x {
            1nat
        } else {
            0nat
        }),
{
    assert(seq![a].drop_last() =~= Seq::<u64>::empty());
    assert(occurrences(Seq::<u64>::empty(), x) == 0);
}

/// Strictly increasing ids are distinct.
proof fn lemma_increasing_implies_distinct(s: Seq<u64>)
    requires
        forall|i: int, j: int| 0 <= i < j < s.len() ==> s[i] < s[j],
    ensures
        forall|i: int, j: int| 0 <= i < j < s.len() ==> s[i] != s[j],
{
    assert forall|i: int, j: int| 0 <= i < j < s.len() implies s[i] != s[j] by {
        assert(s[i] < s[j]);
    }
}

/// Abstract state of a [`MultiSlot`].
#[verifier::ext_equal]
pub struct MultiSlotModel {
    /// Subscribers, in registration order.
    pub handlers: Seq<u64>,
    /// Next id to hand out.
    pub next: u64,
}

impl MultiSlotModel {
    /// Ids are unique, in registration order, and below `next`.
    pub open spec fn wf(self) -> bool {
        &&& forall|i: int, j: int|
            0 <= i < j < self.handlers.len() ==> self.handlers[i] < self.handlers[j]
        &&& forall|i: int| 0 <= i < self.handlers.len() ==> self.handlers[i] < self.next
    }
}

/// A multi-fire slot: subscribers are kept until removed and every fire
/// notifies all of them.
#[derive(Debug)]
pub struct MultiSlot {
    /// Subscriber ids, in registration order.
    pub handlers: Vec<u64>,
    /// Next id to hand out.
    pub next_id: u64,
}

impl View for MultiSlot {
    type V = MultiSlotModel;

    open spec fn view(&self) -> MultiSlotModel {
        MultiSlotModel { handlers: self.handlers@, next: self.next_id }
    }
}

impl MultiSlot {
    /// The slot matches its abstract model: ids unique, in registration
    /// order, and fresh ids never collide.
    pub open spec fn wf(self) -> bool {
        self@.wf()
    }

    /// The subscribers, in registration order.
    pub open spec fn subscribers(self) -> Seq<u64> {
        self.handlers@
    }

    /// How many ids this slot has handed out so far.
    pub open spec fn ids_used(self) -> u64 {
        self.next_id
    }

    /// An empty slot.
    pub fn new() -> (slot: Self)
        ensures
            slot.wf(),
            slot.subscribers() == Seq::<u64>::empty(),
            slot.ids_used() == 0,
    {
        MultiSlot { handlers: Vec::new(), next_id: 0 }
    }

    /// Registers a subscriber; the fresh id is appended after all existing
    /// subscribers, so fires keep registration order.
    pub fn add(&mut self) -> (id: u64)
        requires
            old(self).wf(),
            old(self).ids_used() < u64::MAX,
        ensures
            final(self).wf(),
            id == old(self).ids_used(),
            final(self).subscribers() == old(self).subscribers().push(id),
            final(self).ids_used() == id + 1,
    {
        let id = self.next_id;
        self.handlers.push(id);
        self.next_id = self.next_id + 1;
        proof {
            let m = old(self)@;
            let m2 = self@;
            assert(m2.handlers == m.handlers.push(id));
            assert forall|a: int, b: int|
                0 <= a < b < m2.handlers.len() implies m2.handlers[a] < m2.handlers[b] by {
                if b + 1 < m2.handlers.len() {
                    assert(m.handlers[a] < m.handlers[b]);
                } else {
                    assert(m.handlers[a] < m.next);
                }
            }
            assert forall|k: int| 0 <= k < m2.handlers.len() implies m2.handlers[k] < m2.next by {
                if k + 1 < m2.handlers.len() {
                    assert(m.handlers[k] < m.next);
                }
            }
        }
        id
    }

    /// Deregisters a subscriber; unknown ids are ignored, so removing twice is
    /// harmless.
    #[verifier::loop_isolation(false)]
    pub fn remove(&mut self, id: u64) -> (removed: bool)
        requires
            old(self).wf(),
        ensures
            final(self).wf(),
            removed == old(self).subscribers().contains(id),
            !removed ==> *final(self) == *old(self),
            removed ==> exists|k: int|
                {
                    &&& 0 <= k < old(self).subscribers().len()
                    &&& old(self).subscribers()[k] == id
                    &&& final(self).subscribers() == old(self).subscribers().remove(k)
                },
            final(self).ids_used() == old(self).ids_used(),
            forall|other: u64|
                other != id ==> (final(self).subscribers().contains(other) == old(
                    self,
                ).subscribers().contains(other)),
    {
        let ghost before = self.handlers@;
        let mut i: usize = 0;
        while i < self.handlers.len()
            invariant
                *self == *old(self),
                0 <= i <= self.handlers@.len(),
                forall|k: int| 0 <= k < i ==> self.handlers@[k] != id,
            decreases self.handlers@.len() - i,
        {
            if self.handlers[i] == id {
                assert(before[i as int] == id);
                assert(before.contains(id));
                self.handlers.remove(i);
                assert(self.handlers@ == before.remove(i as int));
                assert((i as int) < old(self).subscribers().len() && old(self).subscribers()[i
                    as int] == id && self.subscribers() == old(self).subscribers().remove(
                    i as int,
                ));
                assert forall|a: int, b: int|
                    0 <= a < b < self@.handlers.len() implies self@.handlers[a]
                    < self@.handlers[b] by {
                    let m = old(self)@;
                    if b < i {
                        assert(m.handlers[a] < m.handlers[b]);
                    } else if a < i {
                        assert(m.handlers[a] < m.handlers[b + 1]);
                    } else {
                        assert(m.handlers[a + 1] < m.handlers[b + 1]);
                    }
                }
                assert forall|k: int| 0 <= k < self@.handlers.len() implies self@.handlers[k]
                    < self@.next by {
                    let m = old(self)@;
                    if k < i {
                        assert(m.handlers[k] < m.next);
                    } else {
                        assert(m.handlers[k + 1] < m.next);
                    }
                }
                assert forall|other: u64| other != id implies (
                self.handlers@.contains(other) == before.contains(other)) by {
                    if before.contains(other) {
                        let k = choose|k: int| 0 <= k < before.len() && before[k] == other;
                        if k < i {
                            assert(self.handlers@[k] == other);
                        } else {
                            assert(self.handlers@[k - 1] == other);
                        }
                    }
                    if self.handlers@.contains(other) {
                        let k = choose|k: int|
                            0 <= k < self.handlers@.len() && self.handlers@[k] == other;
                        if k < i {
                            assert(before[k] == other);
                        } else {
                            assert(before[k + 1] == other);
                        }
                    }
                }
                return true;
            }
            i = i + 1;
        }
        assert(!before.contains(id)) by {
            if before.contains(id) {
                let k = choose|k: int| 0 <= k < before.len() && before[k] == id;
            }
        }
        false
    }

    /// Fires the slot: every current subscriber is to be invoked, in
    /// registration order. Multi-fire slots never replay and keep their
    /// subscribers.
    #[verifier::loop_isolation(false)]
    pub fn fire(&self) -> (invoked: Vec<u64>)
        requires
            self.wf(),
        ensures
            invoked@ == self.subscribers(),
    {
        let mut invoked: Vec<u64> = Vec::new();
        let mut i: usize = 0;
        while i < self.handlers.len()
            invariant
                0 <= i <= self.handlers@.len(),
                invoked@ == self.handlers@.subrange(0, i as int),
            decreases self.handlers@.len() - i,
        {
            invoked.push(self.handlers[i]);
            i = i + 1;
        }
        assert(invoked@ =~= self.handlers@);
        invoked
    }
}

/// Abstract state of a [`OnceSlot`], for stating laws about runs of
/// registrations and fires.
#[verifier::ext_equal]
pub struct OnceSlotModel {
    /// Pending subscribers, in registration order.
    pub handlers: Seq<u64>,
    /// Next id to hand out.
    pub next: u64,
    /// Whether the slot has fired.
    pub fired: bool,
}

/// An operation on a single-fire slot.
#[derive(Clone, Copy, PartialEq, Eq, Structural, Debug)]
pub enum OnceSlotOp {
    /// A subscriber registers.
    Add,
    /// The slot fires.
    Fire,
}

impl OnceSlotModel {
    /// Ids are unique and below `next`, and a fired slot holds no pending
    /// subscriber.
    pub open spec fn wf(self) -> bool {
        &&& forall|i: int, j: int|
            0 <= i < j < self.handlers.len() ==> self.handlers[i] < self.handlers[j]
        &&& forall|i: int| 0 <= i < self.handlers.len() ==> self.handlers[i] < self.next
        &&& self.fired ==> self.handlers.len() == 0
    }
}

/// One step of a single-fire slot: the state after the operation and the
/// subscribers invoked by it.
pub open spec fn once_step(m: OnceSlotModel, op: OnceSlotOp) -> (OnceSlotModel, Seq<u64>) {
    match op {
        OnceSlotOp::Add => if m.fired {
            // Late registration: replayed immediately, not retained.
            (OnceSlotModel { next: (m.next + 1) as u64, ..m }, seq![m.next])
        } else {
            (
                OnceSlotModel { handlers: m.handlers.push(m.next), next: (m.next + 1) as u64, ..m },
                Seq::empty(),
            )
        },
        OnceSlotOp::Fire => if m.fired {
            (m, Seq::empty())
        } else {
            (OnceSlotModel { handlers: Seq::empty(), fired: true, ..m }, m.handlers)
        },
    }
}

/// A run of operations on a single-fire slot: the final state and all
/// invocations, in order.
pub open spec fn once_run(m: OnceSlotModel, ops: Seq<OnceSlotOp>) -> (OnceSlotModel, Seq<u64>)
    decreases ops.len(),
{
    if ops.len() == 0 {
        (m, Seq::empty())
    } else {
        let (mid, inv) = once_run(m, ops.drop_last());
        let (end, last_inv) = once_step(mid, ops.last());
        (end, inv + last_inv)
    }
}

/// A single-fire slot: delivers to all current subscribers exactly once, then
/// stays fired; late subscribers are replayed immediately, exactly once.
#[derive(Debug)]
pub struct OnceSlot {
    /// Pending subscriber ids, in registration order.
    pub handlers: Vec<u64>,
    /// Next id to hand out.
    pub next_id: u64,
    /// Whether the slot has fired.
    pub fired: bool,
}

impl View for OnceSlot {
    type V = OnceSlotModel;

    open spec fn view(&self) -> OnceSlotModel {
        OnceSlotModel { handlers: self.handlers@, next: self.next_id, fired: self.fired }
    }
}

impl OnceSlot {
    /// The slot matches its abstract model.
    pub open spec fn wf(self) -> bool {
        self@.wf()
    }

    /// The pending subscribers, in registration order.
    pub open spec fn subscribers(self) -> Seq<u64> {
        self.handlers@
    }

    /// Whether the slot has already fired.
    pub open spec fn has_fired(self) -> bool {
        self.fired
    }

    /// How many ids this slot has handed out so far.
    pub open spec fn ids_used(self) -> u64 {
        self.next_id
    }

    /// An empty, unfired slot.
    pub fn new() -> (slot: Self)
        ensures
            slot.wf(),
            slot.subscribers() == Seq::<u64>::empty(),
            !slot.has_fired(),
            slot.ids_used() == 0,
    {
        OnceSlot { handlers: Vec::new(), next_id: 0, fired: false }
    }

    /// Registers a subscriber. When the slot has already fired, the subscriber
    /// is invoked immediately (`replay` is true), exactly once, and is not
    /// retained, so no later fire can reach it again.
    pub fn add(&mut self) -> (r: (u64, bool))
        requires
            old(self).wf(),
            old(self).ids_used() < u64::MAX,
        ensures
            final(self).wf(),
            r.0 == old(self).ids_used(),
            r.1 == old(self).has_fired(),
            once_step(old(self)@, OnceSlotOp::Add).0 == final(self)@,
            once_step(old(self)@, OnceSlotOp::Add).1 == if r.1 {
                seq![r.0]
            } else {
                Seq::<u64>::empty()
            },
            final(self).has_fired() == old(self).has_fired(),
            final(self).ids_used() == r.0 + 1,
            old(self).has_fired() ==> final(self).subscribers() == old(self).subscribers(),
            !old(self).has_fired() ==> final(self).subscribers() == old(self).subscribers().push(
                r.0,
            ),
    {
        let id = self.next_id;
        self.next_id = self.next_id + 1;
        if self.fired {
            (id, true)
        } else {
            self.handlers.push(id);
            proof {
                let m = old(self)@;
                let m2 = self@;
                assert(m2.handlers == m.handlers.push(id));
                assert forall|a: int, b: int|
                    0 <= a < b < m2.handlers.len() implies m2.handlers[a] < m2.handlers[b] by {
                    if b + 1 < m2.handlers.len() {
                        assert(m.handlers[a] < m.handlers[b]);
                    } else {
                        assert(m.handlers[a] < m.next);
                    }
                }
                assert forall|k: int| 0 <= k < m2.handlers.len() implies m2.handlers[k]
                    < m2.next by {
                    if k + 1 < m2.handlers.len() {
                        assert(m.handlers[k] < m.next);
                    }
                }
            }
            (id, false)
        }
    }

    /// Deregisters a pending subscriber; unknown or already-delivered ids
    /// are ignored, so removing twice is harmless.
    #[verifier::loop_isolation(false)]
    pub fn remove(&mut self, id: u64) -> (removed: bool)
        requires
            old(self).wf(),
        ensures
            final(self).wf(),
            removed == old(self).subscribers().contains(id),
            !removed ==> *final(self) == *old(self),
            removed ==> exists|k: int|
                {
                    &&& 0 <= k < old(self).subscribers().len()
                    &&& old(self).subscribers()[k] == id
                    &&& final(self).subscribers() == old(self).subscribers().remove(k)
                },
            final(self).has_fired() == old(self).has_fired(),
            final(self).ids_used() == old(self).ids_used(),
            forall|other: u64|
                other != id ==> (final(self).subscribers().contains(other) == old(
                    self,
                ).subscribers().contains(other)),
    {
        let ghost before = self.handlers@;
        let mut i: usize = 0;
        while i < self.handlers.len()
            invariant
                *self == *old(self),
                0 <= i <= self.handlers@.len(),
                forall|k: int| 0 <= k < i ==> self.handlers@[k] != id,
            decreases self.handlers@.len() - i,
        {
            if self.handlers[i] == id {
                assert(before[i as int] == id);
                assert(before.contains(id));
                self.handlers.remove(i);
                assert(self.handlers@ == before.remove(i as int));
                assert((i as int) < old(self).subscribers().len() && old(self).subscribers()[i
                    as int] == id && self.subscribers() == old(self).subscribers().remove(
                    i as int,
                ));
                proof {
                    let m = old(self)@;
                    assert forall|a: int, b: int|
                        0 <= a < b < self@.handlers.len() implies self@.handlers[a]
                        < self@.handlers[b] by {
                        if b < i {
                            assert(m.handlers[a] < m.handlers[b]);
                        } else if a < i {
                            assert(m.handlers[a] < m.handlers[b + 1]);
                        } else {
                            assert(m.handlers[a + 1] < m.handlers[b + 1]);
                        }
                    }
                    assert forall|k: int| 0 <= k < self@.handlers.len() implies self@.handlers[k]
                        < self@.next by {
                        if k < i {
                            assert(m.handlers[k] < m.next);
                        } else {
                            assert(m.handlers[k + 1] < m.next);
                        }
                    }
                    assert forall|other: u64|
                        other != id implies (self.handlers@.contains(other) == before.contains(
                        other,
                    )) by {
                        if before.contains(other) {
                            let k = choose|k: int| 0 <= k < before.len() && before[k] == other;
                            if k < i {
                                assert(self.handlers@[k] == other);
                            } else {
                                assert(self.handlers@[k - 1] == other);
                            }
                        }
                        if self.handlers@.contains(other) {
                            let k = choose|k: int|
                                0 <= k < self.handlers@.len() && self.handlers@[k] == other;
                            if k < i {
                                assert(before[k] == other);
                            } else {
                                assert(before[k + 1] == other);
                            }
                        }
                    }
                }
                return true;
            }
            i = i + 1;
        }
        assert(!before.contains(id)) by {
            if before.contains(id) {
                let k = choose|k: int| 0 <= k < before.len() && before[k] == id;
            }
        }
        false
    }

    /// Fires the slot. The first fire invokes all pending subscribers in
    /// registration order and clears them; later fires invoke nobody.
    pub fn fire(&mut self) -> (invoked: Vec<u64>)
        requires
            old(self).wf(),
        ensures
            final(self).wf(),
            final(self).has_fired(),
            final(self).subscribers() == Seq::<u64>::empty(),
            final(self).ids_used() == old(self).ids_used(),
            once_step(old(self)@, OnceSlotOp::Fire).0 == final(self)@,
            once_step(old(self)@, OnceSlotOp::Fire).1 == invoked@,
            !old(self).has_fired() ==> invoked@ == old(self).subscribers(),
            old(self).has_fired() ==> invoked@ == Seq::<u64>::empty(),
    {
        if self.fired {
            Vec::new()
        } else {
            self.fired = true;
            let mut drained: Vec<u64> = Vec::new();
            std::mem::swap(&mut drained, &mut self.handlers);
            drained
        }
    }
}

} // verus!

verus! {

/// Whether a run contains a fire.
pub open spec fn has_fire(ops: Seq<OnceSlotOp>) -> bool {
    exists|i: int| 0 <= i < ops.len() && ops[i] == OnceSlotOp::Fire
}

/// Over any run of registrations and fires, a single-fire slot invokes the
/// subscriber `x` at most once; an invoked id was either pending at the start
/// or handed out during the run, and is never pending again afterwards.
pub proof fn lemma_once_slot_invokes_at_most_once(m: OnceSlotModel, ops: Seq<OnceSlotOp>, x: u64)
    requires
        m.wf(),
        m.next + ops.len() <= u64::MAX,
    ensures
        once_run(m, ops).0.wf(),
        m.next <= once_run(m, ops).0.next <= m.next + ops.len(),
        occurrences(once_run(m, ops).1, x) <= 1,
        occurrences(once_run(m, ops).1, x) > 0 ==> x < once_run(m, ops).0.next && !once_run(
            m,
            ops,
        ).0.handlers.contains(x),
        occurrences(once_run(m, ops).1, x) > 0 ==> m.handlers.contains(x) || x >= m.next,
        once_run(m, ops).0.handlers.contains(x) ==> m.handlers.contains(x) || x >= m.next,
        m.fired ==> once_run(m, ops).0.fired,
        has_fire(ops) ==> once_run(m, ops).0.fired,
    decreases ops.len(),
{
    if ops.len() == 0 {
    } else {
        let prefix = ops.drop_last();
        lemma_once_slot_invokes_at_most_once(m, prefix, x);
        let mid = once_run(m, prefix).0;
        let inv1 = once_run(m, prefix).1;
        let end = once_step(mid, ops.last()).0;
        let inv2 = once_step(mid, ops.last()).1;
        assert(once_run(m, ops).0 == end);
        assert(once_run(m, ops).1 == inv1 + inv2);
        lemma_occurrences_add(inv1, inv2, x);
        match ops.last() {
            OnceSlotOp::Add => {
                if mid.fired {
                    lemma_occurrences_singleton(mid.next, x);
                    assert(end.wf());
                } else {
                    assert(occurrences(inv2, x) == 0);
                    assert(end.handlers == mid.handlers.push(mid.next));
                    assert forall|a: int, b: int|
                        0 <= a < b < end.handlers.len() implies end.handlers[a]
                        < end.handlers[b] by {
                        if b + 1 < end.handlers.len() {
                            assert(mid.handlers[a] < mid.handlers[b]);
                        } else {
                            assert(mid.handlers[a] < mid.next);
                        }
                    }
                    assert forall|k: int| 0 <= k < end.handlers.len() implies end.handlers[k]
                        < end.next by {
                        if k + 1 < end.handlers.len() {
                            assert(mid.handlers[k] < mid.next);
                        }
                    }
                    assert(end.wf());
                    if end.handlers.contains(x) && !mid.handlers.contains(x) {
                        let k = choose|k: int|
                            0 <= k < end.handlers.len() && end.handlers[k] == x;
                        if k + 1 < end.handlers.len() {
                            assert(mid.handlers[k] == x);
                        } else {
                            assert(x == mid.next);
                        }
                    }
                }
            },
            OnceSlotOp::Fire => {
                if !mid.fired {
                    assert(inv2 == mid.handlers);
                    lemma_increasing_implies_distinct(inv2);
                    lemma_occurrences_of_distinct(inv2, x);
                    if occurrences(inv2, x) > 0 {
                        let k = choose|k: int| 0 <= k < inv2.len() && inv2[k] == x;
                        assert(mid.handlers[k] < mid.next);
                    }
                    if occurrences(inv1, x) > 0 {
                        assert(!mid.handlers.contains(x));
                        assert(occurrences(inv2, x) == 0);
                    }
                }
                assert(end.wf());
            },
        }
        if has_fire(ops) && !has_fire(prefix) {
            let i = choose|i: int| 0 <= i < ops.len() && ops[i] == OnceSlotOp::Fire;
            if i < ops.len() - 1 {
                assert(prefix[i] == OnceSlotOp::Fire);
            }
            assert(ops.last() == OnceSlotOp::Fire);
        }
    }
}

/// A run without any fire invokes nobody and keeps every pending subscriber.
pub proof fn lemma_once_run_without_fire(m: OnceSlotModel, ops: Seq<OnceSlotOp>, x: u64)
    requires
        m.wf(),
        m.next + ops.len() <= u64::MAX,
        !m.fired,
        !has_fire(ops),
    ensures
        !once_run(m, ops).0.fired,
        once_run(m, ops).1 == Seq::<u64>::empty(),
        m.handlers.contains(x) ==> once_run(m, ops).0.handlers.contains(x),
    decreases ops.len(),
{
    if ops.len() > 0 {
        let prefix = ops.drop_last();
        assert(!has_fire(prefix)) by {
            if has_fire(prefix) {
                let i = choose|i: int| 0 <= i < prefix.len() && prefix[i] == OnceSlotOp::Fire;
                assert(ops[i] == OnceSlotOp::Fire);
            }
        }
        lemma_once_run_without_fire(m, prefix, x);
        let mid = once_run(m, prefix).0;
        assert(ops.last() != OnceSlotOp::Fire) by {
            if ops.last() == OnceSlotOp::Fire {
                assert(ops[ops.len() - 1] == OnceSlotOp::Fire);
            }
        }
        if m.handlers.contains(x) {
            let k = choose|k: int| 0 <= k < mid.handlers.len() && mid.handlers[k] == x;
            assert(once_run(m, ops).0.handlers[k] == x);
        }
        assert(once_run(m, ops).1 =~= Seq::<u64>::empty());
    }
}

/// A subscriber pending at the start is invoked exactly once by any run that
/// contains a fire: however many fires and late registrations follow, the
/// delivery neither repeats nor goes missing.
pub proof fn lemma_once_slot_delivers_exactly_once(m: OnceSlotModel, ops: Seq<OnceSlotOp>, x: u64)
    requires
        m.wf(),
        m.next + ops.len() <= u64::MAX,
        m.handlers.contains(x),
        has_fire(ops),
    ensures
        occurrences(once_run(m, ops).1, x) == 1,
    decreases ops.len(),
{
    lemma_once_slot_invokes_at_most_once(m, ops, x);
    let prefix = ops.drop_last();
    lemma_once_slot_invokes_at_most_once(m, prefix, x);
    let mid = once_run(m, prefix).0;
    let inv1 = once_run(m, prefix).1;
    let inv2 = once_step(mid, ops.last()).1;
    lemma_occurrences_add(inv1, inv2, x);
    assert(!m.fired) by {
        let k = choose|k: int| 0 <= k < m.handlers.len() && m.handlers[k] == x;
    }
    if has_fire(prefix) {
        lemma_once_slot_delivers_exactly_once(m, prefix, x);
        // Already delivered once; the last step cannot repeat it.
        assert(x < mid.next && !mid.handlers.contains(x));
        match ops.last() {
            OnceSlotOp::Add => {
                if mid.fired {
                    lemma_occurrences_singleton(mid.next, x);
                } else {
                    assert(occurrences(inv2, x) == 0);
                }
            },
            OnceSlotOp::Fire => {
                if !mid.fired {
                    lemma_increasing_implies_distinct(inv2);
                    lemma_occurrences_of_distinct(inv2, x);
                }
            },
        }
    } else {
        // The only fire is the last operation; x is still pending there.
        assert(ops.last() == OnceSlotOp::Fire) by {
            let i = choose|i: int| 0 <= i < ops.len() && ops[i] == OnceSlotOp::Fire;
            if i < ops.len() - 1 {
                assert(prefix[i] == OnceSlotOp::Fire);
            }
        }
        lemma_once_run_without_fire(m, prefix, x);
        assert(occurrences(inv1, x) == 0);
        assert(!mid.fired);
        assert(inv2 == mid.handlers);
        assert(mid.handlers.contains(x));
        lemma_increasing_implies_distinct(inv2);
        lemma_occurrences_of_distinct(inv2, x);
    }
}

/// The id a slot will hand to its next subscriber is untouched by everything
/// that went before: no earlier fire can have invoked it. Together with the
/// replay law below, a late subscriber's immediate invocation is its only
/// one ever — no duplicate from the original fire.
pub proof fn lemma_next_subscriber_never_invoked_before(m: OnceSlotModel, ops: Seq<OnceSlotOp>)
    requires
        m.wf(),
        m.next + ops.len() <= u64::MAX,
    ensures
        occurrences(once_run(m, ops).1, once_run(m, ops).0.next) == 0,
{
    lemma_once_slot_invokes_at_most_once(m, ops, once_run(m, ops).0.next);
    if occurrences(once_run(m, ops).1, once_run(m, ops).0.next) > 0 {
        // Everything invoked so far lies below the next fresh id.
        assert(once_run(m, ops).0.next < once_run(m, ops).0.next);
    }
}

/// A subscriber registered after the slot has fired is invoked immediately,
/// and exactly once: no later fire or registration reaches it again.
pub proof fn lemma_once_slot_replays_late_subscriber_once(m: OnceSlotModel, ops: Seq<OnceSlotOp>)
    requires
        m.wf(),
        m.fired,
        m.next + 1 + ops.len() <= u64::MAX,
    ensures
        once_step(m, OnceSlotOp::Add).1 == seq![m.next],
        occurrences(
            once_step(m, OnceSlotOp::Add).1 + once_run(once_step(m, OnceSlotOp::Add).0, ops).1,
            m.next,
        ) == 1,
{
    let m1 = once_step(m, OnceSlotOp::Add).0;
    let inv1 = once_step(m, OnceSlotOp::Add).1;
    let inv2 = once_run(m1, ops).1;
    assert(inv1 =~= seq![m.next]);
    lemma_occurrences_singleton(m.next, m.next);
    assert(occurrences(inv1, m.next) == 1);
    assert(m1.wf());
    lemma_once_slot_invokes_at_most_once(m1, ops, m.next);
    assert(occurrences(inv2, m.next) == 0) by {
        if occurrences(inv2, m.next) > 0 {
            assert(m1.handlers.contains(m.next) || m.next >= m1.next);
        }
    }
    lemma_occurrences_add(inv1, inv2, m.next);
}

} // verus!
