//! Topic broadcast hub.
//!
//! One [`Broadcast`] per topic: producers publish, any number of
//! receive handles attach and each observes every message published
//! after it attached, in publish order. Each channel has a bounded
//! capacity: a handle that falls more than `capacity` messages behind
//! has its oldest unread messages dropped — for that handle alone — and
//! its next receive reports the gap instead of a message. Publishing
//! never blocks and never fails; with no handles attached the message
//! is simply never read.
//!
//! The hub is specified through the ghost [`HubModel`]: the full
//! publish history plus one cursor per handle. The laws at the end of
//! the module state no-replay, in-order delivery, and slow-consumer
//! isolation over that model.

use vstd::prelude::*;

verus! {

/// Ghost state of one topic's channel: everything ever published and
/// the position of each attached handle in that history.
#[verifier::ext_equal]
pub ghost struct HubModel<T> {
    pub capacity: int,
    pub history: Seq<T>,
    pub cursors: Seq<int>,
}

/// Well-formedness: positive capacity, and every cursor lies within the
/// published history.
pub open spec fn hub_wf<T>(s: HubModel<T>) -> bool {
    &&& s.capacity >= 1
    &&& forall|h: int| 0 <= h < s.cursors.len() ==> 0 <= #[trigger] s.cursors[h] <= s.history.len()
}

/// Unread backlog of handle `h`.
pub open spec fn hub_unread<T>(s: HubModel<T>, h: int) -> int {
    s.history.len() - s.cursors[h]
}

/// Publishing appends to the history and moves no cursor.
pub open spec fn spec_publish<T>(s: HubModel<T>, m: T) -> HubModel<T> {
    HubModel { capacity: s.capacity, history: s.history.push(m), cursors: s.cursors }
}

/// Attaching a handle places its cursor at the end of the history: it
/// will observe exactly what is published afterwards, nothing before.
pub open spec fn spec_subscribe<T>(s: HubModel<T>) -> (HubModel<T>, int) {
    (
        HubModel {
            capacity: s.capacity,
            history: s.history,
            cursors: s.cursors.push(s.history.len() as int),
        },
        s.cursors.len() as int,
    )
}

/// What one receive attempt on handle `h` yields, over the ghost model.
pub ghost enum RecvOut {
    Empty,
    Lagged { skipped: int },
    Msg { index: int },
}

/// The outcome of a receive on handle `h`: nothing when the cursor is
/// at the end; a gap report when the backlog exceeds the capacity; the
/// message at the cursor otherwise.
pub open spec fn spec_recv_out<T>(s: HubModel<T>, h: int) -> RecvOut {
    if hub_unread(s, h) == 0 {
        RecvOut::Empty
    } else if hub_unread(s, h) > s.capacity {
        RecvOut::Lagged { skipped: hub_unread(s, h) - s.capacity }
    } else {
        RecvOut::Msg { index: s.cursors[h] }
    }
}

/// The state after one receive attempt on handle `h`: the cursor stays
/// on an empty read, jumps to the oldest retained message on a gap, and
/// advances by one on a delivery. History, capacity and every other
/// cursor are untouched.
pub open spec fn spec_recv_state<T>(s: HubModel<T>, h: int) -> HubModel<T> {
    match spec_recv_out(s, h) {
        RecvOut::Empty => s,
        RecvOut::Lagged { skipped } => HubModel {
            capacity: s.capacity,
            history: s.history,
            cursors: s.cursors.update(h, s.history.len() - s.capacity),
        },
        RecvOut::Msg { index } => HubModel {
            capacity: s.capacity,
            history: s.history,
            cursors: s.cursors.update(h, s.cursors[h] + 1),
        },
    }
}

/// Whether the executable receive result reports the ghost outcome.
pub open spec fn recv_matches(r: RecvStep, o: RecvOut) -> bool {
    match o {
        RecvOut::Empty => r == RecvStep::Empty,
        RecvOut::Lagged { skipped } => (r matches RecvStep::Lagged { skipped: s2 } && s2
            == skipped),
        RecvOut::Msg { index } => (r matches RecvStep::Msg { index: i2 } && i2 == index),
    }
}

/// What one receive attempt on a broadcast channel yields.
#[derive(Clone, Copy, Debug, PartialEq, Eq, Structural)]
pub enum RecvStep {
    /// Nothing published past this handle's cursor yet.
    Empty,
    /// The handle fell behind by more than the capacity; its oldest
    /// `skipped` unread messages were dropped, for this handle alone.
    Lagged { skipped: usize },
    /// The message at `index` in the publish history is delivered.
    Msg { index: usize },
}

/// One topic's bounded broadcast channel.
pub struct Broadcast<T> {
    capacity: usize,
    history: Vec<T>,
    cursors: Vec<usize>,
}

impl<T> Broadcast<T> {
    /// The ghost model this channel is specified through.
    pub closed spec fn model(&self) -> HubModel<T> {
        HubModel {
            capacity: self.capacity as int,
            history: self.history@,
            cursors: Seq::new(self.cursors@.len(), |i: int| self.cursors@[i] as int),
        }
    }

    pub open spec fn wf(&self) -> bool {
        hub_wf(self.model())
    }

    /// A fresh channel with the given positive capacity, no history and
    /// no handles.
    pub fn new(capacity: usize) -> (r: Broadcast<T>)
        requires
            capacity >= 1,
        ensures
            r.wf(),
            r.model() == (HubModel::<T> {
                capacity: capacity as int,
                history: Seq::empty(),
                cursors: Seq::empty(),
            }),
    {
        let r = Broadcast { capacity, history: Vec::new(), cursors: Vec::new() };
        proof {
            assert(r.model() =~= HubModel::<T> {
                capacity: capacity as int,
                history: Seq::empty(),
                cursors: Seq::empty(),
            });
        }
        r
    }

    /// Delivers `m` to every currently attached handle's backlog.
    /// Never blocks, never fails; with no handles the message is
    /// discarded unread.
    pub fn publish(&mut self, m: T)
        requires
            old(self).wf(),
        ensures
            final(self).wf(),
            final(self).model() == spec_publish(old(self).model(), m),
    {
        self.history.push(m);
        proof {
            assert(self.model() =~= spec_publish(old(self).model(), m));
        }
    }

    /// Attaches a new receive handle; it observes every publish from
    /// this moment on and nothing earlier.
    pub fn subscribe(&mut self) -> (h: usize)
        requires
            old(self).wf(),
        ensures
            final(self).wf(),
            final(self).model() == spec_subscribe(old(self).model()).0,
            h as int == spec_subscribe(old(self).model()).1,
            h as int == old(self).model().cursors.len(),
    {
        let h = self.cursors.len();
        let end = self.history.len();
        self.cursors.push(end);
        proof {
            assert(self.model() =~= spec_subscribe(old(self).model()).0);
        }
        h
    }

    /// One receive attempt on handle `h`.
    pub fn recv(&mut self, h: usize) -> (r: RecvStep)
        requires
            old(self).wf(),
            (h as int) < old(self).model().cursors.len(),
        ensures
            final(self).wf(),
            final(self).model() == spec_recv_state(old(self).model(), h as int),
            recv_matches(r, spec_recv_out(old(self).model(), h as int)),
    {
        let cur = self.cursors[h];
        let len = self.history.len();
        if cur == len {
            proof {
                assert(self.model() =~= spec_recv_state(old(self).model(), h as int));
            }
            RecvStep::Empty
        } else if len - cur > self.capacity {
            let newcur = len - self.capacity;
            let skipped = newcur - cur;
            self.cursors.set(h, newcur);
            proof {
                assert(self.model() =~= spec_recv_state(old(self).model(), h as int));
            }
            RecvStep::Lagged { skipped }
        } else {
            self.cursors.set(h, cur + 1);
            proof {
                assert(self.model() =~= spec_recv_state(old(self).model(), h as int));
            }
            RecvStep::Msg { index: cur }
        }
    }

    /// The message a delivered index refers to.
    pub fn read(&self, index: usize) -> (r: &T)
        requires
            (index as int) < self.model().history.len(),
        ensures
            *r == self.model().history[index as int],
    {
        &self.history[index]
    }

    /// How many messages this channel retains for a handle at most.
    pub fn capacity(&self) -> (r: usize)
        ensures
            r as int == self.model().capacity,
    {
        self.capacity
    }
}

/// Any single operation on a channel, for stating laws over whole runs.
pub ghost enum HubOp<T> {
    Publish { m: T },
    Subscribe,
    Recv { h: int },
}

/// The state after one operation.
pub open spec fn hub_step<T>(s: HubModel<T>, op: HubOp<T>) -> HubModel<T> {
    match op {
        HubOp::Publish { m } => spec_publish(s, m),
        HubOp::Subscribe => spec_subscribe(s).0,
        HubOp::Recv { h } => if 0 <= h < s.cursors.len() {
            spec_recv_state(s, h)
        } else {
            s
        },
    }
}

/// The state after a whole run of operations.
pub open spec fn hub_run<T>(s: HubModel<T>, ops: Seq<HubOp<T>>) -> HubModel<T>
    decreases ops.len(),
{
    if ops.len() == 0 {
        s
    } else {
        hub_run(hub_step(s, ops[0]), ops.drop_first())
    }
}

/// Every operation preserves well-formedness.
pub proof fn lemma_step_preserves_wf<T>(s: HubModel<T>, op: HubOp<T>)
    requires
        hub_wf(s),
    ensures
        hub_wf(hub_step(s, op)),
{
}

/// A whole run preserves well-formedness.
pub proof fn lemma_run_preserves_wf<T>(s: HubModel<T>, ops: Seq<HubOp<T>>)
    requires
        hub_wf(s),
    ensures
        hub_wf(hub_run(s, ops)),
    decreases ops.len(),
{
    if ops.len() > 0 {
        lemma_step_preserves_wf(s, ops[0]);
        lemma_run_preserves_wf(hub_step(s, ops[0]), ops.drop_first());
    }
}

/// No operation ever moves a handle's cursor backwards, and no handle
/// is ever detached.
pub proof fn lemma_step_cursor_monotone<T>(s: HubModel<T>, op: HubOp<T>, h: int)
    requires
        hub_wf(s),
        0 <= h < s.cursors.len(),
    ensures
        hub_step(s, op).cursors.len() >= s.cursors.len(),
        hub_step(s, op).cursors[h] >= s.cursors[h],
{
}

/// Over a whole run, a handle's cursor only moves forward.
pub proof fn lemma_run_cursor_monotone<T>(s: HubModel<T>, ops: Seq<HubOp<T>>, h: int)
    requires
        hub_wf(s),
        0 <= h < s.cursors.len(),
    ensures
        hub_run(s, ops).cursors.len() >= s.cursors.len(),
        hub_run(s, ops).cursors[h] >= s.cursors[h],
    decreases ops.len(),
{
    if ops.len() > 0 {
        lemma_step_preserves_wf(s, ops[0]);
        lemma_step_cursor_monotone(s, ops[0], h);
        lemma_run_cursor_monotone(hub_step(s, ops[0]), ops.drop_first(), h);
    }
}

/// A delivery hands out exactly the message at the handle's cursor.
pub proof fn lemma_recv_delivers_at_cursor<T>(s: HubModel<T>, h: int)
    requires
        hub_wf(s),
        0 <= h < s.cursors.len(),
    ensures
        spec_recv_out(s, h) matches RecvOut::Msg { index } ==> index == s.cursors[h],
{
}

/// No replay: a message already published when a handle subscribes is
/// never delivered to that handle, whatever the channel does afterwards.
pub proof fn lemma_no_replay<T>(s: HubModel<T>, ops: Seq<HubOp<T>>, i: int)
    requires
        hub_wf(s),
        0 <= i < s.history.len(),
    ensures
        ({
            let (s1, h) = spec_subscribe(s);
            let s2 = hub_run(s1, ops);
            spec_recv_out(s2, h) matches RecvOut::Msg { index } ==> index > i
        }),
{
    let (s1, h) = spec_subscribe(s);
    let s2 = hub_run(s1, ops);
    assert(hub_wf(s1));
    lemma_run_cursor_monotone(s1, ops, h);
    lemma_run_preserves_wf(s1, ops);
    assert(s2.cursors[h] >= s.history.len());
}

/// Immediately after `subscribe`, a message published next is the very
/// next thing that handle receives.
pub proof fn lemma_subscribe_then_publish_delivered<T>(s: HubModel<T>, m: T)
    requires
        hub_wf(s),
    ensures
        ({
            let (s1, h) = spec_subscribe(s);
            let s2 = spec_publish(s1, m);
            &&& spec_recv_out(s2, h) == (RecvOut::Msg { index: s.history.len() as int })
            &&& s2.history[s.history.len() as int] == m
        }),
{
}

/// The indices a handle receives when it reads `n` times with no
/// publish in between.
pub open spec fn spec_drain<T>(s: HubModel<T>, h: int, n: nat) -> Seq<int>
    decreases n,
{
    if n == 0 {
        Seq::empty()
    } else {
        match spec_recv_out(s, h) {
            RecvOut::Msg { index } => seq![index] + spec_drain(
                spec_recv_state(s, h),
                h,
                (n - 1) as nat,
            ),
            _ => Seq::empty(),
        }
    }
}

/// A handle whose backlog is within capacity receives its backlog in
/// publish order: reading `n` times yields exactly the indices from its
/// cursor on, consecutively.
pub proof fn lemma_drain_in_order<T>(s: HubModel<T>, h: int, n: nat)
    requires
        hub_wf(s),
        0 <= h < s.cursors.len(),
        n <= hub_unread(s, h),
        hub_unread(s, h) <= s.capacity,
    ensures
        spec_drain(s, h, n) =~= Seq::new(n, |i: int| s.cursors[h] + i),
    decreases n,
{
    if n > 0 {
        lemma_drain_in_order(spec_recv_state(s, h), h, (n - 1) as nat);
    }
}

/// Slow-consumer isolation: a handle whose backlog exceeds the capacity
/// by `k` observes one gap of exactly `k` skipped messages and then
/// receives exactly the last `capacity` published messages, in order;
/// the history and every other handle are untouched.
pub proof fn lemma_slow_consumer<T>(s: HubModel<T>, h: int, k: int)
    requires
        hub_wf(s),
        0 <= h < s.cursors.len(),
        k >= 1,
        hub_unread(s, h) == s.capacity + k,
    ensures
        spec_recv_out(s, h) == (RecvOut::Lagged { skipped: k }),
        ({
            let s1 = spec_recv_state(s, h);
            &&& s1.history == s.history
            &&& s1.capacity == s.capacity
            &&& forall|g: int| 0 <= g < s.cursors.len() && g != h ==> s1.cursors[g] == s.cursors[g]
            &&& spec_drain(s1, h, s.capacity as nat) =~= Seq::new(
                s.capacity as nat,
                |i: int| s.history.len() - s.capacity + i,
            )
        }),
{
    let s1 = spec_recv_state(s, h);
    lemma_drain_in_order(s1, h, s.capacity as nat);
}

} // verus!
