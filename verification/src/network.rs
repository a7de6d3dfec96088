//! The network: arenas, adjacency, the scheduler and the tick protocol.
//!
//! Neurons and synapses live in dense arenas indexed by their ids, which
//! are handed out in order and never reused.  Adjacency is kept in both
//! directions: `send_synapses[n]` lists `(receiver, synapse)` pairs for the
//! edges leaving neuron `n`, `recv_synapses[n]` lists the synapses arriving
//! at `n`.  Spikes in flight wait in the wheel scheduler.  The whole state
//! is abstracted by [`Network::model`], and every mutation is pinned
//! against that model.

use vstd::prelude::*;

use wheel_timer::WheelTimer;

use crate::fixed::{fadd, fx_one, Fx};
use crate::neuron::Neuron;
use crate::scheduler::{wheel_capacity, wheel_new, wheel_schedule, wheel_slots, wheel_tick};
use crate::synapse::Synapse;

verus! {

/// The one user-facing failure: a synapse endpoint id that no neuron owns.
#[derive(Clone, Copy, Debug, PartialEq, Eq, Structural)]
pub enum NeuralError {
    MissingNeuron,
}

/// Mathematical snapshot of a network: the arenas and adjacency as
/// sequences, the scheduler as its relative slots, the two toggles and the
/// clock.
pub struct NetModel<N, S> {
    pub neurons: Seq<N>,
    pub synapses: Seq<S>,
    pub send: Seq<Seq<(usize, usize)>>,
    pub recv: Seq<Seq<usize>>,
    pub slots: Seq<Seq<(usize, i64)>>,
    pub transmission: bool,
    pub learning: bool,
    pub now: Fx,
}

/// Structural soundness of a model: adjacency lists exist for every neuron
/// and point into the arenas, and every stored delay fits the scheduler.
pub open spec fn model_wf<N: Neuron, S: Synapse>(m: NetModel<N, S>) -> bool {
    &&& m.send.len() == m.neurons.len()
    &&& m.recv.len() == m.neurons.len()
    &&& m.slots.len() >= 1
    &&& forall|i: int, j: int|
        0 <= i < m.send.len() && 0 <= j < m.send[i].len() ==> (#[trigger] m.send[i][j]).0
            < m.neurons.len() && m.send[i][j].1 < m.synapses.len()
    &&& forall|i: int, j: int|
        0 <= i < m.recv.len() && 0 <= j < m.recv[i].len() ==> (#[trigger] m.recv[i][j])
            < m.synapses.len()
    &&& delays_ok(m.synapses, m.slots.len() as int)
}

/// Every stored delay is at least one tick and fits the scheduler.
pub open spec fn delays_ok<S: Synapse>(ss: Seq<S>, cap: int) -> bool {
    forall|k: int|
        0 <= k < ss.len() ==> 1 <= (#[trigger] ss[k]).spec_delay() && (ss[k].spec_delay() as int)
            < cap
}

/// Hand one drained event to its receiver; a stale receiver id delivers
/// nowhere.
pub open spec fn deliver_one<N: Neuron>(ns: Seq<N>, e: (usize, i64)) -> Seq<N> {
    if (e.0 as int) < ns.len() {
        ns.update(e.0 as int, ns[e.0 as int].spec_recv(Fx(e.1)))
    } else {
        ns
    }
}

/// Hand a drained slot to its receivers, in insertion order.
pub open spec fn deliver_seq<N: Neuron>(ns: Seq<N>, sp: Seq<(usize, i64)>) -> Seq<N>
    decreases sp.len(),
{
    if sp.len() == 0 {
        ns
    } else {
        deliver_one(deliver_seq(ns, sp.drop_last()), sp.last())
    }
}

/// Post-synaptic plasticity on one incoming synapse; a stale id is a no-op.
pub open spec fn post_one<S: Synapse>(ss: Seq<S>, sid: usize, now: Fx) -> Seq<S> {
    if (sid as int) < ss.len() {
        ss.update(sid as int, ss[sid as int].spec_post(now))
    } else {
        ss
    }
}

/// Post-synaptic plasticity along a whole incoming list, in order.
pub open spec fn post_seq<S: Synapse>(ss: Seq<S>, ids: Seq<usize>, now: Fx) -> Seq<S>
    decreases ids.len(),
{
    if ids.len() == 0 {
        ss
    } else {
        post_one(post_seq(ss, ids.drop_last(), now), ids.last(), now)
    }
}

/// One outgoing edge of a firing sender: pre-synaptic plasticity when
/// learning is on, then — when transmission is on — the updated weight is
/// scheduled for the edge's receiver, one slot per tick of delay.
pub open spec fn send_one<S: Synapse>(
    ss: Seq<S>,
    slots: Seq<Seq<(usize, i64)>>,
    e: (usize, usize),
    now: Fx,
    learning: bool,
    transmission: bool,
) -> (Seq<S>, Seq<Seq<(usize, i64)>>) {
    let sid = e.1;
    if (sid as int) < ss.len() {
        let s1 = if learning {
            ss[sid as int].spec_pre(now)
        } else {
            ss[sid as int]
        };
        let ss2 = if learning {
            ss.update(sid as int, s1)
        } else {
            ss
        };
        let slots2 = if transmission {
            slots.update(
                s1.spec_delay() as int,
                slots[s1.spec_delay() as int].push((e.0, s1.spec_weight().0)),
            )
        } else {
            slots
        };
        (ss2, slots2)
    } else {
        (ss, slots)
    }
}

/// A firing sender's whole outgoing list, in order.
pub open spec fn send_seq<S: Synapse>(
    ss: Seq<S>,
    slots: Seq<Seq<(usize, i64)>>,
    entries: Seq<(usize, usize)>,
    now: Fx,
    learning: bool,
    transmission: bool,
) -> (Seq<S>, Seq<Seq<(usize, i64)>>)
    decreases entries.len(),
{
    if entries.len() == 0 {
        (ss, slots)
    } else {
        let p = send_seq(ss, slots, entries.drop_last(), now, learning, transmission);
        send_one(p.0, p.1, entries.last(), now, learning, transmission)
    }
}

/// Post-synaptic plasticity keeps the synapse count and every delay.
pub proof fn lemma_post_seq_delays<S: Synapse>(ss: Seq<S>, ids: Seq<usize>, now: Fx, cap: int)
    requires
        delays_ok(ss, cap),
    ensures
        post_seq(ss, ids, now).len() == ss.len(),
        delays_ok(post_seq(ss, ids, now), cap),
    decreases ids.len(),
{
    if ids.len() > 0 {
        lemma_post_seq_delays(ss, ids.drop_last(), now, cap);
        let prev = post_seq(ss, ids.drop_last(), now);
        let next = post_seq(ss, ids, now);
        let sid = ids.last();
        if (sid as int) < prev.len() {
            prev[sid as int].delay_fixed(now);
            assert forall|k: int| 0 <= k < next.len() implies 1 <= (
            #[trigger] next[k]).spec_delay() && (next[k].spec_delay() as int) < cap by {
                if k != sid as int {
                    assert(next[k] == prev[k]);
                }
            }
        }
    }
}

/// Pre-synaptic plasticity and scheduling keep the synapse count, every
/// delay, and the slot count.
pub proof fn lemma_send_seq_delays<S: Synapse>(
    ss: Seq<S>,
    slots: Seq<Seq<(usize, i64)>>,
    entries: Seq<(usize, usize)>,
    now: Fx,
    learning: bool,
    transmission: bool,
    cap: int,
)
    requires
        delays_ok(ss, cap),
        slots.len() == cap,
    ensures
        ({
            let p = send_seq(ss, slots, entries, now, learning, transmission);
            &&& p.0.len() == ss.len()
            &&& delays_ok(p.0, cap)
            &&& p.1.len() == cap
        }),
    decreases entries.len(),
{
    if entries.len() > 0 {
        lemma_send_seq_delays(ss, slots, entries.drop_last(), now, learning, transmission, cap);
        let p = send_seq(ss, slots, entries.drop_last(), now, learning, transmission);
        let q = send_seq(ss, slots, entries, now, learning, transmission);
        let sid = entries.last().1;
        if (sid as int) < p.0.len() {
            p.0[sid as int].delay_fixed(now);
            assert forall|k: int| 0 <= k < q.0.len() implies 1 <= (
            #[trigger] q.0[k]).spec_delay() && (q.0[k].spec_delay() as int) < cap by {
                if learning && k != sid as int {
                    assert(q.0[k] == p.0[k]);
                }
            }
        }
    }
}

/// The neuron phase never touches adjacency, the toggles or the clock, and
/// keeps every length and every delay.
pub proof fn lemma_run_neurons_frame<N: Neuron, S: Synapse>(
    m: NetModel<N, S>,
    out: Seq<Fx>,
    k: int,
    row: Seq<Fx>,
)
    requires
        delays_ok(m.synapses, m.slots.len() as int),
        k <= m.neurons.len(),
        k <= out.len(),
    ensures
        ({
            let p = run_neurons(m, out, k, row);
            &&& p.0.send == m.send
            &&& p.0.recv == m.recv
            &&& p.0.transmission == m.transmission
            &&& p.0.learning == m.learning
            &&& p.0.now == m.now
            &&& p.0.neurons.len() == m.neurons.len()
            &&& p.0.synapses.len() == m.synapses.len()
            &&& delays_ok(p.0.synapses, m.slots.len() as int)
            &&& p.0.slots.len() == m.slots.len()
            &&& p.1.len() == out.len()
        }),
    decreases k,
{
    if k > 0 {
        lemma_run_neurons_frame(m, out, k - 1, row);
        let p = run_neurons(m, out, k - 1, row);
        let g = p.0;
        if g.neurons[k - 1].spec_recv(row[k - 1]).spec_advance(fx_one()).spec_threshold().0 > 0 {
            let cap = m.slots.len() as int;
            let ss1 = if g.learning {
                post_seq(g.synapses, g.recv[k - 1], g.now)
            } else {
                g.synapses
            };
            lemma_post_seq_delays(g.synapses, g.recv[k - 1], g.now, cap);
            lemma_send_seq_delays(
                ss1,
                g.slots,
                g.send[k - 1],
                g.now,
                g.learning,
                g.transmission,
                cap,
            );
        }
    }
}

/// The update of neuron `i` within one tick step: external input, one unit
/// of integration, threshold test; on a fire, the amplitude accumulates
/// into the output slot, the neuron resets, incoming synapses learn
/// post-synaptically, and outgoing synapses learn pre-synaptically and
/// schedule deliveries.
pub open spec fn step_idx<N: Neuron, S: Synapse>(
    m: NetModel<N, S>,
    out: Seq<Fx>,
    i: int,
    input: Fx,
) -> (NetModel<N, S>, Seq<Fx>) {
    let n1 = m.neurons[i].spec_recv(input).spec_advance(fx_one());
    let v = n1.spec_threshold();
    if v.0 <= 0 {
        (NetModel { neurons: m.neurons.update(i, n1), ..m }, out)
    } else {
        let out2 = out.update(i, fadd(out[i], v));
        let n2 = n1.spec_reset();
        let ss1 = if m.learning {
            post_seq(m.synapses, m.recv[i], m.now)
        } else {
            m.synapses
        };
        let p = send_seq(ss1, m.slots, m.send[i], m.now, m.learning, m.transmission);
        (NetModel { neurons: m.neurons.update(i, n2), synapses: p.0, slots: p.1, ..m }, out2)
    }
}

/// Neurons `0 .. k` of one tick step, in index order.
pub open spec fn run_neurons<N: Neuron, S: Synapse>(
    m: NetModel<N, S>,
    out: Seq<Fx>,
    k: int,
    row: Seq<Fx>,
) -> (NetModel<N, S>, Seq<Fx>)
    decreases k,
{
    if k <= 0 {
        (m, out)
    } else {
        let p = run_neurons(m, out, k - 1, row);
        step_idx(p.0, p.1, k - 1, row[k - 1])
    }
}

/// One drain of the wheel: every slot moves one step closer to delivery
/// and the freed furthest slot is empty.
pub open spec fn shift_slots(slots: Seq<Seq<(usize, i64)>>) -> Seq<Seq<(usize, i64)>> {
    slots.subrange(1, slots.len() as int).push(Seq::<(usize, i64)>::empty())
}

/// The deliver phase of one tick step: the due slot is drained, its events
/// reach their receivers, and the wheel advances.
pub open spec fn after_deliver<N: Neuron, S: Synapse>(m: NetModel<N, S>) -> NetModel<N, S> {
    NetModel { neurons: deliver_seq(m.neurons, m.slots[0]), slots: shift_slots(m.slots), ..m }
}

/// One whole tick step: drain the due slot and deliver it, update every
/// neuron in index order, then advance the clock by one unit.
pub open spec fn step_model<N: Neuron, S: Synapse>(
    m: NetModel<N, S>,
    row: Seq<Fx>,
    out: Seq<Fx>,
) -> (NetModel<N, S>, Seq<Fx>) {
    let p = run_neurons(after_deliver(m), out, m.neurons.len() as int, row);
    (NetModel { now: fadd(p.0.now, fx_one()), ..p.0 }, p.1)
}

/// `t` tick steps, each fed its row of the input buffer.
pub open spec fn run_model<N: Neuron, S: Synapse>(
    m: NetModel<N, S>,
    inputs: Seq<Fx>,
    out: Seq<Fx>,
    t: int,
) -> (NetModel<N, S>, Seq<Fx>)
    decreases t,
{
    if t <= 0 {
        (m, out)
    } else {
        let p = run_model(m, inputs, out, t - 1);
        let nc = m.neurons.len() as int;
        step_model(p.0, inputs.subrange((t - 1) * nc, t * nc), p.1)
    }
}

/// Delivery keeps the neuron count.
pub proof fn lemma_deliver_seq_len<N: Neuron>(ns: Seq<N>, sp: Seq<(usize, i64)>)
    ensures
        deliver_seq(ns, sp).len() == ns.len(),
    decreases sp.len(),
{
    if sp.len() > 0 {
        lemma_deliver_seq_len(ns, sp.drop_last());
    }
}

/// One tick step preserves structural soundness, every count, the
/// adjacency, and both toggles.
pub proof fn lemma_step_model_frame<N: Neuron, S: Synapse>(
    m: NetModel<N, S>,
    row: Seq<Fx>,
    out: Seq<Fx>,
)
    requires
        model_wf(m),
        out.len() >= m.neurons.len(),
    ensures
        ({
            let p = step_model(m, row, out);
            &&& model_wf(p.0)
            &&& p.0.neurons.len() == m.neurons.len()
            &&& p.0.synapses.len() == m.synapses.len()
            &&& p.0.slots.len() == m.slots.len()
            &&& p.0.send == m.send
            &&& p.0.recv == m.recv
            &&& p.0.transmission == m.transmission
            &&& p.0.learning == m.learning
            &&& p.1.len() == out.len()
        }),
{
    let m1 = after_deliver(m);
    lemma_deliver_seq_len(m.neurons, m.slots[0]);
    lemma_run_neurons_frame(m1, out, m.neurons.len() as int, row);
}

/// Any number of tick steps preserves structural soundness, every count,
/// the adjacency, and both toggles.
pub proof fn lemma_run_model_frame<N: Neuron, S: Synapse>(
    m: NetModel<N, S>,
    inputs: Seq<Fx>,
    out: Seq<Fx>,
    t: int,
)
    requires
        model_wf(m),
        out.len() >= m.neurons.len(),
    ensures
        ({
            let p = run_model(m, inputs, out, t);
            &&& model_wf(p.0)
            &&& p.0.neurons.len() == m.neurons.len()
            &&& p.0.synapses.len() == m.synapses.len()
            &&& p.0.slots.len() == m.slots.len()
            &&& p.0.send == m.send
            &&& p.0.recv == m.recv
            &&& p.0.transmission == m.transmission
            &&& p.0.learning == m.learning
            &&& p.1.len() == out.len()
        }),
    decreases t,
{
    if t > 0 {
        lemma_run_model_frame(m, inputs, out, t - 1);
        let p = run_model(m, inputs, out, t - 1);
        let nc = m.neurons.len() as int;
        lemma_step_model_frame(p.0, inputs.subrange((t - 1) * nc, t * nc), p.1);
    }
}

/// With learning off, the outgoing pass leaves every synapse untouched.
pub proof fn lemma_send_seq_keeps_synapses<S: Synapse>(
    ss: Seq<S>,
    slots: Seq<Seq<(usize, i64)>>,
    entries: Seq<(usize, usize)>,
    now: Fx,
    transmission: bool,
)
    ensures
        send_seq(ss, slots, entries, now, false, transmission).0 == ss,
    decreases entries.len(),
{
    if entries.len() > 0 {
        lemma_send_seq_keeps_synapses(ss, slots, entries.drop_last(), now, transmission);
    }
}

/// With transmission off, the outgoing pass schedules nothing.
pub proof fn lemma_send_seq_keeps_slots<S: Synapse>(
    ss: Seq<S>,
    slots: Seq<Seq<(usize, i64)>>,
    entries: Seq<(usize, usize)>,
    now: Fx,
    learning: bool,
)
    ensures
        send_seq(ss, slots, entries, now, learning, false).1 == slots,
    decreases entries.len(),
{
    if entries.len() > 0 {
        lemma_send_seq_keeps_slots(ss, slots, entries.drop_last(), now, learning);
    }
}

/// With learning off, the neuron phase leaves every synapse untouched.
pub proof fn lemma_run_neurons_keeps_synapses<N: Neuron, S: Synapse>(
    m: NetModel<N, S>,
    out: Seq<Fx>,
    k: int,
    row: Seq<Fx>,
)
    requires
        !m.learning,
    ensures
        run_neurons(m, out, k, row).0.synapses == m.synapses,
        run_neurons(m, out, k, row).0.learning == m.learning,
    decreases k,
{
    if k > 0 {
        lemma_run_neurons_keeps_synapses(m, out, k - 1, row);
        let p = run_neurons(m, out, k - 1, row);
        let g = p.0;
        if g.neurons[k - 1].spec_recv(row[k - 1]).spec_advance(fx_one()).spec_threshold().0 > 0 {
            lemma_send_seq_keeps_synapses(g.synapses, g.slots, g.send[k - 1], g.now, g.transmission);
        }
    }
}

/// With transmission off, the neuron phase schedules nothing.
pub proof fn lemma_run_neurons_keeps_slots<N: Neuron, S: Synapse>(
    m: NetModel<N, S>,
    out: Seq<Fx>,
    k: int,
    row: Seq<Fx>,
)
    requires
        !m.transmission,
    ensures
        run_neurons(m, out, k, row).0.slots == m.slots,
        run_neurons(m, out, k, row).0.transmission == m.transmission,
    decreases k,
{
    if k > 0 {
        lemma_run_neurons_keeps_slots(m, out, k - 1, row);
        let p = run_neurons(m, out, k - 1, row);
        let g = p.0;
        if g.neurons[k - 1].spec_recv(row[k - 1]).spec_advance(fx_one()).spec_threshold().0 > 0 {
            let ss1 = if g.learning {
                post_seq(g.synapses, g.recv[k - 1], g.now)
            } else {
                g.synapses
            };
            lemma_send_seq_keeps_slots(ss1, g.slots, g.send[k - 1], g.now, g.learning);
        }
    }
}

/// With learning disabled, no tick ever changes any synapse — firing
/// activity notwithstanding — while delivery proceeds normally.
pub proof fn lemma_learning_disabled<N: Neuron, S: Synapse>(
    m: NetModel<N, S>,
    inputs: Seq<Fx>,
    out: Seq<Fx>,
    t: int,
)
    requires
        !m.learning,
    ensures
        run_model(m, inputs, out, t).0.synapses == m.synapses,
        run_model(m, inputs, out, t).0.learning == m.learning,
    decreases t,
{
    if t > 0 {
        lemma_learning_disabled(m, inputs, out, t - 1);
        let p = run_model(m, inputs, out, t - 1);
        let nc = m.neurons.len() as int;
        let row = inputs.subrange((t - 1) * nc, t * nc);
        let g = after_deliver(p.0);
        lemma_run_neurons_keeps_synapses(g, p.1, p.0.neurons.len() as int, row);
    }
}

/// The slots after `t` drains with nothing scheduled: everything moved `t`
/// slots closer, and the freed slots are empty.
pub open spec fn drained_slots(slots: Seq<Seq<(usize, i64)>>, t: int) -> Seq<Seq<(usize, i64)>> {
    Seq::new(
        slots.len(),
        |k: int|
            if k + t < slots.len() {
                slots[k + t]
            } else {
                Seq::<(usize, i64)>::empty()
            },
    )
}

/// With transmission disabled, no tick ever schedules a delivery — firing
/// activity notwithstanding: after `t` steps the wheel holds exactly the
/// old events, each `t` slots closer to delivery.
pub proof fn lemma_transmission_disabled<N: Neuron, S: Synapse>(
    m: NetModel<N, S>,
    inputs: Seq<Fx>,
    out: Seq<Fx>,
    t: int,
)
    requires
        !m.transmission,
        t >= 0,
        m.slots.len() >= 1,
    ensures
        run_model(m, inputs, out, t).0.slots == drained_slots(m.slots, t),
        run_model(m, inputs, out, t).0.transmission == m.transmission,
    decreases t,
{
    if t == 0 {
        assert(drained_slots(m.slots, 0) =~= m.slots);
    } else {
        lemma_transmission_disabled(m, inputs, out, t - 1);
        let p = run_model(m, inputs, out, t - 1);
        let nc = m.neurons.len() as int;
        let row = inputs.subrange((t - 1) * nc, t * nc);
        let g = after_deliver(p.0);
        lemma_run_neurons_keeps_slots(g, p.1, p.0.neurons.len() as int, row);
        let len = m.slots.len() as int;
        let a = drained_slots(m.slots, t - 1);
        assert forall|k2: int| 0 <= k2 < len implies shift_slots(a)[k2] == drained_slots(
            m.slots,
            t,
        )[k2] by {
            if k2 + 1 < len {
                assert(shift_slots(a)[k2] == a[k2 + 1]);
            }
        }
        assert(shift_slots(a) =~= drained_slots(m.slots, t));
    }
}

/// `b` extends `a` slot by slot: same slot count, and each slot of `b`
/// begins with the corresponding slot of `a` — every pending event keeps
/// its slot and its position.
pub open spec fn slots_extend(a: Seq<Seq<(usize, i64)>>, b: Seq<Seq<(usize, i64)>>) -> bool {
    &&& b.len() == a.len()
    &&& forall|jj: int|
        0 <= jj < a.len() ==> a[jj].len() <= (#[trigger] b[jj]).len() && b[jj].take(
            a[jj].len() as int,
        ) == a[jj]
}

/// Extension is reflexive.
pub proof fn lemma_slots_extend_refl(a: Seq<Seq<(usize, i64)>>)
    ensures
        slots_extend(a, a),
{
    assert forall|jj: int| 0 <= jj < a.len() implies a[jj].len() <= (#[trigger] a[jj]).len()
        && a[jj].take(a[jj].len() as int) == a[jj] by {
        assert(a[jj].take(a[jj].len() as int) =~= a[jj]);
    }
}

/// Extension is transitive.
pub proof fn lemma_slots_extend_trans(
    a: Seq<Seq<(usize, i64)>>,
    b: Seq<Seq<(usize, i64)>>,
    c: Seq<Seq<(usize, i64)>>,
)
    requires
        slots_extend(a, b),
        slots_extend(b, c),
    ensures
        slots_extend(a, c),
{
    assert forall|jj: int| 0 <= jj < a.len() implies a[jj].len() <= (#[trigger] c[jj]).len()
        && c[jj].take(a[jj].len() as int) == a[jj] by {
        let la = a[jj].len() as int;
        let lb = b[jj].len() as int;
        assert(b[jj].take(la) == a[jj]);
        assert(c[jj].take(lb) == b[jj]);
        assert forall|idx: int| 0 <= idx < la implies c[jj].take(la)[idx] == a[jj][idx] by {
            assert(c[jj].take(lb)[idx] == b[jj][idx]);
            assert(b[jj].take(la)[idx] == a[jj][idx]);
        }
        assert(c[jj].take(la) =~= a[jj]);
    }
}

/// The outgoing pass only appends to slots: every pending event keeps its
/// slot and its position.
pub proof fn lemma_send_seq_prefix<S: Synapse>(
    ss: Seq<S>,
    slots: Seq<Seq<(usize, i64)>>,
    entries: Seq<(usize, usize)>,
    now: Fx,
    learning: bool,
    transmission: bool,
    cap: int,
)
    requires
        delays_ok(ss, cap),
        slots.len() == cap,
    ensures
        slots_extend(slots, send_seq(ss, slots, entries, now, learning, transmission).1),
    decreases entries.len(),
{
    let p = send_seq(ss, slots, entries, now, learning, transmission);
    if entries.len() == 0 {
        lemma_slots_extend_refl(slots);
    } else {
        lemma_send_seq_prefix(ss, slots, entries.drop_last(), now, learning, transmission, cap);
        lemma_send_seq_delays(ss, slots, entries.drop_last(), now, learning, transmission, cap);
        let q = send_seq(ss, slots, entries.drop_last(), now, learning, transmission);
        let e = entries.last();
        let sid = e.1;
        if (sid as int) < q.0.len() {
            q.0[sid as int].delay_fixed(now);
        }
        assert forall|jj: int| 0 <= jj < q.1.len() implies q.1[jj].len() <= (
        #[trigger] p.1[jj]).len() && p.1[jj].take(q.1[jj].len() as int) == q.1[jj] by {
            let lq = q.1[jj].len() as int;
            if (sid as int) < q.0.len() && transmission {
                let s1 = if learning {
                    q.0[sid as int].spec_pre(now)
                } else {
                    q.0[sid as int]
                };
                q.0[sid as int].delay_fixed(now);
                let d = s1.spec_delay() as int;
                if jj == d {
                    assert(p.1[jj] == q.1[jj].push((e.0, s1.spec_weight().0)));
                } else {
                    assert(p.1[jj] == q.1[jj]);
                }
            } else {
                assert(p.1[jj] == q.1[jj]);
            }
            assert(p.1[jj].take(lq) =~= q.1[jj]);
        }
        assert(p.1.len() == q.1.len());
        lemma_slots_extend_trans(slots, q.1, p.1);
    }
}

/// The neuron phase only appends to slots: every pending event keeps its
/// slot and its position.
pub proof fn lemma_run_neurons_prefix<N: Neuron, S: Synapse>(
    m: NetModel<N, S>,
    out: Seq<Fx>,
    k: int,
    row: Seq<Fx>,
)
    requires
        delays_ok(m.synapses, m.slots.len() as int),
        k <= m.neurons.len(),
        k <= out.len(),
    ensures
        slots_extend(m.slots, run_neurons(m, out, k, row).0.slots),
    decreases k,
{
    if k <= 0 {
        lemma_slots_extend_refl(m.slots);
    }
    if k > 0 {
        lemma_run_neurons_prefix(m, out, k - 1, row);
        lemma_run_neurons_frame(m, out, k - 1, row);
        let p = run_neurons(m, out, k - 1, row);
        let g = p.0;
        if g.neurons[k - 1].spec_recv(row[k - 1]).spec_advance(fx_one()).spec_threshold().0 > 0 {
            let cap = m.slots.len() as int;
            let ss1 = if g.learning {
                post_seq(g.synapses, g.recv[k - 1], g.now)
            } else {
                g.synapses
            };
            lemma_post_seq_delays(g.synapses, g.recv[k - 1], g.now, cap);
            lemma_send_seq_prefix(
                ss1,
                g.slots,
                g.send[k - 1],
                g.now,
                g.learning,
                g.transmission,
                cap,
            );
            lemma_slots_extend_trans(
                m.slots,
                g.slots,
                run_neurons(m, out, k, row).0.slots,
            );
        } else {
            assert(run_neurons(m, out, k, row).0.slots == g.slots);
        }
    }
}

/// Post-synaptic plasticity changes no synapse's delay.
pub proof fn lemma_post_seq_delay_eq<S: Synapse>(ss: Seq<S>, ids: Seq<usize>, now: Fx)
    ensures
        post_seq(ss, ids, now).len() == ss.len(),
        forall|k: int|
            0 <= k < ss.len() ==> (#[trigger] post_seq(ss, ids, now)[k]).spec_delay()
                == ss[k].spec_delay(),
    decreases ids.len(),
{
    if ids.len() > 0 {
        lemma_post_seq_delay_eq(ss, ids.drop_last(), now);
        let prev = post_seq(ss, ids.drop_last(), now);
        let next = post_seq(ss, ids, now);
        let sid = ids.last();
        if (sid as int) < prev.len() {
            prev[sid as int].delay_fixed(now);
        }
        assert forall|k: int| 0 <= k < ss.len() implies (#[trigger] next[k]).spec_delay()
            == ss[k].spec_delay() by {
            if (sid as int) < prev.len() && k != sid as int {
                assert(next[k] == prev[k]);
            }
        }
    }
}

/// The outgoing pass changes no synapse's delay.
pub proof fn lemma_send_seq_delay_eq<S: Synapse>(
    ss: Seq<S>,
    slots: Seq<Seq<(usize, i64)>>,
    entries: Seq<(usize, usize)>,
    now: Fx,
    learning: bool,
    transmission: bool,
)
    ensures
        send_seq(ss, slots, entries, now, learning, transmission).0.len() == ss.len(),
        forall|k: int|
            0 <= k < ss.len() ==> (#[trigger] send_seq(
                ss,
                slots,
                entries,
                now,
                learning,
                transmission,
            ).0[k]).spec_delay() == ss[k].spec_delay(),
    decreases entries.len(),
{
    if entries.len() > 0 {
        lemma_send_seq_delay_eq(ss, slots, entries.drop_last(), now, learning, transmission);
        let p = send_seq(ss, slots, entries.drop_last(), now, learning, transmission);
        let q = send_seq(ss, slots, entries, now, learning, transmission);
        let sid = entries.last().1;
        if (sid as int) < p.0.len() {
            p.0[sid as int].delay_fixed(now);
        }
        assert forall|k: int| 0 <= k < ss.len() implies (#[trigger] q.0[k]).spec_delay()
            == ss[k].spec_delay() by {
            if (sid as int) < p.0.len() && learning && k != sid as int {
                assert(q.0[k] == p.0[k]);
            }
        }
    }
}

/// The neuron phase changes no synapse's delay.
pub proof fn lemma_run_neurons_delay_eq<N: Neuron, S: Synapse>(
    m: NetModel<N, S>,
    out: Seq<Fx>,
    k: int,
    row: Seq<Fx>,
)
    ensures
        run_neurons(m, out, k, row).0.synapses.len() == m.synapses.len(),
        forall|kk: int|
            0 <= kk < m.synapses.len() ==> (#[trigger] run_neurons(
                m,
                out,
                k,
                row,
            ).0.synapses[kk]).spec_delay() == m.synapses[kk].spec_delay(),
    decreases k,
{
    if k > 0 {
        lemma_run_neurons_delay_eq(m, out, k - 1, row);
        let p = run_neurons(m, out, k - 1, row);
        let g = p.0;
        if g.neurons[k - 1].spec_recv(row[k - 1]).spec_advance(fx_one()).spec_threshold().0 > 0 {
            let ss1 = if g.learning {
                post_seq(g.synapses, g.recv[k - 1], g.now)
            } else {
                g.synapses
            };
            lemma_post_seq_delay_eq(g.synapses, g.recv[k - 1], g.now);
            lemma_send_seq_delay_eq(ss1, g.slots, g.send[k - 1], g.now, g.learning, g.transmission);
        }
    }
}

/// The neuron phase commits to its slots monotonically: whatever the pass
/// over the first `k1` neurons scheduled is still pending, unmoved, after
/// the pass over the first `k2 >= k1`.
pub proof fn lemma_run_neurons_mono<N: Neuron, S: Synapse>(
    m: NetModel<N, S>,
    out: Seq<Fx>,
    k1: int,
    k2: int,
    row: Seq<Fx>,
)
    requires
        delays_ok(m.synapses, m.slots.len() as int),
        0 <= k1 <= k2,
        k2 <= m.neurons.len(),
        k2 <= out.len(),
    ensures
        slots_extend(run_neurons(m, out, k1, row).0.slots, run_neurons(m, out, k2, row).0.slots),
    decreases k2,
{
    if k2 == k1 {
        lemma_slots_extend_refl(run_neurons(m, out, k1, row).0.slots);
    } else {
        lemma_run_neurons_mono(m, out, k1, k2 - 1, row);
        lemma_run_neurons_frame(m, out, k2 - 1, row);
        let p = run_neurons(m, out, k2 - 1, row);
        let g = p.0;
        if g.neurons[k2 - 1].spec_recv(row[k2 - 1]).spec_advance(fx_one()).spec_threshold().0 > 0 {
            let cap = m.slots.len() as int;
            let ss1 = if g.learning {
                post_seq(g.synapses, g.recv[k2 - 1], g.now)
            } else {
                g.synapses
            };
            lemma_post_seq_delays(g.synapses, g.recv[k2 - 1], g.now, cap);
            lemma_send_seq_prefix(
                ss1,
                g.slots,
                g.send[k2 - 1],
                g.now,
                g.learning,
                g.transmission,
                cap,
            );
            lemma_slots_extend_trans(
                run_neurons(m, out, k1, row).0.slots,
                g.slots,
                run_neurons(m, out, k2, row).0.slots,
            );
        } else {
            assert(run_neurons(m, out, k2, row).0.slots == g.slots);
        }
    }
}

/// A pending event survives any extension of the slots.
pub proof fn lemma_extend_contains(
    a: Seq<Seq<(usize, i64)>>,
    b: Seq<Seq<(usize, i64)>>,
    d: int,
    x: (usize, i64),
)
    requires
        slots_extend(a, b),
        0 <= d < a.len(),
        a[d].contains(x),
    ensures
        b[d].contains(x),
{
    let i0 = choose|i: int| 0 <= i < a[d].len() && a[d][i] == x;
    assert(b[d].take(a[d].len() as int)[i0] == a[d][i0]);
    assert(b[d][i0] == x);
}

/// The model part of the neuron phase never depends on the output buffer.
pub proof fn lemma_run_neurons_out_irrelevant<N: Neuron, S: Synapse>(
    m: NetModel<N, S>,
    out1: Seq<Fx>,
    out2: Seq<Fx>,
    k: int,
    row: Seq<Fx>,
)
    ensures
        run_neurons(m, out1, k, row).0 == run_neurons(m, out2, k, row).0,
    decreases k,
{
    if k > 0 {
        lemma_run_neurons_out_irrelevant(m, out1, out2, k - 1, row);
    }
}

/// With transmission on, processing outgoing entry `j` of a firing sender
/// deposits a spike for that entry's receiver in the slot given by its
/// synapse's delay.
pub proof fn lemma_send_seq_schedules<S: Synapse>(
    ss: Seq<S>,
    slots: Seq<Seq<(usize, i64)>>,
    entries: Seq<(usize, usize)>,
    now: Fx,
    learning: bool,
    cap: int,
    j: int,
)
    requires
        delays_ok(ss, cap),
        slots.len() == cap,
        0 <= j < entries.len(),
        (entries[j].1 as int) < ss.len(),
    ensures
        ({
            let p = send_seq(ss, slots, entries, now, learning, true);
            let d = ss[entries[j].1 as int].spec_delay() as int;
            exists|w: i64| #[trigger] p.1[d].contains((entries[j].0, w))
        }),
    decreases entries.len(),
{
    let p = send_seq(ss, slots, entries, now, learning, true);
    let rid = entries[j].0;
    let sid = entries[j].1;
    let d = ss[sid as int].spec_delay() as int;
    let q = send_seq(ss, slots, entries.drop_last(), now, learning, true);
    lemma_send_seq_delays(ss, slots, entries.drop_last(), now, learning, true, cap);
    if j == entries.len() - 1 {
        lemma_send_seq_delay_eq(ss, slots, entries.drop_last(), now, learning, true);
        let s1 = if learning {
            q.0[sid as int].spec_pre(now)
        } else {
            q.0[sid as int]
        };
        q.0[sid as int].delay_fixed(now);
        assert(s1.spec_delay() as int == d);
        let w = s1.spec_weight().0;
        assert(p.1[d] == q.1[d].push((rid, w)));
        assert(p.1[d][q.1[d].len() as int] == (rid, w));
        assert(p.1[d].contains((rid, w)));
    } else {
        assert(entries.drop_last()[j] == entries[j]);
        lemma_send_seq_schedules(ss, slots, entries.drop_last(), now, learning, cap, j);
        let w = choose|w: i64| #[trigger] q.1[d].contains((rid, w));
        let e = entries.last();
        let sid2 = e.1;
        if (sid2 as int) < q.0.len() {
            let s1 = if learning {
                q.0[sid2 as int].spec_pre(now)
            } else {
                q.0[sid2 as int]
            };
            q.0[sid2 as int].delay_fixed(now);
            let d2 = s1.spec_delay() as int;
            let i0 = choose|i: int| 0 <= i < q.1[d].len() && q.1[d][i] == (rid, w);
            if d == d2 {
                assert(p.1[d] == q.1[d].push((e.0, s1.spec_weight().0)));
                assert(p.1[d][i0] == (rid, w));
            } else {
                assert(p.1[d] == q.1[d]);
            }
            assert(p.1[d].contains((rid, w)));
        } else {
            assert(p.1[d].contains((rid, w)));
        }
    }
}

/// Whether neuron `i` crosses its threshold during this tick step.
pub open spec fn fires_in_step<N: Neuron, S: Synapse>(
    m: NetModel<N, S>,
    row: Seq<Fx>,
    i: int,
) -> bool {
    let g = run_neurons(after_deliver(m), Seq::<Fx>::empty(), i, row).0;
    g.neurons[i].spec_recv(row[i]).spec_advance(fx_one()).spec_threshold().0 > 0
}

/// When a neuron fires during a tick step with transmission on, every one
/// of its outgoing edges leaves a spike for that edge's receiver in the
/// slot given by its synapse's delay: together with
/// [`lemma_exact_delivery`], the spike reaches the receiver exactly that
/// many further steps on.
pub proof fn lemma_fire_schedules<N: Neuron, S: Synapse>(
    m: NetModel<N, S>,
    row: Seq<Fx>,
    out: Seq<Fx>,
    i: int,
    j: int,
)
    requires
        model_wf(m),
        out.len() >= m.neurons.len(),
        m.transmission,
        0 <= i < m.neurons.len(),
        fires_in_step(m, row, i),
        0 <= j < m.send[i].len(),
    ensures
        ({
            let rid = m.send[i][j].0;
            let d = m.synapses[m.send[i][j].1 as int].spec_delay() as int;
            exists|w: i64| #[trigger] step_model(m, row, out).0.slots[d].contains((rid, w))
        }),
{
    let m1 = after_deliver(m);
    let nc = m.neurons.len() as int;
    let cap = m.slots.len() as int;
    let rid = m.send[i][j].0;
    let sid = m.send[i][j].1;
    let d = m.synapses[sid as int].spec_delay() as int;
    lemma_deliver_seq_len(m.neurons, m.slots[0]);
    lemma_run_neurons_out_irrelevant(m1, Seq::<Fx>::empty(), out, i, row);
    lemma_run_neurons_frame(m1, out, i, row);
    lemma_run_neurons_delay_eq(m1, out, i, row);
    let gp = run_neurons(m1, out, i, row);
    let g = gp.0;
    assert(g.send[i] == m.send[i]);
    assert(g.neurons[i].spec_recv(row[i]).spec_advance(fx_one()).spec_threshold().0 > 0);
    let ss1 = if g.learning {
        post_seq(g.synapses, g.recv[i], g.now)
    } else {
        g.synapses
    };
    lemma_post_seq_delays(g.synapses, g.recv[i], g.now, cap);
    lemma_post_seq_delay_eq(g.synapses, g.recv[i], g.now);
    assert(ss1[sid as int].spec_delay() as int == d);
    assert((run_neurons(m1, out, i + 1, row).0.slots, run_neurons(m1, out, i + 1, row).0.synapses)
        == (
    send_seq(ss1, g.slots, g.send[i], g.now, g.learning, true).1,
    send_seq(ss1, g.slots, g.send[i], g.now, g.learning, true).0,
    ));
    lemma_send_seq_schedules(ss1, g.slots, g.send[i], g.now, g.learning, cap, j);
    let w = choose|w: i64|
        #[trigger] send_seq(ss1, g.slots, g.send[i], g.now, g.learning, true).1[d].contains(
            (rid, w),
        );
    lemma_run_neurons_mono(m1, out, i + 1, nc, row);
    lemma_run_neurons_frame(m1, out, i + 1, row);
    assert((m.synapses[sid as int].spec_delay() as int) < cap);
    assert(run_neurons(m1, out, i + 1, row).0.slots.len() == cap);
    lemma_extend_contains(
        run_neurons(m1, out, i + 1, row).0.slots,
        run_neurons(m1, out, nc, row).0.slots,
        d,
        (rid, w),
    );
    assert(step_model(m, row, out).0.slots[d].contains((rid, w)));
}

/// One tick step moves an event pending `k` slots away to `k - 1` slots
/// away, at the same position: it is not delivered early and not lost.
pub proof fn lemma_step_moves_pending<N: Neuron, S: Synapse>(
    m: NetModel<N, S>,
    row: Seq<Fx>,
    out: Seq<Fx>,
    k: int,
    idx: int,
)
    requires
        model_wf(m),
        out.len() >= m.neurons.len(),
        1 <= k < m.slots.len(),
        0 <= idx < m.slots[k].len(),
    ensures
        step_model(m, row, out).0.slots[k - 1].len() > idx,
        step_model(m, row, out).0.slots[k - 1][idx] == m.slots[k][idx],
{
    let m1 = after_deliver(m);
    assert(m1.slots[k - 1] == m.slots[k]);
    lemma_deliver_seq_len(m.neurons, m.slots[0]);
    lemma_run_neurons_prefix(m1, out, m.neurons.len() as int, row);
    let fin = run_neurons(m1, out, m.neurons.len() as int, row).0.slots;
    let la = m1.slots[k - 1].len() as int;
    assert(fin[k - 1].take(la) == m1.slots[k - 1]);
    assert(fin[k - 1].take(la)[idx] == fin[k - 1][idx]);
}

/// An event pending `k` slots away is delivered by exactly the
/// `(k + 1)`-th tick step: through the first `j <= k` steps it waits,
/// `k - j` slots from delivery, at an unchanged position — so the step
/// after the `k`-th drains it, and no earlier step does.
pub proof fn lemma_exact_delivery<N: Neuron, S: Synapse>(
    m: NetModel<N, S>,
    inputs: Seq<Fx>,
    out: Seq<Fx>,
    k: int,
    idx: int,
    j: int,
)
    requires
        model_wf(m),
        out.len() >= m.neurons.len(),
        0 <= k < m.slots.len(),
        0 <= idx < m.slots[k].len(),
        0 <= j <= k,
    ensures
        run_model(m, inputs, out, j).0.slots[k - j].len() > idx,
        run_model(m, inputs, out, j).0.slots[k - j][idx] == m.slots[k][idx],
    decreases j,
{
    if j > 0 {
        lemma_exact_delivery(m, inputs, out, k, idx, j - 1);
        lemma_run_model_frame(m, inputs, out, j - 1);
        let p = run_model(m, inputs, out, j - 1);
        let nc = m.neurons.len() as int;
        lemma_step_moves_pending(
            p.0,
            inputs.subrange((j - 1) * nc, j * nc),
            p.1,
            k - (j - 1),
            idx,
        );
    }
}

/// A network of neurons of one kind joined by synapses of one kind.
pub struct Network<N: Neuron, S: Synapse> {
    neurons: Vec<N>,
    synapses: Vec<S>,
    send_synapses: Vec<Vec<(usize, usize)>>,
    recv_synapses: Vec<Vec<usize>>,
    scheduler: WheelTimer<(usize, i64)>,
    transmission_enabled: bool,
    learning_enabled: bool,
    now: Fx,
}

impl<N: Neuron, S: Synapse> Network<N, S> {
    /// The mathematical snapshot this network denotes.
    pub closed spec fn model(self) -> NetModel<N, S> {
        NetModel {
            neurons: self.neurons@,
            synapses: self.synapses@,
            send: self.send_synapses@.map_values(|v: Vec<(usize, usize)>| v@),
            recv: self.recv_synapses@.map_values(|v: Vec<usize>| v@),
            slots: wheel_slots(self.scheduler),
            transmission: self.transmission_enabled,
            learning: self.learning_enabled,
            now: self.now,
        }
    }

    /// The slots model matches the wheel's capacity, and the model is
    /// structurally sound.
    pub closed spec fn wf(self) -> bool {
        &&& wheel_slots(self.scheduler).len() == wheel_capacity(self.scheduler)
        &&& model_wf(self.model())
    }

    /// Structural soundness is visible through the model alone.
    pub proof fn lemma_wf_model(self)
        requires
            self.wf(),
        ensures
            model_wf(self.model()),
    {
    }

    /// An empty network whose scheduler can hold any delay up to
    /// `max_delay` whole ticks.
    pub fn new(max_delay: usize) -> (r: Network<N, S>)
        requires
            max_delay < usize::MAX,
        ensures
            r.wf(),
            r.model() == (NetModel::<N, S> {
                neurons: Seq::empty(),
                synapses: Seq::empty(),
                send: Seq::empty(),
                recv: Seq::empty(),
                slots: Seq::new((max_delay + 1) as nat, |k: int| Seq::<(usize, i64)>::empty()),
                transmission: true,
                learning: true,
                now: Fx(0),
            }),
    {
        let r = Network {
            neurons: Vec::new(),
            synapses: Vec::new(),
            send_synapses: Vec::new(),
            recv_synapses: Vec::new(),
            scheduler: wheel_new(max_delay + 1),
            transmission_enabled: true,
            learning_enabled: true,
            now: Fx(0),
        };
        proof {
            assert(r.model().send =~= Seq::<Seq<(usize, usize)>>::empty());
            assert(r.model().recv =~= Seq::<Seq<usize>>::empty());
        }
        r
    }

    /// How many neurons the network owns.
    pub fn get_neuron_count(&self) -> (r: usize)
        ensures
            r == self.model().neurons.len(),
    {
        self.neurons.len()
    }

    /// How many synapses the network owns.
    pub fn get_synapse_count(&self) -> (r: usize)
        ensures
            r == self.model().synapses.len(),
    {
        self.synapses.len()
    }

    /// Register a neuron; it gets the next dense id.
    pub fn add_neuron(&mut self, neuron: N) -> (id: usize)
        requires
            old(self).wf(),
        ensures
            final(self).wf(),
            id == old(self).model().neurons.len(),
            final(self).model() == (NetModel {
                neurons: old(self).model().neurons.push(neuron),
                send: old(self).model().send.push(Seq::<(usize, usize)>::empty()),
                recv: old(self).model().recv.push(Seq::<usize>::empty()),
                ..old(self).model()
            }),
    {
        let id = self.neurons.len();
        self.neurons.push(neuron);
        self.send_synapses.push(Vec::new());
        self.recv_synapses.push(Vec::new());
        proof {
            assert(self.model().send =~= old(self).model().send.push(
                Seq::<(usize, usize)>::empty(),
            ));
            assert(self.model().recv =~= old(self).model().recv.push(Seq::<usize>::empty()));
        }
        id
    }

    /// Register a synapse from `sendr_id` to `recvr_id`.  Fails with
    /// [`NeuralError::MissingNeuron`], mutating nothing, exactly when either
    /// endpoint id is unknown; otherwise the synapse gets the next dense id
    /// and both adjacency lists grow by one entry.
    pub fn add_synapse(&mut self, synapse: S, sendr_id: usize, recvr_id: usize) -> (r: Result<
        usize,
        NeuralError,
    >)
        requires
            old(self).wf(),
            1 <= synapse.spec_delay(),
            (synapse.spec_delay() as int) < old(self).model().slots.len(),
        ensures
            final(self).wf(),
            (sendr_id >= old(self).model().neurons.len() || recvr_id >= old(
                self,
            ).model().neurons.len()) ==> r == Result::<usize, NeuralError>::Err(
                NeuralError::MissingNeuron,
            ) && *final(self) == *old(self),
            (sendr_id < old(self).model().neurons.len() && recvr_id < old(
                self,
            ).model().neurons.len()) ==> {
                let m = old(self).model();
                let id = m.synapses.len() as int;
                &&& r == Result::<usize, NeuralError>::Ok(m.synapses.len() as usize)
                &&& final(self).model() == (NetModel {
                    synapses: m.synapses.push(synapse),
                    send: m.send.update(
                        sendr_id as int,
                        m.send[sendr_id as int].push((recvr_id, id as usize)),
                    ),
                    recv: m.recv.update(recvr_id as int, m.recv[recvr_id as int].push(id as usize)),
                    ..m
                })
            },
    {
        if sendr_id >= self.neurons.len() || recvr_id >= self.neurons.len() {
            return Err(NeuralError::MissingNeuron);
        }
        let synapse_id = self.synapses.len();
        self.synapses.push(synapse);
        self.send_synapses[sendr_id].push((recvr_id, synapse_id));
        self.recv_synapses[recvr_id].push(synapse_id);
        proof {
            assert(self.model().send =~= old(self).model().send.update(
                sendr_id as int,
                old(self).model().send[sendr_id as int].push((recvr_id, synapse_id)),
            ));
            assert(self.model().recv =~= old(self).model().recv.update(
                recvr_id as int,
                old(self).model().recv[recvr_id as int].push(synapse_id),
            ));
        }
        Ok(synapse_id)
    }

    /// Write the current weight of every synapse, indexed by synapse id,
    /// into the caller's buffer; slots past the synapse count are left
    /// alone.
    pub fn dump_weights(&self, weights: &mut Vec<Fx>)
        requires
            old(weights).len() >= self.model().synapses.len(),
        ensures
            final(weights).len() == old(weights).len(),
            forall|k: int|
                0 <= k < self.model().synapses.len() ==> final(weights)[k] == (
                #[trigger] self.model().synapses[k]).spec_weight(),
            forall|k: int|
                self.model().synapses.len() <= k < old(weights).len() ==> final(weights)[k] == old(
                    weights,
                )[k],
    {
        let mut i: usize = 0;
        while i < self.synapses.len()
            invariant
                i <= self.synapses.len(),
                weights.len() == old(weights).len(),
                old(weights).len() >= self.model().synapses.len(),
                self.model().synapses == self.synapses@,
                forall|k: int|
                    0 <= k < i ==> weights[k] == (
                    #[trigger] self.synapses@[k]).spec_weight(),
                forall|k: int| i <= k < old(weights).len() ==> weights[k] == old(weights)[k],
            decreases self.synapses.len() - i,
        {
            let w = self.synapses[i].weight();
            weights.set(i, w);
            i = i + 1;
        }
    }

    /// Switch spike delivery on or off; learning is unaffected.
    pub fn toggle_transmission(&mut self, enabled: bool)
        requires
            old(self).wf(),
        ensures
            final(self).wf(),
            final(self).model() == (NetModel { transmission: enabled, ..old(self).model() }),
    {
        self.transmission_enabled = enabled;
    }

    /// Advance the simulation by `ticks` whole steps.
    ///
    /// `inputs` holds `ticks` consecutive rows of one external input value
    /// per neuron; `outputs` holds one accumulator per neuron, into which
    /// every firing amplitude of these steps is summed.  Each step drains
    /// the scheduler slot that fell due, updates every neuron in index
    /// order, lets the synapses of every firing neuron learn and schedule,
    /// and advances the clock one unit.  The whole effect equals
    /// [`run_model`] on the starting model, so zero steps change nothing.
    /// Returns the clock after the last step.
    #[verifier::loop_isolation(false)]
    #[verifier::rlimit(60)]
    pub fn tick(&mut self, ticks: usize, inputs: &Vec<Fx>, outputs: &mut Vec<Fx>) -> (r: Fx)
        requires
            old(self).wf(),
            inputs@.len() >= ticks * old(self).model().neurons.len(),
            old(outputs).len() >= old(self).model().neurons.len(),
            ticks * old(self).model().neurons.len() <= usize::MAX,
        ensures
            final(self).wf(),
            final(self).model() == run_model(
                old(self).model(),
                inputs@,
                old(outputs)@,
                ticks as int,
            ).0,
            final(outputs)@ == run_model(old(self).model(), inputs@, old(outputs)@, ticks as int).1,
            final(outputs).len() == old(outputs).len(),
            r == final(self).model().now,
            ticks == 0 ==> *final(self) == *old(self) && final(outputs)@ == old(outputs)@,
    {
        if ticks == 0 {
            return self.now;
        }
        let ghost m0 = self.model();
        let ghost out0 = outputs@;
        let neuron_count = self.neurons.len();
        let mut ct: usize = 0;
        while ct < ticks
            invariant
                ct <= ticks,
                self.wf(),
                neuron_count == m0.neurons.len(),
                self.neurons.len() == neuron_count,
                outputs.len() == out0.len(),
                out0.len() >= neuron_count,
                inputs@.len() >= ticks * neuron_count,
                ticks * neuron_count <= usize::MAX,
                self.model() == run_model(m0, inputs@, out0, ct as int).0,
                outputs@ == run_model(m0, inputs@, out0, ct as int).1,
            decreases ticks - ct,
        {
            let ghost mct = self.model();
            let ghost outct = outputs@;
            let ghost nc = neuron_count as int;
            let ghost row = inputs@.subrange(ct as int * nc, (ct as int + 1) * nc);
            proof {
                assert((ct as int + 1) * nc <= ticks as int * nc) by (nonlinear_arith)
                    requires
                        ct as int + 1 <= ticks as int,
                        nc >= 0,
                ;
                assert((ct as int + 1) * nc == ct as int * nc + nc) by (nonlinear_arith);
            }
            // Deliver: drain the slot that falls due at this instant.
            let spikes = wheel_tick(&mut self.scheduler);
            let ghost m1 = after_deliver(mct);
            let mut j: usize = 0;
            while j < spikes.len()
                invariant
                    j <= spikes.len(),
                    spikes@ == mct.slots[0],
                    self.neurons.len() == neuron_count,
                    self.neurons@ == deliver_seq(mct.neurons, spikes@.take(j as int)),
                    self.model() == (NetModel {
                        neurons: deliver_seq(mct.neurons, spikes@.take(j as int)),
                        ..m1
                    }),
                    wheel_slots(self.scheduler).len() == wheel_capacity(self.scheduler),
                    wheel_capacity(self.scheduler) == mct.slots.len(),
                decreases spikes.len() - j,
            {
                let e = spikes[j];
                if e.0 < self.neurons.len() {
                    let mut n = self.neurons[e.0];
                    n.recv(Fx(e.1));
                    self.neurons.set(e.0, n);
                }
                proof {
                    assert(spikes@.take(j as int + 1).drop_last() =~= spikes@.take(j as int));
                    assert(spikes@.take(j as int + 1).last() == spikes@[j as int]);
                }
                j = j + 1;
            }
            proof {
                assert(spikes@.take(spikes@.len() as int) =~= spikes@);
                assert(self.model() == m1);
                assert(m1.neurons.len() == neuron_count);
                assert(outct.len() == out0.len());
                assert(mct.neurons.len() == neuron_count);
            }
            // Integrate, detect, learn and propagate, neuron by neuron.
            let mut i: usize = 0;
            while i < neuron_count
                invariant
                    i <= neuron_count,
                    self.neurons.len() == neuron_count,
                    self.synapses.len() == mct.synapses.len(),
                    outputs.len() == out0.len(),
                    out0.len() >= neuron_count,
                    inputs@.len() >= ticks * neuron_count,
                    ticks * neuron_count <= usize::MAX,
                    ct < ticks,
                    neuron_count == m0.neurons.len(),
                    nc == neuron_count as int,
                    row == inputs@.subrange(ct as int * nc, (ct as int + 1) * nc),
                    m1 == after_deliver(mct),
                    model_wf(mct),
                    wheel_slots(self.scheduler).len() == wheel_capacity(self.scheduler),
                    wheel_capacity(self.scheduler) == mct.slots.len(),
                    delays_ok(self.synapses@, mct.slots.len() as int),
                    self.model() == run_neurons(m1, outct, i as int, row).0,
                    outputs@ == run_neurons(m1, outct, i as int, row).1,
                decreases neuron_count - i,
            {
                let ghost gp = run_neurons(m1, outct, i as int, row);
                let ghost gm = gp.0;
                proof {
                    lemma_run_neurons_frame(m1, outct, i as int, row);
                    assert(gm.recv == mct.recv);
                    assert(gm.send == mct.send);
                    assert(self.recv_synapses@.len() == self.model().recv.len());
                    assert(self.send_synapses@.len() == self.model().send.len());
                    assert(self.recv_synapses@.len() == neuron_count);
                    assert(self.send_synapses@.len() == neuron_count);
                    assert(gm.send[i as int] == self.send_synapses@[i as int]@);
                    assert(gm.recv[i as int] == self.recv_synapses@[i as int]@);
                    assert(run_neurons(m1, outct, i as int + 1, row) == step_idx(
                        gp.0,
                        gp.1,
                        i as int,
                        row[i as int],
                    ));
                    assert((ct as int + 1) * nc == ct as int * nc + nc) by (nonlinear_arith);
                    assert((ct as int) * nc + (i as int) < (ct as int + 1) * nc);
                    assert((ct as int + 1) * nc <= ticks as int * nc) by (nonlinear_arith)
                        requires
                            ct as int + 1 <= ticks as int,
                            nc >= 0,
                    ;
                    assert(row[i as int] == inputs@[ct as int * nc + i as int]);
                }
                let idx = ct * neuron_count + i;
                let input = inputs[idx];
                let mut n = self.neurons[i];
                n.recv(input);
                n.tick(Fx(1_000_000));
                let v = n.threshold();
                if v.0 <= 0 {
                    self.neurons.set(i, n);
                } else {
                    let ov = outputs[i];
                    outputs.set(i, ov.add(v));
                    n.reset();
                    self.neurons.set(i, n);
                    let ghost ss0 = self.synapses@;
                    let ghost slots0 = wheel_slots(self.scheduler);
                    let ghost ns_after = self.neurons@;
                    let ghost out_after = outputs@;
                    let ghost sends0 = self.send_synapses@;
                    let ghost recvs0 = self.recv_synapses@;
                    let ghost rv = gm.recv[i as int];
                    let ghost sv = gm.send[i as int];
                    let ghost ss1 = if gm.learning {
                        post_seq(ss0, rv, gm.now)
                    } else {
                        ss0
                    };
                    if self.learning_enabled {
                        let rl = self.recv_synapses[i].len();
                        let mut j2: usize = 0;
                        while j2 < rl
                            invariant
                                j2 <= rl,
                                rl == rv.len(),
                                i < self.recv_synapses.len(),
                                self.recv_synapses@.map_values(
                                    |v: Vec<usize>| v@,
                                )[i as int] == rv,
                                self.synapses.len() == ss0.len(),
                                gm.now == self.now,
                                gm.learning == self.learning_enabled,
                                gm.transmission == self.transmission_enabled,
                                self.neurons@ == ns_after,
                                outputs@ == out_after,
                                self.send_synapses@ == sends0,
                                self.recv_synapses@ == recvs0,
                                wheel_slots(self.scheduler) == slots0,
                                wheel_capacity(self.scheduler) == mct.slots.len(),
                                delays_ok(self.synapses@, mct.slots.len() as int),
                                self.synapses@ == post_seq(ss0, rv.take(j2 as int), gm.now),
                            decreases rl - j2,
                        {
                            let sid = self.recv_synapses[i][j2];
                            if sid < self.synapses.len() {
                                let mut s = self.synapses[sid];
                                proof {
                                    s.delay_fixed(self.now);
                                }
                                s.post_recv(self.now);
                                self.synapses.set(sid, s);
                            }
                            proof {
                                assert(rv.take(j2 as int + 1).drop_last() =~= rv.take(j2 as int));
                                assert(rv.take(j2 as int + 1).last() == rv[j2 as int]);
                            }
                            j2 = j2 + 1;
                        }
                        proof {
                            assert(rv.take(rv.len() as int) =~= rv);
                            assert(self.synapses@ == ss1);
                        }
                    }
                    let sl = self.send_synapses[i].len();
                    let mut j3: usize = 0;
                    while j3 < sl
                        invariant
                            j3 <= sl,
                            sl == sv.len(),
                            i < self.send_synapses.len(),
                            self.send_synapses@.map_values(
                                |v: Vec<(usize, usize)>| v@,
                            )[i as int] == sv,
                            self.synapses.len() == ss0.len(),
                            gm.now == self.now,
                            gm.learning == self.learning_enabled,
                            gm.transmission == self.transmission_enabled,
                            self.neurons@ == ns_after,
                            outputs@ == out_after,
                            self.send_synapses@ == sends0,
                            self.recv_synapses@ == recvs0,
                            wheel_slots(self.scheduler).len() == wheel_capacity(self.scheduler),
                            wheel_capacity(self.scheduler) == mct.slots.len(),
                            slots0.len() == mct.slots.len(),
                            delays_ok(self.synapses@, mct.slots.len() as int),
                            (self.synapses@, wheel_slots(self.scheduler)) == send_seq(
                                ss1,
                                slots0,
                                sv.take(j3 as int),
                                gm.now,
                                gm.learning,
                                gm.transmission,
                            ),
                        decreases sl - j3,
                    {
                        let e = self.send_synapses[i][j3];
                        let rid = e.0;
                        let sid = e.1;
                        if sid < self.synapses.len() {
                            let mut s = self.synapses[sid];
                            if self.learning_enabled {
                                proof {
                                    s.delay_fixed(self.now);
                                }
                                s.pre_recv(self.now);
                                self.synapses.set(sid, s);
                            }
                            if self.transmission_enabled {
                                let w = s.weight();
                                let d = s.delay();
                                wheel_schedule(&mut self.scheduler, d, (rid, w.0));
                            }
                        }
                        proof {
                            assert(sv.take(j3 as int + 1).drop_last() =~= sv.take(j3 as int));
                            assert(sv.take(j3 as int + 1).last() == sv[j3 as int]);
                        }
                        j3 = j3 + 1;
                    }
                    proof {
                        assert(sv.take(sv.len() as int) =~= sv);
                    }
                }
                proof {
                    assert(self.model() == run_neurons(m1, outct, i as int + 1, row).0);
                    assert(outputs@ == run_neurons(m1, outct, i as int + 1, row).1);
                }
                i = i + 1;
            }
            self.now = self.now.add(Fx(1_000_000));
            proof {
                assert(run_model(m0, inputs@, out0, ct as int + 1) == step_model(
                    run_model(m0, inputs@, out0, ct as int).0,
                    row,
                    run_model(m0, inputs@, out0, ct as int).1,
                ));
                assert(self.model() == run_model(m0, inputs@, out0, ct as int + 1).0);
                assert(outputs@ == run_model(m0, inputs@, out0, ct as int + 1).1);
                lemma_run_neurons_frame(m1, outct, nc, row);
                let g = run_neurons(m1, outct, nc, row).0;
                assert(g.send == mct.send);
                assert(g.recv == mct.recv);
                assert(self.model().send == mct.send);
                assert(self.model().recv == mct.recv);
                assert(self.model().synapses.len() == mct.synapses.len());
                assert(self.model().neurons.len() == mct.neurons.len());
                assert(self.model().slots.len() == mct.slots.len());
                assert(model_wf(self.model()));
            }
            ct = ct + 1;
        }
        self.now
    }

    /// Switch plasticity on or off; spike delivery is unaffected.
    pub fn toggle_learning(&mut self, enabled: bool)
        requires
            old(self).wf(),
        ensures
            final(self).wf(),
            final(self).model() == (NetModel { learning: enabled, ..old(self).model() }),
    {
        self.learning_enabled = enabled;
    }
}

} // verus!
