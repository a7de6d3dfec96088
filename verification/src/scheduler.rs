//! The delay scheduler: a hashed wheel of pending spikes.
//!
//! The wheel is modelled relatively to its drain pointer: `wheel_slots(w)[k]`
//! holds, in insertion order, exactly the events that the `(k+1)`-th
//! subsequent drain returns.  Scheduling appends to one slot; draining takes
//! the first slot whole and shifts every other slot down by one.  An event
//! is a `(receiver id, raw amplitude)` pair.

use vstd::prelude::*;

use wheel_timer::WheelTimer;

verus! {

#[verifier::external_type_specification]
#[verifier::external_body]
#[verifier::reject_recursive_types(T)]
pub struct ExWheelTimer<T>(WheelTimer<T>);

/// The pending events of the wheel, keyed by how many drains away they are:
/// entry `k` lists, in insertion order, the events returned by the
/// `(k+1)`-th subsequent drain.
pub uninterp spec fn wheel_slots(w: WheelTimer<(usize, i64)>) -> Seq<Seq<(usize, i64)>>;

/// The fixed slot count the wheel was created with.
pub uninterp spec fn wheel_capacity(w: WheelTimer<(usize, i64)>) -> nat;

/// Relies on `wheel_timer::WheelTimer::new`: it builds a ring of `cap`
/// empty slots with the drain pointer at the first.
#[verifier::external_body]
pub fn wheel_new(cap: usize) -> (w: WheelTimer<(usize, i64)>)
    requires
        cap >= 1,
    ensures
        wheel_capacity(w) == cap as nat,
        wheel_slots(w) == Seq::new(cap as nat, |k: int| Seq::<(usize, i64)>::empty()),
{
    WheelTimer::new(cap)
}

/// Relies on `wheel_timer::WheelTimer::schedule`: it pushes the value onto
/// the ring slot `ticks` past the drain pointer, modulo the capacity, and
/// touches nothing else.
#[verifier::external_body]
pub fn wheel_schedule(w: &mut WheelTimer<(usize, i64)>, ticks: usize, value: (usize, i64))
    requires
        wheel_slots(*old(w)).len() == wheel_capacity(*old(w)),
        (ticks as nat) < wheel_capacity(*old(w)),
    ensures
        wheel_capacity(*final(w)) == wheel_capacity(*old(w)),
        wheel_slots(*final(w)) == wheel_slots(*old(w)).update(
            ticks as int,
            wheel_slots(*old(w))[ticks as int].push(value),
        ),
{
    w.schedule(ticks, value)
}

/// Relies on `wheel_timer::WheelTimer::tick`: it swaps the slot under the
/// drain pointer for an empty one, returns the taken slot in insertion
/// order, and advances the pointer by one, modulo the capacity.
#[verifier::external_body]
pub fn wheel_tick(w: &mut WheelTimer<(usize, i64)>) -> (r: Vec<(usize, i64)>)
    requires
        wheel_slots(*old(w)).len() == wheel_capacity(*old(w)),
        wheel_capacity(*old(w)) >= 1,
    ensures
        wheel_capacity(*final(w)) == wheel_capacity(*old(w)),
        r@ == wheel_slots(*old(w))[0],
        wheel_slots(*final(w)) == wheel_slots(*old(w)).subrange(
            1,
            wheel_capacity(*old(w)) as int,
        ).push(Seq::<(usize, i64)>::empty()),
{
    w.tick()
}

} // verus!
