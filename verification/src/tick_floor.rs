//! Client-side tracking of the target tick floor: the floor only ever
//! rises, to the highest floor the server has announced.
use vstd::prelude::*;

use crate::wire::Tick;

verus! {

/// The higher of two ticks.
pub open spec fn max_tick(a: Tick, b: Tick) -> Tick {
    if a < b {
        b
    } else {
        a
    }
}

/// The locally tracked target tick floor.
#[derive(Debug, Clone, Copy, PartialEq, Eq, Structural)]
pub struct TickFloor {
    floor: Tick,
}

impl View for TickFloor {
    type V = Tick;

    closed spec fn view(&self) -> Tick {
        self.floor
    }
}

impl TickFloor {
    /// Starts tracking at the floor announced in the server's welcome.
    pub fn from_welcome(floor: Tick) -> (t: Self)
        ensures
            t@ == floor,
    {
        TickFloor { floor }
    }

    /// The current floor.
    pub fn get(&self) -> (f: Tick)
        ensures
            f == self@,
    {
        self.floor
    }

    /// Folds in a newly announced floor: the floor becomes the higher of the
    /// two.
    pub fn observe(&mut self, received: Tick)
        ensures
            final(self)@ == max_tick(old(self)@, received),
    {
        if received > self.floor {
            self.floor = received;
        }
    }
}

/// The floor never falls, and never stays below an announced floor.
pub proof fn law_floor_never_falls(floor: Tick, received: Tick)
    ensures
        max_tick(floor, received) >= floor,
        max_tick(floor, received) >= received,
        max_tick(floor, received) == floor || max_tick(floor, received) == received,
{
}

/// The order in which floors are announced does not matter, nor does
/// hearing the same floor twice.
pub proof fn law_floor_order_independent(floor: Tick, a: Tick, b: Tick)
    ensures
        max_tick(max_tick(floor, a), b) == max_tick(max_tick(floor, b), a),
        max_tick(max_tick(floor, a), a) == max_tick(floor, a),
{
}

} // verus!
