//! Input sequence numbers and the tick an input targets.
use vstd::prelude::*;

use crate::wire::{InputSeq, Tick};

verus! {

/// Strictly increasing `InputSeq` generator of a session: the first value
/// handed out is 1, and it never resets or wraps.
#[derive(Debug)]
pub struct InputSeqGen(InputSeq);

impl View for InputSeqGen {
    type V = InputSeq;

    /// The last value handed out, 0 before the first.
    closed spec fn view(&self) -> InputSeq {
        self.0
    }
}

impl InputSeqGen {
    /// A fresh generator; the first call to [`InputSeqGen::advance`] returns 1.
    pub fn new() -> (g: Self)
        ensures
            g@ == 0,
    {
        InputSeqGen(0)
    }

    /// The last value handed out, 0 before the first.
    pub fn last(&self) -> (s: InputSeq)
        ensures
            s == self@,
    {
        self.0
    }

    /// The next value, one above the previous.
    pub fn advance(&mut self) -> (s: InputSeq)
        requires
            old(self)@ < InputSeq::MAX,
        ensures
            s == old(self)@ + 1,
            final(self)@ == s,
    {
        self.0 = self.0 + 1;
        self.0
    }
}

impl Default for InputSeqGen {
    fn default() -> (g: Self)
        ensures
            g@ == 0,
    {
        InputSeqGen::new()
    }
}

/// `desired_tick` clamped up to `floor`.
pub open spec fn clamped(floor: Tick, desired_tick: Tick) -> Tick {
    if desired_tick < floor {
        floor
    } else {
        desired_tick
    }
}

/// The tick an input is sent for: `desired_tick` clamped up to `floor`, so
/// that an input never targets a tick below the floor.
pub fn target_tick(floor: Tick, desired_tick: Tick) -> (t: Tick)
    ensures
        t == clamped(floor, desired_tick),
{
    if desired_tick < floor {
        floor
    } else {
        desired_tick
    }
}

/// Successive values of a generator strictly increase, starting at 1:
/// whatever it handed out last, the next two values are one and two above.
pub proof fn law_input_seq_strictly_increasing(last: InputSeq)
    requires
        last + 2 <= InputSeq::MAX,
    ensures
        ({
            let first = (last + 1) as InputSeq;
            let second = (first + 1) as InputSeq;
            &&& first >= 1
            &&& first > last
            &&& second > first
        }),
{
}

/// A targeted tick is at least the floor, is the desired tick whenever that
/// meets the floor, and clamping twice changes nothing.
pub proof fn law_target_tick_meets_floor(floor: Tick, desired_tick: Tick)
    ensures
        clamped(floor, desired_tick) >= floor,
        clamped(floor, desired_tick) >= desired_tick,
        clamped(floor, desired_tick) == floor || clamped(floor, desired_tick) == desired_tick,
        desired_tick >= floor ==> clamped(floor, desired_tick) == desired_tick,
        clamped(floor, clamped(floor, desired_tick)) == clamped(floor, desired_tick),
{
}

/// Errors that can occur while sending an input command.
#[derive(Debug)]
pub enum SendInputError {
    /// The transport failed to send.
    Io(std::io::Error),
    /// The host has no connected peer to send to.
    NotConnected,
}

impl From<std::io::Error> for SendInputError {
    fn from(e: std::io::Error) -> (r: Self) {
        SendInputError::Io(e)
    }
}

impl vstd::std_specs::convert::FromSpecImpl<std::io::Error> for SendInputError {
    open spec fn obeys_from_spec() -> bool {
        true
    }

    open spec fn from_spec(v: std::io::Error) -> Self {
        SendInputError::Io(v)
    }
}

} // verus!
