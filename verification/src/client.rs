//! What a test client tracks of its session: the welcome, the target tick
//! floor and the input sequence; and how it stamps an outgoing input.
use vstd::prelude::*;

use crate::input::{clamped, target_tick, InputSeqGen};
use crate::tick_floor::{max_tick, TickFloor};
use crate::wire::{InputSeq, ServerWelcome, Tick};

verus! {

/// Tick and sequence number of an outgoing input command.
#[derive(Debug, Clone, Copy, PartialEq, Eq, Structural)]
pub struct InputStamp {
    pub tick: Tick,
    pub input_seq: InputSeq,
}

/// The session state of a test client.
pub struct ClientState {
    welcome: ServerWelcome,
    tick_floor: TickFloor,
    input_seq: InputSeqGen,
}

/// The model of a [`ClientState`].
pub struct ClientModel {
    pub welcome: ServerWelcome,
    pub floor: Tick,
    pub last_seq: InputSeq,
}

impl View for ClientState {
    type V = ClientModel;

    closed spec fn view(&self) -> ClientModel {
        ClientModel { welcome: self.welcome, floor: self.tick_floor@, last_seq: self.input_seq@ }
    }
}

impl ClientModel {
    /// The model after stamping an input for `desired_tick`.
    pub open spec fn stamped(self, desired_tick: Tick) -> (ClientModel, InputStamp) {
        (
            ClientModel { last_seq: (self.last_seq + 1) as InputSeq, ..self },
            InputStamp {
                tick: clamped(self.floor, desired_tick),
                input_seq: (self.last_seq + 1) as InputSeq,
            },
        )
    }

    /// The model after a floor is announced.
    pub open spec fn observed(self, received: Tick) -> ClientModel {
        ClientModel { floor: max_tick(self.floor, received), ..self }
    }
}

impl ClientState {
    /// The state right after the handshake: the welcome's floor is tracked
    /// and no input has been sent yet.
    pub fn from_welcome(welcome: ServerWelcome) -> (c: Self)
        ensures
            c@ == (ClientModel { welcome, floor: welcome.target_tick_floor, last_seq: 0 }),
    {
        ClientState {
            welcome,
            tick_floor: TickFloor::from_welcome(welcome.target_tick_floor),
            input_seq: InputSeqGen::new(),
        }
    }

    /// The welcome received during the handshake.
    pub fn welcome(&self) -> (w: &ServerWelcome)
        ensures
            *w == self@.welcome,
    {
        &self.welcome
    }

    /// The current locally tracked target tick floor.
    pub fn tick_floor(&self) -> (f: Tick)
        ensures
            f == self@.floor,
    {
        self.tick_floor.get()
    }

    /// The last sequence number handed out, 0 before the first input.
    pub fn last_input_seq(&self) -> (s: InputSeq)
        ensures
            s == self@.last_seq,
    {
        self.input_seq.last()
    }

    /// Folds a newly announced floor into local tracking.
    pub fn observe_tick_floor(&mut self, received: Tick)
        ensures
            final(self)@ == old(self)@.observed(received),
    {
        self.tick_floor.observe(received);
    }

    /// Stamps the next input: the next sequence number, and `desired_tick`
    /// clamped up to the tracked floor.
    pub fn next_input(&mut self, desired_tick: Tick) -> (s: InputStamp)
        requires
            old(self)@.last_seq < InputSeq::MAX,
        ensures
            (final(self)@, s) == old(self)@.stamped(desired_tick),
    {
        let input_seq = self.input_seq.advance();
        let tick = target_tick(self.tick_floor.get(), desired_tick);
        InputStamp { tick, input_seq }
    }
}

/// Every input goes out at or above the floor tracked at the time, the
/// floor never falls, and sequence numbers strictly increase from one input
/// to the next whatever floors arrive in between.
pub proof fn law_inputs_respect_floor(m: ClientModel, d1: Tick, received: Tick, d2: Tick)
    requires
        m.last_seq + 2 <= InputSeq::MAX,
    ensures
        ({
            let (m1, s1) = m.stamped(d1);
            let m2 = m1.observed(received);
            let (m3, s2) = m2.stamped(d2);
            &&& s1.tick >= m.floor
            &&& s2.tick >= m2.floor
            &&& m2.floor >= m1.floor
            &&& s2.tick >= received
            &&& s1.input_seq >= 1
            &&& s2.input_seq == s1.input_seq + 1
        }),
{
}

/// Sending inputs never moves the tracked floor and never changes the
/// welcome: only an announced floor does. The stamped tick is the desired
/// tick when that meets the floor, else the floor; and however many inputs
/// are stamped, each next one is clamped to the same floor.
pub proof fn law_stamping_keeps_floor(m: ClientModel, d1: Tick, d2: Tick)
    requires
        m.last_seq + 2 <= InputSeq::MAX,
    ensures
        m.stamped(d1).0.floor == m.floor,
        m.stamped(d1).0.welcome == m.welcome,
        m.stamped(d1).1.tick == (if d1 >= m.floor {
            d1
        } else {
            m.floor
        }),
        m.stamped(d1).0.stamped(d2).0.floor == m.floor,
        m.stamped(d1).0.stamped(d2).1.tick == (if d2 >= m.floor {
            d2
        } else {
            m.floor
        }),
        m.observed(d1).welcome == m.welcome,
        m.observed(d1).last_seq == m.last_seq,
{
}

} // verus!
