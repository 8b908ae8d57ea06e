//! Decisions of the server's tick loop: which transport peer belongs to
//! which session, what each transport event leads to, and the wall-clock
//! pacing of ticks.
use vstd::prelude::*;
use std::collections::HashMap;

use crate::server::SessionTable;
use crate::wire::{EntityId, ServerWelcome, SessionId, CHANNEL_CONTROL, CHANNEL_REALTIME};

verus! {

broadcast use vstd::std_specs::hash::group_hash_axioms;

/// The session of each transport peer that has said hello.
pub struct PeerSessions {
    map: HashMap<usize, SessionId>,
}

impl View for PeerSessions {
    type V = Map<usize, SessionId>;

    closed spec fn view(&self) -> Map<usize, SessionId> {
        self.map@
    }
}

/// The loop's phase: waiting for the first session, or running the match.
#[derive(Debug, Clone, Copy, PartialEq, Eq, Structural)]
pub enum Phase {
    Connecting,
    Running,
}

/// What the transport reported, with what the packet decodes as.
#[derive(Debug, Clone, Copy, PartialEq, Eq, Structural)]
pub enum PeerEvent {
    /// A packet from `peer` on `channel_id`; `is_hello` tells whether it
    /// decodes as a client hello, `is_input` whether as an input command.
    Received { peer: usize, channel_id: u8, is_hello: bool, is_input: bool },
    /// `peer` disconnected.
    Disconnected { peer: usize },
    /// Anything else.
    Other,
}

/// What the loop does about an event.
#[derive(Debug, Clone, Copy, PartialEq, Eq, Structural)]
pub enum LoopAction {
    /// Accept `peer` as a new session and welcome it.
    AcceptPeer { peer: usize },
    /// Hand the decoded input to session `session_id`.
    DeliverInput { session_id: SessionId },
    /// Session `session_id` is gone.
    DisconnectSession { session_id: SessionId },
    /// Nothing to do.
    Ignore,
}

/// The peer map and action after `event` in `phase`. A hello on the control
/// channel from a peer without a session is accepted, in either phase. While
/// the match runs, an input on the realtime channel from a peer with a
/// session goes to that session, and a disconnect of such a peer ends its
/// session and forgets the peer.
pub open spec fn routed(peers: Map<usize, SessionId>, phase: Phase, event: PeerEvent) -> (
    Map<usize, SessionId>,
    LoopAction,
) {
    match event {
        PeerEvent::Received { peer, channel_id, is_hello, is_input } => {
            if channel_id == CHANNEL_CONTROL && !peers.contains_key(peer) && is_hello {
                (peers, LoopAction::AcceptPeer { peer })
            } else if phase == Phase::Running && channel_id == CHANNEL_REALTIME
                && peers.contains_key(peer) && is_input {
                (peers, LoopAction::DeliverInput { session_id: peers[peer] })
            } else {
                (peers, LoopAction::Ignore)
            }
        },
        PeerEvent::Disconnected { peer } => {
            if phase == Phase::Running && peers.contains_key(peer) {
                (peers.remove(peer), LoopAction::DisconnectSession { session_id: peers[peer] })
            } else {
                (peers, LoopAction::Ignore)
            }
        },
        PeerEvent::Other => (peers, LoopAction::Ignore),
    }
}

impl PeerSessions {
    /// No peer has a session yet.
    pub fn new() -> (p: Self)
        ensures
            p@ == Map::<usize, SessionId>::empty(),
    {
        PeerSessions { map: HashMap::new() }
    }

    /// The session of `peer`, if it has one.
    pub fn session_of(&self, peer: usize) -> (r: Option<SessionId>)
        ensures
            r == (if self@.contains_key(peer) {
                Some(self@[peer])
            } else {
                None
            }),
    {
        match self.map.get(&peer) {
            Some(s) => Some(*s),
            None => None,
        }
    }

    /// Records that `peer` is session `session_id`.
    pub fn bind(&mut self, peer: usize, session_id: SessionId)
        ensures
            final(self)@ == old(self)@.insert(peer, session_id),
    {
        self.map.insert(peer, session_id);
    }

    /// Decides what to do about `event`, forgetting a departed peer.
    pub fn route_event(&mut self, phase: Phase, event: PeerEvent) -> (a: LoopAction)
        ensures
            (final(self)@, a) == routed(old(self)@, phase, event),
    {
        match event {
            PeerEvent::Received { peer, channel_id, is_hello, is_input } => {
                if channel_id == CHANNEL_CONTROL && !self.map.contains_key(&peer) && is_hello {
                    LoopAction::AcceptPeer { peer }
                } else if phase == Phase::Running && channel_id == CHANNEL_REALTIME {
                    match self.session_of(peer) {
                        Some(session_id) => if is_input {
                            LoopAction::DeliverInput { session_id }
                        } else {
                            LoopAction::Ignore
                        },
                        None => LoopAction::Ignore,
                    }
                } else {
                    LoopAction::Ignore
                }
            },
            PeerEvent::Disconnected { peer } => {
                if phase == Phase::Running {
                    match self.map.remove(&peer) {
                        Some(session_id) => LoopAction::DisconnectSession { session_id },
                        None => LoopAction::Ignore,
                    }
                } else {
                    LoopAction::Ignore
                }
            },
            PeerEvent::Other => LoopAction::Ignore,
        }
    }
}

/// Accepts `peer` as a new session whose character `entity_id` was spawned
/// for [`SessionTable::next_player_id`], records the peer's session and
/// returns the session's id and the welcome to send it, reflecting the
/// world at this moment.
pub fn admit_peer(
    table: &mut SessionTable,
    peers: &mut PeerSessions,
    peer: usize,
    entity_id: EntityId,
) -> (r: (SessionId, ServerWelcome))
    requires
        old(table)@.wf(),
        old(table)@.can_accept(),
        old(table)@.welcome_floor() <= u64::MAX,
    ensures
        final(table)@ == old(table)@.accepted(entity_id).welcomed(old(table)@.next_session_id),
        final(table)@.wf(),
        final(peers)@ == old(peers)@.insert(peer, old(table)@.next_session_id),
        r.0 == old(table)@.next_session_id,
        r.1 == (ServerWelcome {
            target_tick_floor: old(table)@.welcome_floor() as u64,
            tick_rate_hz: old(table)@.tick_rate_hz,
            player_id: old(table)@.next_player_id() as u32,
            controlled_entity_id: entity_id,
        }),
{
    let ghost m0 = table@;
    let (session_id, _player_id, _entity) = table.accept_session(entity_id);
    proof {
        let m1 = table@;
        assert(m1.sessions[m1.sessions.len() - 1].session_id == session_id);
        crate::server::lemma_last_session(m1);
    }
    peers.bind(peer, session_id);
    let welcome = table.welcome_for(session_id);
    (session_id, welcome)
}

/// The next tick's deadline and how long to sleep until it: the deadline
/// moves on by one interval; when it is still ahead, sleep until then;
/// when the loop has fallen behind, resynchronize to `now` rather than
/// catching up with a burst of ticks.
pub fn pace(next_tick_at: u64, interval: u64, now: u64) -> (r: (u64, u64))
    requires
        next_tick_at + interval <= u64::MAX,
    ensures
        next_tick_at + interval > now ==> r == (
            (next_tick_at + interval) as u64,
            (next_tick_at + interval - now) as u64,
        ),
        next_tick_at + interval <= now ==> r == (now, 0u64),
{
    let next = next_tick_at + interval;
    if next > now {
        (next, next - now)
    } else {
        (now, 0)
    }
}

/// After pacing, the deadline is never in the past and the sleep ends
/// exactly at it.
pub proof fn law_pacing_never_behind(next_tick_at: u64, interval: u64, now: u64)
    requires
        next_tick_at + interval <= u64::MAX,
    ensures
        ({
            let next = next_tick_at + interval;
            let (deadline, sleep) = if next > now {
                (next, next - now)
            } else {
                (now as int, 0int)
            };
            deadline >= now && now + sleep == deadline
        }),
{
}

/// A peer's session is remembered until the peer disconnects: inputs from
/// it keep reaching that session, a second hello from it is not accepted
/// again, and after it disconnects nothing it sends is delivered.
pub proof fn law_peer_session_lifetime(
    peers: Map<usize, SessionId>,
    peer: usize,
    session_id: SessionId,
    phase: Phase,
)
    ensures
        routed(peers.insert(peer, session_id), Phase::Running, PeerEvent::Received {
            peer,
            channel_id: CHANNEL_REALTIME,
            is_hello: false,
            is_input: true,
        }).1 == (LoopAction::DeliverInput { session_id }),
        routed(peers.insert(peer, session_id), phase, PeerEvent::Received {
            peer,
            channel_id: CHANNEL_CONTROL,
            is_hello: true,
            is_input: false,
        }).1 == LoopAction::Ignore,
        routed(peers.insert(peer, session_id), Phase::Running, PeerEvent::Disconnected { peer })
            == (peers.insert(peer, session_id).remove(peer), LoopAction::DisconnectSession {
            session_id,
        }),
        ({
            let after = peers.insert(peer, session_id).remove(peer);
            routed(after, Phase::Running, PeerEvent::Received {
                peer,
                channel_id: CHANNEL_REALTIME,
                is_hello: false,
                is_input: true,
            }).1 == LoopAction::Ignore
        }),
{
}

/// A hello on the control channel from a peer without a session is
/// accepted in either phase: sessions can join while the match is running,
/// not only while the server waits for the first one. The peer map is left
/// for the accepting side to fill in.
pub proof fn law_hello_accepted_in_any_phase(
    peers: Map<usize, SessionId>,
    phase: Phase,
    peer: usize,
    is_input: bool,
)
    requires
        !peers.contains_key(peer),
    ensures
        routed(peers, phase, PeerEvent::Received {
            peer,
            channel_id: CHANNEL_CONTROL,
            is_hello: true,
            is_input,
        }) == (peers, (LoopAction::AcceptPeer { peer })),
        routed(peers, Phase::Running, PeerEvent::Received {
            peer,
            channel_id: CHANNEL_CONTROL,
            is_hello: true,
            is_input,
        }).1 == (LoopAction::AcceptPeer { peer }),
        routed(peers, Phase::Connecting, PeerEvent::Received {
            peer,
            channel_id: CHANNEL_CONTROL,
            is_hello: true,
            is_input,
        }).1 == (LoopAction::AcceptPeer { peer }),
{
}

/// Only a hello accepts a peer: no other event leads to an acceptance, and
/// an accepted peer is the one that said hello.
pub proof fn law_accept_only_on_hello(peers: Map<usize, SessionId>, phase: Phase, event: PeerEvent, p: usize)
    requires
        routed(peers, phase, event).1 == (LoopAction::AcceptPeer { peer: p }),
    ensures
        (event matches PeerEvent::Received { peer, channel_id, is_hello, .. } && peer == p
            && channel_id == CHANNEL_CONTROL && is_hello && !peers.contains_key(p)),
{
}

} // verus!
