//! The server edge's session bookkeeping: sessions join and leave at any
//! time, PlayerIds are handed out in connection order and never reused,
//! every session is told the same target tick floor, and the match ends by
//! duration alone.
use vstd::prelude::*;

use crate::config::ServerConfig;
use crate::wire::{EntityId, PlayerId, ServerWelcome, SessionId, Tick};

verus! {

broadcast use vstd::seq_lib::group_seq_properties;

/// Reason for match termination. Disconnects do not end the match, so the
/// match duration being reached is the only reason.
#[derive(Debug, Clone, Copy, PartialEq, Eq, Structural)]
pub enum EndReason {
    Complete,
}

impl EndReason {
    /// The name recorded for this reason.
    pub fn as_str(&self) -> (s: &'static str)
        ensures
            s@ == "complete"@,
    {
        match self {
            EndReason::Complete => "complete",
        }
    }
}

/// A connected session and the floor last announced to it.
#[derive(Debug, Clone, Copy, PartialEq, Eq, Structural)]
pub struct Session {
    pub session_id: SessionId,
    pub player_id: PlayerId,
    pub controlled_entity_id: EntityId,
    /// The target tick floor last announced to this session, if any.
    pub last_emitted_floor: Option<Tick>,
}

/// Where an incoming input goes: dropped for an unknown session, or on to
/// validation against the session's player, floor and the current tick.
#[derive(Debug, Clone, Copy, PartialEq, Eq, Structural)]
pub enum InputRoute {
    DroppedUnknownSession,
    Validate { player_id: PlayerId, floor: Tick, current_tick: Tick },
}

/// What one step does: the tick being advanced, whether the replay's initial
/// baseline is recorded first, and the floor announced once the world has
/// advanced.
#[derive(Debug, Clone, Copy, PartialEq, Eq, Structural)]
pub struct StepPlan {
    pub tick: Tick,
    pub record_baseline: bool,
    pub target_tick_floor: Tick,
}

/// Sessions, PlayerId assignment and target tick floors of a match.
pub struct SessionTable {
    config: ServerConfig,
    tick: Tick,
    sessions: Vec<Session>,
    next_session_id: SessionId,
    next_player_ordinal: PlayerId,
    entity_spawn_order: Vec<PlayerId>,
    baseline_recorded: bool,
}

/// The model of a [`SessionTable`].
pub struct TableModel {
    pub max_sessions: nat,
    pub input_lead_ticks: u64,
    pub tick_rate_hz: u32,
    pub match_duration_ticks: u64,
    pub test_player_ids: Option<Seq<u8>>,
    pub tick: u64,
    pub sessions: Seq<Session>,
    pub next_session_id: u64,
    pub next_player_ordinal: u8,
    pub spawn_order: Seq<u8>,
    pub baseline_recorded: bool,
}

impl View for SessionTable {
    type V = TableModel;

    closed spec fn view(&self) -> TableModel {
        TableModel {
            max_sessions: self.config.max_sessions as nat,
            input_lead_ticks: self.config.input_lead_ticks,
            tick_rate_hz: self.config.tick_rate_hz,
            match_duration_ticks: self.config.match_duration_ticks,
            test_player_ids: self.config.test_player_ids_view(),
            tick: self.tick,
            sessions: self.sessions@,
            next_session_id: self.next_session_id,
            next_player_ordinal: self.next_player_ordinal,
            spawn_order: self.entity_spawn_order@,
            baseline_recorded: self.baseline_recorded,
        }
    }
}

impl TableModel {
    /// The model of a fresh table for `config`.
    pub open spec fn initial(config: ServerConfig) -> TableModel {
        TableModel {
            max_sessions: config.max_sessions as nat,
            input_lead_ticks: config.input_lead_ticks,
            tick_rate_hz: config.tick_rate_hz,
            match_duration_ticks: config.match_duration_ticks,
            test_player_ids: config.test_player_ids_view(),
            tick: 0,
            sessions: Seq::empty(),
            next_session_id: 1,
            next_player_ordinal: 0,
            spawn_order: Seq::empty(),
            baseline_recorded: false,
        }
    }

    /// The PlayerId of the `k`-th accepted session (counting from 0): the
    /// `k`-th pre-assigned id in test mode, else `k` itself.
    pub open spec fn player_for_ordinal(self, k: int) -> u8 {
        match self.test_player_ids {
            Some(ids) => ids[k],
            None => k as u8,
        }
    }

    pub open spec fn session_ids(self) -> Seq<SessionId> {
        self.sessions.map_values(|s: Session| s.session_id)
    }

    pub open spec fn has_session(self, id: SessionId) -> bool {
        exists|i: int| 0 <= i < self.sessions.len() && #[trigger] self.sessions[i].session_id == id
    }

    /// The position of session `id`.
    pub open spec fn index_of(self, id: SessionId) -> int {
        choose|i: int| 0 <= i < self.sessions.len() && #[trigger] self.sessions[i].session_id == id
    }

    /// The session with id `id`.
    pub open spec fn session(self, id: SessionId) -> Session {
        self.sessions[self.index_of(id)]
    }

    /// Well-formedness: session ids are distinct, issued from 1 on and below
    /// the next id; there are no more sessions than the cap; the spawn
    /// order lists the PlayerId of every session accepted so far, and every
    /// live session's player is among them.
    pub open spec fn wf(self) -> bool {
        &&& self.next_session_id >= 1
        &&& self.sessions.len() <= self.max_sessions
        &&& forall|i: int, j: int|
            0 <= i < j < self.sessions.len() ==> #[trigger] self.sessions[i].session_id
                != #[trigger] self.sessions[j].session_id
        &&& forall|i: int|
            0 <= i < self.sessions.len() ==> 1 <= #[trigger] self.sessions[i].session_id
                < self.next_session_id
        &&& self.spawn_order.len() == self.next_player_ordinal
        &&& forall|k: int|
            0 <= k < self.spawn_order.len() ==> #[trigger] self.spawn_order[k]
                == self.player_for_ordinal(k)
        &&& self.test_player_ids matches Some(ids) ==> self.next_player_ordinal <= ids.len()
        &&& forall|i: int|
            0 <= i < self.sessions.len() ==> self.spawn_order.contains(
                #[trigger] self.sessions[i].player_id,
            )
    }

    /// Whether another session can be accepted: the session cap is not
    /// reached, ids are left, and in test mode a pre-assigned id is left.
    pub open spec fn can_accept(self) -> bool {
        &&& self.sessions.len() < self.max_sessions
        &&& self.next_session_id < u64::MAX
        &&& self.next_player_ordinal < u8::MAX
        &&& self.test_player_ids matches Some(ids) ==> self.next_player_ordinal < ids.len()
    }

    /// The PlayerId that the next accepted session gets.
    pub open spec fn next_player_id(self) -> u8 {
        self.player_for_ordinal(self.next_player_ordinal as int)
    }

    /// The table after accepting a session whose character is `entity`.
    pub open spec fn accepted(self, entity: EntityId) -> TableModel {
        TableModel {
            sessions: self.sessions.push(
                Session {
                    session_id: self.next_session_id,
                    player_id: self.next_player_id(),
                    controlled_entity_id: entity,
                    last_emitted_floor: None,
                },
            ),
            next_session_id: (self.next_session_id + 1) as u64,
            next_player_ordinal: (self.next_player_ordinal + 1) as u8,
            spawn_order: self.spawn_order.push(self.next_player_id()),
            ..self
        }
    }

    /// The floor announced when a session is welcomed now.
    pub open spec fn welcome_floor(self) -> int {
        self.tick + self.input_lead_ticks
    }

    /// The table after welcoming session `id`.
    pub open spec fn welcomed(self, id: SessionId) -> TableModel {
        TableModel {
            sessions: self.sessions.update(
                self.index_of(id),
                Session {
                    last_emitted_floor: Some(self.welcome_floor() as u64),
                    ..self.session(id)
                },
            ),
            ..self
        }
    }

    /// The table after session `id` disconnects: every other session stays,
    /// in order.
    pub open spec fn disconnected(self, id: SessionId) -> TableModel {
        TableModel { sessions: self.sessions.filter(other_than(id)), ..self }
    }

    /// The floor announced after the next step.
    pub open spec fn step_floor(self) -> int {
        self.tick + 1 + self.input_lead_ticks
    }

    /// Whether the next step stays within the range of a tick.
    pub open spec fn can_step(self) -> bool {
        self.step_floor() <= u64::MAX
    }

    /// The table after one step: the tick advances by one, the baseline is
    /// recorded, and every session is announced the new floor.
    pub open spec fn stepped(self) -> TableModel {
        TableModel {
            tick: (self.tick + 1) as u64,
            baseline_recorded: true,
            sessions: self.sessions.map_values(
                |s: Session| Session { last_emitted_floor: Some(self.step_floor() as u64), ..s },
            ),
            ..self
        }
    }

    /// Whether the match has reached its duration.
    pub open spec fn match_over(self) -> bool {
        self.tick >= self.match_duration_ticks
    }

    /// How an input from session `id` is routed.
    pub open spec fn route(self, id: SessionId) -> InputRoute {
        if self.has_session(id) {
            InputRoute::Validate {
                player_id: self.session(id).player_id,
                floor: match self.session(id).last_emitted_floor {
                    Some(f) => f,
                    None => 0,
                },
                current_tick: self.tick,
            }
        } else {
            InputRoute::DroppedUnknownSession
        }
    }
}

/// The last session of a well-formed table is the one its id finds.
pub proof fn lemma_last_session(m: TableModel)
    requires
        m.wf(),
        m.sessions.len() > 0,
    ensures
        m.has_session(m.sessions.last().session_id),
        m.index_of(m.sessions.last().session_id) == m.sessions.len() - 1,
{
    lemma_index_of(m, m.sessions.len() - 1);
}

/// Position `a` comes before position `b` in the order inputs are handed
/// to the simulation: by PlayerId, and between equal PlayerIds in spawn
/// order.
pub open spec fn input_precedes(keys: Seq<u8>, a: usize, b: usize) -> bool {
    keys[a as int] < keys[b as int] || (keys[a as int] == keys[b as int] && a < b)
}

/// `order` lists every position of `keys` once, sorted by key, equal keys
/// in the order they come in: what a stable sort by key gives.
pub open spec fn stably_sorted(keys: Seq<u8>, order: Seq<usize>) -> bool {
    &&& order.len() == keys.len()
    &&& forall|k: int| 0 <= k < order.len() ==> #[trigger] order[k] < keys.len()
    &&& forall|a: int, b: int|
        0 <= a < b < order.len() ==> input_precedes(keys, #[trigger] order[a], #[trigger] order[b])
}

/// Holds of every session but session `id`.
pub open spec fn other_than(id: SessionId) -> spec_fn(Session) -> bool {
    |s: Session| s.session_id != id
}

/// The session at index `i` is the one `index_of` finds for its id.
proof fn lemma_index_of(m: TableModel, i: int)
    requires
        m.wf(),
        0 <= i < m.sessions.len(),
    ensures
        m.has_session(m.sessions[i].session_id),
        m.index_of(m.sessions[i].session_id) == i,
{
    let id = m.sessions[i].session_id;
    assert(m.has_session(id));
    let j = m.index_of(id);
    if j != i {
        if j < i {
            assert(m.sessions[j].session_id != m.sessions[i].session_id);
        } else {
            assert(m.sessions[i].session_id != m.sessions[j].session_id);
        }
    }
}

impl SessionTable {
    /// A table with no sessions, at tick 0.
    pub fn new(config: ServerConfig) -> (t: Self)
        ensures
            t@ == TableModel::initial(config),
            t@.wf(),
    {
        SessionTable {
            config,
            tick: 0,
            sessions: Vec::new(),
            next_session_id: 1,
            next_player_ordinal: 0,
            entity_spawn_order: Vec::new(),
            baseline_recorded: false,
        }
    }

    /// The current tick.
    pub fn current_tick(&self) -> (t: Tick)
        ensures
            t == self@.tick,
    {
        self.tick
    }

    /// Number of connected sessions.
    pub fn session_count(&self) -> (n: usize)
        ensures
            n == self@.sessions.len(),
    {
        self.sessions.len()
    }

    /// Ids of all connected sessions, in the order they joined.
    pub fn session_ids(&self) -> (ids: Vec<SessionId>)
        ensures
            ids@ == self@.session_ids(),
    {
        let mut ids: Vec<SessionId> = Vec::new();
        let mut i: usize = 0;
        while i < self.sessions.len()
            invariant
                i <= self.sessions@.len(),
                ids@ == self@.session_ids().take(i as int),
            decreases self.sessions@.len() - i,
        {
            ids.push(self.sessions[i].session_id);
            i = i + 1;
            proof {
                assert(ids@ =~= self@.session_ids().take(i as int));
            }
        }
        proof {
            assert(self@.session_ids().take(i as int) =~= self@.session_ids());
        }
        ids
    }

    /// PlayerIds of every session accepted so far, in order of acceptance;
    /// those of departed sessions stay.
    pub fn entity_spawn_order(&self) -> (order: &Vec<PlayerId>)
        ensures
            order@ == self@.spawn_order,
    {
        &self.entity_spawn_order
    }

    /// The order in which the inputs of one step reach the simulation:
    /// positions in the spawn order, stably sorted by PlayerId.
    pub fn step_input_order(&self) -> (order: Vec<usize>)
        ensures
            stably_sorted(self@.spawn_order, order@),
    {
        let keys = &self.entity_spawn_order;
        let mut order: Vec<usize> = Vec::new();
        let mut i: usize = 0;
        while i < keys.len()
            invariant
                i <= keys@.len(),
                order@.len() == i,
                forall|k: int| 0 <= k < order@.len() ==> #[trigger] order@[k] < i,
                forall|a: int, b: int|
                    0 <= a < b < order@.len() ==> input_precedes(
                        keys@,
                        #[trigger] order@[a],
                        #[trigger] order@[b],
                    ),
            decreases keys@.len() - i,
        {
            let key = keys[i];
            let mut p: usize = 0;
            while p < order.len() && keys[order[p]] <= key
                invariant
                    p <= order@.len(),
                    i < keys@.len(),
                    key == keys@[i as int],
                    forall|k: int| 0 <= k < order@.len() ==> #[trigger] order@[k] < i,
                    forall|k: int| 0 <= k < p ==> keys@[#[trigger] order@[k] as int] <= key,
                decreases order@.len() - p,
            {
                p = p + 1;
            }
            let ghost before = order@;
            proof {
                assert forall|k: int| p <= k < before.len() implies keys@[#[trigger] before[k] as int]
                    > key by {
                    if k > p {
                        assert(input_precedes(keys@, before[p as int], before[k]));
                    }
                }
            }
            order.insert(p, i);
            proof {
                let after = order@;
                assert(after == before.insert(p as int, i));
                assert forall|a: int, b: int| 0 <= a < b < after.len() implies input_precedes(
                    keys@,
                    #[trigger] after[a],
                    #[trigger] after[b],
                ) by {
                    if a < p && b < p {
                        assert(input_precedes(keys@, before[a], before[b]));
                    } else if a < p && b == p {
                        assert(keys@[before[a] as int] <= key);
                    } else if a < p && b > p {
                        assert(input_precedes(keys@, before[a], before[b - 1]));
                    } else if a == p {
                        assert(keys@[before[b - 1] as int] > key);
                    } else {
                        assert(input_precedes(keys@, before[a - 1], before[b - 1]));
                    }
                }
            }
            i = i + 1;
        }
        order
    }

    /// Whether another session can be accepted now.
    pub fn can_accept(&self) -> (b: bool)
        ensures
            b == self@.can_accept(),
    {
        self.sessions.len() < self.config.max_sessions && self.next_session_id < u64::MAX
            && self.next_player_ordinal < u8::MAX && match &self.config.test_player_ids {
            Some(ids) => (self.next_player_ordinal as usize) < ids.len(),
            None => true,
        }
    }

    /// The PlayerId that the next accepted session gets: the next
    /// pre-assigned id in test mode, else the number of sessions accepted so
    /// far.
    pub fn next_player_id(&self) -> (p: PlayerId)
        requires
            self@.wf(),
            self@.can_accept(),
        ensures
            p == self@.next_player_id(),
    {
        match &self.config.test_player_ids {
            Some(ids) => ids[self.next_player_ordinal as usize],
            None => self.next_player_ordinal,
        }
    }

    /// Accepts a new session whose character `entity_id` was spawned for
    /// [`SessionTable::next_player_id`]. Returns the new session's id, its
    /// PlayerId and `entity_id`.
    pub fn accept_session(&mut self, entity_id: EntityId) -> (r: (SessionId, PlayerId, EntityId))
        requires
            old(self)@.wf(),
            old(self)@.can_accept(),
        ensures
            final(self)@ == old(self)@.accepted(entity_id),
            final(self)@.wf(),
            r == (old(self)@.next_session_id, old(self)@.next_player_id(), entity_id),
    {
        let ghost old_model = self@;
        let player_id = self.next_player_id();
        let session_id = self.next_session_id;
        self.next_session_id = self.next_session_id + 1;
        self.next_player_ordinal = self.next_player_ordinal + 1;
        self.sessions.push(
            Session {
                session_id,
                player_id,
                controlled_entity_id: entity_id,
                last_emitted_floor: None,
            },
        );
        self.entity_spawn_order.push(player_id);
        proof {
            let m = self@;
            assert(m == old_model.accepted(entity_id));
            assert(m.spawn_order.last() == player_id);
            assert forall|i: int| 0 <= i < m.sessions.len() implies m.spawn_order.contains(
                #[trigger] m.sessions[i].player_id,
            ) by {
                if i < old_model.sessions.len() {
                    let k = choose|k: int|
                        0 <= k < old_model.spawn_order.len() && old_model.spawn_order[k]
                            == old_model.sessions[i].player_id;
                    assert(m.spawn_order[k] == m.sessions[i].player_id);
                } else {
                    assert(m.spawn_order[m.spawn_order.len() - 1] == m.sessions[i].player_id);
                }
            }
        }
        (session_id, player_id, entity_id)
    }

    fn find(&self, session_id: SessionId) -> (r: Option<usize>)
        requires
            self@.wf(),
        ensures
            r is None ==> !self@.has_session(session_id),
            r matches Some(i) ==> i < self@.sessions.len() && self@.index_of(session_id) == i
                && self@.has_session(session_id),
    {
        let mut i: usize = 0;
        while i < self.sessions.len()
            invariant
                self@.wf(),
                i <= self.sessions@.len(),
                forall|j: int| 0 <= j < i ==> #[trigger] self.sessions@[j].session_id != session_id,
            decreases self.sessions@.len() - i,
        {
            if self.sessions[i].session_id == session_id {
                proof {
                    lemma_index_of(self@, i as int);
                }
                return Some(i);
            }
            i = i + 1;
        }
        None
    }

    /// The `ServerWelcome` for a freshly accepted session, reflecting the
    /// world's tick at the moment of the call; the floor it announces is
    /// recorded as the session's last emitted floor.
    pub fn welcome_for(&mut self, session_id: SessionId) -> (w: ServerWelcome)
        requires
            old(self)@.wf(),
            old(self)@.has_session(session_id),
            old(self)@.welcome_floor() <= u64::MAX,
        ensures
            final(self)@ == old(self)@.welcomed(session_id),
            final(self)@.wf(),
            w == (ServerWelcome {
                target_tick_floor: old(self)@.welcome_floor() as u64,
                tick_rate_hz: old(self)@.tick_rate_hz,
                player_id: old(self)@.session(session_id).player_id as u32,
                controlled_entity_id: old(self)@.session(session_id).controlled_entity_id,
            }),
    {
        let ghost old_model = self@;
        let i = match self.find(session_id) {
            Some(i) => i,
            None => {
                proof {
                    assert(false);
                }
                0
            },
        };
        let target_tick_floor = self.tick + self.config.input_lead_ticks;
        let session = self.sessions[i];
        self.sessions.set(i, Session { last_emitted_floor: Some(target_tick_floor), ..session });
        proof {
            let m = self@;
            assert(m == old_model.welcomed(session_id));
            assert forall|k: int| 0 <= k < m.sessions.len() implies #[trigger] m.sessions[k].session_id
                == old_model.sessions[k].session_id && m.sessions[k].player_id
                == old_model.sessions[k].player_id by {}
        }
        ServerWelcome {
            target_tick_floor,
            tick_rate_hz: self.config.tick_rate_hz,
            player_id: session.player_id as u32,
            controlled_entity_id: session.controlled_entity_id,
        }
    }

    /// Whether welcoming a session now stays within the range of a tick.
    pub fn welcome_fits(&self) -> (b: bool)
        ensures
            b == (self@.welcome_floor() <= u64::MAX),
    {
        self.tick <= u64::MAX - self.config.input_lead_ticks
    }

    /// Whether the next step stays within the range of a tick.
    pub fn can_step(&self) -> (b: bool)
        ensures
            b == self@.can_step(),
    {
        self.tick < u64::MAX && self.tick + 1 <= u64::MAX - self.config.input_lead_ticks
    }

    /// Whether the match should end: only once the match duration is
    /// reached; a session disconnecting does not end it.
    pub fn should_end_match(&self) -> (r: Option<EndReason>)
        ensures
            r == (if self@.match_over() {
                Some(EndReason::Complete)
            } else {
                None
            }),
    {
        if self.tick >= self.config.match_duration_ticks {
            Some(EndReason::Complete)
        } else {
            None
        }
    }

    /// Removes session `session_id`, if connected, and returns its PlayerId,
    /// whose last known intent the caller resets so that the character
    /// freezes in place. The match goes on.
    pub fn disconnect_session(&mut self, session_id: SessionId) -> (r: Option<PlayerId>)
        requires
            old(self)@.wf(),
        ensures
            final(self)@ == old(self)@.disconnected(session_id),
            final(self)@.wf(),
            r == (if old(self)@.has_session(session_id) {
                Some(old(self)@.session(session_id).player_id)
            } else {
                None
            }),
    {
        let ghost old_model = self@;
        let ghost pred = other_than(session_id);
        let mut kept: Vec<Session> = Vec::new();
        let mut removed: Option<PlayerId> = None;
        let mut i: usize = 0;
        while i < self.sessions.len()
            invariant
                self@ == old_model,
                old_model.wf(),
                pred == other_than(session_id),
                i <= self.sessions@.len(),
                kept@ == self.sessions@.take(i as int).filter(pred),
                removed == (if exists|j: int| 0 <= j < i && #[trigger] self.sessions@[j].session_id
                    == session_id {
                    Some(old_model.session(session_id).player_id)
                } else {
                    None
                }),
            decreases self.sessions@.len() - i,
        {
            let s = self.sessions[i];
            proof {
                assert(self.sessions@.take(i + 1) =~= self.sessions@.take(i as int).push(s));
                self.sessions@.take(i as int).lemma_filter_push(s, pred);
            }
            if s.session_id != session_id {
                kept.push(s);
                proof {
                    assert(s.session_id != session_id);
                    assert(pred(s));
                    assert(kept@ == self.sessions@.take(i + 1).filter(pred));
                }
            } else {
                proof {
                    assert(!pred(s));
                    assert(kept@ == self.sessions@.take(i + 1).filter(pred));
                }
                proof {
                    lemma_index_of(old_model, i as int);
                }
                removed = Some(s.player_id);
            }
            i = i + 1;
        }
        proof {
            assert(self.sessions@.take(i as int) =~= self.sessions@);
            if old_model.has_session(session_id) {
                let j = choose|j: int|
                    0 <= j < old_model.sessions.len() && #[trigger] old_model.sessions[j].session_id
                        == session_id;
                assert(self.sessions@[j].session_id == session_id);
            }
        }
        self.sessions = kept;
        proof {
            let m = self@;
            assert(m == old_model.disconnected(session_id));
            assert forall|k: int| 0 <= k < m.sessions.len() implies #[trigger] old_model.sessions.contains(
                m.sessions[k],
            ) by {
                old_model.sessions.lemma_filter_contains_rev(pred, m.sessions[k]);
                assert(m.sessions.contains(m.sessions[k]));
            }
            lemma_filter_keeps_wf(old_model, session_id);
        }
        removed
    }

    /// Where an input received from session `session_id` goes: unknown
    /// sessions are dropped; otherwise it is validated against the session's
    /// player, the floor last announced to it (0 if none) and the current
    /// tick.
    pub fn receive_input(&self, session_id: SessionId) -> (r: InputRoute)
        requires
            self@.wf(),
        ensures
            r == self@.route(session_id),
    {
        match self.find(session_id) {
            None => InputRoute::DroppedUnknownSession,
            Some(i) => {
                let s = self.sessions[i];
                InputRoute::Validate {
                    player_id: s.player_id,
                    floor: match s.last_emitted_floor {
                        Some(f) => f,
                        None => 0,
                    },
                    current_tick: self.tick,
                }
            },
        }
    }

    /// Advances one tick: says whether the replay's initial baseline is to
    /// be recorded first (on the very first step only), moves the tick on by
    /// one, and announces the new floor, post-step tick plus lead, to every
    /// connected session alike.
    pub fn step(&mut self) -> (p: StepPlan)
        requires
            old(self)@.wf(),
            old(self)@.can_step(),
        ensures
            final(self)@ == old(self)@.stepped(),
            final(self)@.wf(),
            p == (StepPlan {
                tick: old(self)@.tick,
                record_baseline: !old(self)@.baseline_recorded,
                target_tick_floor: old(self)@.step_floor() as u64,
            }),
    {
        let ghost old_model = self@;
        let record_baseline = !self.baseline_recorded;
        self.baseline_recorded = true;
        let current_tick = self.tick;
        self.tick = self.tick + 1;
        let target_tick_floor = self.tick + self.config.input_lead_ticks;
        let mut i: usize = 0;
        while i < self.sessions.len()
            invariant
                self.tick == old_model.tick + 1,
                self.baseline_recorded,
                self.next_session_id == old_model.next_session_id,
                self.next_player_ordinal == old_model.next_player_ordinal,
                self.entity_spawn_order@ == old_model.spawn_order,
                self.config.max_sessions == old_model.max_sessions,
                self.config.tick_rate_hz == old_model.tick_rate_hz,
                self.config.match_duration_ticks == old_model.match_duration_ticks,
                self.config.test_player_ids_view() == old_model.test_player_ids,
                self.config.input_lead_ticks == old_model.input_lead_ticks,
                target_tick_floor == old_model.step_floor(),
                self.sessions@.len() == old_model.sessions.len(),
                i <= self.sessions@.len(),
                forall|k: int|
                    0 <= k < i ==> #[trigger] self.sessions@[k] == (Session {
                        last_emitted_floor: Some(target_tick_floor),
                        ..old_model.sessions[k]
                    }),
                forall|k: int|
                    i <= k < self.sessions@.len() ==> #[trigger] self.sessions@[k]
                        == old_model.sessions[k],
            decreases self.sessions@.len() - i,
        {
            let s = self.sessions[i];
            self.sessions.set(i, Session { last_emitted_floor: Some(target_tick_floor), ..s });
            i = i + 1;
        }
        proof {
            let m = self@;
            assert(m.sessions =~= old_model.stepped().sessions);
            assert(m == old_model.stepped());
        }
        StepPlan { tick: current_tick, record_baseline, target_tick_floor }
    }
}

/// The table after `n` steps.
pub open spec fn steps(m: TableModel, n: nat) -> TableModel
    decreases n,
{
    if n == 0 {
        m
    } else {
        steps(m, (n - 1) as nat).stepped()
    }
}

/// A welcome tells a session the floor of the moment it is welcomed: every
/// step taken before the welcome raises it by one, so a late joiner is never
/// told a floor in the past.
pub proof fn law_welcome_floor_follows_steps(m: TableModel, n: nat)
    requires
        m.tick + n + 1 + m.input_lead_ticks <= u64::MAX,
    ensures
        steps(m, n).tick == m.tick + n,
        steps(m, n).input_lead_ticks == m.input_lead_ticks,
        steps(m, n).welcome_floor() == m.welcome_floor() + n,
        steps(m, n).welcome_floor() == m.tick + n + m.input_lead_ticks,
        steps(m, n).welcome_floor() >= steps(m, n).tick,
    decreases n,
{
    if n > 0 {
        law_welcome_floor_follows_steps(m, (n - 1) as nat);
    }
}

/// The welcome floor is the floor of the step that just happened: welcoming
/// right after a step announces the same floor that step announced to every
/// other session.
pub proof fn law_welcome_floor_matches_step_floor(m: TableModel)
    requires
        m.can_step(),
    ensures
        m.stepped().welcome_floor() == m.step_floor(),
        m.welcome_floor() == m.tick + m.input_lead_ticks,
{
}

/// The session cap counts live sessions only: with ids left, another
/// session can be accepted exactly when fewer sessions are connected than
/// the cap, however many have come and gone.
pub proof fn law_cap_counts_live_sessions(m: TableModel)
    requires
        m.wf(),
        m.next_session_id < u64::MAX,
        m.next_player_ordinal < u8::MAX,
        m.test_player_ids matches Some(ids) ==> m.next_player_ordinal < ids.len(),
    ensures
        m.can_accept() <==> m.sessions.len() < m.max_sessions,
{
}

/// A session that has not yet been welcomed nor seen a step has no floor
/// announced to it, so its inputs are checked against floor 0, at the
/// current tick, for the player it was given.
pub proof fn law_fresh_session_floor_is_zero(m: TableModel, entity: EntityId)
    requires
        m.wf(),
        m.can_accept(),
    ensures
        m.accepted(entity).route(m.next_session_id) == (InputRoute::Validate {
            player_id: m.next_player_id(),
            floor: 0,
            current_tick: m.tick,
        }),
{
    let a = m.accepted(entity);
    assert(a.wf()) by {
        assert forall|i: int| 0 <= i < a.sessions.len() implies a.spawn_order.contains(
            #[trigger] a.sessions[i].player_id,
        ) by {
            if i < m.sessions.len() {
                let k = choose|k: int| 0 <= k < m.spawn_order.len() && m.spawn_order[k] == m.sessions[i].player_id;
                assert(a.spawn_order[k] == a.sessions[i].player_id);
            } else {
                assert(a.spawn_order[a.spawn_order.len() - 1] == a.sessions[i].player_id);
            }
        }
    }
    lemma_last_session(a);
}

/// A disconnect from a full table frees a slot for the next session.
pub proof fn law_disconnect_frees_a_slot(m: TableModel, id: SessionId)
    requires
        m.wf(),
        m.has_session(id),
        m.next_session_id < u64::MAX,
        m.next_player_ordinal < u8::MAX,
        m.test_player_ids matches Some(ids) ==> m.next_player_ordinal < ids.len(),
    ensures
        m.disconnected(id).can_accept(),
        m.disconnected(id).sessions.len() < m.max_sessions,
{
    law_session_count(m, 0, id);
}

/// A newly accepted session never gets the id of a connected session, and
/// ids keep growing: the next id is above every id issued so far.
pub proof fn law_session_ids_never_reused(m: TableModel, entity: EntityId)
    requires
        m.wf(),
        m.can_accept(),
    ensures
        !m.has_session(m.next_session_id),
        m.accepted(entity).next_session_id > m.next_session_id,
        forall|i: int|
            0 <= i < m.accepted(entity).sessions.len() ==> #[trigger] m.accepted(
                entity,
            ).sessions[i].session_id < m.accepted(entity).next_session_id,
{
}

/// Without pre-assigned ids, the next session's PlayerId is the number of
/// sessions accepted before it, and no session accepted before, connected
/// or departed, has it: PlayerIds are never reused after a disconnect.
pub proof fn law_player_ids_never_reused(m: TableModel)
    requires
        m.wf(),
        m.can_accept(),
        m.test_player_ids is None,
    ensures
        m.next_player_id() == m.spawn_order.len(),
        !m.spawn_order.contains(m.next_player_id()),
        forall|i: int|
            0 <= i < m.sessions.len() ==> #[trigger] m.sessions[i].player_id
                != m.next_player_id(),
{
    assert forall|k: int| 0 <= k < m.spawn_order.len() implies #[trigger] m.spawn_order[k]
        != m.next_player_id() by {
        assert(m.spawn_order[k] == k as u8);
    }
    assert forall|i: int| 0 <= i < m.sessions.len() implies #[trigger] m.sessions[i].player_id
        != m.next_player_id() by {
        assert(m.spawn_order.contains(m.sessions[i].player_id));
    }
}

/// In test mode the sessions get the pre-assigned PlayerIds in connection
/// order: the players spawned so far are the first pre-assigned ids.
pub proof fn law_test_player_ids_in_order(m: TableModel)
    requires
        m.wf(),
        m.test_player_ids is Some,
    ensures
        m.spawn_order == m.test_player_ids->0.take(m.spawn_order.len() as int),
{
    assert(m.spawn_order =~= m.test_player_ids->0.take(m.spawn_order.len() as int));
}

/// Accepting a session adds exactly one session; a disconnect removes the
/// departing session, if connected, and keeps every other session as it was.
pub proof fn law_session_count(m: TableModel, entity: EntityId, id: SessionId)
    requires
        m.wf(),
    ensures
        m.accepted(entity).sessions.len() == m.sessions.len() + 1,
        m.disconnected(id).sessions.len() == if m.has_session(id) {
            m.sessions.len() - 1
        } else {
            m.sessions.len() as int
        },
        !m.disconnected(id).has_session(id),
        forall|other: SessionId|
            other != id && #[trigger] m.has_session(other) ==> m.disconnected(id).has_session(other)
                && m.disconnected(id).session(other) == m.session(other),
{
    let pred = other_than(id);
    let f = m.sessions.filter(pred);
    lemma_filter_keeps_wf(m, id);
    let d = m.disconnected(id);
    assert forall|k: int| 0 <= k < f.len() implies #[trigger] f[k].session_id != id by {
        m.sessions.lemma_filter_pred(pred, k);
    }
    if m.has_session(id) {
        let j = m.index_of(id);
        assert(m.sessions == m.sessions.take(j) + seq![m.sessions[j]] + m.sessions.skip(j + 1));
        Seq::filter_distributes_over_add(m.sessions.take(j) + seq![m.sessions[j]], m.sessions.skip(j + 1), pred);
        Seq::filter_distributes_over_add(m.sessions.take(j), seq![m.sessions[j]], pred);
        lemma_filter_all_kept(m.sessions.take(j), pred);
        lemma_filter_all_kept(m.sessions.skip(j + 1), pred);
        reveal(Seq::filter);
        assert(seq![m.sessions[j]].filter(pred) =~= Seq::<Session>::empty());
    } else {
        lemma_filter_all_kept(m.sessions, pred);
    }
    assert forall|other: SessionId|
        other != id && #[trigger] m.has_session(other) implies d.has_session(other)
        && d.session(other) == m.session(other) by {
        let i = m.index_of(other);
        assert(pred(m.sessions[i]));
        m.sessions.lemma_filter_contains(pred, i);
        let k = choose|k: int| 0 <= k < f.len() && f[k] == m.sessions[i];
        assert(d.sessions[k].session_id == other);
        lemma_index_of(d, k);
    }
}

/// Filtering with a predicate that every element meets keeps everything.
proof fn lemma_filter_all_kept(s: Seq<Session>, pred: spec_fn(Session) -> bool)
    requires
        forall|k: int| 0 <= k < s.len() ==> pred(#[trigger] s[k]),
    ensures
        s.filter(pred) == s,
    decreases s.len(),
{
    reveal(Seq::filter);
    if s.len() > 0 {
        lemma_filter_all_kept(s.drop_last(), pred);
        assert(s.drop_last().push(s.last()) =~= s);
    }
}

/// A session disconnecting never ends the match, and inputs that still
/// arrive from it are dropped.
pub proof fn law_disconnect_does_not_end_match(m: TableModel, id: SessionId)
    requires
        m.wf(),
    ensures
        m.disconnected(id).match_over() == m.match_over(),
        m.disconnected(id).tick == m.tick,
        m.disconnected(id).route(id) == InputRoute::DroppedUnknownSession,
{
    law_session_count(m, 0, id);
}

/// After a step every connected session has been announced the same floor,
/// the post-step tick plus the lead.
pub proof fn law_floor_coherent(m: TableModel)
    requires
        m.wf(),
        m.can_step(),
    ensures
        forall|i: int|
            0 <= i < m.stepped().sessions.len() ==> (#[trigger] m.stepped().sessions[i]).last_emitted_floor
                == Some((m.stepped().tick + m.input_lead_ticks) as u64),
{
}

/// The floor announced strictly increases from one step to the next.
pub proof fn law_floor_increases(m: TableModel)
    requires
        m.wf(),
        m.can_step(),
    ensures
        m.stepped().step_floor() == m.step_floor() + 1,
{
}

/// What a welcome announces is what an input from that session is then
/// checked against.
pub proof fn law_welcome_floor_is_enforced(m: TableModel, id: SessionId)
    requires
        m.wf(),
        m.has_session(id),
        m.welcome_floor() <= u64::MAX,
    ensures
        m.welcomed(id).route(id) == (InputRoute::Validate {
            player_id: m.session(id).player_id,
            floor: m.welcome_floor() as u64,
            current_tick: m.tick,
        }),
{
    let i = m.index_of(id);
    let w = m.welcomed(id);
    assert(w.sessions[i].session_id == id);
    assert(w.wf()) by {
        assert forall|k: int| 0 <= k < w.sessions.len() implies #[trigger] w.sessions[k].session_id
            == m.sessions[k].session_id && w.sessions[k].player_id == m.sessions[k].player_id by {}
    }
    lemma_index_of(w, i);
}

/// The replay's initial baseline is recorded on the first step and never
/// again.
pub proof fn law_baseline_recorded_once(m: TableModel)
    ensures
        m.stepped().baseline_recorded,
        m.stepped().stepped().baseline_recorded,
{
}

/// Each step advances the tick by one, so from a fresh table the match is
/// over exactly once the number of steps reaches the match duration.
pub proof fn law_match_ends_after_duration(config: ServerConfig, n: nat)
    requires
        n + config.input_lead_ticks + 1 <= u64::MAX,
    ensures
        steps(TableModel::initial(config), n).tick == n,
        steps(TableModel::initial(config), n).match_duration_ticks == config.match_duration_ticks,
        steps(TableModel::initial(config), n).input_lead_ticks == config.input_lead_ticks,
        steps(TableModel::initial(config), n).match_over() <==> n >= config.match_duration_ticks,
    decreases n,
{
    if n > 0 {
        law_match_ends_after_duration(config, (n - 1) as nat);
    }
}

/// A stable order lists every spawned player's position exactly once.
pub proof fn law_step_input_order_is_permutation(keys: Seq<u8>, order: Seq<usize>)
    requires
        stably_sorted(keys, order),
    ensures
        order.no_duplicates(),
        forall|k: usize| k < keys.len() ==> #[trigger] order.contains(k),
{
    let ints = order.map_values(|x: usize| x as int);
    assert(order.no_duplicates()) by {
        assert forall|a: int, b: int| 0 <= a < order.len() && 0 <= b < order.len() && a != b implies order[a]
            != order[b] by {
            if a < b {
                assert(input_precedes(keys, order[a], order[b]));
            } else {
                assert(input_precedes(keys, order[b], order[a]));
            }
        }
    }
    assert(ints.no_duplicates()) by {
        assert forall|a: int, b: int| 0 <= a < ints.len() && 0 <= b < ints.len() && a != b implies ints[a]
            != ints[b] by {
            assert(order[a] != order[b]);
        }
    }
    ints.unique_seq_to_set();
    let range = vstd::set_lib::set_int_range(0, keys.len() as int);
    vstd::set_lib::lemma_int_range(0, keys.len() as int);
    assert(ints.to_set().subset_of(range)) by {
        assert forall|x: int| ints.to_set().contains(x) implies range.contains(x) by {
            let j = choose|j: int| 0 <= j < ints.len() && ints[j] == x;
            assert(order[j] < keys.len());
        }
    }
    vstd::set_lib::lemma_subset_equality(ints.to_set(), range);
    assert forall|k: usize| k < keys.len() implies #[trigger] order.contains(k) by {
        assert(range.contains(k as int));
        assert(ints.to_set().contains(k as int));
        let j = choose|j: int| 0 <= j < ints.len() && ints[j] == k as int;
        assert(order[j] == k);
    }
}

/// The order in which inputs reach the simulation is determined by the
/// PlayerIds in spawn order alone: two stable orders of the same players
/// are the same order.
pub proof fn law_step_input_order_unique(keys: Seq<u8>, o1: Seq<usize>, o2: Seq<usize>)
    requires
        stably_sorted(keys, o1),
        stably_sorted(keys, o2),
    ensures
        o1 == o2,
{
    law_step_input_order_is_permutation(keys, o1);
    law_step_input_order_is_permutation(keys, o2);
    assert forall|a: int| 0 <= a < o1.len() implies o1[a] == o2[a] by {
        lemma_same_position(keys, o1, o2, a);
    }
    assert(o1 =~= o2);
}

/// Both stable orders hold the same position at index `a`.
proof fn lemma_same_position(keys: Seq<u8>, o1: Seq<usize>, o2: Seq<usize>, a: int)
    requires
        stably_sorted(keys, o1),
        stably_sorted(keys, o2),
        o1.no_duplicates(),
        o2.no_duplicates(),
        forall|k: usize| k < keys.len() ==> #[trigger] o1.contains(k),
        forall|k: usize| k < keys.len() ==> #[trigger] o2.contains(k),
        0 <= a < o1.len(),
    ensures
        o1[a] == o2[a],
    decreases a,
{
    if o1[a] != o2[a] {
        let x = o1[a];
        let y = o2[a];
        assert(o2.contains(x));
        assert(o1.contains(y));
        let b = choose|b: int| 0 <= b < o2.len() && o2[b] == x;
        let c = choose|c: int| 0 <= c < o1.len() && o1[c] == y;
        if b < a {
            lemma_same_position(keys, o1, o2, b);
            assert(o1[b] == x);
        }
        if c < a {
            lemma_same_position(keys, o1, o2, c);
            assert(o2[c] == y);
        }
        assert(input_precedes(keys, y, x));
        assert(input_precedes(keys, x, y));
    }
}

/// Removing one session keeps the table well formed.
proof fn lemma_filter_keeps_wf(m: TableModel, id: SessionId)
    requires
        m.wf(),
    ensures
        m.disconnected(id).wf(),
{
    let pred = other_than(id);
    let f = m.sessions.filter(pred);
    m.sessions.lemma_filter_len(pred);
    assert forall|k: int| 0 <= k < f.len() implies m.sessions.contains(#[trigger] f[k]) by {
        m.sessions.lemma_filter_contains_rev(pred, f[k]);
        assert(f.contains(f[k]));
    }
    lemma_filter_indices_increase(m.sessions, pred);
    assert forall|i: int, j: int| 0 <= i < j < f.len() implies #[trigger] f[i].session_id
        != #[trigger] f[j].session_id by {
        assert(from_ordered_positions(m.sessions, f, i, j));
        let (a, b) = choose|a: int, b: int|
            0 <= a < b < m.sessions.len() && m.sessions[a] == f[i] && m.sessions[b] == f[j];
    }
    assert forall|i: int| 0 <= i < f.len() implies m.spawn_order.contains(
        #[trigger] f[i].player_id,
    ) by {
        let a = choose|a: int| 0 <= a < m.sessions.len() && m.sessions[a] == f[i];
        assert(m.spawn_order.contains(m.sessions[a].player_id));
    }
}

/// Positions `i < j` of `f` hold elements found at positions `a < b` of `s`.
spec fn from_ordered_positions(s: Seq<Session>, f: Seq<Session>, i: int, j: int) -> bool {
    exists|a: int, b: int| 0 <= a < b < s.len() && s[a] == f[i] && s[b] == f[j]
}

/// Two positions of a filtered sequence come from two positions of the
/// unfiltered sequence in the same order.
proof fn lemma_filter_indices_increase(s: Seq<Session>, pred: spec_fn(Session) -> bool)
    ensures
        forall|i: int, j: int|
            0 <= i < j < s.filter(pred).len() ==> #[trigger] from_ordered_positions(
                s,
                s.filter(pred),
                i,
                j,
            ),
    decreases s.len(),
{
    reveal(Seq::filter);
    if s.len() > 0 {
        let d = s.drop_last();
        lemma_filter_indices_increase(d, pred);
        let f = s.filter(pred);
        let fd = d.filter(pred);
        d.lemma_filter_len(pred);
        assert(f == (if pred(s.last()) { fd.push(s.last()) } else { fd }));
        assert forall|i: int, j: int| 0 <= i < j < f.len() implies #[trigger] from_ordered_positions(
            s,
            f,
            i,
            j,
        ) by {
            if pred(s.last()) && j == f.len() - 1 {
                assert(f[i] == fd[i]);
                d.lemma_filter_contains_rev(pred, fd[i]);
                assert(fd.contains(fd[i]));
                let a = choose|a: int| 0 <= a < d.len() && d[a] == fd[i];
                assert(s[a] == f[i] && s[s.len() - 1] == f[j]);
            } else {
                assert(j < fd.len());
                assert(f[i] == fd[i] && f[j] == fd[j]);
                assert(from_ordered_positions(d, fd, i, j));
                let (a, b) = choose|a: int, b: int|
                    0 <= a < b < d.len() && d[a] == fd[i] && d[b] == fd[j];
                assert(s[a] == f[i] && s[b] == f[j]);
            }
        }
    }
}

} // verus!
