use flowstate::config::{
    ServerConfig, CONNECT_TIMEOUT_MS, DEFAULT_MAX_SESSIONS, INPUT_LEAD_TICKS, MATCH_DURATION_TICKS,
    TICK_RATE_HZ,
};
use flowstate::server::{EndReason, InputRoute, SessionTable, StepPlan};
use flowstate::wire::ServerWelcome;

/// Accepts a session the way the server does: the character is spawned for
/// the PlayerId the table hands out next (here entity ids 100, 101, ...).
fn accept(table: &mut SessionTable) -> (u64, u8, u64) {
    assert!(table.can_accept());
    let entity = 100 + table.entity_spawn_order().len() as u64;
    table.accept_session(entity)
}

/// PlayerIds must never be reused, even after a disconnect frees up a slot.
#[test]
fn test_player_id_not_reused_after_disconnect() {
    let mut server = SessionTable::new(ServerConfig::default());
    let (session0, player0, _) = accept(&mut server);
    let (_, player1, _) = accept(&mut server);
    assert_eq!((player0, player1), (0, 1));

    server.disconnect_session(session0);
    let (_, player2, _) = accept(&mut server);
    assert_eq!(player2, 2);
}

/// Sessions beyond two are supported.
#[test]
fn test_accept_session_supports_more_than_two() {
    let mut server = SessionTable::new(ServerConfig::default());
    let (_, player0, _) = accept(&mut server);
    let (_, player1, _) = accept(&mut server);
    let (_, player2, _) = accept(&mut server);
    assert_eq!([player0, player1, player2], [0, 1, 2]);
    assert_eq!(server.session_count(), 3);
}

/// Match termination.
#[test]
fn test_t0_15_match_termination() {
    let config = ServerConfig { match_duration_ticks: 10, ..Default::default() };
    let mut server = SessionTable::new(config);
    accept(&mut server);
    accept(&mut server);

    for _ in 0..10 {
        assert!(server.should_end_match().is_none());
        server.step();
    }

    assert_eq!(server.should_end_match(), Some(EndReason::Complete));
}

/// The connect timeout and the session count that an external
/// timeout check reads.
#[test]
fn test_t0_16_connection_timeout() {
    assert_eq!(CONNECT_TIMEOUT_MS, 30000);
    let mut server = SessionTable::new(ServerConfig::default());
    assert_eq!(server.session_count(), 0);
    accept(&mut server);
    assert_eq!(server.session_count(), 1);
}

#[test]
fn default_config_values() {
    let c = ServerConfig::default();
    assert_eq!(c.seed, 0);
    assert_eq!(c.tick_rate_hz, TICK_RATE_HZ);
    assert_eq!(c.tick_rate_hz, 60);
    assert_eq!(c.max_future_ticks, 120);
    assert_eq!(c.input_lead_ticks, INPUT_LEAD_TICKS);
    assert_eq!(c.input_lead_ticks, 1);
    assert_eq!(c.input_rate_limit_per_sec, 120);
    assert_eq!(c.match_duration_ticks, MATCH_DURATION_TICKS);
    assert_eq!(c.match_duration_ticks, 3600);
    assert_eq!(c.connect_timeout_ms, 30000);
    assert_eq!(c.max_sessions, DEFAULT_MAX_SESSIONS);
    assert_eq!(c.max_sessions, 16);
    assert!(!c.test_mode);
    assert_eq!(c.test_player_ids, None);
}

#[test]
fn end_reason_name() {
    assert_eq!(EndReason::Complete.as_str(), "complete");
}

/// Two sessions join and are welcomed with the floor, the tick rate, their
/// PlayerId and their character.
#[test]
fn two_sessions_are_welcomed() {
    let mut server = SessionTable::new(ServerConfig::default());
    let (session1, player1, entity1) = accept(&mut server);
    assert_eq!((session1, player1, entity1), (1, 0, 100));
    assert_eq!(server.session_count(), 1);
    assert!(server.welcome_fits());
    let welcome1 = server.welcome_for(session1);
    assert_eq!(
        welcome1,
        ServerWelcome {
            target_tick_floor: INPUT_LEAD_TICKS,
            tick_rate_hz: TICK_RATE_HZ,
            player_id: 0,
            controlled_entity_id: 100,
        }
    );
    let (session2, player2, entity2) = accept(&mut server);
    assert_eq!((session2, player2, entity2), (2, 1, 101));
    let welcome2 = server.welcome_for(session2);
    assert_eq!(welcome2.target_tick_floor, INPUT_LEAD_TICKS);
    assert_eq!(welcome2.player_id, 1);
    assert_eq!(welcome2.controlled_entity_id, 101);
    assert_eq!(server.session_ids(), vec![1, 2]);
}

/// The floor after a step is the post-step tick plus the lead, and the
/// baseline is recorded on the first step only.
#[test]
fn floor_follows_tick_after_each_step() {
    let mut server = SessionTable::new(ServerConfig::default());
    accept(&mut server);
    accept(&mut server);
    assert!(server.can_step());
    let plan = server.step();
    assert_eq!(plan, StepPlan { tick: 0, record_baseline: true, target_tick_floor: 1 + INPUT_LEAD_TICKS });
    assert_eq!(server.current_tick(), 1);
    let plan2 = server.step();
    assert_eq!(plan2, StepPlan { tick: 1, record_baseline: false, target_tick_floor: 2 + INPUT_LEAD_TICKS });
    assert!(plan2.target_tick_floor > plan.target_tick_floor);
}

/// Test mode hands out the pre-assigned PlayerIds in connection order.
#[test]
fn test_mode_player_ids_in_connection_order() {
    let config = ServerConfig {
        test_mode: true,
        test_player_ids: Some(vec![17, 99]),
        match_duration_ticks: 10,
        ..Default::default()
    };
    let mut server = SessionTable::new(config);
    assert_eq!(server.next_player_id(), 17);
    let (_, player1, _) = accept(&mut server);
    let (_, player2, _) = accept(&mut server);
    assert_eq!(player1, 17);
    assert_eq!(player2, 99);
    assert_eq!(*server.entity_spawn_order(), vec![17, 99]);
    assert!(!server.can_accept());
}

/// The session cap stops acceptance.
#[test]
fn session_cap_stops_acceptance() {
    let config = ServerConfig { max_sessions: 1, ..Default::default() };
    let mut server = SessionTable::new(config);
    accept(&mut server);
    assert!(!server.can_accept());
}

/// Inputs are validated against the floor last announced to the session.
#[test]
fn inputs_are_routed_with_the_session_floor() {
    let config = ServerConfig { match_duration_ticks: 20, ..Default::default() };
    let mut server = SessionTable::new(config);
    let (session1, player1, _) = accept(&mut server);
    accept(&mut server);
    assert_eq!(
        server.receive_input(session1),
        InputRoute::Validate { player_id: player1, floor: 0, current_tick: 0 }
    );
    let welcome1 = server.welcome_for(session1);
    assert_eq!(welcome1.target_tick_floor, INPUT_LEAD_TICKS);
    assert_eq!(
        server.receive_input(session1),
        InputRoute::Validate { player_id: player1, floor: INPUT_LEAD_TICKS, current_tick: 0 }
    );
    for _ in 0..5 {
        server.step();
    }
    assert_eq!(
        server.receive_input(session1),
        InputRoute::Validate { player_id: player1, floor: 5 + INPUT_LEAD_TICKS, current_tick: 5 }
    );
    assert_eq!(server.receive_input(77), InputRoute::DroppedUnknownSession);
}

/// A disconnect does not end the match; the departed player is reported so
/// that its intent is reset, and its inputs are dropped from then on.
#[test]
fn disconnect_keeps_match_running() {
    let mut server = SessionTable::new(ServerConfig::default());
    let (session1, player1, _) = accept(&mut server);
    let (session2, _, _) = accept(&mut server);
    server.step();
    assert_eq!(server.disconnect_session(session1), Some(player1));
    assert_eq!(server.session_count(), 1);
    assert_eq!(server.should_end_match(), None);
    assert_eq!(server.receive_input(session1), InputRoute::DroppedUnknownSession);
    assert_eq!(server.session_ids(), vec![session2]);
    assert_eq!(server.disconnect_session(session1), None);
    assert_eq!(server.session_count(), 1);
    // The departed player still gets an input slot each step.
    assert_eq!(*server.entity_spawn_order(), vec![0, 1]);
}

/// The simulation receives inputs sorted by PlayerId, ties in spawn order.
#[test]
fn step_inputs_are_sorted_by_player_id() {
    let config = ServerConfig {
        test_mode: true,
        test_player_ids: Some(vec![99, 17, 42, 17]),
        ..Default::default()
    };
    let mut server = SessionTable::new(config);
    for _ in 0..4 {
        accept(&mut server);
    }
    assert_eq!(server.step_input_order(), vec![1, 3, 2, 0]);
    let empty = SessionTable::new(ServerConfig::default());
    assert_eq!(empty.step_input_order(), Vec::<usize>::new());
}
