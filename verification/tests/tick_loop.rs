use flowstate::config::ServerConfig;
use flowstate::server::SessionTable;
use flowstate::tick_loop::{admit_peer, pace, LoopAction, PeerEvent, PeerSessions, Phase};
use flowstate::wire::{CHANNEL_CONTROL, CHANNEL_REALTIME};

fn hello(peer: usize) -> PeerEvent {
    PeerEvent::Received { peer, channel_id: CHANNEL_CONTROL, is_hello: true, is_input: false }
}

fn input(peer: usize) -> PeerEvent {
    PeerEvent::Received { peer, channel_id: CHANNEL_REALTIME, is_hello: false, is_input: true }
}

#[test]
fn peers_are_accepted_on_hello_and_routed_afterwards() {
    let mut table = SessionTable::new(ServerConfig::default());
    let mut peers = PeerSessions::new();
    assert_eq!(peers.route_event(Phase::Connecting, input(7)), LoopAction::Ignore);
    assert_eq!(peers.route_event(Phase::Connecting, hello(7)), LoopAction::AcceptPeer { peer: 7 });
    let entity = 500;
    let (session, welcome) = admit_peer(&mut table, &mut peers, 7, entity);
    assert_eq!(session, 1);
    assert_eq!(welcome.target_tick_floor, 1);
    assert_eq!(welcome.player_id, 0);
    assert_eq!(welcome.controlled_entity_id, 500);
    assert_eq!(peers.session_of(7), Some(1));
    // A second hello from the same peer is not a new session.
    assert_eq!(peers.route_event(Phase::Running, hello(7)), LoopAction::Ignore);
    // Inputs only count while running, on the realtime channel.
    assert_eq!(peers.route_event(Phase::Connecting, input(7)), LoopAction::Ignore);
    assert_eq!(peers.route_event(Phase::Running, input(7)), LoopAction::DeliverInput { session_id: 1 });
    let undecodable = PeerEvent::Received {
        peer: 7,
        channel_id: CHANNEL_REALTIME,
        is_hello: false,
        is_input: false,
    };
    assert_eq!(peers.route_event(Phase::Running, undecodable), LoopAction::Ignore);
    assert_eq!(peers.route_event(Phase::Running, input(8)), LoopAction::Ignore);
    // Disconnects are ignored while connecting, handled while running.
    assert_eq!(peers.route_event(Phase::Connecting, PeerEvent::Disconnected { peer: 7 }), LoopAction::Ignore);
    assert_eq!(
        peers.route_event(Phase::Running, PeerEvent::Disconnected { peer: 7 }),
        LoopAction::DisconnectSession { session_id: 1 }
    );
    assert_eq!(peers.session_of(7), None);
    assert_eq!(peers.route_event(Phase::Running, input(7)), LoopAction::Ignore);
    assert_eq!(peers.route_event(Phase::Running, PeerEvent::Disconnected { peer: 7 }), LoopAction::Ignore);
    assert_eq!(peers.route_event(Phase::Running, PeerEvent::Other), LoopAction::Ignore);
}

#[test]
fn pacing_sleeps_until_the_next_deadline_or_resyncs() {
    assert_eq!(pace(100, 16, 110), (116, 6));
    assert_eq!(pace(100, 16, 116), (116, 0));
    assert_eq!(pace(100, 16, 150), (150, 0));
}
