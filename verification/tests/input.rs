use flowstate::client::{ClientState, InputStamp};
use flowstate::input::{target_tick, InputSeqGen};
use flowstate::tick_floor::TickFloor;
use flowstate::wire::ServerWelcome;

/// `InputSeq` is strictly monotonic increasing per session,
/// starting at 1.
#[test]
fn test_cli_005_input_seq_is_strictly_monotonic() {
    let mut seq_gen = InputSeqGen::new();
    assert_eq!(seq_gen.advance(), 1);
    assert_eq!(seq_gen.advance(), 2);
    assert_eq!(seq_gen.advance(), 3);
}

/// The sent tick is clamped up to the floor, but left unchanged when
/// the desired tick already meets or exceeds it.
#[test]
fn test_cli_006_target_tick_clamps_to_floor() {
    assert_eq!(target_tick(5, 3), 5); // below floor -> clamped up
    assert_eq!(target_tick(5, 5), 5); // at floor -> unchanged
    assert_eq!(target_tick(5, 10), 10); // above floor -> unchanged
}

#[test]
fn default_generator_starts_at_one() {
    let mut seq_gen = InputSeqGen::default();
    assert_eq!(seq_gen.advance(), 1);
}

#[test]
fn target_tick_at_extremes() {
    assert_eq!(target_tick(0, 0), 0);
    assert_eq!(target_tick(u64::MAX, 0), u64::MAX);
    assert_eq!(target_tick(0, u64::MAX), u64::MAX);
}

#[test]
fn tick_floor_only_rises() {
    let mut floor = TickFloor::from_welcome(4);
    assert_eq!(floor.get(), 4);
    floor.observe(2);
    assert_eq!(floor.get(), 4);
    floor.observe(9);
    assert_eq!(floor.get(), 9);
    floor.observe(9);
    assert_eq!(floor.get(), 9);
    floor.observe(7);
    assert_eq!(floor.get(), 9);
}

#[test]
fn tick_floor_order_of_announcements_does_not_matter() {
    let mut a = TickFloor::from_welcome(1);
    a.observe(5);
    a.observe(3);
    let mut b = TickFloor::from_welcome(1);
    b.observe(3);
    b.observe(5);
    assert_eq!(a.get(), b.get());
    assert_eq!(a.get(), 5);
}

fn welcome(floor: u64) -> ServerWelcome {
    ServerWelcome {
        target_tick_floor: floor,
        tick_rate_hz: 60,
        player_id: 0,
        controlled_entity_id: 100,
    }
}

#[test]
fn client_stamps_inputs_at_or_above_the_floor() {
    let mut client = ClientState::from_welcome(welcome(1));
    assert_eq!(client.tick_floor(), 1);
    assert_eq!(*client.welcome(), welcome(1));
    assert_eq!(client.next_input(0), InputStamp { tick: 1, input_seq: 1 });
    assert_eq!(client.next_input(3), InputStamp { tick: 3, input_seq: 2 });
    client.observe_tick_floor(6);
    assert_eq!(client.tick_floor(), 6);
    assert_eq!(client.next_input(3), InputStamp { tick: 6, input_seq: 3 });
    client.observe_tick_floor(2);
    assert_eq!(client.tick_floor(), 6);
    assert_eq!(client.next_input(10), InputStamp { tick: 10, input_seq: 4 });
}
