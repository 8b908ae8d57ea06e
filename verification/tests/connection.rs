use flowstate::connection::{ConnectError, Handshake, HandshakeEvent, HandshakeStep};
use flowstate::input::SendInputError;
use flowstate::state::BaselineError;
use flowstate::wire::{ServerWelcome, CHANNEL_CONTROL, CHANNEL_REALTIME};

fn welcome() -> ServerWelcome {
    ServerWelcome {
        target_tick_floor: 1,
        tick_rate_hz: 60,
        player_id: 1,
        controlled_entity_id: 100,
    }
}

#[test]
fn hello_is_sent_once_when_connected() {
    let mut h = Handshake::new();
    assert_eq!(h.on_event(HandshakeEvent::Other), HandshakeStep::Continue);
    assert_eq!(h.on_event(HandshakeEvent::Connected), HandshakeStep::SendHello);
    assert!(h.hello_sent);
    assert_eq!(h.on_event(HandshakeEvent::Connected), HandshakeStep::Continue);
}

#[test]
fn welcome_completes_only_on_control_channel() {
    let mut h = Handshake::new();
    h.on_event(HandshakeEvent::Connected);
    let on_realtime = HandshakeEvent::Received {
        channel_id: CHANNEL_REALTIME,
        welcome: Some(welcome()),
    };
    assert_eq!(h.on_event(on_realtime), HandshakeStep::Continue);
    let undecodable = HandshakeEvent::Received { channel_id: CHANNEL_CONTROL, welcome: None };
    assert_eq!(h.on_event(undecodable), HandshakeStep::Continue);
    let on_control = HandshakeEvent::Received {
        channel_id: CHANNEL_CONTROL,
        welcome: Some(welcome()),
    };
    assert_eq!(h.on_event(on_control), HandshakeStep::Welcomed(welcome()));
}

#[test]
fn channel_constants() {
    assert_eq!(CHANNEL_REALTIME, 0);
    assert_eq!(CHANNEL_CONTROL, 1);
    assert_eq!(flowstate::wire::CHANNEL_LIMIT, 2);
}

#[test]
fn transport_errors_convert() {
    let e: ConnectError = std::io::Error::other("down").into();
    assert!(matches!(e, ConnectError::Io(_)));
    let e: SendInputError = std::io::Error::other("down").into();
    assert!(matches!(e, SendInputError::Io(_)));
    let e: BaselineError = std::io::Error::other("down").into();
    assert!(matches!(e, BaselineError::Io(_)));
    assert!(matches!(BaselineError::Invalid("bad entity"), BaselineError::Invalid("bad entity")));
}
