//! The client's side of the handshake: send the hello once the transport
//! connection is up, then wait for the server's welcome on the control
//! channel.
use vstd::prelude::*;

use crate::wire::{ServerWelcome, CHANNEL_CONTROL};

verus! {

/// `std::io::Error`, carried by the transport errors.
#[verifier::external_type_specification]
#[verifier::external_body]
pub struct ExIoError(std::io::Error);

/// Errors that can occur while connecting to a server.
#[derive(Debug)]
pub enum ConnectError {
    /// The transport failed to initialize or service.
    Io(std::io::Error),
    /// No welcome arrived before the timeout elapsed.
    Timeout,
}

impl From<std::io::Error> for ConnectError {
    fn from(e: std::io::Error) -> (r: Self) {
        ConnectError::Io(e)
    }
}

impl vstd::std_specs::convert::FromSpecImpl<std::io::Error> for ConnectError {
    open spec fn obeys_from_spec() -> bool {
        true
    }

    open spec fn from_spec(v: std::io::Error) -> Self {
        ConnectError::Io(v)
    }
}

/// What the transport reported while connecting.
#[derive(Debug, Clone, Copy, PartialEq, Eq, Structural)]
pub enum HandshakeEvent {
    /// The connection to the server is established.
    Connected,
    /// A packet arrived on `channel_id`; `welcome` is its content where it
    /// decodes as a welcome.
    Received { channel_id: u8, welcome: Option<ServerWelcome> },
    /// Anything else.
    Other,
}

/// What the client does next.
#[derive(Debug, Clone, Copy, PartialEq, Eq, Structural)]
pub enum HandshakeStep {
    /// Send the hello on the control channel.
    SendHello,
    /// The handshake is complete with this welcome.
    Welcomed(ServerWelcome),
    /// Keep servicing the connection.
    Continue,
}

/// Progress of the client's handshake.
#[derive(Debug, Clone, Copy, PartialEq, Eq, Structural)]
pub struct Handshake {
    pub hello_sent: bool,
}

impl Handshake {
    /// Nothing sent yet.
    pub fn new() -> (h: Self)
        ensures
            !h.hello_sent,
    {
        Handshake { hello_sent: false }
    }

    /// The step after `event`, as a pure function of the progress so far.
    pub open spec fn next(self, event: HandshakeEvent) -> (Handshake, HandshakeStep) {
        match event {
            HandshakeEvent::Connected => if self.hello_sent {
                (self, HandshakeStep::Continue)
            } else {
                (Handshake { hello_sent: true }, HandshakeStep::SendHello)
            },
            HandshakeEvent::Received { channel_id, welcome } => {
                if channel_id == CHANNEL_CONTROL && welcome is Some {
                    (self, HandshakeStep::Welcomed(welcome->0))
                } else {
                    (self, HandshakeStep::Continue)
                }
            },
            HandshakeEvent::Other => (self, HandshakeStep::Continue),
        }
    }

    /// Decides what to do on `event`: the hello goes out when the
    /// connection comes up, once; a welcome on the control channel completes
    /// the handshake; anything else is ignored.
    pub fn on_event(&mut self, event: HandshakeEvent) -> (step: HandshakeStep)
        ensures
            (*final(self), step) == old(self).next(event),
    {
        match event {
            HandshakeEvent::Connected => {
                if self.hello_sent {
                    HandshakeStep::Continue
                } else {
                    self.hello_sent = true;
                    HandshakeStep::SendHello
                }
            },
            HandshakeEvent::Received { channel_id, welcome } => {
                if channel_id == CHANNEL_CONTROL {
                    match welcome {
                        Some(w) => HandshakeStep::Welcomed(w),
                        None => HandshakeStep::Continue,
                    }
                } else {
                    HandshakeStep::Continue
                }
            },
            HandshakeEvent::Other => HandshakeStep::Continue,
        }
    }
}

/// The hello is sent at most once: once sent, no event asks for it again.
pub proof fn law_hello_sent_once(h: Handshake, e1: HandshakeEvent, e2: HandshakeEvent)
    ensures
        h.next(e1).1 == HandshakeStep::SendHello ==> h.next(e1).0.next(e2).1
            != HandshakeStep::SendHello,
        h.next(e1).0.hello_sent || !h.hello_sent,
{
}

/// Only a welcome that arrives on the control channel completes the
/// handshake, and it completes it with that welcome.
pub proof fn law_welcome_only_on_control(h: Handshake, e: HandshakeEvent, w: ServerWelcome)
    ensures
        h.next(e).1 == HandshakeStep::Welcomed(w) <==> e == (HandshakeEvent::Received {
            channel_id: CHANNEL_CONTROL,
            welcome: Some(w),
        }),
{
}

} // verus!
