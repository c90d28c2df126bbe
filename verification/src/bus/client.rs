//! The client side of the bus handshake and subscription replies.

use vstd::prelude::*;
use crate::bus::codec::CodecError;
use crate::types::message::{BUS_PROTOCOL_VERSION, BusMessage, HelloMsg, LifecycleSignal};

verus! {

/// Why a client could not talk to the bus.
#[derive(Debug)]
pub enum ClientError {
    Connect { path: String, source: std::io::Error },
    Codec(CodecError),
    HandshakeUnexpected { got: BusMessage },
    SubscribeAckUnexpected { got: BusMessage },
}

/// The first frame a client sends.
pub fn hello(client_kind: &str) -> (m: BusMessage)
    ensures
        m matches BusMessage::Hello(h) && h.protocol_version == BUS_PROTOCOL_VERSION && h.client_kind@
            == client_kind@,
{
    BusMessage::Hello(HelloMsg { protocol_version: BUS_PROTOCOL_VERSION, client_kind: client_kind.to_owned() })
}

/// The handshake succeeds on `Lifecycle(Ready)` and fails on anything
/// else.
pub fn check_handshake_reply(got: BusMessage) -> (r: Result<(), ClientError>)
    ensures
        got == BusMessage::Lifecycle(LifecycleSignal::Ready) ==> r is Ok,
        got != BusMessage::Lifecycle(LifecycleSignal::Ready) ==> (r matches Err(ClientError::HandshakeUnexpected { got: g })
            && g == got),
{
    match got {
        BusMessage::Lifecycle(LifecycleSignal::Ready) => Ok(()),
        got => Err(ClientError::HandshakeUnexpected { got }),
    }
}

/// A fact subscription is acknowledged by `SubscribeAck`, which carries
/// the starting sequence.
pub fn check_subscribe_reply(got: BusMessage) -> (r: Result<u64, ClientError>)
    ensures
        match got {
            BusMessage::SubscribeAck { sequence } => r == Ok::<u64, ClientError>(sequence),
            _ => r matches Err(ClientError::SubscribeAckUnexpected { got: g }) && g == got,
        },
{
    match got {
        BusMessage::SubscribeAck { sequence } => Ok(sequence),
        got => Err(ClientError::SubscribeAckUnexpected { got }),
    }
}

} // verus!
