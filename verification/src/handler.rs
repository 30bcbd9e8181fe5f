//! The per-connection handler state machine.
//!
//! A handler reads one protocol message at a time, decodes it into a
//! [`Command`], dispatches the command against the shared store and writes a
//! response back, looping until the peer closes or something unrecoverable
//! happens.  The decisions of that loop are the pure step function
//! [`handler_step`]: from the current state and the event the connection
//! produced, it yields the next state and the action to perform.  The
//! surrounding I/O — reading messages, writing responses — is the caller's
//! business and never holds the store.
//!
//! Terminal states: a clean end of stream before any partial message is the
//! only success exit; an I/O error, a message that decodes into no known
//! command, and a recognized-but-unsupported command all abort the
//! connection.

use vstd::prelude::*;

use crate::command::Command;
use crate::command::Response;
use crate::command::apply_command;
use crate::command::ok_bytes;
use crate::store::ShardedStore;

verus! {

/// Where a connection handler stands.
#[derive(Debug, Clone, PartialEq, Eq)]
pub enum HandlerState {
    /// Awaiting the next message.
    Running,
    /// The peer closed cleanly before any partial message: the success exit.
    ClosedGracefully,
    /// An I/O error, an undecodable message, or an unsupported command.
    Aborted,
}

/// What one turn of the connection produced.
#[derive(Debug, Clone, PartialEq, Eq)]
pub enum ConnEvent {
    /// A full message arrived and decoded into a command.
    Received(Command),
    /// Clean end of stream before any partial message.
    PeerClosed,
    /// An I/O error while reading.
    ReadFailed,
    /// Bytes that decode into no known command.
    DecodeFailed,
    /// An I/O error while writing the previous response.
    WriteFailed,
}

/// What the handler asks its caller to do next.
#[derive(Debug, Clone, PartialEq, Eq)]
pub enum ConnAction {
    /// Write this response on the connection.
    Reply(Response),
    /// Stop: the connection is done.
    Stop,
}

/// The step relation of a running handler: from the store's mapping before
/// the step and the event, which state, action and mapping must follow.
pub open spec fn running_step(
    pre: Map<Seq<u8>, Seq<u8>>,
    event: ConnEvent,
    post: Map<Seq<u8>, Seq<u8>>,
    state: HandlerState,
    action: ConnAction,
) -> bool {
    match event {
        ConnEvent::PeerClosed => state is ClosedGracefully && action is Stop && post == pre,
        ConnEvent::ReadFailed => state is Aborted && action is Stop && post == pre,
        ConnEvent::DecodeFailed => state is Aborted && action is Stop && post == pre,
        ConnEvent::WriteFailed => state is Aborted && action is Stop && post == pre,
        ConnEvent::Received(cmd) => match cmd {
            Command::Get { key } => state is Running && post == pre && (if pre.contains_key(key@) {
                action matches ConnAction::Reply(Response::Bulk(v)) && v@ == pre[key@]
            } else {
                action matches ConnAction::Reply(f) && f is Null
            }),
            Command::Write { key, value } => state is Running && post == pre.insert(key@, value@)
                && (action matches ConnAction::Reply(Response::Simple(s)) && s@ == ok_bytes()),
            Command::Other => state is Aborted && action is Stop && post == pre,
        },
    }
}

/// One step of the handler state machine.
///
/// A handler that has already stopped stays stopped and asks for nothing
/// more.  A running handler follows [`running_step`]: the peer closing is
/// the one graceful exit; errors and unsupported commands abort; a read or
/// a write is dispatched against the store and answered.
pub fn handler_step(state: HandlerState, event: ConnEvent, store: &mut ShardedStore) -> (r: (
    HandlerState,
    ConnAction,
))
    requires
        old(store).wf(),
    ensures
        final(store).wf(),
        final(store).shard_count() == old(store).shard_count(),
        !(state is Running) ==> r.0 == state && r.1 is Stop && final(store)@ == old(store)@,
        state is Running ==> running_step(old(store)@, event, final(store)@, r.0, r.1),
{
    match state {
        HandlerState::Running => match event {
            ConnEvent::Received(cmd) => {
                match apply_command(store, cmd) {
                    Some(frame) => (HandlerState::Running, ConnAction::Reply(frame)),
                    None => (HandlerState::Aborted, ConnAction::Stop),
                }
            },
            ConnEvent::PeerClosed => (HandlerState::ClosedGracefully, ConnAction::Stop),
            ConnEvent::ReadFailed => (HandlerState::Aborted, ConnAction::Stop),
            ConnEvent::DecodeFailed => (HandlerState::Aborted, ConnAction::Stop),
            ConnEvent::WriteFailed => (HandlerState::Aborted, ConnAction::Stop),
        },
        HandlerState::ClosedGracefully => (HandlerState::ClosedGracefully, ConnAction::Stop),
        HandlerState::Aborted => (HandlerState::Aborted, ConnAction::Stop),
    }
}

} // verus!
