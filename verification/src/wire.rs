//! The boundary to the framing layer.
//!
//! The wire protocol's byte-level framing and parsing are an external
//! collaborator: a connection yields whole protocol frames, and a decoder
//! interprets a frame as a typed command.  Decoding is the one piece of that
//! collaborator called from the verified core; its result is a pure function
//! of the frame, named [`decode_of`].  [`process_frame`] decodes a frame
//! that the caller has already read and drives the handler state machine
//! with the result: the step taken is exactly the one [`running_step`]
//! prescribes for what the frame decodes to.

use vstd::prelude::*;

use crate::command::Command;
use crate::handler::ConnAction;
use crate::handler::ConnEvent;
use crate::handler::HandlerState;
use crate::handler::handler_step;
use crate::handler::running_step;
use crate::store::ShardedStore;

verus! {

#[verifier::external_type_specification]
#[verifier::external_body]
pub struct ExFrame(mini_redis::Frame);

/// The command the framing layer's decoder yields for a frame — a pure
/// parse, a function of the frame alone: the key (and value) for a GET or
/// SET, `Command::Other` for any other recognized command, nothing for a
/// frame of no known command shape.
pub uninterp spec fn decode_of(frame: mini_redis::Frame) -> Option<Command>;

/// Relies on mini_redis::Command::from_frame: it decodes a protocol frame
/// into a typed command, or fails if the frame does not have a known command
/// shape.  A GET carries its key, a SET its key and value; every other
/// recognized command is reported here as `Command::Other`.
#[verifier::external_body]
fn decode_command(frame: mini_redis::Frame) -> (r: Option<Command>)
    ensures
        r == decode_of(frame),
{
    match mini_redis::Command::from_frame(frame) {
        Ok(mini_redis::Command::Get(get)) => Some(Command::Get {
            key: get.key().as_bytes().to_vec(),
        }),
        Ok(mini_redis::Command::Set(set)) => Some(Command::Write {
            key: set.key().as_bytes().to_vec(),
            value: set.value().to_vec(),
        }),
        Ok(_) => Some(Command::Other),
        Err(_) => None,
    }
}

/// Decode one already-read frame and take the matching handler step.
///
/// The step taken is exactly the one the handler state machine prescribes
/// for what the frame decodes to: a decoded command is received and
/// dispatched — so a write updates the store and is answered "OK", a read
/// leaves it untouched and is answered with the value or an absent-value
/// response, an unsupported command aborts — and an undecodable frame
/// aborts with the store untouched.
pub fn process_frame(store: &mut ShardedStore, frame: mini_redis::Frame) -> (r: (
    HandlerState,
    ConnAction,
))
    requires
        old(store).wf(),
    ensures
        final(store).wf(),
        final(store).shard_count() == old(store).shard_count(),
        ({
            let event = match decode_of(frame) {
                Some(cmd) => ConnEvent::Received(cmd),
                None => ConnEvent::DecodeFailed,
            };
            running_step(old(store)@, event, final(store)@, r.0, r.1)
        }),
{
    let event = match decode_command(frame) {
        Some(cmd) => ConnEvent::Received(cmd),
        None => ConnEvent::DecodeFailed,
    };
    handler_step(HandlerState::Running, event, store)
}

} // verus!
