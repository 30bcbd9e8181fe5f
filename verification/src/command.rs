//! Typed commands and response frames.
//!
//! A [`Command`] is what the framing layer's decoder yields for one protocol
//! message: a read, a write, or some other recognized command, which this
//! design treats as fatal to the connection.  A [`Response`] is the message
//! written back: the construction rule is a pure function of the command's
//! outcome against the store.

use vstd::prelude::*;

use crate::store::Shard;
use crate::store::ShardedStore;

verus! {

/// One decoded command.  Commands other than a read or a write are
/// recognized but unsupported, and fatal to the connection that sent them.
#[derive(Debug, Clone, PartialEq, Eq)]
pub enum Command {
    Get { key: Vec<u8> },
    Write { key: Vec<u8>, value: Vec<u8> },
    Other,
}

/// One response message: a short text, a byte blob, an absent value, or an
/// error report.
#[derive(Debug, Clone, PartialEq, Eq)]
pub enum Response {
    Simple(Vec<u8>),
    Bulk(Vec<u8>),
    Null,
    Error(Vec<u8>),
}

/// The text of the response to a successful write: the bytes of "OK".
pub open spec fn ok_bytes() -> Seq<u8> {
    seq![79u8, 75u8]
}

/// The "OK" response text, as bytes.
pub fn ok_value() -> (v: Vec<u8>)
    ensures
        v@ == ok_bytes(),
{
    let mut v: Vec<u8> = Vec::new();
    v.push(79);
    v.push(75);
    proof {
        assert(v@ =~= ok_bytes());
    }
    v
}

/// Apply one command to a single shard and build the response frame.
///
/// This is the whole critical section of a connection handler: the caller
/// routes the command's key, takes that shard's lock, calls this, and
/// releases the lock before any I/O.  A read leaves the shard untouched and
/// answers with the value, or with an absent-value response; a write updates
/// the shard and answers "OK"; any other command has no response — it is
/// fatal to the connection.
pub fn dispatch_on_shard(shard: &mut Shard, cmd: Command) -> (r: Option<Response>)
    requires
        old(shard).wf(),
    ensures
        final(shard).wf(),
        cmd matches Command::Get { key } ==> final(shard)@ == old(shard)@ && (if old(
            shard,
        )@.contains_key(key@) {
            r matches Some(Response::Bulk(v)) && v@ == old(shard)@[key@]
        } else {
            r == Some(Response::Null)
        }),
        cmd matches Command::Write { key, value } ==> final(shard)@ == old(shard)@.insert(
            key@,
            value@,
        ) && (r matches Some(Response::Simple(s)) && s@ == ok_bytes()),
        cmd is Other ==> r is None && final(shard)@ == old(shard)@,
{
    match cmd {
        Command::Get { key } => {
            match shard.get(&key) {
                Some(v) => Some(Response::Bulk(v)),
                None => Some(Response::Null),
            }
        },
        Command::Write { key, value } => {
            shard.set(key, value);
            Some(Response::Simple(ok_value()))
        },
        Command::Other => None,
    }
}

/// Apply one command to the whole store and build the response frame.
///
/// The store routes the key to its shard itself; the outcome is the same
/// rule as [`dispatch_on_shard`], stated over the store's whole mapping.
pub fn apply_command(store: &mut ShardedStore, cmd: Command) -> (r: Option<Response>)
    requires
        old(store).wf(),
    ensures
        final(store).wf(),
        final(store).shard_count() == old(store).shard_count(),
        cmd matches Command::Get { key } ==> final(store)@ == old(store)@ && (if old(
            store,
        )@.contains_key(key@) {
            r matches Some(Response::Bulk(v)) && v@ == old(store)@[key@]
        } else {
            r == Some(Response::Null)
        }),
        cmd matches Command::Write { key, value } ==> final(store)@ == old(store)@.insert(
            key@,
            value@,
        ) && (r matches Some(Response::Simple(s)) && s@ == ok_bytes()),
        cmd is Other ==> r is None && final(store)@ == old(store)@,
{
    match cmd {
        Command::Get { key } => {
            match store.get(&key) {
                Some(v) => Some(Response::Bulk(v)),
                None => Some(Response::Null),
            }
        },
        Command::Write { key, value } => {
            store.set(key, value);
            Some(Response::Simple(ok_value()))
        },
        Command::Other => None,
    }
}

} // verus!
