use sharded_kv::client::ClientCommand;
use sharded_kv::client::ExchangeOutcome;
use sharded_kv::client::PendingRequest;
use sharded_kv::client::RequestQueue;
use sharded_kv::client::run_actor;
use sharded_kv::client::service_one;
use sharded_kv::command::Command;
use sharded_kv::command::Response;
use sharded_kv::command::apply_command;
use sharded_kv::store::new_sharded_db;

fn get_request(key: &[u8], token: u64) -> PendingRequest {
    PendingRequest { command: ClientCommand::Get { key: key.to_vec() }, token }
}

fn put_request(key: &[u8], value: &[u8], token: u64) -> PendingRequest {
    PendingRequest {
        command: ClientCommand::Put { key: key.to_vec(), value: value.to_vec() },
        token,
    }
}

#[test]
fn each_caller_gets_exactly_its_own_reply() {
    // Three callers share one queue; the actor serves them in enqueue order
    // and every reply carries the token of its own request.
    let mut queue = RequestQueue::with_capacity(32);
    assert!(queue.try_enqueue(put_request(b"foo", b"1", 11)));
    assert!(queue.try_enqueue(get_request(b"foo", 22)));
    assert!(queue.try_enqueue(get_request(b"bar", 33)));

    let outcomes = vec![
        ExchangeOutcome::Stored,
        ExchangeOutcome::Found(b"1".to_vec()),
        ExchangeOutcome::Missing,
    ];
    let replies = run_actor(&mut queue, outcomes);

    assert_eq!(queue.len(), 0);
    assert_eq!(replies.len(), 3);
    assert_eq!(replies[0].token, 11);
    assert_eq!(replies[0].outcome, ExchangeOutcome::Stored);
    assert_eq!(replies[1].token, 22);
    assert_eq!(replies[1].outcome, ExchangeOutcome::Found(b"1".to_vec()));
    assert_eq!(replies[2].token, 33);
    assert_eq!(replies[2].outcome, ExchangeOutcome::Missing);
}

#[test]
fn full_queue_admits_nothing_until_drained() {
    let mut queue = RequestQueue::with_capacity(2);
    assert!(queue.try_enqueue(get_request(b"a", 1)));
    assert!(queue.try_enqueue(get_request(b"b", 2)));
    // At capacity: the caller would suspend and retry, nothing is lost.
    assert!(!queue.try_enqueue(get_request(b"c", 3)));
    assert_eq!(queue.len(), 2);
    // The actor drains one request; now there is room again.
    let first = queue.dequeue().unwrap();
    assert_eq!(first.token, 1);
    assert!(queue.try_enqueue(get_request(b"c", 3)));
    assert_eq!(queue.len(), 2);
}

#[test]
fn queue_is_first_in_first_out() {
    let mut queue = RequestQueue::with_capacity(8);
    for token in 1..=5u64 {
        assert!(queue.try_enqueue(get_request(b"k", token)));
    }
    for token in 1..=5u64 {
        assert_eq!(queue.dequeue().unwrap().token, token);
    }
    assert!(queue.dequeue().is_none());
}

#[test]
fn a_failed_exchange_reaches_only_its_caller() {
    let mut queue = RequestQueue::with_capacity(4);
    assert!(queue.try_enqueue(get_request(b"a", 7)));
    assert!(queue.try_enqueue(get_request(b"b", 8)));
    let replies = run_actor(
        &mut queue,
        vec![ExchangeOutcome::Failed, ExchangeOutcome::Missing],
    );
    assert_eq!(replies[0].token, 7);
    assert_eq!(replies[0].outcome, ExchangeOutcome::Failed);
    assert_eq!(replies[1].token, 8);
    assert_eq!(replies[1].outcome, ExchangeOutcome::Missing);
}

#[test]
fn service_one_forwards_the_outcome_verbatim() {
    let reply = service_one(get_request(b"foo", 42), ExchangeOutcome::Found(b"v".to_vec()));
    assert_eq!(reply.token, 42);
    assert_eq!(reply.outcome, ExchangeOutcome::Found(b"v".to_vec()));
}

#[test]
fn concurrent_set_and_get_observe_pre_or_post_value() {
    // Two callers share one actor: one writes "foo" -> "1", one reads "foo".
    // The actor serializes them in either order; the read observes the value
    // from before or after the write, never anything else.
    let before = b"0".to_vec();
    let after = b"1".to_vec();

    // Order one: the read is served first and observes the old value.
    let mut db = new_sharded_db(10);
    db.set(b"foo".to_vec(), before.clone());
    let reply = apply_command(&mut db, Command::Get { key: b"foo".to_vec() });
    assert_eq!(reply, Some(Response::Bulk(before.clone())));
    let reply = apply_command(
        &mut db,
        Command::Write { key: b"foo".to_vec(), value: after.clone() },
    );
    assert_eq!(reply, Some(Response::Simple(b"OK".to_vec())));

    // Order two: the write is served first and the read observes it.
    let mut db = new_sharded_db(10);
    db.set(b"foo".to_vec(), before.clone());
    let reply = apply_command(
        &mut db,
        Command::Write { key: b"foo".to_vec(), value: after.clone() },
    );
    assert_eq!(reply, Some(Response::Simple(b"OK".to_vec())));
    let reply = apply_command(&mut db, Command::Get { key: b"foo".to_vec() });
    assert_eq!(reply, Some(Response::Bulk(after.clone())));
}
