//! The client-side multiplexer model.
//!
//! Many caller tasks share one server connection.  None of them touches the
//! connection: each caller enqueues its command, together with the token of
//! its private one-shot reply channel, onto a bounded FIFO queue; a single
//! actor owns the connection, dequeues one pending request at a time,
//! performs the exchange, and signals the request's own reply channel
//! exactly once.  The queue's bound is the backpressure: a full queue admits
//! no further request until the actor has drained one.

use vstd::prelude::*;

verus! {

/// One typed command a caller may issue: read a key, or write one.
#[derive(Debug, Clone, PartialEq, Eq)]
pub enum ClientCommand {
    Get { key: Vec<u8> },
    Put { key: Vec<u8>, value: Vec<u8> },
}

/// A queued command together with the token of its caller's private
/// one-shot reply channel.
#[derive(Debug, Clone, PartialEq, Eq)]
pub struct PendingRequest {
    pub command: ClientCommand,
    pub token: u64,
}

/// What one request/response exchange on the connection produced: the value
/// a read found, a read of an absent key, a completed write, or a transport
/// failure.
#[derive(Debug, Clone, PartialEq, Eq)]
pub enum ExchangeOutcome {
    Found(Vec<u8>),
    Missing,
    Stored,
    Failed,
}

/// The result the actor signals on a caller's one-shot reply channel.
#[derive(Debug, Clone, PartialEq, Eq)]
pub struct Reply {
    pub token: u64,
    pub outcome: ExchangeOutcome,
}

/// The bounded FIFO queue between the caller tasks and the actor.
pub struct RequestQueue {
    items: Vec<PendingRequest>,
    capacity: usize,
}

impl View for RequestQueue {
    type V = Seq<PendingRequest>;

    closed spec fn view(&self) -> Seq<PendingRequest> {
        self.items@
    }
}

impl RequestQueue {
    /// The fixed bound the queue was built with.
    pub closed spec fn capacity(&self) -> int {
        self.capacity as int
    }

    /// The bound is positive and never exceeded.
    pub closed spec fn wf(&self) -> bool {
        self.capacity > 0 && self.items@.len() <= self.capacity
    }

    /// An empty queue with the given bound.
    pub fn with_capacity(capacity: usize) -> (q: RequestQueue)
        requires
            capacity > 0,
        ensures
            q.wf(),
            q.capacity() == capacity,
            q@ == Seq::<PendingRequest>::empty(),
    {
        RequestQueue { items: Vec::new(), capacity }
    }

    /// How many requests are pending.
    pub fn len(&self) -> (n: usize)
        ensures
            n == self@.len(),
    {
        self.items.len()
    }

    /// Append a request, unless the queue is at capacity.
    ///
    /// At capacity nothing is added and the caller must wait — suspending
    /// until the actor dequeues, rather than failing or growing without
    /// bound — and try again; with room, the request takes its place at the
    /// back of the queue.
    pub fn try_enqueue(&mut self, request: PendingRequest) -> (accepted: bool)
        requires
            old(self).wf(),
        ensures
            final(self).wf(),
            final(self).capacity() == old(self).capacity(),
            accepted <==> old(self)@.len() < old(self).capacity(),
            accepted ==> final(self)@ == old(self)@.push(request),
            !accepted ==> final(self)@ == old(self)@,
    {
        if self.items.len() < self.capacity {
            self.items.push(request);
            true
        } else {
            false
        }
    }

    /// Remove and return the oldest pending request, if any.
    pub fn dequeue(&mut self) -> (r: Option<PendingRequest>)
        requires
            old(self).wf(),
        ensures
            final(self).wf(),
            final(self).capacity() == old(self).capacity(),
            old(self)@.len() == 0 ==> r is None && final(self)@ == old(self)@,
            old(self)@.len() > 0 ==> r == Some(old(self)@.first()) && final(self)@ == old(
                self,
            )@.drop_first(),
    {
        if self.items.len() == 0 {
            None
        } else {
            let request = self.items.remove(0);
            proof {
                assert(old(self)@.remove(0) =~= old(self)@.drop_first());
            }
            Some(request)
        }
    }
}

/// Service one pending request: the exchange's outcome is signaled on the
/// request's own reply channel — the reply carries exactly the token the
/// caller enqueued, and is produced exactly once per request.
pub fn service_one(request: PendingRequest, outcome: ExchangeOutcome) -> (r: Reply)
    ensures
        r.token == request.token,
        r.outcome == outcome,
{
    Reply { token: request.token, outcome }
}

/// Drain the queue as the actor does: dequeue each pending request in FIFO
/// order and reply exactly once to each.
///
/// `outcomes[i]` is what the connection returned for the `i`-th queued
/// request — the actor serializes the exchanges, so there is at most one in
/// flight at a time.  Every caller receives exactly one reply, the replies
/// correspond one-to-one to the requests in enqueue order, and no reply
/// carries another caller's token.
pub fn run_actor(queue: &mut RequestQueue, outcomes: Vec<ExchangeOutcome>) -> (replies: Vec<Reply>)
    requires
        old(queue).wf(),
        outcomes@.len() == old(queue)@.len(),
    ensures
        final(queue).wf(),
        final(queue)@.len() == 0,
        replies@.len() == old(queue)@.len(),
        forall|i: int|
            0 <= i < replies@.len() ==> (#[trigger] replies@[i]).token == old(queue)@[i].token
                && replies@[i].outcome == outcomes@[i],
{
    let mut remaining = outcomes;
    let mut replies: Vec<Reply> = Vec::new();
    let ghost q0 = queue@;
    let ghost o0 = remaining@;
    while queue.len() > 0
        invariant
            queue.wf(),
            o0.len() == q0.len(),
            queue@.len() == remaining@.len(),
            replies@.len() + queue@.len() == q0.len(),
            queue@ =~= q0.skip(replies@.len() as int),
            remaining@ =~= o0.skip(replies@.len() as int),
            forall|i: int|
                0 <= i < replies@.len() ==> (#[trigger] replies@[i]).token == q0[i].token
                    && replies@[i].outcome == o0[i],
        decreases queue@.len(),
    {
        let ghost done = replies@.len() as int;
        proof {
            assert(queue@.len() > 0);
            assert(q0.skip(done).len() == queue@.len());
            assert(o0.skip(done).len() == remaining@.len());
            assert(0 <= done && done < q0.len() && done < o0.len());
            assert(q0.skip(done)[0] == q0[done]);
            assert(o0.skip(done)[0] == o0[done]);
            assert(q0.skip(done).drop_first() =~= q0.skip(done + 1));
            assert(o0.skip(done).remove(0) =~= o0.skip(done + 1));
        }
        let request = queue.dequeue().unwrap();
        let outcome = remaining.remove(0);
        let reply = service_one(request, outcome);
        replies.push(reply);
    }
    replies
}

/// Backpressure: a queue at capacity admits nothing, and one dequeue by the
/// actor makes room for exactly one new request.
pub proof fn lemma_backpressure(q: Seq<PendingRequest>, capacity: int)
    requires
        q.len() == capacity,
        capacity > 0,
    ensures
        !(q.len() < capacity),
        q.drop_first().len() < capacity,
{
}

} // verus!
