//! The work queue: an unbounded FIFO channel of jobs with a counted set of
//! producer handles and one consumer endpoint. Once every producer handle
//! is gone, a receive on the drained queue reports `Closed` instead of
//! waiting — the pool's sole termination signal.
//!
//! The struct is the sequential model of the channel: each operation is a
//! single atomic step on the shared state, with an exact contract. The
//! process that owns the real channel serializes these steps (one lock per
//! operation) and blocks whenever `receive` answers `WouldBlock`.

use vstd::prelude::*;

verus! {

/// Mathematical state of the queue: the jobs still waiting, oldest first;
/// how many producer handles are live; whether the consumer endpoint is.
pub ghost struct QueueModel<T> {
    /// Jobs accepted but not yet handed to a worker, oldest at index 0.
    pub pending: Seq<T>,
    /// Number of live producer handles.
    pub senders: nat,
    /// Whether the consumer endpoint still exists.
    pub receiver_live: bool,
}

/// What one receive attempt reports.
#[derive(Debug, PartialEq, Eq)]
pub enum RecvOutcome<T> {
    /// A job was dequeued; the caller must run it.
    Job(T),
    /// No job is waiting but a producer remains: the caller should block
    /// and try again once woken.
    WouldBlock,
    /// Every producer handle is gone and the queue is drained: the caller
    /// must stop looping.
    Closed,
}

/// Returned by `send` when the consumer endpoint is gone; hands the
/// rejected job back to the caller.
#[derive(Debug, PartialEq, Eq)]
pub struct SendError<T>(pub T);

/// One step of `send` on the model: the job is appended while the consumer
/// endpoint exists, and rejected (state unchanged) once it is gone.
pub open spec fn send_step<T>(q: QueueModel<T>, job: T) -> QueueModel<T> {
    if q.receiver_live {
        QueueModel { pending: q.pending.push(job), senders: q.senders, receiver_live: q.receiver_live }
    } else {
        q
    }
}

/// What one receive attempt on state `q` reports: the oldest pending job
/// if any; `Closed` exactly when the queue is drained and no producer
/// remains; `WouldBlock` otherwise.
pub open spec fn recv_outcome<T>(q: QueueModel<T>) -> RecvOutcome<T> {
    if q.pending.len() > 0 {
        RecvOutcome::Job(q.pending[0])
    } else if q.senders == 0 {
        RecvOutcome::Closed
    } else {
        RecvOutcome::WouldBlock
    }
}

/// The state after one receive attempt: the oldest job is removed if one
/// was waiting; nothing else changes.
pub open spec fn recv_step<T>(q: QueueModel<T>) -> QueueModel<T> {
    if q.pending.len() > 0 {
        QueueModel { pending: q.pending.drop_first(), senders: q.senders, receiver_live: q.receiver_live }
    } else {
        q
    }
}

/// The FIFO work queue. Jobs of any one-shot type `T` travel from producer
/// handles to the workers sharing the consumer endpoint.
pub struct WorkQueue<T> {
    items: Vec<T>,
    senders: usize,
    receiver_live: bool,
}

impl<T> View for WorkQueue<T> {
    type V = QueueModel<T>;

    closed spec fn view(&self) -> QueueModel<T> {
        QueueModel {
            pending: self.items@,
            senders: self.senders as nat,
            receiver_live: self.receiver_live,
        }
    }
}

impl<T> WorkQueue<T> {
    /// A fresh queue: no pending job, one producer handle, the consumer
    /// endpoint live — the state a channel is created in.
    pub fn new() -> (q: WorkQueue<T>)
        ensures
            q@ == (QueueModel::<T> { pending: Seq::empty(), senders: 1nat, receiver_live: true }),
    {
        WorkQueue { items: Vec::new(), senders: 1, receiver_live: true }
    }

    /// A producer clones its handle, as when several caller threads submit
    /// to the same pool.
    pub fn clone_sender(&mut self)
        requires
            old(self)@.senders >= 1,
            old(self)@.senders < usize::MAX,
        ensures
            final(self)@ == (QueueModel {
                pending: old(self)@.pending,
                senders: old(self)@.senders + 1,
                receiver_live: old(self)@.receiver_live,
            }),
    {
        self.senders = self.senders + 1;
    }

    /// A producer handle is released. Dropping the last one closes the
    /// queue: from then on a drained queue answers `Closed`.
    pub fn drop_sender(&mut self)
        requires
            old(self)@.senders >= 1,
        ensures
            final(self)@ == (QueueModel {
                pending: old(self)@.pending,
                senders: (old(self)@.senders - 1) as nat,
                receiver_live: old(self)@.receiver_live,
            }),
    {
        self.senders = self.senders - 1;
    }

    /// The consumer endpoint is released; later sends are rejected.
    pub fn drop_receiver(&mut self)
        requires
            old(self)@.receiver_live,
        ensures
            final(self)@ == (QueueModel {
                pending: old(self)@.pending,
                senders: old(self)@.senders,
                receiver_live: false,
            }),
    {
        self.receiver_live = false;
    }

    /// Enqueue one job at the tail. Succeeds exactly while the consumer
    /// endpoint exists; afterwards the job comes back in the error.
    pub fn send(&mut self, job: T) -> (r: Result<(), SendError<T>>)
        requires
            old(self)@.senders >= 1,
        ensures
            final(self)@ == send_step(old(self)@, job),
            r is Ok <==> old(self)@.receiver_live,
            !old(self)@.receiver_live ==> (r matches Err(e) && e.0 == job),
    {
        if self.receiver_live {
            self.items.push(job);
            Ok(())
        } else {
            Err(SendError(job))
        }
    }

    /// Whether a job is waiting to be picked up.
    pub fn has_pending(&self) -> (r: bool)
        ensures
            r == (self@.pending.len() > 0),
    {
        self.items.len() > 0
    }

    /// One receive attempt by a worker holding the consumer endpoint.
    /// Removes and returns the oldest job if one is waiting; otherwise
    /// reports `Closed` when no producer remains, `WouldBlock` when one
    /// does (the worker then blocks and retries).
    pub fn receive(&mut self) -> (r: RecvOutcome<T>)
        requires
            old(self)@.receiver_live,
        ensures
            r == recv_outcome(old(self)@),
            final(self)@ == recv_step(old(self)@),
    {
        if self.items.len() > 0 {
            let job = self.items.remove(0);
            proof {
                assert(old(self)@.pending.remove(0) =~= old(self)@.pending.drop_first());
            }
            RecvOutcome::Job(job)
        } else if self.senders == 0 {
            RecvOutcome::Closed
        } else {
            RecvOutcome::WouldBlock
        }
    }
}

/// The state after sending each of `jobs` in turn, oldest first.
pub open spec fn send_all<T>(q: QueueModel<T>, jobs: Seq<T>) -> QueueModel<T>
    decreases jobs.len(),
{
    if jobs.len() == 0 {
        q
    } else {
        send_all(send_step(q, jobs[0]), jobs.drop_first())
    }
}

/// The jobs that receive attempts on state `q` hand out, in order, until
/// none is waiting.
pub open spec fn deliver_all<T>(q: QueueModel<T>) -> Seq<T>
    decreases q.pending.len(),
{
    if q.pending.len() > 0 {
        seq![q.pending[0]] + deliver_all(recv_step(q))
    } else {
        Seq::empty()
    }
}

/// `s` is one of the orders in which the sends of two producers, issuing
/// `a` and `b` respectively, can be observed to complete.
pub open spec fn is_interleaving<T>(a: Seq<T>, b: Seq<T>, s: Seq<T>) -> bool
    decreases s.len(),
{
    if s.len() == 0 {
        a.len() == 0 && b.len() == 0
    } else {
        ||| (a.len() > 0 && a[0] == s[0] && is_interleaving(a.drop_first(), b, s.drop_first()))
        ||| (b.len() > 0 && b[0] == s[0] && is_interleaving(a, b.drop_first(), s.drop_first()))
    }
}

/// Sending a batch of jobs appends exactly that batch, in order, and
/// touches nothing else — no job is lost, duplicated or reordered on the
/// way in.
pub proof fn lemma_send_all<T>(q: QueueModel<T>, jobs: Seq<T>)
    requires
        q.receiver_live,
    ensures
        send_all(q, jobs).pending == q.pending + jobs,
        send_all(q, jobs).senders == q.senders,
        send_all(q, jobs).receiver_live == q.receiver_live,
    decreases jobs.len(),
{
    if jobs.len() == 0 {
        assert(q.pending + jobs =~= q.pending);
    } else {
        lemma_send_all(send_step(q, jobs[0]), jobs.drop_first());
        assert(q.pending.push(jobs[0]) + jobs.drop_first() =~= q.pending + jobs);
    }
}

/// Receives drain the queue completely and hand out exactly the pending
/// jobs, oldest first.
pub proof fn lemma_deliver_all<T>(q: QueueModel<T>)
    ensures
        deliver_all(q) == q.pending,
    decreases q.pending.len(),
{
    if q.pending.len() > 0 {
        lemma_deliver_all(recv_step(q));
        assert(seq![q.pending[0]] + q.pending.drop_first() =~= q.pending);
    } else {
        assert(deliver_all(q) =~= q.pending);
    }
}

/// Every job submitted to the queue is delivered exactly once, in
/// submission order: after any batch of sends, the receives hand out the
/// earlier pending jobs followed by the batch, nothing more and nothing
/// less. On a fresh queue this is the batch itself: M submissions give
/// exactly M deliveries, in first-in-first-out order.
pub proof fn lemma_fifo_exactly_once<T>(q: QueueModel<T>, jobs: Seq<T>)
    requires
        q.receiver_live,
    ensures
        deliver_all(send_all(q, jobs)) == q.pending + jobs,
{
    lemma_send_all(q, jobs);
    lemma_deliver_all(send_all(q, jobs));
}

/// An interleaving of two producers' sends carries each job of either
/// producer exactly once: as a multiset it is the two batches combined.
pub proof fn lemma_interleaving_multiset<T>(a: Seq<T>, b: Seq<T>, s: Seq<T>)
    requires
        is_interleaving(a, b, s),
    ensures
        s.len() == a.len() + b.len(),
        s.to_multiset() == a.to_multiset().add(b.to_multiset()),
    decreases s.len(),
{
    broadcast use vstd::seq_lib::group_to_multiset_ensures;

    if s.len() == 0 {
        assert(s.to_multiset() =~= a.to_multiset().add(b.to_multiset()));
    } else if a.len() > 0 && a[0] == s[0] && is_interleaving(a.drop_first(), b, s.drop_first()) {
        lemma_interleaving_multiset(a.drop_first(), b, s.drop_first());
        lemma_head_multiset(s);
        lemma_head_multiset(a);
        assert(s.to_multiset() =~= a.to_multiset().add(b.to_multiset()));
    } else {
        lemma_interleaving_multiset(a, b.drop_first(), s.drop_first());
        lemma_head_multiset(s);
        lemma_head_multiset(b);
        assert(s.to_multiset() =~= a.to_multiset().add(b.to_multiset()));
    }
}

/// A nonempty sequence is, as a multiset, its first element plus the rest.
pub proof fn lemma_head_multiset<T>(s: Seq<T>)
    requires
        s.len() > 0,
    ensures
        s.to_multiset() == s.drop_first().to_multiset().insert(s[0]),
{
    broadcast use vstd::seq_lib::group_to_multiset_ensures;

    assert(s =~= s.drop_first().insert(0, s[0]));
    vstd::seq_lib::to_multiset_insert(s.drop_first(), 0, s[0]);
}

/// Concurrent submission from two producers to the same queue never loses
/// or duplicates a job: whatever order their sends complete in, the queue
/// delivers every job of both exactly once — the delivered multiset is the
/// two batches combined, and the delivered count is the sum of the counts.
pub proof fn lemma_no_loss_no_duplication<T>(q: QueueModel<T>, a: Seq<T>, b: Seq<T>, s: Seq<T>)
    requires
        q.receiver_live,
        is_interleaving(a, b, s),
    ensures
        deliver_all(send_all(q, s)).to_multiset()
            == q.pending.to_multiset().add(a.to_multiset()).add(b.to_multiset()),
        deliver_all(send_all(q, s)).len() == q.pending.len() + a.len() + b.len(),
{
    broadcast use vstd::seq_lib::group_to_multiset_ensures;

    lemma_fifo_exactly_once(q, s);
    lemma_interleaving_multiset(a, b, s);
    vstd::seq_lib::lemma_multiset_commutative(q.pending, s);
    assert(q.pending.to_multiset().add(s.to_multiset())
        =~= q.pending.to_multiset().add(a.to_multiset()).add(b.to_multiset()));
}

/// Once every producer handle is gone a receive never blocks: it yields a
/// job while any remains and reports `Closed` exactly when the queue is
/// drained — so teardown completes even if no job was ever submitted.
pub proof fn lemma_closed_receive_never_blocks<T>(q: QueueModel<T>)
    requires
        q.senders == 0,
    ensures
        !(recv_outcome(q) is WouldBlock),
        recv_outcome(q) is Closed <==> q.pending.len() == 0,
{
}

/// The `Closed` signal is observed only once every submitted job has been
/// handed out and every producer handle released: a worker never stops
/// while work remains in the queue.
pub proof fn lemma_closed_only_when_drained<T>(q: QueueModel<T>)
    ensures
        recv_outcome(q) is Closed ==> q.pending.len() == 0 && q.senders == 0,
{
}

} // verus!
