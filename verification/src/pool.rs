//! The thread pool: a fixed, positive number of long-lived workers sharing
//! the consumer endpoint of one work queue, a single producer handle held
//! by the pool, and a teardown protocol — release the producer handle
//! first, then join every worker in creation order.
//!
//! Each method is one decision of the pool or of a worker's run loop,
//! stated over the queue model and the worker records. The owning process
//! runs these decisions on real threads: it blocks where `dispatch`
//! reports `WouldBlock`, runs the job where it reports `Job`, and joins
//! the thread handles that `shutdown` hands back, in that order.

use vstd::prelude::*;

use crate::queue::QueueModel;
use crate::queue::RecvOutcome;
use crate::queue::WorkQueue;
use crate::queue::recv_outcome;
use crate::queue::recv_step;
use crate::queue::send_step;

verus! {

/// Where a worker's run loop stands: blocked on the queue, running a job,
/// or done for good.
#[derive(Clone, Copy, Debug, PartialEq, Eq, Structural)]
pub enum WorkerPhase {
    /// Blocked in a receive, waiting for a job or for closure.
    Idle,
    /// Executing a received job.
    Busy,
    /// The run loop has returned; the thread is ready to be joined.
    Terminated,
}

/// One worker record: a small identity for diagnostics, the phase of its
/// run loop, and whether its thread handle is still held (it is taken
/// exactly once, at teardown, so the thread is never joined twice).
#[derive(Clone, Copy, Debug, PartialEq, Eq, Structural)]
pub struct Worker {
    /// Small identity, fixed at construction.
    pub id: usize,
    /// Where this worker's run loop stands.
    pub phase: WorkerPhase,
    /// Whether the thread handle has not yet been taken for joining.
    pub thread_live: bool,
}

impl Worker {
    /// A fresh worker: its run loop starts blocked on the queue, and its
    /// thread handle is held until teardown.
    pub fn new(id: usize) -> (w: Worker)
        ensures
            w == (Worker { id, phase: WorkerPhase::Idle, thread_live: true }),
    {
        Worker { id, phase: WorkerPhase::Idle, thread_live: true }
    }
}

/// The phase a worker's run loop moves to after one receive attempt: a job
/// makes it busy, closure ends it, and an empty-but-open queue leaves it
/// waiting.
pub open spec fn phase_after_receive<T>(r: RecvOutcome<T>) -> WorkerPhase {
    match r {
        RecvOutcome::Job(_) => WorkerPhase::Busy,
        RecvOutcome::WouldBlock => WorkerPhase::Idle,
        RecvOutcome::Closed => WorkerPhase::Terminated,
    }
}

/// The phase after the job a worker was running ends: back to waiting if
/// the job returned, or terminated if it failed inside — a failure inside
/// a job ends only that worker's run loop, never the pool.
pub open spec fn phase_after_run(job_ok: bool) -> WorkerPhase {
    if job_ok {
        WorkerPhase::Idle
    } else {
        WorkerPhase::Terminated
    }
}

/// The ids of the workers whose thread handle is still held, in creation
/// order: exactly the threads one pass of teardown joins.
pub open spec fn live_ids(ws: Seq<Worker>) -> Seq<usize>
    decreases ws.len(),
{
    if ws.len() == 0 {
        Seq::empty()
    } else if ws[0].thread_live {
        seq![ws[0].id] + live_ids(ws.drop_first())
    } else {
        live_ids(ws.drop_first())
    }
}

/// Some worker is still waiting on the queue.
pub open spec fn has_idle(ws: Seq<Worker>) -> bool {
    exists|j: int| 0 <= j < ws.len() && (#[trigger] ws[j]).phase == WorkerPhase::Idle
}

/// The pool: the worker records in creation order, the queue, and the one
/// producer handle, held from construction until teardown begins.
pub struct ThreadPool<T> {
    queue: WorkQueue<T>,
    workers: Vec<Worker>,
    sender_live: bool,
}

impl<T> ThreadPool<T> {
    /// The state of the shared queue.
    pub closed spec fn queue_model(&self) -> QueueModel<T> {
        self.queue@
    }

    /// The worker records, in creation order.
    pub closed spec fn workers_model(&self) -> Seq<Worker> {
        self.workers@
    }

    /// Whether the pool still holds its producer handle — true from
    /// construction until teardown begins.
    pub closed spec fn sender_live(&self) -> bool {
        self.sender_live
    }

    /// The jobs submitted but not yet picked up, oldest first.
    pub open spec fn pending(&self) -> Seq<T> {
        self.queue_model().pending
    }

    /// The pool's invariant: the workers jointly keep the consumer
    /// endpoint alive, the pool's producer handle is the only one, and
    /// worker ids are their creation positions.
    pub open spec fn wf(&self) -> bool {
        &&& self.queue_model().receiver_live
        &&& self.queue_model().senders == (if self.sender_live() { 1nat } else { 0nat })
        &&& forall|i: int| 0 <= i < self.workers_model().len()
            ==> (#[trigger] self.workers_model()[i]).id == i
    }

    /// Construct a pool of exactly `size` workers, every one idle on the
    /// fresh, empty queue, with the pool holding the producer handle.
    /// A pool of zero workers is a programming error, excluded outright.
    pub fn new(size: usize) -> (pool: ThreadPool<T>)
        requires
            size >= 1,
        ensures
            pool.wf(),
            pool.sender_live(),
            pool.pending() == Seq::<T>::empty(),
            pool.workers_model().len() == size,
            forall|i: int| 0 <= i < size
                ==> #[trigger] pool.workers_model()[i]
                    == (Worker { id: i as usize, phase: WorkerPhase::Idle, thread_live: true }),
    {
        let queue = WorkQueue::new();
        let mut workers: Vec<Worker> = Vec::new();
        let mut id: usize = 0;
        while id < size
            invariant
                id <= size,
                workers@.len() == id,
                forall|i: int| 0 <= i < id
                    ==> #[trigger] workers@[i]
                        == (Worker { id: i as usize, phase: WorkerPhase::Idle, thread_live: true }),
            decreases size - id,
        {
            workers.push(Worker::new(id));
            id = id + 1;
        }
        ThreadPool { queue, workers, sender_live: true }
    }

    /// Submit one job. It joins the tail of the queue and will be picked
    /// up by exactly one worker; the call does not wait for execution.
    /// Submission needs the producer handle, so it is only possible before
    /// teardown begins — the send cannot find the queue disconnected.
    pub fn execute(&mut self, job: T)
        requires
            old(self).wf(),
            old(self).sender_live(),
        ensures
            final(self).wf(),
            final(self).sender_live(),
            final(self).pending() == old(self).pending().push(job),
            final(self).workers_model() == old(self).workers_model(),
    {
        let r = self.queue.send(job);
        match r {
            Ok(()) => {}
            Err(_) => {
                proof {
                    assert(false);
                }
            }
        }
        proof {
            assert(self.queue@ == send_step(old(self).queue_model(), job));
        }
    }

    /// One iteration of worker `w`'s run loop, from the waiting state: one
    /// receive attempt on the shared queue (made under mutual exclusion,
    /// so no other worker can extract the same job). The worker's next
    /// phase follows the outcome; the caller runs the job on `Job`, blocks
    /// on `WouldBlock`, and lets the thread return on `Closed`.
    pub fn dispatch(&mut self, w: usize) -> (r: RecvOutcome<T>)
        requires
            old(self).wf(),
            w < old(self).workers_model().len(),
            old(self).workers_model()[w as int].phase == WorkerPhase::Idle,
        ensures
            final(self).wf(),
            r == recv_outcome(old(self).queue_model()),
            final(self).queue_model() == recv_step(old(self).queue_model()),
            final(self).sender_live() == old(self).sender_live(),
            final(self).workers_model().len() == old(self).workers_model().len(),
            forall|j: int| 0 <= j < old(self).workers_model().len() && j != w as int
                ==> #[trigger] final(self).workers_model()[j] == old(self).workers_model()[j],
            final(self).workers_model()[w as int] == (Worker {
                phase: phase_after_receive(r),
                ..old(self).workers_model()[w as int]
            }),
    {
        let r = self.queue.receive();
        let phase = match &r {
            RecvOutcome::Job(_) => WorkerPhase::Busy,
            RecvOutcome::WouldBlock => WorkerPhase::Idle,
            RecvOutcome::Closed => WorkerPhase::Terminated,
        };
        self.workers[w].phase = phase;
        r
    }

    /// The job worker `w` was running has ended: the worker returns to
    /// waiting if the job returned normally, and terminates if the job
    /// failed inside it. The failure is scoped to that one worker — the
    /// queue, the producer handle and every other worker are untouched, so
    /// already-queued jobs still run and teardown still completes.
    pub fn complete(&mut self, w: usize, job_ok: bool)
        requires
            old(self).wf(),
            w < old(self).workers_model().len(),
            old(self).workers_model()[w as int].phase == WorkerPhase::Busy,
        ensures
            final(self).wf(),
            final(self).queue_model() == old(self).queue_model(),
            final(self).sender_live() == old(self).sender_live(),
            final(self).workers_model().len() == old(self).workers_model().len(),
            forall|j: int| 0 <= j < old(self).workers_model().len() && j != w as int
                ==> #[trigger] final(self).workers_model()[j] == old(self).workers_model()[j],
            final(self).workers_model()[w as int] == (Worker {
                phase: phase_after_run(job_ok),
                ..old(self).workers_model()[w as int]
            }),
    {
        self.workers[w].phase = if job_ok {
            WorkerPhase::Idle
        } else {
            WorkerPhase::Terminated
        };
    }

    /// Begin teardown: release the pool's producer handle. Since it is the
    /// only one, the queue is closed from here on — the sole termination
    /// signal the workers ever get. Releasing twice is a no-op.
    pub fn close(&mut self)
        requires
            old(self).wf(),
        ensures
            final(self).wf(),
            !final(self).sender_live(),
            final(self).queue_model().senders == 0,
            final(self).queue_model().pending == old(self).queue_model().pending,
            final(self).queue_model().receiver_live,
            final(self).workers_model() == old(self).workers_model(),
    {
        if self.sender_live {
            self.sender_live = false;
            self.queue.drop_sender();
        }
    }

    /// Take worker `w`'s thread handle for joining. It comes out at most
    /// once: the first taker gets `true` and must join the thread, any
    /// later call gets `false` and skips it — a double teardown never
    /// joins a thread twice.
    pub fn take_thread(&mut self, w: usize) -> (r: bool)
        requires
            old(self).wf(),
            w < old(self).workers_model().len(),
        ensures
            final(self).wf(),
            r == old(self).workers_model()[w as int].thread_live,
            final(self).queue_model() == old(self).queue_model(),
            final(self).sender_live() == old(self).sender_live(),
            final(self).workers_model().len() == old(self).workers_model().len(),
            forall|j: int| 0 <= j < old(self).workers_model().len() && j != w as int
                ==> #[trigger] final(self).workers_model()[j] == old(self).workers_model()[j],
            final(self).workers_model()[w as int] == (Worker {
                thread_live: false,
                ..old(self).workers_model()[w as int]
            }),
    {
        let r = self.workers[w].thread_live;
        self.workers[w].thread_live = false;
        r
    }

    /// What the pool's owner waits on during teardown: with the producer
    /// handle gone, the workers' run loops drain the queue and end. The
    /// loops provably terminate — teardown cannot deadlock, even when no
    /// job was ever submitted — and the jobs run on the way out are
    /// exactly those still pending, in order: teardown completes only
    /// after every already-submitted job has been executed. Only when
    /// every worker terminated early (its job failed inside it) is no one
    /// left to run the remainder: the drain then ends at once with the
    /// queue untouched.
    pub fn run_until_terminated(&mut self) -> (ran: Vec<T>)
        requires
            old(self).wf(),
            !old(self).sender_live(),
            forall|j: int| 0 <= j < old(self).workers_model().len()
                ==> (#[trigger] old(self).workers_model()[j]).phase != WorkerPhase::Busy,
        ensures
            final(self).wf(),
            !final(self).sender_live(),
            final(self).workers_model().len() == old(self).workers_model().len(),
            forall|j: int| 0 <= j < old(self).workers_model().len()
                ==> #[trigger] final(self).workers_model()[j] == (Worker {
                    phase: WorkerPhase::Terminated,
                    ..old(self).workers_model()[j]
                }),
            has_idle(old(self).workers_model()) ==> ran@ == old(self).pending()
                && final(self).pending() == Seq::<T>::empty(),
            !has_idle(old(self).workers_model()) ==> ran@ == Seq::<T>::empty()
                && final(self).pending() == old(self).pending(),
    {
        let ghost ws0 = self.workers@;
        let ghost pending0 = self.queue@.pending;
        let n = self.workers.len();
        let mut ran: Vec<T> = Vec::new();

        // find a worker still waiting; it will run the remaining jobs
        let mut runner: usize = n;
        let mut i: usize = 0;
        while i < n
            invariant
                i <= n,
                n == ws0.len(),
                self.workers@ == ws0,
                self.queue@.pending == pending0,
                self.wf(),
                !self.sender_live(),
                runner == n || (runner < i && ws0[runner as int].phase == WorkerPhase::Idle),
                runner == n ==> forall|j: int| 0 <= j < i
                    ==> (#[trigger] ws0[j]).phase != WorkerPhase::Idle,
            decreases n - i,
        {
            if runner == n && self.workers[i].phase == WorkerPhase::Idle {
                runner = i;
            }
            i = i + 1;
        }

        if runner < n {
            proof {
                assert(has_idle(ws0));
                assert(ran@ + self.pending() =~= pending0);
            }
            // the runner receives and runs every job still pending
            while self.queue.has_pending()
                invariant
                    self.wf(),
                    !self.sender_live(),
                    runner < n,
                    n == ws0.len(),
                    self.workers_model().len() == n,
                    self.workers_model()[runner as int]
                        == (Worker { phase: WorkerPhase::Idle, ..ws0[runner as int] }),
                    forall|j: int| 0 <= j < n && j != runner
                        ==> #[trigger] self.workers_model()[j] == ws0[j],
                    ran@ + self.pending() == pending0,
                decreases self.pending().len(),
            {
                let r = self.dispatch(runner);
                match r {
                    RecvOutcome::Job(job) => {
                        ran.push(job);
                        self.complete(runner, true);
                    }
                    RecvOutcome::WouldBlock => {
                        proof {
                            assert(false);
                        }
                    }
                    RecvOutcome::Closed => {
                        proof {
                            assert(false);
                        }
                    }
                }
                proof {
                    assert(ran@ + self.pending() =~= pending0);
                }
            }
            proof {
                assert(ran@ =~= pending0);
            }
            // every waiting worker now sees closure and its run loop ends
            let mut v: usize = 0;
            while v < n
                invariant
                    v <= n,
                    runner < n,
                    n == ws0.len(),
                    forall|j: int| 0 <= j < n ==> (#[trigger] ws0[j]).phase != WorkerPhase::Busy,
                    self.wf(),
                    !self.sender_live(),
                    self.workers_model().len() == n,
                    self.pending() == Seq::<T>::empty(),
                    forall|j: int| 0 <= j < v
                        ==> #[trigger] self.workers_model()[j]
                            == (Worker { phase: WorkerPhase::Terminated, ..ws0[j] }),
                    forall|j: int| v <= j < n && j != runner
                        ==> #[trigger] self.workers_model()[j] == ws0[j],
                    v <= runner ==> self.workers_model()[runner as int]
                        == (Worker { phase: WorkerPhase::Idle, ..ws0[runner as int] }),
                decreases n - v,
            {
                if self.workers[v].phase == WorkerPhase::Idle {
                    let r = self.dispatch(v);
                    match r {
                        RecvOutcome::Closed => {}
                        _ => {
                            proof {
                                assert(false);
                            }
                        }
                    }
                }
                v = v + 1;
            }
        } else {
            proof {
                assert(!has_idle(ws0));
            }
        }
        ran
    }

    /// The whole teardown sequence, as the pool's owner runs it when the
    /// pool goes out of use: release the producer handle, then take each
    /// worker's thread handle in creation order. The returned ids are the
    /// threads the caller must now join, in that order. Exactly the
    /// workers whose handle was still held are returned, so a second
    /// teardown returns nothing and joins nothing.
    pub fn shutdown(&mut self) -> (to_join: Vec<usize>)
        requires
            old(self).wf(),
        ensures
            final(self).wf(),
            !final(self).sender_live(),
            final(self).queue_model().senders == 0,
            final(self).queue_model().pending == old(self).queue_model().pending,
            final(self).queue_model().receiver_live,
            to_join@ == live_ids(old(self).workers_model()),
            final(self).workers_model().len() == old(self).workers_model().len(),
            forall|j: int| 0 <= j < old(self).workers_model().len()
                ==> #[trigger] final(self).workers_model()[j] == (Worker {
                    thread_live: false,
                    ..old(self).workers_model()[j]
                }),
    {
        self.close();
        let ghost ws0 = self.workers@;
        let n = self.workers.len();
        let mut to_join: Vec<usize> = Vec::new();
        let mut w: usize = 0;
        while w < n
            invariant
                w <= n,
                n == ws0.len(),
                self.wf(),
                !self.sender_live(),
                self.queue_model().senders == 0,
                self.queue_model().pending == old(self).queue_model().pending,
                self.queue_model().receiver_live,
                self.workers_model().len() == n,
                to_join@ == live_ids(ws0.take(w as int)),
                forall|j: int| 0 <= j < w
                    ==> #[trigger] self.workers_model()[j]
                        == (Worker { thread_live: false, ..ws0[j] }),
                forall|j: int| w <= j < n ==> #[trigger] self.workers_model()[j] == ws0[j],
            decreases n - w,
        {
            let id = self.workers[w].id;
            let was_live = self.take_thread(w);
            if was_live {
                to_join.push(id);
            }
            proof {
                assert(ws0.take(w as int + 1) =~= ws0.take(w as int).push(ws0[w as int]));
                lemma_live_ids_snoc(ws0.take(w as int), ws0[w as int]);
                if !was_live {
                    assert(to_join@ + Seq::<usize>::empty() =~= to_join@);
                }
            }
            w = w + 1;
        }
        proof {
            assert(ws0.take(n as int) =~= ws0);
        }
        to_join
    }
}

/// Appending one worker record appends its id to the join list exactly
/// when its handle is still held.
pub proof fn lemma_live_ids_snoc(ws: Seq<Worker>, w: Worker)
    ensures
        live_ids(ws.push(w)) == live_ids(ws) + (if w.thread_live {
            seq![w.id]
        } else {
            Seq::<usize>::empty()
        }),
    decreases ws.len(),
{
    let tail = (if w.thread_live {
        seq![w.id]
    } else {
        Seq::<usize>::empty()
    });
    if ws.len() == 0 {
        reveal_with_fuel(live_ids, 2);
        assert(ws.push(w)[0] == w);
        assert(ws.push(w).drop_first() =~= Seq::<Worker>::empty());
        if w.thread_live {
            assert(live_ids(ws.push(w)) == seq![w.id] + Seq::<usize>::empty());
            assert(seq![w.id] + Seq::<usize>::empty() =~= live_ids(ws) + tail);
        } else {
            assert(live_ids(ws.push(w)) == Seq::<usize>::empty());
            assert(Seq::<usize>::empty() =~= live_ids(ws) + tail);
        }
    } else {
        assert(ws.push(w).drop_first() =~= ws.drop_first().push(w));
        lemma_live_ids_snoc(ws.drop_first(), w);
        if ws[0].thread_live {
            assert(seq![ws[0].id] + (live_ids(ws.drop_first()) + tail)
                =~= (seq![ws[0].id] + live_ids(ws.drop_first())) + tail);
        }
    }
}

/// Once teardown has begun, a waiting worker can never be stuck: its next
/// receive either hands it a job to run or ends its run loop, and the run
/// loop ends exactly when no submitted job remains — teardown cannot
/// deadlock, and it lets no job behind.
pub proof fn lemma_worker_never_stuck<T>(q: QueueModel<T>)
    requires
        q.senders == 0,
    ensures
        phase_after_receive(recv_outcome(q)) != WorkerPhase::Idle,
        phase_after_receive(recv_outcome(q)) == WorkerPhase::Terminated <==> q.pending.len() == 0,
{
    crate::queue::lemma_closed_receive_never_blocks(q);
}

/// Teardown is idempotent: once every thread handle has been taken, a
/// second pass finds none to join.
pub proof fn lemma_shutdown_idempotent(ws: Seq<Worker>)
    requires
        forall|i: int| 0 <= i < ws.len() ==> !(#[trigger] ws[i]).thread_live,
    ensures
        live_ids(ws) == Seq::<usize>::empty(),
    decreases ws.len(),
{
    if ws.len() > 0 {
        lemma_shutdown_idempotent(ws.drop_first());
    }
}

} // verus!
