use worker_pool::pool::ThreadPool;
use worker_pool::queue::RecvOutcome;

#[test]
fn every_submitted_job_runs_exactly_once() {
    // N workers, M jobs: exactly M executions, each job exactly once
    let mut pool: ThreadPool<u64> = ThreadPool::new(3);
    for job in [10u64, 20, 30, 40] {
        pool.execute(job);
    }
    pool.close();
    let ran = pool.run_until_terminated();
    assert_eq!(ran, vec![10, 20, 30, 40]);
}

#[test]
fn single_worker_runs_jobs_in_submission_order() {
    // pool of size 1: job a, then job b; the log is exactly [a, b]
    let mut pool: ThreadPool<&str> = ThreadPool::new(1);
    pool.execute("a");
    pool.execute("b");
    pool.close();
    let log = pool.run_until_terminated();
    assert_eq!(log, vec!["a", "b"]);
}

#[test]
fn teardown_completes_with_zero_jobs() {
    let mut pool: ThreadPool<u64> = ThreadPool::new(4);
    pool.close();
    let ran = pool.run_until_terminated();
    assert!(ran.is_empty());
    let joined = pool.shutdown();
    assert_eq!(joined, vec![0, 1, 2, 3]);
}

#[test]
fn teardown_only_after_all_jobs_ran() {
    // the shared-counter check: the count right after the drain equals M
    let mut pool: ThreadPool<u64> = ThreadPool::new(2);
    let m = 9u64;
    for job in 0..m {
        pool.execute(job);
    }
    pool.close();
    let mut counter = 0u64;
    for _ in pool.run_until_terminated() {
        counter += 1;
    }
    assert_eq!(counter, m);
}

#[test]
fn two_workers_five_jobs_all_logged_once() {
    // pool of size 2, five indexed jobs dispatched across both workers
    let mut pool: ThreadPool<usize> = ThreadPool::new(2);
    for idx in 0..5usize {
        pool.execute(idx);
    }
    let mut log: Vec<usize> = Vec::new();
    // the two workers alternate picking jobs up
    for turn in 0..4usize {
        let worker = turn % 2;
        match pool.dispatch(worker) {
            RecvOutcome::Job(idx) => {
                log.push(idx);
                pool.complete(worker, true);
            }
            other => panic!("expected a job, got {:?}", other),
        }
    }
    pool.close();
    log.extend(pool.run_until_terminated());
    let mut seen = log.clone();
    seen.sort();
    assert_eq!(seen, vec![0, 1, 2, 3, 4]);
}

#[test]
fn join_order_is_creation_order_and_second_teardown_is_noop() {
    let mut pool: ThreadPool<u64> = ThreadPool::new(3);
    pool.close();
    pool.run_until_terminated();
    let joined = pool.shutdown();
    assert_eq!(joined, vec![0, 1, 2]);
    // every thread handle was taken: a second teardown joins nothing
    let joined_again = pool.shutdown();
    assert!(joined_again.is_empty());
}

#[test]
fn close_is_idempotent() {
    let mut pool: ThreadPool<u64> = ThreadPool::new(1);
    pool.execute(5);
    pool.close();
    pool.close();
    let ran = pool.run_until_terminated();
    assert_eq!(ran, vec![5]);
}

#[test]
fn failing_job_degrades_one_worker_only() {
    // a job that fails inside ends its worker, but already-queued jobs
    // still run and teardown still completes
    let mut pool: ThreadPool<u64> = ThreadPool::new(2);
    for job in [1u64, 2, 3] {
        pool.execute(job);
    }
    match pool.dispatch(0) {
        RecvOutcome::Job(j) => {
            assert_eq!(j, 1);
            pool.complete(0, false); // the job failed inside worker 0
        }
        other => panic!("expected a job, got {:?}", other),
    }
    pool.close();
    let ran = pool.run_until_terminated();
    assert_eq!(ran, vec![2, 3]);
    // both workers are joined all the same
    let joined = pool.shutdown();
    assert_eq!(joined, vec![0, 1]);
}

#[test]
fn drained_pool_with_all_workers_dead_still_tears_down() {
    // every worker's job fails: capacity is gone, but teardown completes
    let mut pool: ThreadPool<u64> = ThreadPool::new(1);
    pool.execute(1);
    pool.execute(2);
    match pool.dispatch(0) {
        RecvOutcome::Job(_) => pool.complete(0, false),
        other => panic!("expected a job, got {:?}", other),
    }
    pool.close();
    // nobody is left to run job 2; the drain ends at once, without it
    let ran = pool.run_until_terminated();
    assert!(ran.is_empty());
    assert_eq!(pool.shutdown(), vec![0]);
}
