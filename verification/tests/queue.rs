use worker_pool::queue::RecvOutcome;
use worker_pool::queue::SendError;
use worker_pool::queue::WorkQueue;

#[test]
fn fresh_queue_would_block() {
    let mut q: WorkQueue<u64> = WorkQueue::new();
    assert_eq!(q.receive(), RecvOutcome::WouldBlock);
    assert_eq!(q.receive(), RecvOutcome::WouldBlock);
}

#[test]
fn fifo_delivery_in_send_order() {
    let mut q: WorkQueue<u64> = WorkQueue::new();
    assert!(q.send(10).is_ok());
    assert!(q.send(20).is_ok());
    assert!(q.send(30).is_ok());
    assert_eq!(q.receive(), RecvOutcome::Job(10));
    assert_eq!(q.receive(), RecvOutcome::Job(20));
    assert_eq!(q.receive(), RecvOutcome::Job(30));
    assert_eq!(q.receive(), RecvOutcome::WouldBlock);
}

#[test]
fn closed_after_last_sender_gone() {
    let mut q: WorkQueue<u64> = WorkQueue::new();
    assert!(q.send(7).is_ok());
    q.drop_sender();
    // the job sent before closure is still delivered, then Closed, forever
    assert_eq!(q.receive(), RecvOutcome::Job(7));
    assert_eq!(q.receive(), RecvOutcome::Closed);
    assert_eq!(q.receive(), RecvOutcome::Closed);
}

#[test]
fn closed_immediately_when_nothing_was_sent() {
    let mut q: WorkQueue<u64> = WorkQueue::new();
    q.drop_sender();
    assert_eq!(q.receive(), RecvOutcome::Closed);
}

#[test]
fn open_while_any_sender_remains() {
    let mut q: WorkQueue<u64> = WorkQueue::new();
    q.clone_sender();
    q.drop_sender();
    // one producer handle is still live: an empty queue blocks, not closes
    assert_eq!(q.receive(), RecvOutcome::WouldBlock);
    q.drop_sender();
    assert_eq!(q.receive(), RecvOutcome::Closed);
}

#[test]
fn send_fails_once_receiver_is_gone() {
    let mut q: WorkQueue<u64> = WorkQueue::new();
    assert!(q.send(1).is_ok());
    q.drop_receiver();
    // the rejected job comes back in the error
    assert_eq!(q.send(2), Err(SendError(2)));
}

#[test]
fn has_pending_tracks_queue_contents() {
    let mut q: WorkQueue<u64> = WorkQueue::new();
    assert!(!q.has_pending());
    assert!(q.send(1).is_ok());
    assert!(q.has_pending());
    assert_eq!(q.receive(), RecvOutcome::Job(1));
    assert!(!q.has_pending());
}

#[test]
fn interleaved_producers_lose_and_duplicate_nothing() {
    // two producers, sends observed in an interleaved order
    let mut q: WorkQueue<u64> = WorkQueue::new();
    q.clone_sender();
    let a = [1u64, 2, 3];
    let b = [100u64, 200];
    assert!(q.send(a[0]).is_ok());
    assert!(q.send(b[0]).is_ok());
    assert!(q.send(a[1]).is_ok());
    assert!(q.send(a[2]).is_ok());
    assert!(q.send(b[1]).is_ok());
    q.drop_sender();
    q.drop_sender();
    let mut got: Vec<u64> = Vec::new();
    loop {
        match q.receive() {
            RecvOutcome::Job(j) => got.push(j),
            RecvOutcome::Closed => break,
            RecvOutcome::WouldBlock => panic!("queue blocked after closure"),
        }
    }
    // every job of both producers, exactly once
    assert_eq!(got.len(), a.len() + b.len());
    let mut sorted = got.clone();
    sorted.sort();
    assert_eq!(sorted, vec![1, 2, 3, 100, 200]);
    // each producer's own jobs kept their order
    let only_a: Vec<u64> = got.iter().copied().filter(|j| *j < 100).collect();
    let only_b: Vec<u64> = got.iter().copied().filter(|j| *j >= 100).collect();
    assert_eq!(only_a, vec![1, 2, 3]);
    assert_eq!(only_b, vec![100, 200]);
}
