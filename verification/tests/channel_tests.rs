use std::sync::atomic::{AtomicUsize, Ordering};
use std::sync::Arc;
use std::task::{Wake, Waker};

use wd_tools::channel::ops::{RecvPoll, SendPoll};
use wd_tools::channel::state::WaitDeque;
use wd_tools::{Channel, RecvError, SendError};

struct CountingWake {
    count: AtomicUsize,
}

impl Wake for CountingWake {
    fn wake(self: Arc<Self>) {
        self.count.fetch_add(1, Ordering::SeqCst);
    }

    fn wake_by_ref(self: &Arc<Self>) {
        self.count.fetch_add(1, Ordering::SeqCst);
    }
}

fn counting_waker() -> (Arc<CountingWake>, Waker) {
    let w = Arc::new(CountingWake { count: AtomicUsize::new(0) });
    let waker = Waker::from(w.clone());
    (w, waker)
}

#[test]
fn test_channel() {
    let (sender, receiver) = Channel::<usize>::new(1);

    let res = sender.try_send(1);
    assert_eq!(res, Ok(()), "first try send failed");
    let res = sender.try_send(1);
    assert_eq!(res, Err(SendError::FULL(1)), "second try send failed");

    let res = receiver.try_recv();
    assert_eq!(res, Ok(1), "first try recv failed");
    let res = receiver.try_recv();
    assert_eq!(res, Err(RecvError::EMPTY), "first try recv failed");
}

#[test]
fn full_empty_boundary() {
    // capacity N: N sends succeed, one more reports FULL; after one
    // receive the next send succeeds again
    let n = 5usize;
    let chan = Channel::<usize>::with_cap(n);
    for i in 0..n {
        assert_eq!(chan.try_send(i), Ok(()));
    }
    assert_eq!(chan.try_send(99), Err(SendError::FULL(99)));
    assert_eq!(chan.try_recv(), Ok(0));
    assert_eq!(chan.try_send(99), Ok(()));
    assert_eq!(chan.try_send(100), Err(SendError::FULL(100)));
}

#[test]
fn close_drains_buffer() {
    // closing stops new writes but the buffer drains first
    let chan = Channel::<u32>::with_cap(5);
    assert_eq!(chan.try_send(10), Ok(()));
    assert_eq!(chan.try_send(20), Ok(()));
    assert_eq!(chan.try_send(30), Ok(()));
    chan.close();
    assert_eq!(chan.try_recv(), Ok(10));
    assert_eq!(chan.try_recv(), Ok(20));
    assert_eq!(chan.try_recv(), Ok(30));
    assert_eq!(chan.try_recv(), Err(RecvError::CLOSED));
}

#[test]
fn closed_send_rejects() {
    // after close() every send is refused and the value comes back
    let (sender, receiver) = Channel::<String>::new(3);
    receiver.close();
    assert!(sender.is_closed());
    assert!(receiver.is_closed());
    let res = sender.try_send(String::from("kept"));
    match res {
        Err(SendError::CLOSED(v)) => assert_eq!(v, "kept"),
        other => panic!("expected CLOSED, got {:?}", other),
    }
    // closing is idempotent
    sender.close();
    let res = sender.try_send(String::from("again"));
    match res {
        Err(SendError::CLOSED(v)) => assert_eq!(v, "again"),
        other => panic!("expected CLOSED, got {:?}", other),
    }
}

#[test]
fn fifo_order() {
    // single producer, single consumer: values come out in send order
    let chan = Channel::<usize>::with_cap(8);
    let mut received: Vec<usize> = Vec::new();
    for round in 0..10 {
        for i in 0..8 {
            assert_eq!(chan.try_send(round * 8 + i), Ok(()));
        }
        for _ in 0..8 {
            received.push(chan.try_recv().unwrap());
        }
    }
    let expected: Vec<usize> = (0..80).collect();
    assert_eq!(received, expected);
}

#[test]
fn no_double_claim() {
    // two claims with no release in between never return the same slot
    let mut d = WaitDeque::<u64>::new(2);
    let first = d.claim_writable_slot().expect("claim on empty ring");
    let second = d.claim_writable_slot().expect("second slot free");
    assert_ne!(first, second, "a claimed slot was claimed again");
    // with every slot claimed, a further claim finds nothing
    assert_eq!(d.claim_writable_slot(), None);
    d.release_slot(first);
    d.release_slot(second);
}

#[test]
fn claim_commit_release_cycle() {
    // the raw slot protocol: claim, commit, release on both sides
    let mut d = WaitDeque::<u64>::new(2);
    assert_eq!(d.claim_readable_slot(), None, "nothing to read yet");
    let idx = d.claim_writable_slot().unwrap();
    assert_eq!(d.commit_write(idx, 7), Ok(()));
    d.release_slot(idx);
    let idx = d.claim_readable_slot().unwrap();
    assert_eq!(d.commit_read(idx), Ok(7));
    d.release_slot(idx);
    assert_eq!(d.claim_readable_slot(), None, "ring drained");
}

#[test]
fn suspending_send_parks_and_resumes() {
    let chan = Channel::<u32>::with_cap(1);
    assert_eq!(chan.try_send(1), Ok(()));

    // a suspending send on a full channel parks
    let mut fut = chan.send(2);
    let (state, waker) = counting_waker();
    assert!(fut.is_pending());
    match fut.poll_step(waker.clone()) {
        SendPoll::Pending => {}
        SendPoll::Ready(r) => panic!("expected a parked send, got {:?}", r),
    }

    // a receive frees a slot and resumes the parked sender
    assert_eq!(chan.try_recv(), Ok(1));
    assert_eq!(state.count.load(Ordering::SeqCst), 1, "sender not resumed");

    // the re-driven send completes
    assert!(fut.is_pending());
    match fut.poll_step(waker) {
        SendPoll::Ready(Ok(())) => {}
        other => panic!("expected completion, got {:?}", poll_name_send(&other)),
    }
    assert_eq!(chan.try_recv(), Ok(2));
}

#[test]
fn suspending_recv_parks_and_resumes() {
    let chan = Channel::<u32>::with_cap(1);
    let mut fut = chan.recv();
    let (state, waker) = counting_waker();
    match fut.poll_step(waker.clone()) {
        RecvPoll::Pending => {}
        RecvPoll::Ready(r) => panic!("expected a parked receive, got {:?}", r),
    }
    assert_eq!(chan.try_send(5), Ok(()));
    assert_eq!(state.count.load(Ordering::SeqCst), 1, "receiver not resumed");
    match fut.poll_step(waker) {
        RecvPoll::Ready(Ok(v)) => assert_eq!(v, 5),
        _ => panic!("expected the sent value"),
    }
}

#[test]
fn sweeper_recovers_missed_wakeup() {
    // park a receiver, then make room observable only to the sweeper
    let chan = Channel::<u32>::with_cap(1);
    let mut fut = chan.recv();
    let (state, waker) = counting_waker();
    match fut.poll_step(waker.clone()) {
        RecvPoll::Pending => {}
        RecvPoll::Ready(_) => panic!("expected a parked receive"),
    }
    // a tick with nothing buffered and the channel open wakes nobody,
    // and the sweeper keeps running
    assert!(!chan.sweep_tick());
    assert_eq!(state.count.load(Ordering::SeqCst), 0);

    // sending wakes the receiver directly; park it again to simulate the
    // lost-wakeup window: value present, waker queued, no resume yet
    let mut d = WaitDeque::<u32>::new(1);
    let i = d.claim_writable_slot().unwrap();
    assert_eq!(d.commit_write(i, 9), Ok(()));
    d.release_slot(i);
    let (s2, w2) = counting_waker();
    assert!(d.register_receiver(w2));
    // the tick resumes the waiter it found parked; the channel is still
    // open, so the sweeper keeps running
    assert!(!d.sweep());
    assert_eq!(s2.count.load(Ordering::SeqCst), 1, "sweeper missed the waiter");

    // after close the sweeper resumes everyone unconditionally
    let (s3, w3) = counting_waker();
    assert!(d.register_sender(w3));
    d.close();
    assert_eq!(s3.count.load(Ordering::SeqCst), 1, "close must resume waiters");
    let _ = (state, chan, fut);
}

#[test]
fn sweeper_stops_only_after_close() {
    let chan = Channel::<u8>::with_cap(2);
    assert!(!chan.sweep_tick(), "an open channel keeps its sweeper");
    chan.close();
    assert!(chan.sweep_tick(), "closed and drained: the sweeper may stop");
}

fn poll_name_send(p: &SendPoll<u32>) -> &'static str {
    match p {
        SendPoll::Ready(_) => "ready",
        SendPoll::Pending => "pending",
    }
}
