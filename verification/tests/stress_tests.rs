use std::future::Future;
use std::pin::Pin;
use std::sync::atomic::{AtomicUsize, Ordering};
use std::sync::Arc;
use std::task::{Context, Poll};
use std::time::Duration;

use wd_tools::channel::ops::{RecvFuture, RecvPoll, SendFuture, SendPoll};
use wd_tools::{Channel, RecvError, SendError};

struct DriveSend {
    fut: SendFuture<u64>,
}

impl Future for DriveSend {
    type Output = Result<(), SendError<u64>>;

    fn poll(self: Pin<&mut Self>, cx: &mut Context<'_>) -> Poll<Self::Output> {
        let this = self.get_mut();
        if !this.fut.is_pending() {
            panic!("send polled after completion");
        }
        match this.fut.poll_step(cx.waker().clone()) {
            SendPoll::Ready(r) => Poll::Ready(r),
            SendPoll::Pending => Poll::Pending,
        }
    }
}

struct DriveRecv {
    fut: RecvFuture<u64>,
}

impl Future for DriveRecv {
    type Output = Result<u64, RecvError>;

    fn poll(self: Pin<&mut Self>, cx: &mut Context<'_>) -> Poll<Self::Output> {
        let this = self.get_mut();
        match this.fut.poll_step(cx.waker().clone()) {
            RecvPoll::Ready(r) => Poll::Ready(r),
            RecvPoll::Pending => Poll::Pending,
        }
    }
}

// Producers and consumers suspend on a shared bounded channel while a
// sweeper task re-resumes parked operations; every sent value is received
// exactly once and nothing deadlocks. The task counts match the full
// production load; the per-producer volume is a tenth of it (one million
// values in all) so the run stays well inside the per-test time limit.
#[test]
fn test_channel_wait() {
    let producers = 100usize;
    let per_producer = 10_000u64;
    let consumers = 100usize;

    let rt = tokio::runtime::Builder::new_multi_thread()
        .worker_threads(4)
        .enable_time()
        .build()
        .expect("runtime");

    rt.block_on(async move {
        let chan = Channel::<u64>::with_cap(100);
        let sent = Arc::new(AtomicUsize::new(0));
        let got = Arc::new(AtomicUsize::new(0));

        // the sweeper: re-resumes parked operations every millisecond and
        // stops once the channel is closed and drained of waiters
        let sweep_chan = chan.clone();
        let sweeper = tokio::spawn(async move {
            loop {
                tokio::time::sleep(Duration::from_millis(1)).await;
                if sweep_chan.sweep_tick() {
                    return;
                }
            }
        });

        let mut senders = Vec::new();
        for p in 0..producers {
            let chan = chan.clone();
            let sent = sent.clone();
            senders.push(tokio::spawn(async move {
                for i in 0..per_producer {
                    let value = (p as u64) * per_producer + i;
                    let r = DriveSend { fut: chan.send(value) }.await;
                    assert_eq!(r, Ok(()));
                    sent.fetch_add(1, Ordering::SeqCst);
                }
            }));
        }

        let mut receivers = Vec::new();
        for _ in 0..consumers {
            let chan = chan.clone();
            let got = got.clone();
            receivers.push(tokio::spawn(async move {
                loop {
                    match (DriveRecv { fut: chan.recv() }.await) {
                        Ok(_) => {
                            got.fetch_add(1, Ordering::SeqCst);
                        }
                        Err(RecvError::CLOSED) => break,
                        Err(e) => panic!("unexpected receive error {:?}", e),
                    }
                }
            }));
        }

        for s in senders {
            s.await.expect("producer");
        }
        chan.close();
        for r in receivers {
            r.await.expect("consumer");
        }
        sweeper.await.expect("sweeper");

        let total = producers * (per_producer as usize);
        assert_eq!(sent.load(Ordering::SeqCst), total);
        assert_eq!(got.load(Ordering::SeqCst), total);
    });
}
