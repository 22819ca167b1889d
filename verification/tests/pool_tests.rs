use wd_tools::pool::coroutine::ParallelPool;
use wd_tools::pool::object_pool::{ObjFactor, ObjPool, Object};

struct Make1000;

impl ObjFactor<u64> for Make1000 {
    fn make(&self) -> Option<u64> {
        Some(1000)
    }
}

#[test]
fn parallel_pool_limits_workers() {
    let pp = ParallelPool::new(3);
    assert!(pp.try_acquire());
    assert!(pp.try_acquire());
    assert!(pp.try_acquire());
    assert_eq!(pp.worker_count(), 3);
    assert!(!pp.try_acquire(), "the fourth task must wait");
    pp.release();
    assert_eq!(pp.worker_count(), 2);
    assert!(pp.try_acquire());
    let other = pp.clone();
    assert!(!other.try_acquire(), "clones share the same counter");
}

#[test]
fn object_pool_cycle() {
    let pool = ObjPool::new(2, 1, Make1000);
    assert!(!pool.is_full());
    assert_eq!(pool.try_pop(), None, "nothing idle yet");
    let a = pool.try_new_obj().unwrap();
    let b = pool.try_new_obj().unwrap();
    assert_eq!((a, b), (1000, 1000));
    assert!(pool.is_full());
    assert_eq!(pool.try_new_obj(), None, "the pool is at its limit");
    // one object stays idle, the second is retired
    pool.try_push(a);
    pool.try_push(b);
    assert!(!pool.is_full(), "a retired object frees room");
    assert_eq!(pool.try_pop(), Some(1000), "the idle object comes back");
    assert_eq!(pool.try_pop(), None);
}

#[test]
fn object_wrapper_take() {
    let mut o = Object::new(7u8);
    assert_eq!(o.get(), Some(&7));
    assert_eq!(o.take(), Some(7));
    assert_eq!(o.take(), None);
    assert_eq!(o.get(), None);
}

#[test]
fn backoff_schedule() {
    assert_eq!(ObjPool::<u64, Make1000>::backoff(0), 10);
    assert_eq!(ObjPool::<u64, Make1000>::backoff(3), 10);
    assert_eq!(ObjPool::<u64, Make1000>::backoff(4), 100);
    assert_eq!(ObjPool::<u64, Make1000>::backoff(9), 100);
    assert_eq!(ObjPool::<u64, Make1000>::backoff(10), 1000);
}
