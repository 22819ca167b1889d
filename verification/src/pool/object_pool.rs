//! An object pool: up to `max` objects exist at once, made on demand by a
//! factory; at most `idle` of them are kept around between uses. Taking an
//! object pops an idle one or makes a fresh one; handing it back keeps it
//! idle or retires it. The retry-with-backoff loop that waits for a free
//! object runs with the async runtime, outside this library; here are the
//! pool's own decisions, and the backoff schedule it retries on.

use std::sync::Arc;

use vstd::prelude::*;
use vstd::rwlock::{RwLock, RwLockPredicate};

verus! {

/// Makes pool objects on demand. Implemented by the pool's user; a `None`
/// means the factory cannot supply an object right now. `make` does not
/// suspend: a factory that must await builds the object on the runtime
/// side first and hands the finished one out here.
pub trait ObjFactor<T> {
    fn make(&self) -> Option<T>;
}

/// The shared pool state: how many objects exist, and the idle ones.
pub struct PoolState<T> {
    /// Objects currently in existence (idle or handed out).
    pub have: usize,
    /// The idle objects, ready to hand out.
    pub idle_objs: Vec<T>,
}

impl<T> PoolState<T> {
    /// A fresh pool state: nothing exists and nothing is idle.
    pub fn new() -> (s: Self)
        ensures
            s.have == 0,
            s.idle_objs@ == Seq::<T>::empty(),
    {
        let s = PoolState { have: 0, idle_objs: Vec::new() };
        proof {
            assert(s.idle_objs@ =~= Seq::<T>::empty());
        }
        s
    }

    /// Pops the oldest idle object exactly when one waits; the existing
    /// count is untouched — the object stays on loan.
    pub fn pop_idle(&mut self) -> (r: Option<T>)
        ensures
            final(self).have == old(self).have,
            match r {
                Some(t) => old(self).idle_objs@.len() > 0 && t == old(self).idle_objs@[0]
                    && final(self).idle_objs@ == old(self).idle_objs@.skip(1),
                None => old(self).idle_objs@.len() == 0 && *final(self) == *old(self),
            },
    {
        if self.idle_objs.len() > 0 {
            let t = self.idle_objs.remove(0);
            proof {
                assert(self.idle_objs@ =~= old(self).idle_objs@.skip(1));
            }
            Some(t)
        } else {
            None
        }
    }

    /// Counts one freshly made object into existence.
    pub fn count_made(&mut self)
        requires
            old(self).have < usize::MAX,
        ensures
            final(self).have == old(self).have + 1,
            final(self).idle_objs == old(self).idle_objs,
    {
        self.have = self.have + 1;
    }

    /// Takes an object back: it joins the idle ones while they are under
    /// `idle_cap`, and is retired otherwise — dropped, lowering the
    /// existing count (never below zero).
    pub fn give_back(&mut self, t: T, idle_cap: usize)
        ensures
            old(self).idle_objs@.len() < idle_cap ==> final(self).idle_objs@ == old(
                self,
            ).idle_objs@.push(t) && final(self).have == old(self).have,
            old(self).idle_objs@.len() >= idle_cap ==> final(self).idle_objs == old(
                self,
            ).idle_objs && final(self).have == (if old(self).have > 0 {
                old(self).have - 1
            } else {
                0int
            }),
    {
        if self.idle_objs.len() < idle_cap {
            self.idle_objs.push(t);
        } else {
            if self.have > 0 {
                self.have = self.have - 1;
            }
        }
    }
}

/// Existing objects never outnumber the ceiling, nor idle ones theirs.
pub struct PoolPred {
    pub max: nat,
    pub idle: nat,
}

impl<T> RwLockPredicate<PoolState<T>> for PoolPred {
    open spec fn inv(self, v: PoolState<T>) -> bool {
        &&& v.have as nat <= self.max
        &&& v.idle_objs@.len() as nat <= self.idle
    }
}

/// The pool: its limits, its factory, and the shared state.
pub struct ObjPool<T, F: ObjFactor<T>> {
    max: usize,
    idle: usize,
    multi_try_new: bool,
    factory: F,
    state: Arc<RwLock<PoolState<T>, PoolPred>>,
}

/// A pooled object on loan: holds the object until it is taken or given
/// back to the pool.
pub struct Object<T> {
    t: Option<T>,
}

impl<T> Object<T> {
    /// Wraps a freshly taken object.
    pub fn new(t: T) -> (o: Self)
        ensures
            o.inner_spec() == Some(t),
    {
        Object { t: Some(t) }
    }

    /// The loaned object, if it has not been taken.
    pub closed spec fn inner_spec(self) -> Option<T> {
        self.t
    }

    /// Takes the object out; the wrapper is spent afterwards.
    pub fn take(&mut self) -> (r: Option<T>)
        ensures
            r == old(self).inner_spec(),
            final(self).inner_spec() is None,
    {
        self.t.take()
    }

    /// A look at the loaned object.
    pub fn get(&self) -> (r: Option<&T>)
        ensures
            match r {
                Some(v) => self.inner_spec() == Some(*v),
                None => self.inner_spec() is None,
            },
    {
        self.t.as_ref()
    }
}

impl<T, F: ObjFactor<T>> ObjPool<T, F> {
    /// The lock carries exactly this pool's limits.
    #[verifier::type_invariant]
    spec fn pool_wf(self) -> bool {
        self.state.pred() == (PoolPred { max: self.max as nat, idle: self.idle as nat })
    }

    /// Most objects that may exist at once.
    pub closed spec fn max_spec(self) -> usize {
        self.max
    }

    /// Most idle objects kept between uses.
    pub closed spec fn idle_spec(self) -> usize {
        self.idle
    }

    /// Whether a factory failure is reported instead of retried.
    pub closed spec fn multi_try_spec(self) -> bool {
        self.multi_try_new
    }

    /// Most objects that may exist at once.
    pub fn max_count(&self) -> (r: usize)
        ensures
            r == self.max_spec(),
    {
        self.max
    }

    /// Whether a factory failure is reported instead of retried.
    pub fn multi_try(&self) -> (r: bool)
        ensures
            r == self.multi_try_spec(),
    {
        self.multi_try_new
    }

    /// A pool of up to `max` objects, keeping up to `idle` of them around.
    pub fn new(max: usize, idle: usize, factory: F) -> (p: Arc<Self>)
        ensures
            p.max_spec() == max,
            p.idle_spec() == idle,
            !p.multi_try_spec(),
    {
        let state = PoolState::new();
        let lock = RwLock::new(state, Ghost(PoolPred { max: max as nat, idle: idle as nat }));
        Arc::new(
            Self { max, idle, multi_try_new: false, factory, state: Arc::new(lock) },
        )
    }

    /// Pops an idle object, if one is waiting; the transition on the
    /// locked state is [`PoolState::pop_idle`].
    pub fn try_pop(&self) -> Option<T> {
        proof {
            use_type_invariant(self);
        }
        let (mut state, handle) = self.state.acquire_write();
        let r = state.pop_idle();
        handle.release_write(state);
        r
    }

    /// Asks the factory for a fresh object, unless `max` objects already
    /// exist; a made object is counted by [`PoolState::count_made`]. A
    /// `None` means the pool is full or the factory declined. The factory
    /// runs only here, never at construction.
    pub fn try_new_obj(&self) -> Option<T> {
        proof {
            use_type_invariant(self);
        }
        let (mut state, handle) = self.state.acquire_write();
        if state.have >= self.max {
            handle.release_write(state);
            return None;
        }
        let made = self.factory.make();
        let r = match made {
            Some(t) => {
                state.count_made();
                Some(t)
            },
            None => None,
        };
        handle.release_write(state);
        r
    }

    /// Hands an object back: it stays idle if there is room for it, and is
    /// retired otherwise; the transition on the locked state is
    /// [`PoolState::give_back`].
    pub fn try_push(&self, t: T) {
        proof {
            use_type_invariant(self);
        }
        let (mut state, handle) = self.state.acquire_write();
        state.give_back(t, self.idle);
        handle.release_write(state);
    }

    /// Whether `max` objects already exist.
    pub fn is_full(&self) -> bool {
        proof {
            use_type_invariant(self);
        }
        let handle = self.state.acquire_read();
        let full = handle.borrow().have >= self.max;
        handle.release_read();
        full
    }

    /// The retry schedule, in milliseconds: quick at first, then patient.
    pub fn backoff(i: usize) -> (ms: u64)
        ensures
            ms == (if i > 9 {
                1000u64
            } else if i > 3 {
                100u64
            } else {
                10u64
            }),
    {
        if i > 9 {
            1000
        } else if i > 3 {
            100
        } else {
            10
        }
    }
}

} // verus!
