//! A wait queue for one direction of the channel: the resumption handles of
//! suspended send or receive operations, in registration order, together
//! with a pending count.
//!
//! Registering never loses a handle; resuming pops handles from the front
//! and asks the scheduler to make the owning task runnable again. Waking is
//! only a hint: a resumed operation must re-attempt its slot claim.

use vstd::prelude::*;

verus! {

/// Declares `core::task::Waker` so it can stand in fields and signatures.
/// A waker is opaque to this library; it is only stored and later woken.
#[verifier::external_type_specification]
#[verifier::external_body]
pub struct ExWaker(core::task::Waker);

/// Relies on `core::task::Waker::wake`: consumes the handle and asks the
/// scheduler to schedule the owning task again. Nothing is promised of it;
/// a woken operation always re-checks the channel state itself.
pub assume_specification[ core::task::Waker::wake ](w: core::task::Waker)
;

/// The handles of suspended operations for one direction, oldest first.
pub struct WaitQueue {
    /// Number of queued handles; equals `wakers.len()` whenever the
    /// channel lock is not held.
    pub pending: usize,
    /// The queued resumption handles, in registration order.
    pub wakers: Vec<core::task::Waker>,
}

impl WaitQueue {
    /// The pending count mirrors the queue length.
    pub open spec fn wf(self) -> bool {
        self.pending == self.wakers@.len()
    }

    pub fn new() -> (q: Self)
        ensures
            q.wf(),
            q.wakers@.len() == 0,
    {
        WaitQueue { pending: 0, wakers: Vec::new() }
    }

    pub fn len(&self) -> (n: usize)
        requires
            self.wf(),
        ensures
            n == self.wakers@.len(),
    {
        self.pending
    }

    /// Appends a resumption handle. Always succeeds here: the caller holds
    /// the channel lock, so there is no registration race to lose.
    pub fn register(&mut self, w: core::task::Waker) -> (r: bool)
        requires
            old(self).wf(),
        ensures
            final(self).wf(),
            r,
            final(self).wakers@ == old(self).wakers@.push(w),
    {
        self.wakers.push(w);
        self.pending = self.wakers.len();
        true
    }

    /// Pops and wakes up to `max` handles, oldest first; returns how many
    /// were woken. Waking a handle does not guarantee that the operation
    /// succeeds next time: it merely re-drives it.
    pub fn resume(&mut self, max: usize) -> (n: usize)
        requires
            old(self).wf(),
        ensures
            final(self).wf(),
            n == if max as int <= old(self).wakers@.len() as int {
                max as int
            } else {
                old(self).wakers@.len() as int
            },
            final(self).wakers@ == old(self).wakers@.skip(n as int),
    {
        let mut n: usize = 0;
        while n < max && self.wakers.len() > 0
            invariant
                self.wf(),
                n <= max,
                n <= old(self).wakers@.len(),
                self.wakers@ == old(self).wakers@.skip(n as int),
                n < max || max as int <= old(self).wakers@.len(),
            decreases self.wakers@.len(),
        {
            let w = self.wakers.remove(0);
            w.wake();
            self.pending = self.wakers.len();
            proof {
                assert(old(self).wakers@.skip(n as int).remove(0) =~= old(self).wakers@.skip(
                    n + 1,
                ));
            }
            n = n + 1;
        }
        n
    }
}

} // verus!
