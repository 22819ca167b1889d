//! A copy-on-update cell for read-mostly data such as configuration:
//! readers take a cheap shared snapshot, writers build a fresh value from
//! the current snapshot and swap it in whole. A snapshot never changes
//! under its holder; only the cell's current value moves on.

use std::sync::Arc;

use vstd::prelude::*;
use vstd::rwlock::{RwLock, RwLockPredicate};

use crate::common::infra::arc_clone;

verus! {

/// The cell may hold any value of its type.
pub struct ValuePred {
    pub marker: bool,
}

impl<T> RwLockPredicate<Arc<T>> for ValuePred {
    open spec fn inv(self, v: Arc<T>) -> bool {
        true
    }
}

/// The copy-on-update cell: one current snapshot behind a lock. Cloning
/// the cell shares it.
pub struct CopyLock<T> {
    inner: Arc<RwLock<Arc<T>, ValuePred>>,
}

impl<T> CopyLock<T> {
    /// A cell holding `default`.
    pub fn new(default: T) -> CopyLock<T> {
        let lock = RwLock::new(Arc::new(default), Ghost(ValuePred { marker: true }));
        CopyLock { inner: Arc::new(lock) }
    }

    /// The current snapshot. It stays as it is even while later updates
    /// move the cell on.
    pub fn share(&self) -> Arc<T> {
        let handle = self.inner.acquire_read();
        let snapshot = arc_clone(handle.borrow());
        handle.release_read();
        snapshot
    }

    /// Builds the next value from the current snapshot and swaps it in.
    /// Updates serialize: each one reads what the one before it wrote.
    pub fn update<F: FnOnce(Arc<T>) -> T>(&self, function: F)
        requires
            forall|a: Arc<T>| #[trigger] call_requires(function, (a,)),
    {
        let (current, handle) = self.inner.acquire_write();
        let next = function(current);
        handle.release_write(Arc::new(next));
    }

    /// Replaces the current value.
    pub fn set(&self, t: T) {
        let (current, handle) = self.inner.acquire_write();
        handle.release_write(Arc::new(t));
    }
}

impl<T> Clone for CopyLock<T> {
    /// Another handle to the same cell.
    fn clone(&self) -> (r: Self)
        ensures
            r == *self,
    {
        CopyLock { inner: arc_clone(&self.inner) }
    }
}

/// The shared, cloneable handle to a copy-on-update cell.
pub struct Acl<T> {
    inner: CopyLock<T>,
}

impl<T> Acl<T> {
    /// A fresh cell holding `default`.
    pub fn new(default: T) -> Acl<T> {
        Acl { inner: CopyLock::new(default) }
    }

    /// The current snapshot; see [`CopyLock::share`].
    pub fn share(&self) -> Arc<T> {
        self.inner.share()
    }

    /// Builds the next value from the current snapshot and swaps it in.
    pub fn update<F: FnOnce(Arc<T>) -> T>(&self, function: F)
        requires
            forall|a: Arc<T>| #[trigger] call_requires(function, (a,)),
    {
        self.inner.update(function)
    }

    /// Replaces the current value.
    pub fn set(&self, t: T) {
        self.inner.set(t)
    }
}

impl<T> Clone for Acl<T> {
    /// Another handle to the same cell.
    fn clone(&self) -> (r: Self)
        ensures
            r == *self,
    {
        Acl { inner: self.inner.clone() }
    }
}

} // verus!
