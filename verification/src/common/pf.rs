//! Point-free helpers: postfix constructors for the everyday wrappers, so
//! a pipeline can end in `.ok()`, `.some()`, `.arc()` and the like instead
//! of wrapping the whole expression.

use std::sync::Arc;

use vstd::prelude::*;

verus! {

/// Lift a value into the `Ok` case.
pub trait PFOk<E>: Sized {
    fn ok(self) -> (r: Result<Self, E>)
        ensures
            r == Result::<Self, E>::Ok(self),
    {
        Ok(self)
    }
}

impl<E, T> PFOk<E> for T {

}

/// Lift a value into the `Err` case.
pub trait PFErr<Okay>: Sized {
    fn err(self) -> (r: Result<Okay, Self>)
        ensures
            r == Result::<Okay, Self>::Err(self),
    {
        Err(self)
    }
}

impl<Okay, T> PFErr<Okay> for T {

}

/// Move a value behind a shared reference count.
pub trait PFArc<T> {
    fn arc(self) -> Arc<T>;
}

impl<T> PFArc<T> for T {
    fn arc(self) -> (r: Arc<T>)
        ensures
            r == self,
    {
        Arc::new(self)
    }
}

/// Move a value onto the heap.
pub trait PFBox<T> {
    fn to_box(self) -> Box<T>;
}

impl<T> PFBox<T> for T {
    fn to_box(self) -> (r: Box<T>)
        ensures
            r == self,
    {
        Box::new(self)
    }
}

/// Lift a value into the `Some` case.
pub trait PFSome<T> {
    fn some(self) -> Option<T>;
}

impl<T> PFSome<T> for T {
    fn some(self) -> (r: Option<T>)
        ensures
            r == Some(self),
    {
        Some(self)
    }
}

} // verus!
