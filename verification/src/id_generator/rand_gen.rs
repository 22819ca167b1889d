//! Random values, drawn through the process-wide thread-local generator.
//! Nothing can be promised of a random value beyond its type.

use vstd::prelude::*;

verus! {

/// Relies on `rand::random`: a value drawn from the standard distribution
/// of its type.
#[verifier::external_body]
pub fn random<T>() -> T
    where
        rand::distr::StandardUniform: rand::distr::Distribution<T>,
{
    rand::random::<T>()
}

/// Relies on `rand::random_range` and `SampleRange::is_empty`: a value
/// drawn uniformly from the range, or `None` for an empty range. The
/// emptiness test guards the draw, so no input panics: rand's own
/// `random_range` would panic on an empty range, and over an arbitrary
/// range type that input cannot be excluded by a precondition.
#[verifier::external_body]
pub fn random_in_between<T, R>(range: R) -> Option<T>
    where
        T: rand::distr::uniform::SampleUniform,
        R: rand::distr::uniform::SampleRange<T>,
{
    if range.is_empty() {
        None
    } else {
        Some(rand::random_range::<T, R>(range))
    }
}

} // verus!
