//! Lifetime witnesses: producing and consuming borrowed values.
use std::marker::PhantomData;

use vstd::prelude::*;

verus! {

/// A marker that ties a type to a lifetime.
pub struct WithLifetime<'lt, T>(PhantomData<&'lt T>);

impl<'lt, T> WithLifetime<'lt, T> {
    /// Calls the producer and hands on the reference it returns.
    pub fn produces<P: Fn() -> &'lt mut T>(t: P) -> (r: &'lt mut T)
        requires
            t.requires(()),
        ensures
            t.ensures((), r),
    {
        t()
    }

    /// Gives up a mutable borrow without changing what it points to.
    pub fn consumes(t: &'lt mut T)
        ensures
            *final(t) == *old(t),
    {
    }
}

} // verus!
