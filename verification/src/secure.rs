//! Marking which values are secure.
//!
//! A [`SecureStruct`] is secure; a [`NonSecure`] is not.  References, results,
//! vectors, cells, shared pointers and tuples of secure values are secure.
use std::cell::{RefCell, UnsafeCell};
use std::rc::Rc;

use vstd::prelude::*;

verus! {

#[verifier::external_type_specification]
#[verifier::external_body]
#[verifier::reject_recursive_types(T)]
pub struct ExRefCell<T: ?Sized>(RefCell<T>);

#[verifier::external_type_specification]
#[verifier::external_body]
#[verifier::reject_recursive_types(T)]
pub struct ExUnsafeCell<T: ?Sized>(UnsafeCell<T>);

/// A value kept under the secure marker.
pub struct SecureStruct<T> {
    value: T,
}

/// A value kept without the secure marker.
pub struct NonSecure<T> {
    value: T,
}

/// Values that may only hold secure data.
pub trait Secure {}

impl<T> Secure for SecureStruct<T> {}

impl<T: Secure> Secure for &T {}

impl<T: Secure> Secure for &mut T {}

impl<T: Secure, U> Secure for Result<T, U> {}

impl<T: Secure> Secure for Vec<T> {}

impl<T: Secure> Secure for UnsafeCell<T> {}

impl<T: Secure> Secure for RefCell<T> {}

impl<T: Secure> Secure for Rc<T> {}

impl<T: Secure, U: Secure> Secure for (T, U) {}

impl<T: Secure, U: Secure, V: Secure> Secure for (T, U, V) {}

} // verus!
