//! A reference that is either a borrow out of a `RefCell` or a plain borrow.

use std::cell::Ref;
use std::ops::Deref;
use vstd::prelude::*;

verus! {

#[verifier::external_type_specification]
#[verifier::external_body]
#[verifier::reject_recursive_types(T)]
pub struct ExRef<'b, T: ?Sized>(Ref<'b, T>);

/// `Ref::deref`: the value that the `RefCell` holds while the borrow lasts.
/// Nothing is claimed of that value.
#[verifier::external_body]
fn ref_target<'a, 'b, T>(borrowed: &'a Ref<'b, T>) -> (target: &'a T) {
    borrowed.deref()
}

/// Holds a value of type `T` by one of two kinds of reference.
#[verifier::reject_recursive_types(T)]
pub enum ReferenceHolder<'a, T> {
    Ref(Ref<'a, T>),
    Borrow(&'a T),
}

impl<'a, T> From<&'a T> for ReferenceHolder<'a, T> {
    /// The holder of the plain borrow `input`.
    fn from(input: &'a T) -> (holder: ReferenceHolder<'a, T>) {
        ReferenceHolder::Borrow(input)
    }
}

impl<'a, T> vstd::std_specs::convert::FromSpecImpl<&'a T> for ReferenceHolder<'a, T> {
    open spec fn obeys_from_spec() -> bool {
        true
    }

    open spec fn from_spec(input: &'a T) -> ReferenceHolder<'a, T> {
        ReferenceHolder::Borrow(input)
    }
}

impl<'a, T> From<Ref<'a, T>> for ReferenceHolder<'a, T> {
    /// The holder of the `RefCell` borrow `input`.
    fn from(input: Ref<'a, T>) -> (holder: ReferenceHolder<'a, T>) {
        ReferenceHolder::Ref(input)
    }
}

impl<'a, T> vstd::std_specs::convert::FromSpecImpl<Ref<'a, T>> for ReferenceHolder<'a, T> {
    open spec fn obeys_from_spec() -> bool {
        true
    }

    open spec fn from_spec(input: Ref<'a, T>) -> ReferenceHolder<'a, T> {
        ReferenceHolder::Ref(input)
    }
}

impl<'a, T> Deref for ReferenceHolder<'a, T> {
    type Target = T;

    /// The value that is held. For a plain borrow it is the borrowed value.
    fn deref(&self) -> (target: &T)
        ensures
            self matches ReferenceHolder::Borrow(b) ==> target == b,
    {
        match self {
            ReferenceHolder::Ref(r) => ref_target(r),
            ReferenceHolder::Borrow(b) => b,
        }
    }
}

} // verus!
