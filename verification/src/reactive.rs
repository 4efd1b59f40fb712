//! Bindings to sycamore's reactive runtime: the single-cell primitive that
//! every container in this crate is built from.
//!
//! A sycamore signal is a single observable value: reading it subscribes the
//! current observer, writing it notifies the subscribers. The signal types
//! are declared here so that they can appear in fields and signatures, and a
//! small set of trusted wrappers states what each call does to the value a
//! signal holds. Everything else in the crate is verified against these
//! contracts.

use vstd::prelude::*;
use std::rc::Rc;

verus! {

#[verifier::external_type_specification]
#[verifier::external_body]
#[verifier::reject_recursive_types(T)]
pub struct ExSignal<T>(sycamore::reactive::Signal<T>);

#[verifier::external_type_specification]
#[verifier::external_body]
#[verifier::reject_recursive_types(T)]
pub struct ExRcSignal<T>(sycamore::reactive::RcSignal<T>);

#[verifier::external_type_specification]
#[verifier::external_body]
pub struct ExBoundedScope<'a, 'b>(sycamore::reactive::BoundedScope<'a, 'b>);

/// Relies on std's `Rc::as_ref`: borrows the value the `Rc` points to.
#[verifier::external_body]
pub(crate) fn rc_borrow<T>(rc: &Rc<T>) -> (r: &T)
    ensures
        *r == **rc,
{
    rc.as_ref()
}

/// A single observable value, owned uniquely by its holder.
///
/// Wraps an owned-shared sycamore signal together with the value it
/// currently holds; the wrapper is deliberately not cloneable, so the value
/// recorded here cannot be changed behind the holder's back.
#[verifier::reject_recursive_types(T)]
pub(crate) struct ValueCell<T> {
    inner: sycamore::reactive::RcSignal<T>,
    value: Ghost<T>,
}

impl<T> View for ValueCell<T> {
    type V = T;

    closed spec fn view(&self) -> T {
        self.value@
    }
}

/// Relies on sycamore's `create_rc_signal`: the fresh signal holds exactly
/// the given value and has no subscribers yet.
#[verifier::external_body]
pub(crate) fn fresh_signal<T>(value: T) -> sycamore::reactive::RcSignal<T> {
    sycamore::reactive::create_rc_signal(value)
}

impl<T> ValueCell<T> {
    /// Create a cell holding `value`.
    pub(crate) fn new(value: T) -> (r: ValueCell<T>)
        ensures
            r@ == value,
    {
        let ghost v = value;
        ValueCell { inner: fresh_signal(value), value: Ghost(v) }
    }

    /// Relies on sycamore's `Signal::get`: returns the value the signal
    /// currently holds and subscribes the running observer, if any.
    #[verifier::external_body]
    pub(crate) fn get(&self) -> (r: Rc<T>)
        ensures
            r == self@,
    {
        self.inner.get()
    }

}

} // verus!
