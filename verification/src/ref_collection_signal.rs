//! Observable ordered collection, borrowed-scoped variant.
//!
//! A [`RefCollectionSignal`] has the same contract as
//! [`RcCollectionSignal`](crate::RcCollectionSignal) but a different
//! ownership story: every signal is borrowed from a reactive scope's arena
//! and lives only as long as that scope, so constructing and pushing take
//! the scope handle explicitly.

use vstd::prelude::*;
use std::rc::Rc;
use crate::reactive::rc_borrow;

verus! {

/// Observable sequence of independently observable elements, borrowed from
/// a reactive scope.
///
/// The view of a collection is the sequence of values its element cells
/// currently hold; insertion order is preserved, and index-based removal
/// shifts the later elements down by one, leaving no gap.
#[verifier::reject_recursive_types(T)]
pub struct RefCollectionSignal<'a, T> {
    inner: &'a sycamore::reactive::Signal<Vec<&'a sycamore::reactive::Signal<T>>>,
    elems: Ghost<Seq<T>>,
}

impl<'a, T> View for RefCollectionSignal<'a, T> {
    type V = Seq<T>;

    closed spec fn view(&self) -> Seq<T> {
        self.elems@
    }
}

impl<'a, T> RefCollectionSignal<'a, T> {
    /// Relies on sycamore's `create_signal`: the fresh outer signal is
    /// allocated from the scope's arena, holds exactly the empty vector and
    /// has no subscribers yet.
    #[verifier::external_body]
    fn empty_inner(
        cx: sycamore::reactive::Scope<'a>,
    ) -> &'a sycamore::reactive::Signal<Vec<&'a sycamore::reactive::Signal<T>>> {
        sycamore::reactive::create_signal(cx, Vec::new())
    }

    /// Create a new, empty collection whose signals live in `cx`.
    fn empty(cx: sycamore::reactive::Scope<'a>) -> (r: RefCollectionSignal<'a, T>)
        ensures
            r@ == Seq::<T>::empty(),
    {
        RefCollectionSignal { inner: Self::empty_inner(cx), elems: Ghost(Seq::empty()) }
    }

    /// Create a new collection holding the given values, in order, with
    /// every signal allocated from the scope's arena.
    pub fn new(cx: sycamore::reactive::Scope<'a>, values: Vec<T>) -> (r: RefCollectionSignal<
        'a,
        T,
    >)
        ensures
            r@ == values@,
    {
        let mut values = values;
        let mut r = Self::empty(cx);
        let ghost all: Seq<T> = values@;
        while values.len() > 0
            invariant
                r@ + values@ == all,
            decreases values.len(),
        {
            let v = values.remove(0);
            r.push_value(cx, v);
        }
        proof {
            assert(r@ =~= all);
        }
        r
    }

    /// Push a new value onto the end of the collection, allocating its cell
    /// from the scope's arena.
    ///
    /// Relies on sycamore's `create_signal` and `Signal::modify`, and on
    /// std's `Vec::push`: a fresh cell holding `value` is appended to the
    /// vector the outer signal holds, and the outer signal's subscribers are
    /// notified; the cells already present are untouched.
    #[verifier::external_body]
    pub fn push_value(&mut self, cx: sycamore::reactive::Scope<'a>, value: T)
        ensures
            final(self)@ == old(self)@.push(value),
    {
        self.inner.modify().push(sycamore::reactive::create_signal(cx, value));
    }

    /// Push the value produced by `f`, invoked synchronously on the scope
    /// handle, so that the caller can allocate a nested value inside the
    /// same arena at push time.
    pub fn push_deferred<F: Fn(sycamore::reactive::Scope<'a>) -> T>(
        &mut self,
        cx: sycamore::reactive::Scope<'a>,
        value: F,
    )
        requires
            call_requires(value, (cx,)),
        ensures
            final(self)@.len() == old(self)@.len() + 1,
            final(self)@.drop_last() == old(self)@,
            call_ensures(value, (cx,), final(self)@.last()),
    {
        let v = value(cx);
        self.push_value(cx, v);
        proof {
            assert(self@.drop_last() =~= old(self)@);
        }
    }

    /// Remove the element at `index`, shifting later elements down by one,
    /// and return the removed value.
    ///
    /// Relies on sycamore's `Signal::modify` and `Signal::get`, and on std's
    /// `Vec::remove`: the cell at `index` leaves the vector the outer signal
    /// holds, later cells shift down by one, and the outer signal's
    /// subscribers are notified.
    #[verifier::external_body]
    pub fn remove(&mut self, index: usize) -> (r: Rc<T>)
        requires
            index < old(self)@.len(),
        ensures
            final(self)@ == old(self)@.remove(index as int),
            r == old(self)@[index as int],
    {
        self.inner.modify().remove(index).get()
    }

    /// Relies on sycamore's `Signal::get` and std's `Vec::len`: the number
    /// of element cells the outer signal currently holds.
    #[verifier::external_body]
    pub fn len(&self) -> (r: usize)
        ensures
            r == self@.len(),
    {
        self.inner.get().len()
    }

    /// Relies on sycamore's `Signal::get`: reads the element cell at
    /// `index`, subscribing the running observer to both the outer signal
    /// and that cell.
    #[verifier::external_body]
    fn read_at(&self, index: usize) -> (r: Rc<T>)
        requires
            index < self@.len(),
        ensures
            r == self@[index as int],
    {
        self.inner.get()[index].get()
    }

    /// Index of the first element whose current value satisfies `f`.
    pub fn position<F: Fn(&T) -> bool>(&self, f: F) -> (r: Option<usize>)
        requires
            forall|i: int| 0 <= i < self@.len() ==> call_requires(f, (&self@[i],)),
        ensures
            match r {
                Some(i) => i < self@.len() && call_ensures(f, (&self@[i as int],), true)
                    && forall|j: int| 0 <= j < i ==> call_ensures(f, (&self@[j],), false),
                None => forall|j: int|
                    0 <= j < self@.len() ==> call_ensures(f, (&self@[j],), false),
            },
    {
        let n = self.len();
        let mut i: usize = 0;
        while i < n
            invariant
                n == self@.len(),
                i <= n,
                forall|k: int| 0 <= k < self@.len() ==> call_requires(f, (&self@[k],)),
                forall|j: int| 0 <= j < i ==> call_ensures(f, (&self@[j],), false),
            decreases n - i,
        {
            let v = self.read_at(i);
            if f(rc_borrow(&v)) {
                return Some(i);
            }
            i += 1;
        }
        None
    }

    /// Value of the first element whose current value satisfies `f`.
    pub fn find<F: Fn(&T) -> bool>(&self, f: F) -> (r: Option<Rc<T>>)
        requires
            forall|i: int| 0 <= i < self@.len() ==> call_requires(f, (&self@[i],)),
        ensures
            match r {
                Some(v) => exists|i: int|
                    0 <= i < self@.len() && v == self@[i] && call_ensures(f, (&self@[i],), true)
                        && forall|j: int| 0 <= j < i ==> call_ensures(f, (&self@[j],), false),
                None => forall|j: int|
                    0 <= j < self@.len() ==> call_ensures(f, (&self@[j],), false),
            },
    {
        match self.position(f) {
            Some(i) => Some(self.read_at(i)),
            None => None,
        }
    }

    /// Remove the first element whose current value satisfies `f`, if any,
    /// and return the removed value; when no element satisfies `f` the
    /// collection is left unchanged.
    pub fn remove_where<F: Fn(&T) -> bool>(&mut self, f: F) -> (r: Option<Rc<T>>)
        requires
            forall|i: int| 0 <= i < old(self)@.len() ==> call_requires(f, (&old(self)@[i],)),
        ensures
            match r {
                Some(v) => exists|i: int|
                    0 <= i < old(self)@.len() && v == old(self)@[i]
                        && call_ensures(f, (&old(self)@[i],), true)
                        && (forall|j: int| 0 <= j < i ==> call_ensures(f, (&old(self)@[j],), false))
                        && final(self)@ == old(self)@.remove(i),
                None => final(self)@ == old(self)@ && forall|j: int|
                    0 <= j < old(self)@.len() ==> call_ensures(f, (&old(self)@[j],), false),
            },
    {
        match self.position(f) {
            Some(index) => Some(self.remove(index)),
            None => None,
        }
    }
}

} // verus!
