//! Observable ordered collection, owned-shared variant.
//!
//! An [`RcCollectionSignal`] is an observable sequence whose elements are
//! themselves independently observable: every element sits in its own
//! owned-shared signal, and the sequence of element signals sits in one
//! outer signal, so observers of the sequence are notified on `push` and
//! `remove` without touching the untouched elements.

use vstd::prelude::*;
use std::rc::Rc;
use crate::reactive::rc_borrow;

verus! {

/// Observable sequence of independently observable elements, owned-shared.
///
/// The view of a collection is the sequence of values its element cells
/// currently hold; insertion order is preserved, and index-based removal
/// shifts the later elements down by one, leaving no gap.
#[verifier::reject_recursive_types(T)]
pub struct RcCollectionSignal<T> {
    inner: sycamore::reactive::RcSignal<Vec<sycamore::reactive::RcSignal<T>>>,
    elems: Ghost<Seq<T>>,
}

impl<T> View for RcCollectionSignal<T> {
    type V = Seq<T>;

    closed spec fn view(&self) -> Seq<T> {
        self.elems@
    }
}

impl<T> RcCollectionSignal<T> {
    /// Relies on sycamore's `create_rc_signal`: the fresh outer signal holds
    /// exactly the empty vector and has no subscribers yet.
    #[verifier::external_body]
    fn empty_inner() -> sycamore::reactive::RcSignal<Vec<sycamore::reactive::RcSignal<T>>> {
        sycamore::reactive::create_rc_signal(Vec::new())
    }

    /// Create a new, empty collection.
    fn empty() -> (r: RcCollectionSignal<T>)
        ensures
            r@ == Seq::<T>::empty(),
    {
        RcCollectionSignal { inner: Self::empty_inner(), elems: Ghost(Seq::empty()) }
    }

    /// Create a new collection holding the given values, in order.
    pub fn new(values: Vec<T>) -> (r: RcCollectionSignal<T>)
        ensures
            r@ == values@,
    {
        let mut values = values;
        let mut r = Self::empty();
        let ghost all: Seq<T> = values@;
        while values.len() > 0
            invariant
                r@ + values@ == all,
            decreases values.len(),
        {
            let v = values.remove(0);
            r.push(v);
        }
        proof {
            assert(r@ =~= all);
        }
        r
    }

    /// Push a new value onto the end of the collection.
    ///
    /// Relies on sycamore's `create_rc_signal` and `Signal::modify`, and on
    /// std's `Vec::push`: a fresh cell holding `value` is appended to the
    /// vector the outer signal holds, and the outer signal's subscribers are
    /// notified; the cells already present are untouched.
    #[verifier::external_body]
    pub fn push(&mut self, value: T)
        ensures
            final(self)@ == old(self)@.push(value),
    {
        self.inner.modify().push(sycamore::reactive::create_rc_signal(value));
    }

    /// Remove the element at `index`, shifting later elements down by one,
    /// and return the removed value.
    ///
    /// Relies on sycamore's `Signal::modify` and `Signal::get`, and on std's
    /// `Vec::remove`: the cell at `index` leaves the vector the outer signal
    /// holds, later cells shift down by one, and the outer signal's
    /// subscribers are notified.
    #[verifier::external_body]
    pub fn remove(&mut self, index: usize) -> (r: Rc<T>)
        requires
            index < old(self)@.len(),
        ensures
            final(self)@ == old(self)@.remove(index as int),
            r == old(self)@[index as int],
    {
        self.inner.modify().remove(index).get()
    }

    /// Relies on sycamore's `Signal::get` and std's `Vec::len`: the number
    /// of element cells the outer signal currently holds.
    #[verifier::external_body]
    pub fn len(&self) -> (r: usize)
        ensures
            r == self@.len(),
    {
        self.inner.get().len()
    }

    /// Relies on sycamore's `Signal::get`: reads the element cell at
    /// `index`, subscribing the running observer to both the outer signal
    /// and that cell.
    #[verifier::external_body]
    fn read_at(&self, index: usize) -> (r: Rc<T>)
        requires
            index < self@.len(),
        ensures
            r == self@[index as int],
    {
        self.inner.get()[index].get()
    }

    /// Index of the first element whose current value satisfies `f`.
    pub fn position<F: Fn(&T) -> bool>(&self, f: F) -> (r: Option<usize>)
        requires
            forall|i: int| 0 <= i < self@.len() ==> call_requires(f, (&self@[i],)),
        ensures
            match r {
                Some(i) => i < self@.len() && call_ensures(f, (&self@[i as int],), true)
                    && forall|j: int| 0 <= j < i ==> call_ensures(f, (&self@[j],), false),
                None => forall|j: int|
                    0 <= j < self@.len() ==> call_ensures(f, (&self@[j],), false),
            },
    {
        let n = self.len();
        let mut i: usize = 0;
        while i < n
            invariant
                n == self@.len(),
                i <= n,
                forall|k: int| 0 <= k < self@.len() ==> call_requires(f, (&self@[k],)),
                forall|j: int| 0 <= j < i ==> call_ensures(f, (&self@[j],), false),
            decreases n - i,
        {
            let v = self.read_at(i);
            if f(rc_borrow(&v)) {
                return Some(i);
            }
            i += 1;
        }
        None
    }

    /// Value of the first element whose current value satisfies `f`.
    pub fn find<F: Fn(&T) -> bool>(&self, f: F) -> (r: Option<Rc<T>>)
        requires
            forall|i: int| 0 <= i < self@.len() ==> call_requires(f, (&self@[i],)),
        ensures
            match r {
                Some(v) => exists|i: int|
                    0 <= i < self@.len() && v == self@[i] && call_ensures(f, (&self@[i],), true)
                        && forall|j: int| 0 <= j < i ==> call_ensures(f, (&self@[j],), false),
                None => forall|j: int|
                    0 <= j < self@.len() ==> call_ensures(f, (&self@[j],), false),
            },
    {
        match self.position(f) {
            Some(i) => Some(self.read_at(i)),
            None => None,
        }
    }

    /// Remove the first element whose current value satisfies `f`, if any,
    /// and return the removed value; when no element satisfies `f` the
    /// collection is left unchanged.
    pub fn remove_where<F: Fn(&T) -> bool>(&mut self, f: F) -> (r: Option<Rc<T>>)
        requires
            forall|i: int| 0 <= i < old(self)@.len() ==> call_requires(f, (&old(self)@[i],)),
        ensures
            match r {
                Some(v) => exists|i: int|
                    0 <= i < old(self)@.len() && v == old(self)@[i]
                        && call_ensures(f, (&old(self)@[i],), true)
                        && (forall|j: int| 0 <= j < i ==> call_ensures(f, (&old(self)@[j],), false))
                        && final(self)@ == old(self)@.remove(i),
                None => final(self)@ == old(self)@ && forall|j: int|
                    0 <= j < old(self)@.len() ==> call_ensures(f, (&old(self)@[j],), false),
            },
    {
        match self.position(f) {
            Some(index) => Some(self.remove(index)),
            None => None,
        }
    }
}


/// The contents of a collection after a run of `push` calls with the
/// given values, per `push`'s contract.
pub open spec fn pushed_all<T>(s: Seq<T>, values: Seq<T>) -> Seq<T>
    decreases values.len(),
{
    if values.len() == 0 {
        s
    } else {
        pushed_all(s, values.drop_last()).push(values.last())
    }
}

/// Order preservation: for any run of `push` calls with no removals,
/// the collection holds its initial contents followed by the pushed
/// values in insertion order; started empty, iteration order equals
/// insertion order.
pub proof fn lemma_order_preservation<T>(s: Seq<T>, values: Seq<T>)
    ensures
        pushed_all(s, values) == s + values,
        pushed_all(Seq::<T>::empty(), values) == values,
    decreases values.len(),
{
    if values.len() == 0 {
        assert(pushed_all(s, values) =~= s + values);
        assert(pushed_all(Seq::<T>::empty(), values) =~= values);
    } else {
        lemma_order_preservation(s, values.drop_last());
        assert(pushed_all(s, values) =~= s + values);
        assert(pushed_all(Seq::<T>::empty(), values) =~= values);
    }
}

/// Dense removal: after `remove(i)`, the element previously at `i + 1`
/// stands at `i`, everything before `i` is unmoved, and the length
/// drops by exactly one.
pub proof fn lemma_dense_removal<T>(s: Seq<T>, i: int)
    requires
        0 <= i < s.len(),
    ensures
        s.remove(i).len() == s.len() - 1,
        forall|j: int| i <= j < s.len() - 1 ==> s.remove(i)[j] == s[j + 1],
        forall|j: int| 0 <= j < i ==> s.remove(i)[j] == s[j],
{
}

/// Predicate consistency: any results admitted by `find`'s and
/// `position`'s contracts over the same contents and a deterministic
/// predicate agree — `find` returns a value exactly when `position`
/// returns an index, and the value is the element at that index.
pub proof fn lemma_predicate_consistency<T, F: Fn(&T) -> bool>(
    s: Seq<T>,
    f: F,
    position_result: Option<usize>,
    find_result: Option<T>,
)
    requires
        forall|x: T, b1: bool, b2: bool|
            call_ensures(f, (&x,), b1) && call_ensures(f, (&x,), b2) ==> b1 == b2,
        match position_result {
            Some(i) => i < s.len() && call_ensures(f, (&s[i as int],), true) && forall|j: int|
                0 <= j < i ==> call_ensures(f, (&s[j],), false),
            None => forall|j: int| 0 <= j < s.len() ==> call_ensures(f, (&s[j],), false),
        },
        match find_result {
            Some(v) => exists|i: int|
                0 <= i < s.len() && v == s[i] && call_ensures(f, (&s[i],), true) && (forall|j: int|
                    0 <= j < i ==> call_ensures(f, (&s[j],), false)),
            None => forall|j: int| 0 <= j < s.len() ==> call_ensures(f, (&s[j],), false),
        },
    ensures
        position_result is Some <==> find_result is Some,
        match (position_result, find_result) {
            (Some(i), Some(v)) => v == s[i as int],
            _ => true,
        },
{
    match (position_result, find_result) {
        (Some(i), Some(v)) => {
            let i2 = choose|i2: int|
                0 <= i2 < s.len() && v == s[i2] && call_ensures(f, (&s[i2],), true) && (
                forall|j: int| 0 <= j < i2 ==> call_ensures(f, (&s[j],), false));
            assert(0 <= i2 < s.len() && v == s[i2] && call_ensures(f, (&s[i2],), true) && (
            forall|j: int| 0 <= j < i2 ==> call_ensures(f, (&s[j],), false)));
            if i2 < i {
                assert(call_ensures(f, (&s[i2],), true));
                assert(call_ensures(f, (&s[i2],), false));
                assert(false);
            }
            if i < i2 {
                assert(call_ensures(f, (&s[i as int],), true));
                assert(call_ensures(f, (&s[i as int],), false));
                assert(false);
            }
            assert(i2 == i);
            assert(v == s[i as int]);
        },
        (Some(i), None) => {
            assert(call_ensures(f, (&s[i as int],), true));
            assert(call_ensures(f, (&s[i as int],), false));
            assert(false);
        },
        (None, Some(v)) => {
            let i2 = choose|i2: int|
                0 <= i2 < s.len() && v == s[i2] && call_ensures(f, (&s[i2],), true) && (
                forall|j: int| 0 <= j < i2 ==> call_ensures(f, (&s[j],), false));
            assert(call_ensures(f, (&s[i2],), true));
            assert(call_ensures(f, (&s[i2],), false));
            assert(false);
        },
        (None, None) => {
        },
    }
}

} // verus!
