//! The observable ordered collections, owned-shared and borrowed-scoped.

use std::rc::Rc;
use sycamore::reactive::create_scope;
use sycamore_state::{RcCollectionSignal, RefCollectionSignal};

#[test]
fn order_is_preserved_by_pushes() {
    let mut c = RcCollectionSignal::new(vec![1, 2]);
    c.push(3);
    c.push(4);
    assert_eq!(c.len(), 4);
    assert_eq!(*c.remove(0), 1);
    assert_eq!(*c.remove(0), 2);
    assert_eq!(*c.remove(0), 3);
    assert_eq!(*c.remove(0), 4);
    assert_eq!(c.len(), 0);
}

#[test]
fn removal_is_dense() {
    let mut c = RcCollectionSignal::new(vec![10, 20, 30, 40]);
    let removed = c.remove(1);
    assert_eq!(*removed, 20);
    assert_eq!(c.len(), 3);
    // the element previously at index 2 now stands at index 1
    assert_eq!(c.position(|a| *a == 30), Some(1));
    assert_eq!(c.position(|a| *a == 10), Some(0));
    assert_eq!(c.position(|a| *a == 40), Some(2));
}

#[test]
fn find_and_position_agree() {
    let c = RcCollectionSignal::new(vec![5, 7, 9, 7]);
    let idx = c.position(|a| *a == 7);
    let val: Option<Rc<i32>> = c.find(|a| *a == 7);
    assert_eq!(idx, Some(1));
    assert_eq!(*val.expect("found item"), 7);
    assert_eq!(c.position(|a| *a == 8), None);
    assert!(c.find(|a| *a == 8).is_none());
}

#[test]
fn remove_where_takes_the_first_match() {
    let mut c = RcCollectionSignal::new(vec![1, 2, 3, 2]);
    let removed = c.remove_where(|a| *a == 2);
    assert_eq!(*removed.expect("found item"), 2);
    assert_eq!(c.len(), 3);
    assert_eq!(c.position(|a| *a == 2), Some(2));
}

#[test]
fn remove_where_on_absence_changes_nothing() {
    let mut c = RcCollectionSignal::new(vec![1, 2, 3]);
    assert!(c.remove_where(|a| *a == 99).is_none());
    assert_eq!(c.len(), 3);
    assert_eq!(*c.remove(0), 1);
    assert_eq!(*c.remove(0), 2);
    assert_eq!(*c.remove(0), 3);
}

#[test]
fn scoped_collection_has_the_same_contract() {
    let _ = create_scope(|cx| {
        let mut c = RefCollectionSignal::new(cx, vec![1, 2]);
        c.push_value(cx, 3);
        c.push_deferred(cx, |_cx| 4);
        assert_eq!(c.len(), 4);
        assert_eq!(c.position(|a| *a == 3), Some(2));
        assert_eq!(*c.find(|a| *a == 4).expect("found item"), 4);
        let removed = c.remove(1);
        assert_eq!(*removed, 2);
        assert_eq!(c.position(|a| *a == 3), Some(1));
        assert!(c.remove_where(|a| *a == 42).is_none());
        assert_eq!(c.len(), 3);
    });
}

#[test]
fn collection_doc_example() {
    let mut collection = RcCollectionSignal::new(vec![1, 2, 3, 4]);
    collection.push(8);
    assert_eq!(collection.len(), 5);
    let value = collection.find(|a| *a == 3);
    value.expect("found item");
    let _removed = collection.remove(2);
    assert_eq!(collection.len(), 4);
    let value = collection.remove_where(|a| *a == 4);
    value.expect("found item");
    assert_eq!(collection.len(), 3);
}
