//! Reactive state-management primitives built on sycamore's reactive runtime.
//!
//! The crate offers three observable containers — [`RcCollectionSignal`],
//! [`RefCollectionSignal`] and [`RcHashMapSignal`] — together with the
//! derivation logic that, given a plain data-model declaration, computes the
//! shape and constructor plan of its two observable companion types (the
//! owned-shared `Rc...` companion and the borrowed-scoped `Ref...` companion).

use vstd::prelude::*;

pub mod derive;
pub mod models;
pub mod rc_derive;
pub mod ref_derive;
pub mod utils;
mod reactive;

pub mod rc_collection_signal;
pub mod rc_hashmap_signal;
pub mod ref_collection_signal;

pub use rc_collection_signal::RcCollectionSignal;
pub use rc_hashmap_signal::{RcHashMapItem, RcHashMapSignal};
pub use ref_collection_signal::RefCollectionSignal;

verus! {

/// Marker trait carried by derived state companions.
pub trait State {

}

} // verus!
