//! The count of live producers of a fifo, shared by its handles.

use vstd::prelude::*;
use std::sync::atomic::{AtomicUsize, Ordering};

verus! {

/// A count of one.
pub fn new_count() -> AtomicUsize {
    AtomicUsize::new(1)
}

/// Counts one more producer.
pub fn increment(count: &AtomicUsize) {
    count.fetch_add(1, Ordering::SeqCst);
}

/// Whether no producer is left.
pub fn is_zero(count: &AtomicUsize) -> bool {
    count.load(Ordering::SeqCst) == 0
}

} // verus!

verus! {

/// A count of zero.
pub fn new_zero() -> AtomicUsize {
    AtomicUsize::new(0)
}

/// The current count.
pub fn current(count: &AtomicUsize) -> usize {
    count.load(Ordering::SeqCst)
}

} // verus!
