//! A value behind a lock that keeps an invariant.
//!
//! The lock is vstd's `RwLock`, which keeps its value in a cell that it never
//! drops: a value still held by a `Locked` when the `Locked` goes away is not
//! dropped (its memory is not reclaimed and its destructor does not run).

use vstd::prelude::*;
use vstd::rwlock::{RwLock, RwLockPredicate, WriteHandle};

verus! {

/// A value behind a lock, every value of which satisfies `P`.
pub struct Locked<V, P: RwLockPredicate<V>> {
    lock: RwLock<V, P>,
}

impl<V, P: RwLockPredicate<V>> Locked<V, P> {
    /// The invariant of this lock.
    pub closed spec fn pred(&self) -> P {
        self.lock.pred()
    }

    pub fn new(value: V, Ghost(pred): Ghost<P>) -> (locked: Self)
        requires
            pred.inv(value),
        ensures
            locked.pred() == pred,
    {
        Locked { lock: RwLock::new(value, Ghost(pred)) }
    }

    /// Takes the value out, exclusively, until the handle gives one back.
    pub fn acquire(&self) -> (acquired: (V, WriteHandle<'_, V, P>))
        ensures
            acquired.1.rwlock() == self.lock(),
            acquired.1.rwlock().pred() == self.pred(),
            self.pred().inv(acquired.0),
    {
        self.lock.acquire_write()
    }

    /// The lock itself.
    pub closed spec fn lock(&self) -> RwLock<V, P> {
        self.lock
    }
}

} // verus!
