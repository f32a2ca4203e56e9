//! # One shot SPSC channels
//!
//! Very simple single-use channels, built on [`Slot<T>`], so the item is boxed.
//! Most useful for the transfer of return values in the context of remote
//! procedure calling, as "reply pipes".

use vstd::prelude::*;
use std::sync::Arc;
use std::task::Waker;

use crate::slot::Slot;
use crate::task::{Polled, wake, take_outcome};

verus! {

struct OneShot<T> {
    payload: Slot<T>,
    consumer_waker: Slot<Waker>,
}

/// The writing side of the oneshot channel
pub struct Sender<T> {
    inner: Arc<OneShot<T>>,
}

/// The reading side of the oneshot channel
pub struct Receiver<T> {
    inner: Arc<OneShot<T>>,
}

impl<T> Receiver<T> {
    /// Whether this receiver reads what `sender` sends.
    pub closed spec fn paired_with(&self, sender: &Sender<T>) -> bool {
        self.inner == sender.inner
    }
}

/// Create a new oneshot channel, returning a sender/receiver pair
pub fn new<T>() -> (channel: (Sender<T>, Receiver<T>))
    ensures
        channel.1.paired_with(&channel.0),
{
    let inner = OneShot { payload: Slot::none(), consumer_waker: Slot::none() };
    let inner = Arc::new(inner);
    let sender = Sender { inner: inner.clone() };
    let receiver = Receiver { inner };
    (sender, receiver)
}

impl<T> Sender<T> {
    /// Sends a value into this channel, waking up the receiving side.
    pub fn send(self, item: Box<T>) {
        self.inner.payload.insert(item);
        if let Some(waker_box) = self.inner.consumer_waker.try_take(false) {
            wake(*waker_box);
        }
    }
}

impl<T> Receiver<T> {
    /// One polling step: takes the item if it was sent; otherwise leaves
    /// `waker` for the sender, and looks again. What it returns is
    /// [`take_outcome`] of what the two takes got.
    pub fn poll_with(&self, waker: Waker) -> (polled: Polled<Box<T>>)
        ensures
            exists|first: Option<Box<T>>, second: Option<Box<T>>| #[trigger] take_outcome(first, second) == polled,
    {
        if let Some(item) = self.inner.payload.try_take(false) {
            assert(take_outcome(Some(item), None) == Polled::Ready(item));
            return Polled::Ready(item);
        }
        self.inner.consumer_waker.insert(Box::new(waker));
        let second = self.inner.payload.try_take(false);
        let polled = match second {
            Some(item) => Polled::Ready(item),
            None => Polled::Pending,
        };
        assert(take_outcome(None, second) == polled);
        polled
    }
}

} // verus!
