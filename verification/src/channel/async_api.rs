use vstd::prelude::*;
use std::ops::Deref;

use crate::fifo::api::{BlockSize, Producer, Consumer};
use crate::fifo::storage::TmpArray;
use super::subscription::Subscribers;
use super::future::{RecvStorage, FillStorage, Recv, Fill, FillMany, FillExact};

verus! {

/// Asynchronous FIFO sender
pub struct Sender<T> {
    producer: Producer<T>,
    subscribers: Subscribers,
}

impl<T> Sender<T> {
    /// Whether both senders feed the same channel.
    pub closed spec fn same_channel(&self, other: &Sender<T>) -> bool {
        self.producer.same_fifo(&other.producer) && self.subscribers == other.subscribers
    }
}

impl<T> Clone for Sender<T> {
    fn clone(&self) -> (copy: Self)
        ensures
            copy.same_channel(self),
    {
        Sender { producer: self.producer.clone(), subscribers: self.subscribers.clone() }
    }
}

impl<T> Sender<T> {
    /// Sends a batch of items in the channel, atomically, then wakes up the
    /// waiting receivers. Returns how many were woken up.
    pub fn send_iter(&self, items: Vec<T>) -> usize {
        self.producer.send_iter(items);
        self.subscribers.notify_all()
    }

    /// Sends one item through the channel.
    pub fn send(&self, item: T) -> usize {
        let mut items: Vec<T> = Vec::new();
        items.push(item);
        self.send_iter(items)
    }
}

/// Asynchronous FIFO receiver
pub struct Receiver<T> {
    consumer: Consumer<T>,
    subscribers: Subscribers,
    last_wake_count: Option<usize>,
}

impl<T> Clone for Receiver<T> {
    fn clone(&self) -> (copy: Self)
        ensures
            forall|s: &Sender<T>| self.fed_by(s) ==> #[trigger] copy.fed_by(s),
    {
        Receiver {
            consumer: self.consumer.clone(),
            subscribers: self.subscribers.clone(),
            last_wake_count: self.last_wake_count,
        }
    }
}

impl<T> Deref for Receiver<T> {
    type Target = Consumer<T>;

    fn deref(&self) -> (consumer: &Consumer<T>)
        ensures
            *consumer == self.consumer_handle(),
    {
        &self.consumer
    }
}

impl<T> Receiver<T> {
    /// Whether this receiver reads the channel that `sender` feeds.
    pub closed spec fn fed_by(&self, sender: &Sender<T>) -> bool {
        self.consumer.fed_by(&sender.producer) && self.subscribers == sender.subscribers
    }

    /// The non-blocking handle inside this receiver.
    pub closed spec fn consumer_handle(&self) -> Consumer<T> {
        self.consumer
    }

    /// The subscribers of this receiver's channel.
    pub closed spec fn subscribers_handle(&self) -> Subscribers {
        self.subscribers
    }

    /// The non-blocking handle of this receiver.
    pub fn consumer(&self) -> (consumer: &Consumer<T>)
        ensures
            *consumer == self.consumer_handle(),
    {
        &self.consumer
    }

    pub(crate) fn subscribers(&self) -> (subscribers: &Subscribers)
        ensures
            *subscribers == self.subscribers_handle(),
    {
        &self.subscribers
    }

    /// Notification count at the last subscription of this receiver.
    pub closed spec fn last_wake_count(&self) -> Option<usize> {
        self.last_wake_count
    }

    pub(crate) fn take_last_wake_count(&mut self) -> (last: Option<usize>)
        ensures
            last == old(self).last_wake_count(),
            final(self).last_wake_count() is None,
            final(self).consumer_handle() == old(self).consumer_handle(),
            final(self).subscribers_handle() == old(self).subscribers_handle(),
    {
        self.last_wake_count.take()
    }

    pub(crate) fn set_last_wake_count(&mut self, count: usize)
        ensures
            final(self).last_wake_count() == Some(count),
            final(self).consumer_handle() == old(self).consumer_handle(),
            final(self).subscribers_handle() == old(self).subscribers_handle(),
    {
        self.last_wake_count = Some(count);
    }

    /// Returns true if all senders have been dropped.
    pub fn no_senders(&self) -> bool {
        self.consumer.no_producers()
    }

    /// Receives one item, asynchronously.
    pub fn recv(&mut self) -> (recv: Recv<'_, Option<T>, T>)
        ensures
            recv.receiver_handle() == *old(self),
            !recv.holds_storage(),
    {
        self.into_recv()
    }

    /// Receives as many items as possible, into a vector, asynchronously.
    pub fn recv_many<'a>(&'a mut self, vec: &'a mut Vec<T>) -> (fill: FillMany<'a, T>)
        ensures
            fill.receiver_handle() == *old(self),
            fill.storage_view()@ == old(vec)@,
    {
        self.into_fill(vec)
    }

    /// Receives exactly `slice.len()` items into a slice, asynchronously.
    pub fn recv_exact<'a>(&'a mut self, slice: &'a mut [T]) -> (fill: FillExact<'a, T>)
        ensures
            fill.receiver_handle() == *old(self),
            fill.storage_view()@ == old(slice)@,
    {
        self.into_fill(slice)
    }

    /// Receives exactly `N` items into an array, asynchronously.
    pub fn recv_array<const N: usize>(&mut self) -> (recv: Recv<'_, TmpArray<N, T>, T>)
        ensures
            recv.receiver_handle() == *old(self),
            !recv.holds_storage(),
    {
        self.into_recv()
    }

    /// Receives some items into custom storage, asynchronously.
    pub fn into_recv<S: RecvStorage<T>>(&mut self) -> (recv: Recv<'_, S, T>)
        ensures
            recv.receiver_handle() == *old(self),
            !recv.holds_storage(),
    {
        Recv::new(self)
    }

    /// Receives some items into custom storage, asynchronously.
    pub fn into_fill<S: FillStorage<T>>(&mut self, storage: S) -> (fill: Fill<'_, S, T>)
        ensures
            fill.receiver_handle() == *old(self),
            fill.storage_view() == storage,
    {
        Fill::new(self, storage)
    }
}

impl<const L: usize, const F: usize> BlockSize<L, F> {
    /// Creates a channel with this block size.
    pub fn channel<T>() -> (channel: (Sender<T>, Receiver<T>))
        requires
            Self::valid(),
        ensures
            channel.1.fed_by(&channel.0),
    {
        let (producer, consumer) = Self::non_blocking();
        let subscribers = Subscribers::new();
        let sender = Sender { producer, subscribers: subscribers.clone() };
        let receiver = Receiver { consumer, subscribers, last_wake_count: None };
        (sender, receiver)
    }
}

} // verus!
