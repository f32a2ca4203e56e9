use vstd::prelude::*;
use std::task::Waker;

use super::api::Consumer;
use super::storage::{Storage, TmpArray, filled};
use super::queue::pull_count;
use crate::task::{Polled, poll_outcome, got_count, outcome_after_wait};

verus! {

/// An error type returned when the channel is closed
///
/// A channel is considered closed if it has no items and no producers.
#[derive(Copy, Clone, Debug, PartialEq, Eq)]
pub struct Closed;

/// Storage that a receive fills in place: any storage.
pub trait FillStorage<T>: Storage<T> {
}

/// Storage that a receive creates empty.
pub trait RecvStorage<T>: FillStorage<T> {
    fn empty() -> Self;
}

impl<T, S: Storage<T>> FillStorage<T> for S {
}

impl<T> RecvStorage<T> for Option<T> {
    fn empty() -> (storage: Self)
        ensures
            storage is None,
    {
        None
    }
}

impl<const N: usize, T> RecvStorage<T> for TmpArray<N, T> {
    fn empty() -> (storage: Self)
        ensures
            storage.contents() == Seq::new(N as nat, |i: int| None::<T>),
    {
        TmpArray::new()
    }
}

/// The waker box to leave in a consumer's waker slot, given whether no
/// producer was left: none then; otherwise one holding `waker`, reusing the
/// box of a previous waker when given one.
pub fn waker_to_insert(no_producers: bool, waker_box: Option<Box<Waker>>, waker: Waker) -> (boxed: Option<Box<Waker>>)
    ensures
        no_producers <==> boxed is None,
        boxed matches Some(b) ==> *b == waker,
{
    if no_producers {
        return None;
    }
    match waker_box {
        Some(mut b) => {
            *b = waker;
            Some(b)
        },
        None => Some(Box::new(waker)),
    }
}

/// Leaves `waker` in the consumer's waker slot, unless `no_producers` (no
/// producer was left at the caller's check), reusing the box of a previous
/// waker if given one, as [`waker_to_insert`] decides. Returns whether no
/// producer is left: at once if none was, otherwise by checking again after
/// the waker is in.
pub fn set_waker_check_closed<T>(
    no_producers: bool,
    waker_box: Option<Box<Waker>>,
    waker: Waker,
    consumer: &Consumer<T>,
) -> (closed: bool)
    ensures
        no_producers ==> closed,
{
    match waker_to_insert(no_producers, waker_box, waker) {
        None => true,
        Some(boxed) => {
            consumer.insert_waker(boxed);
            consumer.no_producers()
        },
    }
}

/// Future for Fifo consumption, into storage created empty.
pub struct Recv<'a, S, T> {
    consumer: &'a Consumer<T>,
    storage: Option<S>,
    waker_box: Option<Box<Waker>>,
}

/// Future for Fifo consumption of one item.
pub type RecvOne<'a, T> = Recv<'a, Option<T>, T>;

/// Future for Fifo consumption of `N` items.
pub type RecvArray<'a, const N: usize, T> = Recv<'a, TmpArray<N, T>, T>;

impl<'a, S: RecvStorage<T>, T> Recv<'a, S, T> {
    /// Whether a storage is kept for the next polling step.
    pub closed spec fn holds_storage(&self) -> bool {
        self.storage is Some
    }

    /// The consumer this receive reads from.
    pub closed spec fn consumer_handle(&self) -> Consumer<T> {
        *self.consumer
    }

    /// One polling step: tries to receive; otherwise leaves `waker` in the
    /// consumer's slot and tries again, and reports the fifo closed if no
    /// producer was left. What it returns is [`poll_outcome`] of what the two
    /// tries got and of the closed check. The storage is kept for the next
    /// step unless the receive succeeded.
    pub fn poll_with(&mut self, waker: Waker) -> (polled: Polled<Result<S::Output, Closed>>)
        ensures
            exists|first: Option<S::Output>, closed: bool, second: Option<S::Output>|
                #[trigger] poll_outcome(first, closed, second) == polled,
            final(self).consumer_handle() == old(self).consumer_handle(),
            !(polled matches Polled::Ready(Ok(_))) ==> final(self).holds_storage(),
            polled matches Polled::Ready(Ok(_)) ==> !final(self).holds_storage(),
    {
        let taken = match self.storage.take() {
            Some(s) => s,
            None => S::empty(),
        };
        let taken = match self.consumer.try_recv_into(taken) {
            Ok(result) => {
                assert(poll_outcome(Some(result), false, None) == Polled::<Result<S::Output, Closed>>::Ready(Ok(result)));
                return Polled::Ready(Ok(result));
            },
            Err(s) => s,
        };
        let waker_box = self.waker_box.take();
        let closed = set_waker_check_closed(self.consumer.no_producers(), waker_box, waker, self.consumer);
        let second = match self.consumer.try_recv_into(taken) {
            Ok(result) => {
                self.waker_box = self.consumer.take_waker();
                Some(result)
            },
            Err(s) => {
                self.storage = Some(s);
                None
            },
        };
        let polled = outcome_after_wait(closed, second);
        assert(poll_outcome(None, closed, second) == polled);
        polled
    }
}

/// Future for Fifo consumption, into storage filled in place.
pub struct Fill<'a, S, T> {
    consumer: &'a Consumer<T>,
    storage: S,
    waker_box: Option<Box<Waker>>,
}

impl<'a, S: FillStorage<T>, T> Fill<'a, S, T> {
    /// The storage being filled.
    pub closed spec fn storage_view(&self) -> S {
        self.storage
    }

    /// The consumer this receive reads from.
    pub closed spec fn consumer_handle(&self) -> Consumer<T> {
        *self.consumer
    }

    /// The storage being filled.
    pub fn into_storage(self) -> (storage: S)
        ensures
            storage == self.storage_view(),
    {
        self.storage
    }

    /// One polling step: tries to receive; otherwise leaves `waker` in the
    /// consumer's slot and tries again, and reports the fifo closed if no
    /// producer was left and nothing came. Returns how many items went in; the storage is left as it
    /// was unless some did.
    pub fn poll_with(&mut self, waker: Waker) -> (polled: Polled<Result<usize, Closed>>)
        ensures
            exists|first: usize, closed: bool, second: usize|
                #[trigger] poll_outcome(got_count(first), closed, got_count(second)) == polled,
            final(self).consumer_handle() == old(self).consumer_handle(),
            polled matches Polled::Ready(Ok(n)) ==> n > 0 && exists|items: Seq<T>|
                items.len() == n && #[trigger] filled(old(self).storage_view(), items, final(self).storage_view()),
            !(polled matches Polled::Ready(Ok(_))) ==> final(self).storage_view() == old(self).storage_view(),
    {
        let ghost start = self.storage;
        let len = self.consumer.pull_into(&mut self.storage);
        let ghost items = choose|items: Seq<T>|
            exists|available: nat|
                len == items.len() && items.len() == pull_count(available, start.lower(), start.upper())
                    && #[trigger] filled(start, items, self.storage);
        assert(items.len() == len && filled(start, items, self.storage));
        if len != 0 {
            assert(filled(old(self).storage_view(), items, self.storage_view()));
            assert(poll_outcome(got_count(len), false, got_count(0)) == Polled::<Result<usize, Closed>>::Ready(Ok(len)));
            return Polled::Ready(Ok(len));
        }
        let waker_box = self.waker_box.take();
        let closed = set_waker_check_closed(self.consumer.no_producers(), waker_box, waker, self.consumer);
        let ghost start = self.storage;
        let len2 = self.consumer.pull_into(&mut self.storage);
        let ghost items = choose|items: Seq<T>|
            exists|available: nat|
                len2 == items.len() && items.len() == pull_count(available, start.lower(), start.upper())
                    && #[trigger] filled(start, items, self.storage);
        assert(items.len() == len2 && filled(start, items, self.storage));
        let second = if len2 == 0 {
            None
        } else {
            self.waker_box = self.consumer.take_waker();
            Some(len2)
        };
        assert(len2 != 0 ==> filled(old(self).storage_view(), items, self.storage_view()));
        let polled = outcome_after_wait(closed, second);
        assert(poll_outcome(got_count(len), closed, got_count(len2)) == polled);
        polled
    }
}

/// Future for Fifo consumption of as many items as possible, into a vector.
pub type FillMany<'a, T> = Fill<'a, &'a mut Vec<T>, T>;

/// Future for Fifo consumption of exactly as many items as a slice holds.
pub type FillExact<'a, T> = Fill<'a, &'a mut [T], T>;

/// Asynchronous equivalents of the `try_recv_*` methods.
impl<T> Consumer<T> {
    /// Receives one item, asynchronously.
    pub fn recv(&self) -> (recv: RecvOne<'_, T>)
        ensures
            recv.consumer_handle() == *self,
            !recv.holds_storage(),
    {
        self.into_recv()
    }

    /// Receives as many items as possible, into a vector, asynchronously.
    pub fn recv_many<'a>(&'a self, vec: &'a mut Vec<T>) -> (fill: FillMany<'a, T>)
        ensures
            fill.consumer_handle() == *self,
            fill.storage_view()@ == old(vec)@,
    {
        self.into_fill(vec)
    }

    /// Receives exactly `slice.len()` items into a slice, asynchronously.
    pub fn recv_exact<'a>(&'a self, slice: &'a mut [T]) -> (fill: FillExact<'a, T>)
        ensures
            fill.consumer_handle() == *self,
            fill.storage_view()@ == old(slice)@,
    {
        self.into_fill(slice)
    }

    /// Receives exactly `N` items into an array, asynchronously.
    pub fn recv_array<const N: usize>(&self) -> (recv: RecvArray<'_, N, T>)
        ensures
            recv.consumer_handle() == *self,
            !recv.holds_storage(),
    {
        self.into_recv()
    }

    /// Receives some items into custom storage, asynchronously.
    pub fn into_recv<S: RecvStorage<T>>(&self) -> (recv: Recv<'_, S, T>)
        ensures
            recv.consumer_handle() == *self,
            !recv.holds_storage(),
    {
        Recv { consumer: self, storage: None, waker_box: None }
    }

    /// Receives some items into custom storage, asynchronously.
    pub fn into_fill<S: FillStorage<T>>(&self, storage: S) -> (fill: Fill<'_, S, T>)
        ensures
            fill.consumer_handle() == *self,
            fill.storage_view() == storage,
    {
        Fill { consumer: self, storage, waker_box: None }
    }
}

} // verus!
