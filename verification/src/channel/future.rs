use vstd::prelude::*;
use std::task::Waker;

use crate::fifo::storage::{TmpArray, filled};
use crate::fifo::queue::pull_count;
pub use crate::fifo::async_api::{Closed, FillStorage, RecvStorage};
use crate::task::{Polled, poll_outcome, got_count, outcome_after_wait};
use super::async_api::Receiver;

verus! {

/// Subscribes `waker` to the notifications of the receiver's channel, unless
/// `no_senders` (no sender was left at the caller's check), in which case it
/// returns at once. Otherwise the receiver records the notification count
/// read on subscribing, and the result is whether no sender is left, checked
/// again after subscribing.
pub fn set_waker_check_no_prod<T>(no_senders: bool, waker: Waker, receiver: &mut Receiver<T>) -> (closed: bool)
    ensures
        no_senders ==> closed && *final(receiver) == *old(receiver),
        !no_senders ==> final(receiver).last_wake_count() is Some,
        final(receiver).consumer_handle() == old(receiver).consumer_handle(),
        final(receiver).subscribers_handle() == old(receiver).subscribers_handle(),
{
    if no_senders {
        return true;
    }
    let last_wc = receiver.take_last_wake_count();
    let current_wc = receiver.subscribers().subscribe(waker, last_wc);
    receiver.set_last_wake_count(current_wc);
    receiver.no_senders()
}

/// Receive of storage created empty.
pub struct Recv<'a, S, T> {
    receiver: &'a mut Receiver<T>,
    storage: Option<S>,
}

/// Receive of one item.
pub type RecvOne<'a, T> = Recv<'a, Option<T>, T>;

/// Receive of `N` items.
pub type RecvArray<'a, const N: usize, T> = Recv<'a, TmpArray<N, T>, T>;

impl<'a, S: RecvStorage<T>, T> Recv<'a, S, T> {
    /// Whether a storage is kept for the next polling step.
    pub closed spec fn holds_storage(&self) -> bool {
        self.storage is Some
    }

    /// The receiver this receive reads from.
    pub closed spec fn receiver_handle(&self) -> Receiver<T> {
        *self.receiver
    }

    pub fn new(receiver: &'a mut Receiver<T>) -> (recv: Self)
        ensures
            recv.receiver_handle() == *old(receiver),
            !recv.holds_storage(),
    {
        Recv { receiver, storage: None }
    }

    /// One polling step: tries to receive; otherwise subscribes `waker` and
    /// tries again, and reports the channel closed if no sender was left.
    /// What it returns is [`poll_outcome`] of what the two tries got and of
    /// the closed check. The storage is kept for the next step unless the
    /// receive succeeded.
    pub fn poll_with(&mut self, waker: Waker) -> (polled: Polled<Result<S::Output, Closed>>)
        ensures
            exists|first: Option<S::Output>, closed: bool, second: Option<S::Output>|
                #[trigger] poll_outcome(first, closed, second) == polled,
            !(polled matches Polled::Ready(Ok(_))) ==> final(self).holds_storage(),
            polled matches Polled::Ready(Ok(_)) ==> !final(self).holds_storage(),
    {
        let taken = match self.storage.take() {
            Some(s) => s,
            None => S::empty(),
        };
        let taken = match self.receiver.consumer().try_recv_into(taken) {
            Ok(result) => {
                assert(poll_outcome(Some(result), false, None) == Polled::<Result<S::Output, Closed>>::Ready(Ok(result)));
                return Polled::Ready(Ok(result));
            },
            Err(s) => s,
        };
        let no_senders = self.receiver.no_senders();
        let closed = set_waker_check_no_prod(no_senders, waker, self.receiver);
        let second = match self.receiver.consumer().try_recv_into(taken) {
            Ok(result) => Some(result),
            Err(s) => {
                self.storage = Some(s);
                None
            },
        };
        let polled = outcome_after_wait(closed, second);
        assert(poll_outcome(None, closed, second) == polled);
        polled
    }
}

/// Receive into a storage filled in place.
pub struct Fill<'a, S, T> {
    receiver: &'a mut Receiver<T>,
    storage: S,
}

impl<'a, S: FillStorage<T>, T> Fill<'a, S, T> {
    /// The storage being filled.
    pub closed spec fn storage_view(&self) -> S {
        self.storage
    }

    /// The receiver this receive reads from.
    pub closed spec fn receiver_handle(&self) -> Receiver<T> {
        *self.receiver
    }

    pub fn new(receiver: &'a mut Receiver<T>, storage: S) -> (fill: Self)
        ensures
            fill.receiver_handle() == *old(receiver),
            fill.storage_view() == storage,
    {
        Fill { receiver, storage }
    }

    /// The storage being filled.
    pub fn into_storage(self) -> (storage: S)
        ensures
            storage == self.storage_view(),
    {
        self.storage
    }

    /// One polling step: tries to receive; otherwise subscribes `waker` and
    /// tries again, and reports the channel closed if no sender was left.
    /// What it returns is [`poll_outcome`] of how many items each try pushed
    /// and of the closed check; the storage is left as it was unless some
    /// went in.
    pub fn poll_with(&mut self, waker: Waker) -> (polled: Polled<Result<usize, Closed>>)
        ensures
            exists|first: usize, closed: bool, second: usize|
                #[trigger] poll_outcome(got_count(first), closed, got_count(second)) == polled,
            polled matches Polled::Ready(Ok(n)) ==> n > 0 && exists|items: Seq<T>|
                items.len() == n && #[trigger] filled(old(self).storage_view(), items, final(self).storage_view()),
            !(polled matches Polled::Ready(Ok(_))) ==> final(self).storage_view() == old(self).storage_view(),
    {
        let ghost start = self.storage;
        let len = self.receiver.consumer().pull_into(&mut self.storage);
        let ghost items = choose|items: Seq<T>|
            exists|available: nat|
                len == items.len() && items.len() == pull_count(available, start.lower(), start.upper())
                    && #[trigger] filled(start, items, self.storage);
        assert(items.len() == len && filled(start, items, self.storage));
        if len != 0 {
            assert(filled(old(self).storage_view(), items, self.storage_view()));
            assert(poll_outcome(got_count(len), false, got_count(0)) == Polled::<Result<usize, Closed>>::Ready(Ok(len)));
            return Polled::Ready(Ok(len));
        }
        let no_senders = self.receiver.no_senders();
        let closed = set_waker_check_no_prod(no_senders, waker, self.receiver);
        let ghost start = self.storage;
        let len2 = self.receiver.consumer().pull_into(&mut self.storage);
        let ghost items = choose|items: Seq<T>|
            exists|available: nat|
                len2 == items.len() && items.len() == pull_count(available, start.lower(), start.upper())
                    && #[trigger] filled(start, items, self.storage);
        assert(items.len() == len2 && filled(start, items, self.storage));
        if len2 != 0 {
            assert(filled(old(self).storage_view(), items, self.storage_view()));
        }
        let second = if len2 == 0 {
            None
        } else {
            Some(len2)
        };
        let polled = outcome_after_wait(closed, second);
        assert(poll_outcome(got_count(len), closed, got_count(len2)) == polled);
        polled
    }
}

/// Receive of as many items as possible, appended to a vector.
pub type FillMany<'a, T> = Fill<'a, &'a mut Vec<T>, T>;

/// Receive of exactly as many items as a slice holds.
pub type FillExact<'a, T> = Fill<'a, &'a mut [T], T>;

} // verus!
