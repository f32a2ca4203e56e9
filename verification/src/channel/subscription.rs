use vstd::prelude::*;
use vstd::rwlock::RwLockPredicate;
use crate::locked::Locked;
use std::sync::Arc;
use std::task::Waker;

use crate::fifo::api::SmallBlockSize;
use crate::fifo::queue::Fifo;
use crate::task::wake;

verus! {

/// The notification count that follows `count`: one more, wrapping around.
pub open spec fn next_count(count: usize) -> usize {
    if count == usize::MAX {
        0
    } else {
        (count + 1) as usize
    }
}

/// A notification always changes the count, so a receiver that subscribed
/// at the count before it subscribes again after it ([`must_subscribe`]
/// holds), and is woken by the next notification.
pub proof fn law_notification_changes_count(count: usize)
    ensures
        next_count(count) != count,
        Some(count) != Some(next_count(count)),
{
}

/// What the handles of a channel share to wake receivers: the wakers of the
/// receivers waiting, oldest first, and the number of notifications so far.
pub struct Subscriptions {
    wakers: Fifo<Waker>,
    wake_count: usize,
}

impl Subscriptions {
    /// Well-formedness of the waker queue.
    pub closed spec fn wf(&self) -> bool {
        self.wakers.wf()
    }

    /// The wakers waiting, oldest first.
    pub closed spec fn waiting(&self) -> Seq<Waker> {
        self.wakers@
    }

    /// The number of notifications so far (wrapping around).
    pub closed spec fn count(&self) -> usize {
        self.wake_count
    }

    /// Slots per block of the waker queue.
    pub closed spec fn block_len(&self) -> nat {
        self.wakers.block_len()
    }

    /// No waker waiting, and a notification count of zero.
    pub fn new() -> (subs: Self)
        ensures
            subs.wf(),
            subs.waiting() == Seq::<Waker>::empty(),
            subs.count() == 0,
            subs.block_len() == 8,
    {
        Subscriptions { wakers: SmallBlockSize::fifo(), wake_count: 0 }
    }

    /// Counts one more notification and takes out every waiting waker, in
    /// order; no waker is left waiting.
    pub fn notify(&mut self) -> (woken: Vec<Waker>)
        requires
            old(self).wf(),
        ensures
            final(self).wf(),
            final(self).block_len() == old(self).block_len(),
            woken@ == old(self).waiting(),
            final(self).waiting() == Seq::<Waker>::empty(),
            final(self).count() == next_count(old(self).count()),
    {
        self.wake_count = if self.wake_count == usize::MAX {
            0
        } else {
            self.wake_count + 1
        };
        let woken = self.wakers.pull(None, None);
        assert(self.wakers@.len() == 0);
        assert(woken@ =~= old(self).waiting());
        woken
    }

    /// Adds `waker` behind the waiting ones if the count moved on since
    /// `last` (the count at the receiver's last subscription), and if the
    /// queue's cursors can count one more waker. Returns the count, which is
    /// unchanged.
    pub fn subscribe(&mut self, waker: Waker, last: Option<usize>) -> (current: usize)
        requires
            old(self).wf(),
        ensures
            final(self).wf(),
            final(self).block_len() == old(self).block_len(),
            current == old(self).count(),
            final(self).count() == old(self).count(),
            ({
                let joins = last != Some(current) && old(self).waiting().len() + 1 + 2 * old(self).block_len()
                    <= usize::MAX;
                &&& joins ==> final(self).waiting() == old(self).waiting().push(waker)
                &&& !joins ==> final(self).waiting() == old(self).waiting()
            }),
    {
        let current = self.wake_count;
        if must_subscribe(current, last) && self.wakers.has_room_for(1) {
            let mut items: Vec<Waker> = Vec::new();
            items.push(waker);
            self.wakers.send_iter(items);
            assert(self.wakers@ =~= old(self).waiting().push(waker));
        }
        current
    }
}

/// The invariant kept by the lock around a channel's subscriptions.
pub struct SubscriptionsWf;

impl RwLockPredicate<Subscriptions> for SubscriptionsWf {
    closed spec fn inv(self, subs: Subscriptions) -> bool {
        subs.wf()
    }
}

/// The subscriptions of a channel, shared by its handles.
pub struct Subscribers {
    state: Arc<Locked<Subscriptions, SubscriptionsWf>>,
}

impl Clone for Subscribers {
    fn clone(&self) -> (copy: Self)
        ensures
            copy == *self,
    {
        Subscribers { state: self.state.clone() }
    }
}

/// Whether a receiver that last subscribed at notification count `last`
/// subscribes again when the count is `current`: only when a notification
/// happened since.
pub fn must_subscribe(current: usize, last: Option<usize>) -> (subscribe: bool)
    ensures
        subscribe == (last != Some(current)),
{
    match last {
        Some(l) => l != current,
        None => true,
    }
}

/// Wakes up every waker of `wakers`, in order. Returns how many were woken.
pub fn wake_all(wakers: Vec<Waker>) -> (woken: usize)
    ensures
        woken == wakers@.len(),
{
    let n = wakers.len();
    for waker in wakers {
        wake(waker);
    }
    n
}

impl Subscribers {
    /// No subscriber yet, and a notification count of zero.
    pub fn new() -> Self {
        Subscribers { state: Arc::new(Locked::new(Subscriptions::new(), Ghost(SubscriptionsWf))) }
    }

    /// Counts one more notification and wakes up every subscriber, which is
    /// then forgotten ([`Subscriptions::notify`] under the lock). Returns how
    /// many were woken up.
    pub fn notify_all(&self) -> usize {
        let (mut subs, handle) = self.state.acquire();
        let wakers = subs.notify();
        handle.release_write(subs);
        wake_all(wakers)
    }

    /// Adds `waker` to the subscribers, unless the notification count is
    /// still `last_wc` (the waker subscribed then is still there), as
    /// [`Subscriptions::subscribe`] does under the lock. Returns the
    /// notification count.
    pub fn subscribe(&self, waker: Waker, last_wc: Option<usize>) -> usize {
        let (mut subs, handle) = self.state.acquire();
        let current_wc = subs.subscribe(waker, last_wc);
        handle.release_write(subs);
        current_wc
    }
}

} // verus!
