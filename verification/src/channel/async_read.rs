use vstd::prelude::*;
use std::task::Waker;

use crate::fifo::async_api::Closed;
use crate::task::{Polled, poll_outcome, got_count, outcome_after_wait};
use super::async_api::Receiver;
use super::future::set_waker_check_no_prod;

verus! {

impl<T> Receiver<T> {
    /// One polling step of a read: tries to receive at least one item and at
    /// most `buf.len()`, into the first slots of `buf`; otherwise subscribes
    /// `waker` and tries again, and reports the channel closed if no sender
    /// was left. What it returns is [`poll_outcome`] of how many items each
    /// try received and of the closed check. The slots past those received
    /// are left as they were.
    pub fn poll_read_with(&mut self, waker: Waker, buf: &mut [T]) -> (polled: Polled<Result<usize, Closed>>)
        ensures
            exists|first: usize, closed: bool, second: usize|
                #[trigger] poll_outcome(got_count(first), closed, got_count(second)) == polled,
            final(buf)@.len() == old(buf)@.len(),
            polled matches Polled::Ready(Ok(n)) ==> 0 < n <= old(buf)@.len()
                && final(buf)@.skip(n as int) == old(buf)@.skip(n as int),
            !(polled matches Polled::Ready(Ok(_))) ==> final(buf)@ == old(buf)@,
    {
        let len = self.consumer().try_recv_upto(buf);
        assert(buf@.skip(0) =~= buf@ && old(buf)@.skip(0) =~= old(buf)@);
        if len != 0 {
            assert(poll_outcome(got_count(len), false, got_count(0)) == Polled::<Result<usize, Closed>>::Ready(Ok(len)));
            return Polled::Ready(Ok(len));
        }
        let no_senders = self.no_senders();
        let closed = set_waker_check_no_prod(no_senders, waker, self);
        let ghost before = buf@;
        let len2 = self.consumer().try_recv_upto(buf);
        assert(buf@.skip(0) =~= buf@ && before.skip(0) =~= before);
        let second = if len2 == 0 {
            None
        } else {
            Some(len2)
        };
        let polled = outcome_after_wait(closed, second);
        assert(poll_outcome(got_count(len), closed, got_count(len2)) == polled);
        polled
    }
}

} // verus!
