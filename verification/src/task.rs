//! Wakers, and the outcome of one polling step.

use vstd::prelude::*;
use std::task::Waker;

use crate::fifo::async_api::Closed;

verus! {

#[verifier::external_type_specification]
#[verifier::external_body]
pub struct ExWaker(Waker);

/// `Waker::wake` from std: wakes up the task this waker belongs to.
/// Nothing is claimed of its effect.
#[verifier::external_body]
pub fn wake(waker: Waker) {
    waker.wake()
}

/// Outcome of one polling step of a receive: a result, or nothing yet.
pub enum Polled<R> {
    Ready(R),
    Pending,
}

/// What a polling step of a receive returns, from what its first try got,
/// whether the closed check made after it found no sender or producer left,
/// and what its second try got: the result of the first try that got one;
/// otherwise `Closed` if none was left, and `Pending` if some was.
pub open spec fn poll_outcome<R>(first: Option<R>, closed: bool, second: Option<R>) -> Polled<Result<R, Closed>> {
    match first {
        Some(r) => Polled::Ready(Ok(r)),
        None => match second {
            Some(r) => Polled::Ready(Ok(r)),
            None => if closed {
                Polled::Ready(Err(Closed))
            } else {
                Polled::Pending
            },
        },
    }
}

/// An item that a try got is delivered, whether or not the closed check
/// found no sender left: `Closed` comes only when both tries got nothing
/// and the check found none left, and `Pending` only when both got nothing
/// and some was left.
pub proof fn law_items_before_closed<R>(first: Option<R>, closed: bool, second: Option<R>)
    ensures
        first matches Some(r) ==> poll_outcome(first, closed, second) == Polled::<Result<R, Closed>>::Ready(Ok(r)),
        first is None ==> (second matches Some(r) ==> poll_outcome(first, closed, second)
            == Polled::<Result<R, Closed>>::Ready(Ok(r))),
        poll_outcome(first, closed, second) matches Polled::Ready(Err(_)) ==> first is None && second is None
            && closed,
        poll_outcome(first, closed, second) is Pending ==> first is None && second is None && !closed,
{
}

/// What a try that pushes items in place got: the count, if any went in.
pub open spec fn got_count(pushed: usize) -> Option<usize> {
    if pushed == 0 {
        None
    } else {
        Some(pushed)
    }
}

/// What a polling step returns once its first try got nothing, from the
/// closed check and from what its second try got.
pub fn outcome_after_wait<R>(closed: bool, second: Option<R>) -> (polled: Polled<Result<R, Closed>>)
    ensures
        polled == poll_outcome(None, closed, second),
{
    match second {
        Some(r) => Polled::Ready(Ok(r)),
        None => if closed {
            Polled::Ready(Err(Closed))
        } else {
            Polled::Pending
        },
    }
}

/// What a polling step of a one-shot receive returns, from what its take
/// before leaving a waker got and what its take after got: the item of the
/// first take that got one; otherwise `Pending`.
pub open spec fn take_outcome<R>(first: Option<R>, second: Option<R>) -> Polled<R> {
    match first {
        Some(r) => Polled::Ready(r),
        None => match second {
            Some(r) => Polled::Ready(r),
            None => Polled::Pending,
        },
    }
}

} // verus!
