//! What holds of every run of a fifo: items come out exactly once, in the
//! order they were sent, in batches that respect the bounds of the storage
//! receiving them.

use vstd::prelude::*;

use super::queue::{pull_count, sent, received, remaining};
use super::storage::{Storage, TmpArray, filled};

verus! {

/// One step of a run: a batch sent, then a receive with the given lower and
/// upper bounds.
pub type Step<T> = (Seq<T>, Option<usize>, Option<usize>);

/// The items left and the items received, in order, after `steps` from a
/// fifo holding `items`.
pub open spec fn run<T>(items: Seq<T>, steps: Seq<Step<T>>) -> (Seq<T>, Seq<T>)
    decreases steps.len(),
{
    if steps.len() == 0 {
        (items, Seq::empty())
    } else {
        let (left, got) = run(items, steps.drop_last());
        let (batch, lower, upper) = steps.last();
        let holding = sent(left, batch);
        (remaining(holding, lower, upper), got + received(holding, lower, upper))
    }
}

/// Every batch sent in `steps`, in order.
pub open spec fn all_sent<T>(steps: Seq<Step<T>>) -> Seq<T>
    decreases steps.len(),
{
    if steps.len() == 0 {
        Seq::empty()
    } else {
        all_sent(steps.drop_last()) + steps.last().0
    }
}

/// A receive takes the oldest items and leaves the others, in order:
/// nothing is lost, duplicated or reordered.
pub proof fn law_receive_splits<T>(items: Seq<T>, lower: Option<usize>, upper: Option<usize>)
    ensures
        received(items, lower, upper) + remaining(items, lower, upper) == items,
        received(items, lower, upper).len() == pull_count(items.len(), lower, upper),
        pull_count(items.len(), lower, upper) <= items.len(),
{
    assert(received(items, lower, upper) + remaining(items, lower, upper) =~= items);
}

/// A receive delivers nothing, or a batch within the bounds of its storage
/// (when its lower bound does not exceed its upper bound).
pub proof fn law_receive_bounds<T>(items: Seq<T>, lower: Option<usize>, upper: Option<usize>)
    requires
        lower matches Some(l) ==> (upper matches Some(u) ==> l <= u),
    ensures
        ({
            let n = received(items, lower, upper).len();
            n == 0 || ((lower matches Some(l) ==> l <= n) && (upper matches Some(u) ==> n <= u))
        }),
{
}

/// A receive asking for exactly `n > 0` items takes all `n` if they are
/// there, and nothing otherwise.
pub proof fn law_receive_exact<T>(items: Seq<T>, n: usize)
    requires
        n > 0,
    ensures
        items.len() >= n ==> received(items, Some(n), Some(n)) == items.take(n as int)
            && remaining(items, Some(n), Some(n)) == items.skip(n as int),
        items.len() < n ==> received(items, Some(n), Some(n)) == Seq::<T>::empty()
            && remaining(items, Some(n), Some(n)) == items,
{
    if items.len() < n {
        assert(items.take(0) =~= Seq::<T>::empty());
        assert(items.skip(0) =~= items);
    }
}

/// A receive of one item into an empty `Option` gives the oldest item when
/// the fifo holds one, and gives the storage back empty only when it holds
/// none.
pub proof fn law_receive_one_takes_oldest<T>(items: Seq<T>, after: Option<T>, result: Result<T, Option<T>>)
    requires
        filled(None::<T>, received(items, Some(1), Some(1)), after),
        after.finish_spec(received(items, Some(1), Some(1)).len() as int, result),
    ensures
        items.len() > 0 <==> result is Ok,
        items.len() > 0 ==> result == Ok::<T, Option<T>>(items[0]),
        items.len() == 0 ==> result == Err::<T, Option<T>>(None),
{
    let got = received(items, Some(1), Some(1));
    if items.len() > 0 {
        assert(got.len() == 1);
        assert(got.drop_last() =~= Seq::<T>::empty());
        assert(got.last() == items[0]);
        let mid = choose|mid: Option<T>|
            #![trigger mid.push_spec(got.len() - 1, got.last(), after)]
            filled(None::<T>, got.drop_last(), mid) && mid.push_spec(got.len() - 1, got.last(), after);
        assert(after == Some(items[0]));
    } else {
        assert(got.len() == 0);
        assert(after == None::<T>);
    }
}

/// Items pushed in order into an array's first slots land there, and the
/// other slots keep what they held.
proof fn lemma_array_filled<const N: usize, T>(start: TmpArray<N, T>, pushed: Seq<T>, after: TmpArray<N, T>)
    requires
        filled(start, pushed, after),
        pushed.len() <= start.contents().len(),
    ensures
        after.contents().len() == start.contents().len(),
        forall|i: int| 0 <= i < pushed.len() ==> after.contents()[i] == Some(pushed[i]),
        forall|i: int| pushed.len() <= i < start.contents().len() ==> after.contents()[i] == start.contents()[i],
    decreases pushed.len(),
{
    if pushed.len() > 0 {
        let mid = choose|mid: TmpArray<N, T>|
            #![trigger mid.push_spec(pushed.len() - 1, pushed.last(), after)]
            filled(start, pushed.drop_last(), mid) && mid.push_spec(pushed.len() - 1, pushed.last(), after);
        lemma_array_filled(start, pushed.drop_last(), mid);
    }
}

/// A receive of `N` items into an empty array is all or nothing: it
/// finishes into an array exactly when `N > 0` and the fifo holds at least
/// `N` items, and that array holds the `N` oldest items, in order.
pub proof fn law_receive_array_all_or_nothing<const N: usize, T>(
    items: Seq<T>,
    start: TmpArray<N, T>,
    after: TmpArray<N, T>,
    result: Result<[T; N], TmpArray<N, T>>,
)
    requires
        start.contents() == Seq::new(N as nat, |i: int| None::<T>),
        filled(start, received(items, Some(N), Some(N)), after),
        after.finish_spec(received(items, Some(N), Some(N)).len() as int, result),
    ensures
        result is Ok <==> 0 < N <= items.len(),
        result matches Ok(array) ==> array@ == items.take(N as int),
{
    let got = received(items, Some(N), Some(N));
    lemma_array_filled(start, got, after);
    if 0 < N <= items.len() {
        assert(got == items.take(N as int));
        assert(after.complete());
        if let Ok(array) = result {
            assert(array@ =~= items.take(N as int));
        }
    }
}

/// A receive without bounds takes every item.
pub proof fn law_receive_all<T>(items: Seq<T>)
    ensures
        received(items, None, None) == items,
        remaining(items, None, None) == Seq::<T>::empty(),
{
    assert(items.take(items.len() as int) =~= items);
    assert(items.skip(items.len() as int) =~= Seq::<T>::empty());
}

/// Items sent after others are received after them: a receive from a fifo
/// holding `items` then sent `batch` takes from `items` first.
pub proof fn law_older_first<T>(
    items: Seq<T>,
    batch: Seq<T>,
    lower: Option<usize>,
    upper: Option<usize>,
)
    ensures
        ({
            let k = pull_count(items.len() + batch.len(), lower, upper);
            &&& k <= items.len() ==> received(sent(items, batch), lower, upper) == items.take(k as int)
            &&& k > items.len() ==> received(sent(items, batch), lower, upper) == items + batch.take(
                k - items.len(),
            )
        }),
{
    let k = pull_count(items.len() + batch.len(), lower, upper);
    if k <= items.len() {
        assert(sent(items, batch).take(k as int) =~= items.take(k as int));
    } else {
        assert(sent(items, batch).take(k as int) =~= items + batch.take(k - items.len()));
    }
}

/// Sending a batch to an empty fifo, then receiving without bounds, gives
/// back exactly the batch and leaves the fifo empty.
pub proof fn law_send_then_receive<T>(batch: Seq<T>)
    ensures
        received(sent(Seq::<T>::empty(), batch), None, None) == batch,
        remaining(sent(Seq::<T>::empty(), batch), None, None) == Seq::<T>::empty(),
{
    assert(sent(Seq::<T>::empty(), batch) =~= batch);
    law_receive_all(batch);
}

/// Over any run, every item is received exactly once and in the order it
/// was sent: what was received, followed by what is left, is what the fifo
/// held at first followed by every batch sent.
pub proof fn law_run_delivers_in_order<T>(items: Seq<T>, steps: Seq<Step<T>>)
    ensures
        run(items, steps).1 + run(items, steps).0 == items + all_sent(steps),
    decreases steps.len(),
{
    if steps.len() == 0 {
        assert(Seq::<T>::empty() + items =~= items + Seq::<T>::empty());
    } else {
        let prefix = steps.drop_last();
        law_run_delivers_in_order(items, prefix);
        let (left, got) = run(items, prefix);
        let (batch, lower, upper) = steps.last();
        let holding = sent(left, batch);
        law_receive_splits(holding, lower, upper);
        assert(got + received(holding, lower, upper) + remaining(holding, lower, upper) =~= got
            + holding);
        assert(got + holding =~= (got + left) + batch);
        assert(all_sent(steps) == all_sent(prefix) + batch);
        assert((items + all_sent(prefix)) + batch =~= items + all_sent(steps));
    }
}

} // verus!
