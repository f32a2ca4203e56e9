use vstd::prelude::*;

use super::queue::{Fifo, pull_count};

verus! {

/// Backing storage for receive operations.
///
/// A receive asks the storage for its bounds, takes out as many items as
/// [`pull_count`] allows for them, pushes them in order at indices `0, 1, ...`
/// and finally calls `finish` with the number of items pushed.
pub trait Storage<T>: Sized {
    type Output;

    /// Least number of items a receive must deliver at once, if any.
    spec fn lower(&self) -> Option<usize>;

    /// Greatest number of items a receive may deliver at once, if any.
    spec fn upper(&self) -> Option<usize>;

    /// `after` is this storage once `item` went in at `index`.
    spec fn push_spec(&self, index: int, item: T, after: Self) -> bool;

    /// `result` is what `finish` gives back after `pushed` items went in.
    spec fn finish_spec(&self, pushed: int, result: Result<Self::Output, Self>) -> bool;

    fn bounds(&self) -> (bounds: (Option<usize>, Option<usize>))
        ensures
            bounds == (self.lower(), self.upper()),
    ;

    fn push(&mut self, index: usize, item: T)
        requires
            old(self).upper() matches Some(u) ==> index < u,
        ensures
            old(self).push_spec(index as int, item, *final(self)),
            final(self).lower() == old(self).lower(),
            final(self).upper() == old(self).upper(),
    ;

    fn finish(self, pushed: usize) -> (result: Result<Self::Output, Self>)
        ensures
            self.finish_spec(pushed as int, result),
    ;

    /// Prepares room for `len` more items; by default, does nothing.
    fn reserve(&mut self, len: usize)
        ensures
            *final(self) == *old(self),
    {
    }
}

/// `after` is `storage` once `items` went in, in order, at indices `0, 1, ...`.
pub open spec fn filled<T, S: Storage<T>>(storage: S, items: Seq<T>, after: S) -> bool
    decreases items.len(),
{
    if items.len() == 0 {
        after == storage
    } else {
        exists|mid: S|
            #![trigger mid.push_spec(items.len() - 1, items.last(), after)]
            filled(storage, items.drop_last(), mid) && mid.push_spec(
                items.len() - 1,
                items.last(),
                after,
            )
    }
}

impl<T> Fifo<T> {
    /// Takes out the oldest items, as many as the bounds of `storage` allow,
    /// and pushes them into it in order. Returns how many went in.
    pub fn pull_into<S: Storage<T>>(&mut self, storage: &mut S) -> (pushed: usize)
        requires
            old(self).wf(),
        ensures
            final(self).wf(),
            final(self).block_len() == old(self).block_len(),
            pushed == pull_count(old(self)@.len(), old(storage).lower(), old(storage).upper()),
            final(self)@ == old(self)@.skip(pushed as int),
            filled(*old(storage), old(self)@.take(pushed as int), *final(storage)),
    {
        let (lower, upper) = storage.bounds();
        let batch = self.pull(lower, upper);
        storage.reserve(batch.len());
        let ghost items = batch@;
        let mut index: usize = 0;
        let n = batch.len();
        assert(items.take(0) =~= Seq::<T>::empty());
        for item in it: batch.into_iter()
            invariant
                it.seq() == items,
                n == items.len(),
                index == it.index(),
                storage.lower() == lower,
                storage.upper() == upper,
                filled(*old(storage), items.take(index as int), *storage),
                items.len() == pull_count(old(self)@.len(), lower, upper),
        {
            let ghost before = *storage;
            let ghost pushed_item = item;
            storage.push(index, item);
            proof {
                let next = items.take(index as int + 1);
                assert(pushed_item == items[index as int]);
                assert(next.drop_last() =~= items.take(index as int));
                assert(next.last() == pushed_item);
                assert(filled(*old(storage), next.drop_last(), before));
                assert(before.push_spec(next.len() - 1, next.last(), *storage));
                assert(filled(*old(storage), next, *storage));
            }
            index = index + 1;
        }
        assert(items.take(n as int) =~= items);
        n
    }
}

impl<T> Storage<T> for Option<T> {
    type Output = T;

    open spec fn lower(&self) -> Option<usize> {
        Some(1)
    }

    open spec fn upper(&self) -> Option<usize> {
        Some(1)
    }

    open spec fn push_spec(&self, index: int, item: T, after: Self) -> bool {
        after == Some(item)
    }

    open spec fn finish_spec(&self, pushed: int, result: Result<T, Self>) -> bool {
        result == match *self {
            Some(item) => Ok(item),
            None => Err(None::<T>),
        }
    }

    fn bounds(&self) -> (bounds: (Option<usize>, Option<usize>)) {
        (Some(1), Some(1))
    }

    fn push(&mut self, index: usize, item: T) {
        *self = Some(item);
    }

    fn finish(self, pushed: usize) -> (result: Result<T, Self>) {
        match self {
            Some(item) => Ok(item),
            None => Err(None),
        }
    }
}

/// `<[T; N]>::try_from(Vec<T>)` from std, on a vector of exactly `N` items:
/// the same items, in the same order, as an array.
#[verifier::external_body]
pub(crate) fn vec_into_array<T, const N: usize>(items: Vec<T>) -> (array: [T; N])
    requires
        items@.len() == N,
    ensures
        array@ == items@,
{
    <[T; N]>::try_from(items).ok().unwrap()
}

/// Storage for exactly `N` items, finished into an array.
pub struct TmpArray<const N: usize, T> {
    inner: Vec<Option<T>>,
}

impl<const N: usize, T> TmpArray<N, T> {
    /// Content of the `N` slots.
    pub closed spec fn contents(&self) -> Seq<Option<T>> {
        self.inner@
    }

    /// `N` empty slots.
    pub fn new() -> (array: Self)
        ensures
            array.contents() == Seq::new(N as nat, |i: int| None::<T>),
    {
        let mut inner: Vec<Option<T>> = Vec::new();
        let mut k: usize = 0;
        while k < N
            invariant
                k <= N,
                inner@ == Seq::new(k as nat, |i: int| None::<T>),
            decreases N - k,
        {
            inner.push(None);
            k = k + 1;
            assert(inner@ =~= Seq::new(k as nat, |i: int| None::<T>));
        }
        TmpArray { inner }
    }

    /// Whether every slot holds an item.
    pub open spec fn complete(&self) -> bool {
        &&& self.contents().len() == N
        &&& forall|i: int| 0 <= i < self.contents().len() ==> (#[trigger] self.contents()[i]) is Some
    }

    /// The items of a complete array.
    pub open spec fn items(&self) -> Seq<T> {
        self.contents().map_values(|x: Option<T>| x->0)
    }
}

impl<const N: usize, T> Storage<T> for TmpArray<N, T> {
    type Output = [T; N];

    open spec fn lower(&self) -> Option<usize> {
        Some(N)
    }

    open spec fn upper(&self) -> Option<usize> {
        Some(N)
    }

    open spec fn push_spec(&self, index: int, item: T, after: Self) -> bool {
        after.contents() == if 0 <= index < self.contents().len() {
            self.contents().update(index, Some(item))
        } else {
            self.contents()
        }
    }

    open spec fn finish_spec(&self, pushed: int, result: Result<[T; N], Self>) -> bool {
        match result {
            Ok(a) => pushed != 0 && self.complete() && a@ == self.items(),
            Err(s) => (pushed == 0 || !self.complete()) && s.contents() == self.contents(),
        }
    }

    fn bounds(&self) -> (bounds: (Option<usize>, Option<usize>)) {
        (Some(N), Some(N))
    }

    fn push(&mut self, index: usize, item: T) {
        if index < self.inner.len() {
            self.inner.set(index, Some(item));
        }
    }

    fn finish(self, pushed: usize) -> (result: Result<[T; N], Self>) {
        if pushed == 0 {
            return Err(self);
        }
        let n = self.inner.len();
        if n != N {
            return Err(self);
        }
        let mut k: usize = 0;
        while k < n
            invariant
                n == self.contents().len(),
                k <= n,
                forall|i: int| 0 <= i < k ==> (#[trigger] self.contents()[i]) is Some,
            decreases n - k,
        {
            if self.inner[k].is_none() {
                return Err(self);
            }
            k = k + 1;
        }
        let ghost full = self.contents();
        let mut items: Vec<T> = Vec::new();
        for slot in it: self.inner.into_iter()
            invariant
                it.seq() == full,
                forall|i: int| 0 <= i < full.len() ==> (#[trigger] full[i]) is Some,
                items@ == full.take(it.index() as int).map_values(|x: Option<T>| x->0),
        {
            let item = slot.unwrap();
            items.push(item);
            assert(full.take(it.index() + 1).map_values(|x: Option<T>| x->0) =~= full.take(
                it.index() as int,
            ).map_values(|x: Option<T>| x->0).push(item));
        }
        assert(full.take(full.len() as int) =~= full);
        Ok(vec_into_array::<T, N>(items))
    }
}

} // verus!

verus! {

impl<'a, T> Storage<T> for &'a mut Vec<T> {
    type Output = usize;

    open spec fn lower(&self) -> Option<usize> {
        None
    }

    open spec fn upper(&self) -> Option<usize> {
        None
    }

    open spec fn push_spec(&self, index: int, item: T, after: Self) -> bool {
        after@ == self@.push(item)
    }

    open spec fn finish_spec(&self, pushed: int, result: Result<usize, Self>) -> bool {
        match result {
            Ok(n) => pushed != 0 && n == pushed,
            Err(s) => pushed == 0 && s@ == self@,
        }
    }

    fn bounds(&self) -> (bounds: (Option<usize>, Option<usize>)) {
        (None, None)
    }

    fn push(&mut self, index: usize, item: T) {
        (**self).push(item);
    }

    fn finish(self, pushed: usize) -> (result: Result<usize, Self>) {
        if pushed == 0 {
            Err(self)
        } else {
            Ok(pushed)
        }
    }
}

} // verus!

verus! {

impl<'a, T> Storage<T> for &'a mut [T] {
    type Output = ();

    open spec fn lower(&self) -> Option<usize> {
        Some(self@.len() as usize)
    }

    open spec fn upper(&self) -> Option<usize> {
        Some(self@.len() as usize)
    }

    open spec fn push_spec(&self, index: int, item: T, after: Self) -> bool {
        after@ == if 0 <= index < self@.len() {
            self@.update(index, item)
        } else {
            self@
        }
    }

    open spec fn finish_spec(&self, pushed: int, result: Result<(), Self>) -> bool {
        match result {
            Ok(_) => pushed != 0,
            Err(s) => pushed == 0 && s@ == self@,
        }
    }

    fn bounds(&self) -> (bounds: (Option<usize>, Option<usize>)) {
        (Some(self.len()), Some(self.len()))
    }

    fn push(&mut self, index: usize, item: T) {
        if index < self.len() {
            self[index] = item;
        }
    }

    fn finish(self, pushed: usize) -> (result: Result<(), Self>) {
        if pushed == 0 {
            Err(self)
        } else {
            Ok(())
        }
    }
}

} // verus!
