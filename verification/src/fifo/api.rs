use vstd::prelude::*;
use vstd::rwlock::RwLockPredicate;
use crate::locked::Locked;
use std::sync::Arc;
use std::sync::atomic::{AtomicUsize, Ordering};
use std::task::Waker;

use super::counter;
use super::queue::{Fifo, pull_count};
use super::storage::{Storage, TmpArray, filled, vec_into_array};
use crate::task::wake;

verus! {

/// The invariant kept by the lock around a shared fifo: the fifo is well
/// formed, and its blocks hold `block_len` slots.
pub struct FifoWf {
    pub block_len: Ghost<nat>,
}

impl<T> RwLockPredicate<Fifo<T>> for FifoWf {
    open spec fn inv(self, fifo: Fifo<T>) -> bool {
        &&& fifo.wf()
        &&& fifo.block_len() == self.block_len@
    }
}

/// What the handles of a fifo share: the fifo and one waker slot per consumer.
pub struct FifoState<T> {
    pub(crate) fifo: Fifo<T>,
    pub(crate) wakers: Vec<Option<Box<Waker>>>,
}

/// The invariant kept by the lock around a fifo's shared state.
pub struct StateWf;

impl<T> RwLockPredicate<FifoState<T>> for StateWf {
    closed spec fn inv(self, state: FifoState<T>) -> bool {
        state.fifo.wf()
    }
}

/// Custom Block Size
///
/// Items are stored in contiguous blocks of `L` item slots, with `F` bytes of
/// flags (`L` must be equal to `F` x 8). New blocks are allocated as items are
/// sent through the channel: a large block size results in fewer but bigger
/// allocations.
pub struct BlockSize<const L: usize, const F: usize>;

/// Block size suitable for sending items one by one, from time to time (8 slots).
pub type SmallBlockSize = BlockSize<8, 1>;

/// Reasonable default block size (32 slots).
pub type DefaultBlockSize = BlockSize<32, 4>;

/// Block size suitable for batch sending of many items (4096 slots).
pub type LargeBlockSize = BlockSize<4096, 512>;

/// Block size suitable for batch sending of tons of items (1 048 576 slots).
pub type HugeBlockSize = BlockSize<1048576, 131072>;

impl<const L: usize, const F: usize> BlockSize<L, F> {
    /// The block sizes that can build a fifo.
    pub open spec fn valid() -> bool {
        &&& L == 8 * F
        &&& 0 < F
    }

    /// An empty fifo with this block size.
    pub fn fifo<T>() -> (fifo: Fifo<T>)
        requires
            Self::valid(),
        ensures
            fifo.wf(),
            fifo@ == Seq::<T>::empty(),
            fifo.block_len() == L,
    {
        Fifo::new(F)
    }

    /// An empty fifo with this block size, behind a lock.
    pub fn arc_fifo<T>() -> (fifo: Arc<Locked<Fifo<T>, FifoWf>>)
        requires
            Self::valid(),
        ensures
            fifo.pred().block_len@ == L,
    {
        let ghost pred = FifoWf { block_len: Ghost(L as nat) };
        Arc::new(Locked::new(Self::fifo(), Ghost(pred)))
    }

    fn build_n<T>(num_rx: usize) -> (built: (Producer<T>, Arc<Locked<FifoState<T>, StateWf>>, Arc<AtomicUsize>))
        requires
            Self::valid(),
        ensures
            built.0.state == built.1,
            built.0.num_prod == built.2,
    {
        let mut wakers: Vec<Option<Box<Waker>>> = Vec::new();
        let mut k: usize = 0;
        while k < num_rx
            invariant
                k <= num_rx,
            decreases num_rx - k,
        {
            wakers.push(None);
            k = k + 1;
        }
        let state = FifoState { fifo: Self::fifo(), wakers };
        let state = Arc::new(Locked::new(state, Ghost(StateWf)));
        let num_prod = Arc::new(counter::new_count());
        let producer = Producer { state: state.clone(), num_prod: num_prod.clone() };
        (producer, state, num_prod)
    }

    /// Creates a fifo with this block size and `N` consumers.
    pub fn build<const N: usize, T>() -> (built: (Producer<T>, [Consumer<T>; N]))
        requires
            Self::valid(),
        ensures
            forall|i: int| 0 <= i < N ==> (#[trigger] built.1@[i]).waker_index() == i,
            forall|i: int| 0 <= i < N ==> (#[trigger] built.1@[i]).fed_by(&built.0),
    {
        let (tx, rx_vec) = Self::build_vec::<T>(N);
        let rx_array = vec_into_array::<Consumer<T>, N>(rx_vec);
        (tx, rx_array)
    }

    /// Creates a fifo with this block size and `num_rx` consumers.
    pub fn build_vec<T>(num_rx: usize) -> (built: (Producer<T>, Vec<Consumer<T>>))
        requires
            Self::valid(),
        ensures
            built.1@.len() == num_rx,
            forall|i: int| 0 <= i < num_rx ==> (#[trigger] built.1@[i]).waker_index() == i,
            forall|i: int| 0 <= i < num_rx ==> (#[trigger] built.1@[i]).fed_by(&built.0),
    {
        let (tx, state, num_prod) = Self::build_n::<T>(num_rx);
        let mut rx_vec: Vec<Consumer<T>> = Vec::new();
        let mut i: usize = 0;
        while i < num_rx
            invariant
                i <= num_rx,
                rx_vec@.len() == i,
                tx.state == state,
                tx.num_prod == num_prod,
                forall|j: int| 0 <= j < i ==> (#[trigger] rx_vec@[j]).waker_index() == j,
                forall|j: int| 0 <= j < i ==> (#[trigger] rx_vec@[j]).fed_by(&tx),
            decreases num_rx - i,
        {
            rx_vec.push(Consumer { state: state.clone(), num_prod: num_prod.clone(), waker_index: i });
            i = i + 1;
        }
        (tx, rx_vec)
    }

    /// Creates a fifo with this block size and `N` consumers, boxed.
    pub fn build_box<const N: usize, T>() -> (built: (Producer<T>, Box<[Consumer<T>; N]>))
        requires
            Self::valid(),
        ensures
            forall|i: int| 0 <= i < N ==> (#[trigger] built.1@[i]).waker_index() == i,
            forall|i: int| 0 <= i < N ==> (#[trigger] built.1@[i]).fed_by(&built.0),
    {
        let (tx, rx_array) = Self::build::<N, T>();
        (tx, Box::new(rx_array))
    }

    /// Creates a fifo with this block size and one consumer.
    pub fn non_blocking<T>() -> (built: (Producer<T>, Consumer<T>))
        requires
            Self::valid(),
        ensures
            built.1.waker_index() == 0,
            built.1.fed_by(&built.0),
    {
        let (tx, state, num_prod) = Self::build_n::<T>(1);
        (tx, Consumer { state, num_prod, waker_index: 0 })
    }
}

/// Creates a fifo with the default block size and `N` consumers.
pub fn new<const N: usize, T>() -> (built: (Producer<T>, [Consumer<T>; N]))
    ensures
        forall|i: int| 0 <= i < N ==> (#[trigger] built.1@[i]).waker_index() == i,
        forall|i: int| 0 <= i < N ==> (#[trigger] built.1@[i]).fed_by(&built.0),
{
    DefaultBlockSize::build::<N, T>()
}

/// Creates a fifo with the default block size and `num_consumers` consumers.
pub fn new_vec<T>(num_consumers: usize) -> (built: (Producer<T>, Vec<Consumer<T>>))
    ensures
        built.1@.len() == num_consumers,
        forall|i: int| 0 <= i < num_consumers ==> (#[trigger] built.1@[i]).waker_index() == i,
        forall|i: int| 0 <= i < num_consumers ==> (#[trigger] built.1@[i]).fed_by(&built.0),
{
    DefaultBlockSize::build_vec::<T>(num_consumers)
}

/// Creates a fifo with the default block size and `N` consumers, boxed.
pub fn new_box<const N: usize, T>() -> (built: (Producer<T>, Box<[Consumer<T>; N]>))
    ensures
        forall|i: int| 0 <= i < N ==> (#[trigger] built.1@[i]).waker_index() == i,
        forall|i: int| 0 <= i < N ==> (#[trigger] built.1@[i]).fed_by(&built.0),
{
    DefaultBlockSize::build_box::<N, T>()
}

/// Fifo Production Handle
///
/// This is the "sending" half of a FIFO channel. Each batch is appended
/// atomically, in order, behind the items already in the fifo.
///
/// Unlike [`Consumer`]s, producers are counted: consumers can tell when all
/// of them are gone.
pub struct Producer<T> {
    state: Arc<Locked<FifoState<T>, StateWf>>,
    num_prod: Arc<AtomicUsize>,
}

impl<T> Producer<T> {
    /// Whether both producers feed the same fifo, and are counted together.
    pub closed spec fn same_fifo(&self, other: &Producer<T>) -> bool {
        self.state == other.state && self.num_prod == other.num_prod
    }
}

impl<T> Clone for Producer<T> {
    fn clone(&self) -> (copy: Self)
        ensures
            copy.same_fifo(self),
    {
        counter::increment(&self.num_prod);
        Producer { state: self.state.clone(), num_prod: self.num_prod.clone() }
    }
}

impl<T> Drop for Producer<T> {
    /// `AtomicUsize::fetch_sub` from std, which never panics (it wraps
    /// around): counts one producer less.
    #[verifier::external_body]
    fn drop(&mut self)
        opens_invariants none
        no_unwind
    {
        self.num_prod.fetch_sub(1, Ordering::SeqCst);
    }
}

/// Takes the waker out of every slot.
fn take_wakers(wakers: &mut Vec<Option<Box<Waker>>>) -> (taken: Vec<Box<Waker>>)
    ensures
        final(wakers)@.len() == old(wakers)@.len(),
        forall|i: int| 0 <= i < final(wakers)@.len() ==> (#[trigger] final(wakers)@[i]) is None,
        forall|i: int|
            0 <= i < old(wakers)@.len() && (#[trigger] old(wakers)@[i]) is Some ==> taken@.contains(
                old(wakers)@[i]->0,
            ),
{
    let mut taken: Vec<Box<Waker>> = Vec::new();
    let n = wakers.len();
    let mut i: usize = 0;
    while i < n
        invariant
            i <= n,
            wakers@.len() == n,
            forall|j: int| 0 <= j < i ==> (#[trigger] wakers@[j]) is None,
            forall|j: int| i <= j < n ==> wakers@[j] == old(wakers)@[j],
            forall|j: int|
                0 <= j < i && (#[trigger] old(wakers)@[j]) is Some ==> taken@.contains(
                    old(wakers)@[j]->0,
                ),
        decreases n - i,
    {
        let mut slot: Option<Box<Waker>> = None;
        let ghost before = taken@;
        wakers.set_and_swap(i, &mut slot);
        match slot {
            Some(waker) => {
                taken.push(waker);
                assert(taken@[before.len() as int] == old(wakers)@[i as int]->0);
            },
            None => {},
        }
        proof {
            assert forall|j: int| 0 <= j < i && (#[trigger] old(wakers)@[j]) is Some implies taken@.contains(
                old(wakers)@[j]->0,
            ) by {
                let k = choose|k: int| 0 <= k < before.len() && before[k] == old(wakers)@[j]->0;
                assert(taken@[k] == before[k]);
            }
        }
        i = i + 1;
    }
    taken
}

impl<T> Producer<T> {
    /// Sends a batch of items in the channel, atomically, then wakes up the
    /// consumers that were waiting.
    ///
    /// The batch goes in whole after the items already there, unless the
    /// fifo's cursors could not count that many more items, in which case
    /// nothing is sent.
    pub fn send_iter(&self, items: Vec<T>) {
        let (mut state, handle) = self.state.acquire();
        if state.fifo.has_room_for(items.len()) {
            state.fifo.send_iter(items);
        }
        let taken = take_wakers(&mut state.wakers);
        handle.release_write(state);
        for waker in taken {
            wake(*waker);
        }
    }

    /// Sends one item through the channel.
    pub fn send(&self, item: T) {
        let mut items: Vec<T> = Vec::new();
        items.push(item);
        self.send_iter(items);
    }
}

/// Fifo Consumption Handle
///
/// This handle pulls items or batches of items from the fifo, atomically, in
/// the exact same order as they were pushed.
pub struct Consumer<T> {
    state: Arc<Locked<FifoState<T>, StateWf>>,
    num_prod: Arc<AtomicUsize>,
    waker_index: usize,
}

impl<T> Clone for Consumer<T> {
    fn clone(&self) -> (copy: Self)
        ensures
            copy.waker_index() == self.waker_index(),
            forall|p: &Producer<T>| self.fed_by(p) ==> #[trigger] copy.fed_by(p),
    {
        Consumer {
            state: self.state.clone(),
            num_prod: self.num_prod.clone(),
            waker_index: self.waker_index,
        }
    }
}

impl<T> Consumer<T> {
    /// Index of this consumer's waker slot.
    pub closed spec fn waker_index(&self) -> usize {
        self.waker_index
    }

    /// Whether this consumer reads the fifo that `producer` feeds, and
    /// counts the producers counted with it.
    pub closed spec fn fed_by(&self, producer: &Producer<T>) -> bool {
        self.state == producer.state && self.num_prod == producer.num_prod
    }

    /// Returns true if all producers have been dropped.
    pub fn no_producers(&self) -> bool {
        counter::is_zero(&self.num_prod)
    }

    /// Same as [`Self::no_producers`].
    pub fn is_closed(&self) -> bool {
        self.no_producers()
    }

    /// Takes out the oldest items, as many as `pull_count` allows for the
    /// given bounds.
    fn pull(&self, lower: Option<usize>, upper: Option<usize>) -> (batch: Vec<T>)
        ensures
            exists|q: Seq<T>| batch@ == #[trigger] q.take(pull_count(q.len(), lower, upper) as int),
    {
        let (mut state, handle) = self.state.acquire();
        let ghost q = state.fifo@;
        let batch = state.fifo.pull(lower, upper);
        handle.release_write(state);
        batch
    }

    /// Tries to receive one item.
    pub fn try_recv(&self) -> (item: Option<T>) {
        let mut batch = self.pull(Some(1), Some(1));
        batch.pop()
    }

    /// Tries to receive as many items as possible, appending them to `vec`.
    ///
    /// If at least one item is received, the number of received items is
    /// returned.
    pub fn try_recv_many(&self, vec: &mut Vec<T>) -> (received: Option<usize>)
        ensures
            match received {
                Some(n) => n > 0 && final(vec)@.len() == old(vec)@.len() + n
                    && final(vec)@.take(old(vec)@.len() as int) == old(vec)@,
                None => final(vec)@ == old(vec)@,
            },
    {
        let mut batch = self.pull(None, None);
        let n = batch.len();
        if n == 0 {
            return None;
        }
        let ghost before = vec@;
        vec.append(&mut batch);
        assert(vec@.take(before.len() as int) =~= before);
        Some(n)
    }

    /// Tries to receive exactly `slice.len()` items into a slice: the
    /// oldest ones, all or nothing ([`Fifo::recv_exact`] under the lock).
    ///
    /// Nothing is received when fewer items are available, or when the
    /// slice is empty.
    pub fn try_recv_exact(&self, slice: &mut [T]) -> (received: Option<()>)
        ensures
            final(slice)@.len() == old(slice)@.len(),
            received is None ==> final(slice)@ == old(slice)@,
            received is Some ==> old(slice)@.len() > 0,
            exists|queued: Seq<T>|
                (received is Some <==> 0 < old(slice)@.len() <= queued.len())
                    && (received is Some ==> final(slice)@ == #[trigger] queued.take(old(slice)@.len() as int)),
    {
        let (mut state, handle) = self.state.acquire();
        let ghost queued = state.fifo@;
        let received = state.fifo.recv_exact(slice);
        handle.release_write(state);
        let ghost oldest = queued.take(old(slice)@.len() as int);
        assert((received is Some <==> 0 < old(slice)@.len() <= queued.len())
            && (received is Some ==> final(slice)@ == oldest));
        received
    }

    /// Tries to receive at least one item and at most `slice.len()`, into the
    /// first slots of `slice`. Returns how many were received.
    ///
    /// The count is that of the items the fifo held, up to the slice's
    /// length, and they are its oldest items.
    pub fn try_recv_upto(&self, slice: &mut [T]) -> (received: usize)
        ensures
            exists|queued: Seq<T>|
                received == #[trigger] pull_count(queued.len(), Some(1), Some(old(slice)@.len() as usize))
                    && final(slice)@.take(received as int) == queued.take(received as int),
            received <= old(slice)@.len(),
            final(slice)@.len() == old(slice)@.len(),
            final(slice)@.skip(received as int) == old(slice)@.skip(received as int),
    {
        let len = slice.len();
        let mut batch = self.pull(Some(1), Some(len));
        let ghost queued = choose|q: Seq<T>| batch@ == #[trigger] q.take(pull_count(q.len(), Some(1), Some(len)) as int);
        let ghost pulled = batch@;
        let n = batch.len();
        assert(n == pull_count(queued.len(), Some(1), Some(len)));
        let mut i: usize = n;
        while i > 0
            invariant
                i <= n <= len,
                batch@.len() == i,
                batch@ == pulled.take(i as int),
                pulled.len() == n,
                slice@.len() == len,
                forall|j: int| i <= j < n ==> slice@[j] == pulled[j],
                forall|j: int| n <= j < len ==> slice@[j] == old(slice)@[j],
            decreases i,
        {
            let item = batch.pop().unwrap();
            i = i - 1;
            slice[i] = item;
            assert(batch@ =~= pulled.take(i as int));
        }
        assert(slice@.skip(n as int) =~= old(slice)@.skip(n as int));
        assert(slice@.take(n as int) =~= pulled);
        assert(pulled =~= queued.take(n as int));
        assert(n == pull_count(queued.len(), Some(1), Some(old(slice)@.len() as usize)));
        n
    }

    /// Tries to receive exactly `N` items into an array.
    ///
    /// Nothing is received when fewer items are available, or when `N` is
    /// zero.
    pub fn try_recv_array<const N: usize>(&self) -> (received: Option<[T; N]>)
        ensures
            N == 0 ==> received is None,
    {
        match self.try_recv_into(TmpArray::<N, T>::new()) {
            Ok(array) => Some(array),
            Err(_) => None,
        }
    }

    /// Tries to receive some items into custom storage: as many as its
    /// bounds allow, then finishes it.
    pub fn try_recv_into<S: Storage<T>>(&self, storage: S) -> (result: Result<S::Output, S>)
        ensures
            exists|available: nat, items: Seq<T>, after: S|
                #![trigger filled(storage, items, after), pull_count(available, storage.lower(), storage.upper())]
                items.len() == pull_count(available, storage.lower(), storage.upper())
                    && filled(storage, items, after) && after.finish_spec(items.len() as int, result),
    {
        let mut storage = storage;
        let ghost start = storage;
        let (mut state, handle) = self.state.acquire();
        let ghost q = state.fifo@;
        let pushed = state.fifo.pull_into(&mut storage);
        handle.release_write(state);
        let ghost taken = q.take(pushed as int);
        let ghost after = storage;
        let result = storage.finish(pushed);
        assert(taken.len() == pull_count(q.len(), start.lower(), start.upper()));
        assert(filled(start, taken, after) && after.finish_spec(taken.len() as int, result));
        result
    }

    /// Takes out the oldest items, as many as the bounds of `storage` allow,
    /// and pushes them into it in order. Returns how many went in.
    pub fn pull_into<S: Storage<T>>(&self, storage: &mut S) -> (pushed: usize)
        ensures
            exists|available: nat, items: Seq<T>|
                #![trigger filled(*old(storage), items, *final(storage)), pull_count(available, old(storage).lower(), old(storage).upper())]
                pushed == items.len() && items.len() == pull_count(
                    available,
                    old(storage).lower(),
                    old(storage).upper(),
                ) && filled(*old(storage), items, *final(storage)),
    {
        let (mut state, handle) = self.state.acquire();
        let ghost q = state.fifo@;
        let pushed = state.fifo.pull_into(storage);
        handle.release_write(state);
        assert(q.take(pushed as int).len() == pull_count(q.len(), old(storage).lower(), old(storage).upper()));
        pushed
    }

    /// Sets the waker of the current task, to be woken up when new items are available.
    pub fn insert_waker(&self, waker: Box<Waker>) {
        let (mut state, handle) = self.state.acquire();
        if self.waker_index < state.wakers.len() {
            state.wakers.set(self.waker_index, Some(waker));
        }
        handle.release_write(state);
    }

    /// Tries to take back a previously inserted waker.
    pub fn take_waker(&self) -> Option<Box<Waker>> {
        let (mut state, handle) = self.state.acquire();
        let mut slot: Option<Box<Waker>> = None;
        if self.waker_index < state.wakers.len() {
            state.wakers.set_and_swap(self.waker_index, &mut slot);
        }
        handle.release_write(state);
        slot
    }
}

} // verus!
