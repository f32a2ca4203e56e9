use vstd::prelude::*;

use super::block::BlockPointer;

verus! {

/// How many items a receive takes out of `available` ones, given the lower
/// and upper bounds of the storage receiving them: nothing if fewer than the
/// lower bound are available, otherwise as many as the upper bound allows.
pub open spec fn pull_count(available: nat, lower: Option<usize>, upper: Option<usize>) -> nat {
    let lo: nat = match lower {
        Some(l) => l as nat,
        None => 0,
    };
    if available < lo {
        0
    } else {
        match upper {
            Some(u) => if available < u {
                available
            } else {
                u as nat
            },
            None => available,
        }
    }
}

/// The items of a fifo holding `items` once `batch` is sent.
pub open spec fn sent<T>(items: Seq<T>, batch: Seq<T>) -> Seq<T> {
    items + batch
}

/// The items that a receive with bounds `lower` and `upper` takes out of a
/// fifo holding `items`: the oldest ones, as many as `pull_count` allows.
pub open spec fn received<T>(items: Seq<T>, lower: Option<usize>, upper: Option<usize>) -> Seq<T> {
    items.take(pull_count(items.len(), lower, upper) as int)
}

/// The items left in a fifo holding `items` after a receive with bounds
/// `lower` and `upper`.
pub open spec fn remaining<T>(items: Seq<T>, lower: Option<usize>, upper: Option<usize>) -> Seq<T> {
    items.skip(pull_count(items.len(), lower, upper) as int)
}

/// A chain of blocks with a production cursor and a consumption cursor.
///
/// Cursors are positions in the chain's flattened slots: slots before the
/// production cursor are produced, slots before the consumption cursor are
/// consumed, and the items of the fifo are those between the two cursors.
pub struct Fifo<T> {
    first: BlockPointer<T>,
    flag_len: usize,
    prod: usize,
    cons: usize,
    capacity: usize,
    revision: usize,
}

impl<T> View for Fifo<T> {
    type V = Seq<T>;

    /// The items in the fifo, oldest first.
    closed spec fn view(&self) -> Seq<T> {
        Seq::new((self.prod - self.cons) as nat, |j: int| self.first.slots()[self.cons + j].unwrap())
    }
}

impl<T> Fifo<T> {
    /// Number of slots per block.
    pub closed spec fn block_len(&self) -> nat {
        (8 * self.flag_len) as nat
    }

    /// Number of blocks collected so far (modulo `usize::MAX + 1`).
    pub closed spec fn revision(&self) -> usize {
        self.revision
    }

    /// The invariant, without the bound that collection restores.
    closed spec fn wf_core(&self) -> bool {
        &&& 0 < self.flag_len
        &&& 8 * self.flag_len <= usize::MAX
        &&& self.first.chain_wf()
        &&& self.first.uniform(8 * self.flag_len as nat)
        &&& self.first.rest_offsets_zero()
        &&& self.first.len() >= 1
        &&& self.capacity == self.first.slots().len()
        &&& self.cons <= self.prod <= self.capacity
        &&& forall|p: int| 0 <= p < self.capacity ==> #[trigger] self.first.produced()[p] == (p < self.prod)
        &&& forall|p: int| 0 <= p < self.capacity ==> #[trigger] self.first.consumed()[p] == (p < self.cons)
    }

    /// Well-formedness: the invariant, and no fully consumed first block
    /// is left in front of another block.
    pub closed spec fn wf(&self) -> bool {
        &&& self.wf_core()
        &&& self.cons <= 8 * self.flag_len
    }

    /// An empty fifo whose blocks have `8 * flag_len` slots.
    pub fn new(flag_len: usize) -> (fifo: Self)
        requires
            0 < flag_len,
            8 * flag_len <= usize::MAX,
        ensures
            fifo.wf(),
            fifo@ == Seq::<T>::empty(),
            fifo.block_len() == 8 * flag_len,
    {
        let mut first: BlockPointer<T> = BlockPointer::new();
        first.append_new(flag_len);
        proof {
            first.lemma_chain();
        }
        let fifo = Fifo { first, flag_len, prod: 0, cons: 0, capacity: 8 * flag_len, revision: 0 };
        assert(fifo@ =~= Seq::<T>::empty());
        fifo
    }

    /// Number of items in the fifo.
    pub fn len(&self) -> (n: usize)
        requires
            self.wf(),
        ensures
            n == self@.len(),
    {
        self.prod - self.cons
    }

    /// Number of slots per block.
    pub fn block_size(&self) -> (n: usize)
        requires
            self.wf(),
        ensures
            n == self.block_len(),
    {
        8 * self.flag_len
    }

    /// Whether `n` more items can be counted by the cursors of this fifo.
    pub fn has_room_for(&self, n: usize) -> (room: bool)
        requires
            self.wf(),
        ensures
            room == (self@.len() + n + 2 * self.block_len() <= usize::MAX),
    {
        let len = self.prod - self.cons;
        let block = 8 * self.flag_len;
        len <= usize::MAX - block && len + block <= usize::MAX - block && n <= usize::MAX - block
            - block - len
    }

    /// Appends a batch of items, in order, after the items already there.
    pub fn send_iter(&mut self, items: Vec<T>)
        requires
            old(self).wf(),
            old(self)@.len() + items.len() + 2 * old(self).block_len() <= usize::MAX,
        ensures
            final(self).wf(),
            final(self)@ == sent(old(self)@, items@),
            final(self).block_len() == old(self).block_len(),
            final(self).revision() == old(self).revision(),
    {
        let ghost input = items@;
        let ghost start = self@;
        let block = 8 * self.flag_len;
        for item in it: items.into_iter()
            invariant
                self.wf(),
                self.block_len() == old(self).block_len(),
                self.revision() == old(self).revision(),
                block == self.block_len(),
                it.seq() == input,
                self@ == start + input.take(it.index() as int),
                start.len() + input.len() + 2 * block <= usize::MAX,
        {
            let ghost before = *self;
            proof {
                self.first.lemma_chain();
                self.first.lemma_uniform(block as nat);
                assert(self@.len() == start.len() + it.index());
                assert(it.index() < input.len());
                assert(self.prod - self.cons == self@.len());
            }
            if self.prod == self.capacity {
                self.first.append_new(self.flag_len);
                self.capacity = self.capacity + block;
                proof {
                    self.first.lemma_chain();
                    assert(self@ =~= before@);
                }
            }
            let ghost mid = *self;
            self.first.produce_at(self.prod, item);
            self.prod = self.prod + 1;
            proof {
                self.first.lemma_chain();
                assert(self@ =~= mid@.push(item));
                assert(input.take(it.index() as int + 1) =~= input.take(it.index() as int).push(item));
            }
        }
        assert(input.take(input.len() as int) =~= input);
    }
    /// Takes out the oldest items, as many as `pull_count` allows for the
    /// given bounds, and recycles the blocks that are then fully consumed.
    pub fn pull(&mut self, lower: Option<usize>, upper: Option<usize>) -> (batch: Vec<T>)
        requires
            old(self).wf(),
        ensures
            final(self).wf(),
            batch@ == received(old(self)@, lower, upper),
            final(self)@ == remaining(old(self)@, lower, upper),
            final(self).block_len() == old(self).block_len(),
    {
        let ghost start = self@;
        let available = self.prod - self.cons;
        let lo: usize = match lower {
            Some(l) => l,
            None => 0,
        };
        let count: usize = if available < lo {
            0
        } else {
            match upper {
                Some(u) => if available < u {
                    available
                } else {
                    u
                },
                None => available,
            }
        };
        let mut batch: Vec<T> = Vec::new();
        let mut j: usize = 0;
        assert(start.skip(0) =~= start);
        assert(start.take(0) =~= Seq::<T>::empty());
        while j < count
            invariant
                self.wf_core(),
                self.block_len() == old(self).block_len(),
                j <= count <= start.len(),
                self@ == start.skip(j as int),
                batch@ == start.take(j as int),
            decreases count - j,
        {
            let ghost before = *self;
            proof {
                self.first.lemma_chain();
                assert(self@.len() == start.len() - j);
            }
            let item = self.first.consume_at(self.cons);
            self.cons = self.cons + 1;
            batch.push(item);
            j = j + 1;
            proof {
                self.first.lemma_chain();
                assert(item == before@[0]);
                assert(self@ =~= before@.skip(1));
                assert(start.skip(j as int) =~= start.skip(j - 1).skip(1));
                assert(start.take(j as int) =~= start.take(j - 1).push(before@[0]));
            }
        }
        self.collect();
        batch
    }

    /// Takes out the `slice.len()` oldest items into `slice`, in order, if
    /// the slice is not empty and at least that many items are there;
    /// otherwise changes nothing.
    pub fn recv_exact(&mut self, slice: &mut [T]) -> (got: Option<()>)
        requires
            old(self).wf(),
        ensures
            final(self).wf(),
            final(self).block_len() == old(self).block_len(),
            final(slice)@.len() == old(slice)@.len(),
            got is Some <==> 0 < old(slice)@.len() <= old(self)@.len(),
            got is Some ==> final(slice)@ == old(self)@.take(old(slice)@.len() as int)
                && final(self)@ == old(self)@.skip(old(slice)@.len() as int),
            got is None ==> final(slice)@ == old(slice)@ && final(self)@ == old(self)@,
    {
        let len = slice.len();
        let ghost start = self@;
        let mut batch = self.pull(Some(len), Some(len));
        let n = batch.len();
        if n == 0 {
            assert(start.skip(0) =~= start);
            return None;
        }
        let ghost pulled = batch@;
        assert(n == len && pulled == start.take(len as int));
        let mut i: usize = n;
        while i > 0
            invariant
                i <= n,
                n == len,
                batch@.len() == i,
                batch@ == pulled.take(i as int),
                pulled.len() == n,
                slice@.len() == len,
                forall|j: int| i <= j < n ==> slice@[j] == pulled[j],
            decreases i,
        {
            let item = batch.pop().unwrap();
            i = i - 1;
            slice[i] = item;
            assert(batch@ =~= pulled.take(i as int));
        }
        assert(slice@ =~= pulled);
        Some(())
    }

    /// Detaches every fully consumed first block that another block
    /// follows, and appends it, reset, at the end of the chain.
    fn collect(&mut self)
        requires
            old(self).wf_core(),
        ensures
            final(self).wf(),
            final(self)@ == old(self)@,
            final(self).block_len() == old(self).block_len(),
    {
        let block = 8 * self.flag_len;
        let mut collecting = true;
        while collecting
            invariant
                self.wf_core(),
                self@ == old(self)@,
                self.block_len() == old(self).block_len(),
                block == self.block_len(),
                !collecting ==> self.cons <= block,
            decreases self.cons + (if collecting { 1int } else { 0int }),
        {
            let ghost before = *self;
            proof {
                self.first.lemma_chain();
                self.first.lemma_uniform(block as nat);
            }
            match self.first.try_collect(&mut self.revision) {
                None => {
                    collecting = false;
                    proof {
                        if before.first.len() >= 2 {
                            let i = choose|i: int|
                                0 <= i < before.first.first_len() && !#[trigger] before.first.consumed()[i];
                            assert(before.first.consumed()[i] == (i < before.cons));
                        }
                    }
                },
                Some(c) => {
                    let n = c.slot_count();
                    proof {
                        assert(before.first.consumed()[n - 1]);
                    }
                    self.cons = self.cons - n;
                    self.prod = self.prod - n;
                    self.capacity = self.capacity - n;
                    self.first.recycle(c);
                    self.capacity = self.capacity + n;
                    proof {
                        self.first.lemma_chain();
                        let cap = self.capacity as int;
                        assert forall|p: int| 0 <= p < cap implies #[trigger] self.first.produced()[p]
                            == (p < self.prod) by {
                            if p < cap - n {
                                assert(self.first.produced()[p] == before.first.produced()[p + n]);
                            }
                        }
                        assert forall|p: int| 0 <= p < cap implies #[trigger] self.first.consumed()[p]
                            == (p < self.cons) by {
                            if p < cap - n {
                                assert(self.first.consumed()[p] == before.first.consumed()[p + n]);
                            }
                        }
                        assert(self@ =~= before@);
                    }
                },
            }
        }
    }
}

} // verus!
