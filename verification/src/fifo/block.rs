use vstd::prelude::*;

use super::flags::{flag_bit, set_slot_flag, get_slot_flag, clear_slot_flags, new_slot_flags};

verus! {

/// A block of item slots, with one "produced" and one "consumed" flag per slot.
pub struct Block<T> {
    /// The following block of the chain.
    pub next: BlockPointer<T>,
    /// Position of this block's first slot; only meaningful in the first block.
    pub offset: usize,
    /// Flags set by producers as they write into their slots.
    pub(crate) produced: Vec<u8>,
    /// Flags set by consumers as they read produced slots.
    pub(crate) consumed: Vec<u8>,
    pub(crate) slots: Vec<Option<T>>,
}

impl<T> Block<T> {
    /// Position recorded in this block.
    pub closed spec fn offset_view(&self) -> usize {
        self.offset
    }

    /// Link to the following block.
    pub closed spec fn next_view(&self) -> BlockPointer<T> {
        self.next
    }

    /// Number of item slots.
    pub open spec fn len(&self) -> nat {
        self.slots_view().len()
    }

    /// Number of flag bytes (a slot count of eight times this).
    pub closed spec fn flag_len(&self) -> nat {
        self.produced@.len()
    }

    /// Whether slot `i` has been produced.
    pub closed spec fn produced_at(&self, i: int) -> bool {
        flag_bit(self.produced@, i)
    }

    /// Whether slot `i` has been consumed.
    pub closed spec fn consumed_at(&self, i: int) -> bool {
        flag_bit(self.consumed@, i)
    }

    /// Content of the slots.
    pub closed spec fn slots_view(&self) -> Seq<Option<T>> {
        self.slots@
    }

    /// The produced flags, slot by slot.
    pub open spec fn produced_view(&self) -> Seq<bool> {
        Seq::new(self.len(), |i: int| self.produced_at(i))
    }

    /// The consumed flags, slot by slot.
    pub open spec fn consumed_view(&self) -> Seq<bool> {
        Seq::new(self.len(), |i: int| self.consumed_at(i))
    }

    /// Well-formedness: eight slots per flag byte, a slot is only consumed
    /// once produced, and a slot holds an item exactly while it is produced
    /// and not yet consumed.
    pub closed spec fn wf(&self) -> bool {
        &&& self.produced@.len() > 0
        &&& self.consumed@.len() == self.produced@.len()
        &&& self.slots@.len() == 8 * self.produced@.len()
        &&& forall|i: int|
            0 <= i < self.slots@.len() ==> #[trigger] flag_bit(self.consumed@, i) ==> flag_bit(
                self.produced@,
                i,
            )
        &&& forall|i: int|
            0 <= i < self.slots@.len() ==> (#[trigger] self.slots@[i]).is_some() == (flag_bit(
                self.produced@,
                i,
            ) && !flag_bit(self.consumed@, i))
    }

    /// What well-formedness gives of the views of a block.
    pub proof fn lemma_wf(&self)
        requires
            self.wf(),
        ensures
            self.flag_len() > 0,
            self.len() == 8 * self.flag_len(),
            forall|i: int| 0 <= i < self.len() ==> #[trigger] self.consumed_at(i) ==> self.produced_at(i),
            forall|i: int|
                0 <= i < self.len() ==> (#[trigger] self.slots_view()[i]).is_some() == (
                self.produced_at(i) && !self.consumed_at(i)),
    {
    }

    /// A new block of `8 * flag_len` empty slots, every flag cleared.
    pub fn new(flag_len: usize) -> (block: Block<T>)
        requires
            0 < flag_len,
            8 * flag_len <= usize::MAX,
        ensures
            block.wf(),
            block.flag_len() == flag_len,
            block.len() == 8 * flag_len,
            block.offset_view() == 0,
            block.next_view().len() == 0,
            forall|i: int| 0 <= i < block.len() ==> !#[trigger] block.produced_at(i),
            forall|i: int| 0 <= i < block.len() ==> !#[trigger] block.consumed_at(i),
            forall|i: int| 0 <= i < block.len() ==> (#[trigger] block.slots_view()[i]).is_none(),
    {
        let produced = new_slot_flags(flag_len);
        let consumed = new_slot_flags(flag_len);
        let len = 8 * flag_len;
        let mut slots: Vec<Option<T>> = Vec::new();
        let mut k: usize = 0;
        while k < len
            invariant
                k <= len,
                slots.len() == k,
                forall|i: int| 0 <= i < k ==> (#[trigger] slots@[i]).is_none(),
            decreases len - k,
        {
            slots.push(None);
            k = k + 1;
        }
        Block { next: BlockPointer::new(), offset: 0, produced, consumed, slots }
    }

    /// Number of item slots.
    pub fn slot_count(&self) -> (n: usize)
        ensures
            n == self.len(),
    {
        self.slots.len()
    }

    /// Whether every slot of this block has been consumed.
    pub fn fully_consumed(&self) -> (all: bool)
        requires
            self.wf(),
        ensures
            all == forall|i: int| 0 <= i < self.len() ==> #[trigger] self.consumed_at(i),
    {
        let len = self.slots.len();
        let mut i: usize = 0;
        while i < len
            invariant
                self.wf(),
                len == self.len(),
                i <= len,
                forall|j: int| 0 <= j < i ==> #[trigger] self.consumed_at(j),
            decreases len - i,
        {
            if !get_slot_flag(&self.consumed, i) {
                assert(!self.consumed_at(i as int));
                return false;
            }
            i = i + 1;
        }
        true
    }

    /// Clears the produced and consumed flags of a block, and empties its
    /// slots (an item still held in one is dropped).
    pub fn reset_flags(&mut self)
        requires
            old(self).wf(),
        ensures
            final(self).wf(),
            final(self).len() == old(self).len(),
            final(self).flag_len() == old(self).flag_len(),
            final(self).next_view() == old(self).next_view(),
            final(self).offset_view() == old(self).offset_view(),
            forall|i: int| 0 <= i < final(self).len() ==> (#[trigger] final(self).slots_view()[i]).is_none(),
            forall|i: int| 0 <= i < final(self).len() ==> !#[trigger] final(self).produced_at(i),
            forall|i: int| 0 <= i < final(self).len() ==> !#[trigger] final(self).consumed_at(i),
    {
        clear_slot_flags(&mut self.produced);
        clear_slot_flags(&mut self.consumed);
        let len = self.slots.len();
        let ghost produced = self.produced@;
        let ghost consumed = self.consumed@;
        let ghost next = self.next;
        let ghost offset = self.offset;
        let mut k: usize = 0;
        while k < len
            invariant
                k <= len,
                self.slots@.len() == len,
                self.produced@ == produced,
                self.consumed@ == consumed,
                self.next == next,
                self.offset == offset,
                forall|i: int| 0 <= i < k ==> (#[trigger] self.slots@[i]).is_none(),
            decreases len - k,
        {
            self.slots.set(k, None);
            k = k + 1;
        }
        assert forall|i: int| 0 <= i < self.slots@.len() implies (#[trigger] self.slots@[i]).is_some()
            == (flag_bit(self.produced@, i) && !flag_bit(self.consumed@, i)) by {
            assert(!flag_bit(self.produced@, i));
        }
    }

    /// Whether slot `i` has been produced.
    pub fn is_produced(&self, i: usize) -> (produced: bool)
        requires
            self.wf(),
            i < self.len(),
        ensures
            produced == self.produced_at(i as int),
    {
        get_slot_flag(&self.produced, i)
    }

    /// Writes `item` into slot `i`, which must not have been produced yet.
    pub fn produce(&mut self, i: usize, item: T)
        requires
            old(self).wf(),
            i < old(self).len(),
            !old(self).produced_at(i as int),
        ensures
            final(self).wf(),
            final(self).len() == old(self).len(),
            final(self).flag_len() == old(self).flag_len(),
            final(self).next_view() == old(self).next_view(),
            final(self).offset_view() == old(self).offset_view(),
            final(self).slots_view() == old(self).slots_view().update(i as int, Some(item)),
            final(self).produced_view() == old(self).produced_view().update(i as int, true),
            final(self).consumed_view() == old(self).consumed_view(),
    {
        let ghost before = *self;
        self.slots.set(i, Some(item));
        set_slot_flag(&mut self.produced, i);
        assert(self.produced_view() =~= before.produced_view().update(i as int, true));
        assert(self.consumed_view() =~= before.consumed_view());
    }

    /// Takes the item out of slot `i`, which must be produced and not yet consumed.
    pub fn consume(&mut self, i: usize) -> (item: T)
        requires
            old(self).wf(),
            i < old(self).len(),
            old(self).produced_at(i as int),
            !old(self).consumed_at(i as int),
        ensures
            final(self).wf(),
            final(self).len() == old(self).len(),
            final(self).flag_len() == old(self).flag_len(),
            final(self).next_view() == old(self).next_view(),
            final(self).offset_view() == old(self).offset_view(),
            old(self).slots_view()[i as int] == Some(item),
            final(self).slots_view() == old(self).slots_view().update(i as int, None),
            final(self).produced_view() == old(self).produced_view(),
            final(self).consumed_view() == old(self).consumed_view().update(i as int, true),
    {
        let ghost before = *self;
        let mut taken: Option<T> = None;
        self.slots.set_and_swap(i, &mut taken);
        set_slot_flag(&mut self.consumed, i);
        assert(self.produced_view() =~= before.produced_view());
        assert(self.consumed_view() =~= before.consumed_view().update(i as int, true));
        taken.unwrap()
    }
}

/// Link to the next block of a chain (`None` at the end of the chain).
///
/// A chain is read through the flattened sequences of its slots and flags:
/// the slots of its first block, followed by those of the rest of the chain.
pub struct BlockPointer<T> {
    inner: Option<Box<Block<T>>>,
}

/// A first block detached from its chain once fully consumed.
pub struct CollectedBlock<T> {
    /// Ordinal of this collection.
    pub revision: usize,
    block: Box<Block<T>>,
}

impl<T> BlockPointer<T> {
    /// Number of blocks in the chain starting here.
    pub closed spec fn len(&self) -> nat
        decreases self,
    {
        match self.inner {
            None => 0,
            Some(b) => 1 + b.next.len(),
        }
    }

    /// Every block of the chain is well-formed.
    pub closed spec fn chain_wf(&self) -> bool
        decreases self,
    {
        match self.inner {
            None => true,
            Some(b) => b.wf() && b.next.chain_wf(),
        }
    }

    /// Every block of the chain has `n` slots.
    pub closed spec fn uniform(&self, n: nat) -> bool
        decreases self,
    {
        match self.inner {
            None => true,
            Some(b) => b.len() == n && b.next.uniform(n),
        }
    }

    /// Every block of the chain records offset zero.
    pub closed spec fn offsets_zero(&self) -> bool
        decreases self,
    {
        match self.inner {
            None => true,
            Some(b) => b.offset == 0 && b.next.offsets_zero(),
        }
    }

    /// The slots of the whole chain, in order.
    pub closed spec fn slots(&self) -> Seq<Option<T>>
        decreases self,
    {
        match self.inner {
            None => Seq::empty(),
            Some(b) => b.slots_view() + b.next.slots(),
        }
    }

    /// The produced flags of the whole chain, in order.
    pub closed spec fn produced(&self) -> Seq<bool>
        decreases self,
    {
        match self.inner {
            None => Seq::empty(),
            Some(b) => b.produced_view() + b.next.produced(),
        }
    }

    /// The consumed flags of the whole chain, in order.
    pub closed spec fn consumed(&self) -> Seq<bool>
        decreases self,
    {
        match self.inner {
            None => Seq::empty(),
            Some(b) => b.consumed_view() + b.next.consumed(),
        }
    }

    /// Number of slots in the first block (zero for an empty chain).
    pub closed spec fn first_len(&self) -> nat {
        match self.inner {
            None => 0,
            Some(b) => b.len(),
        }
    }

    /// Offset recorded in the first block (zero for an empty chain).
    pub closed spec fn first_offset(&self) -> usize {
        match self.inner {
            None => 0,
            Some(b) => b.offset,
        }
    }

    /// Every block after the first records offset zero.
    pub closed spec fn rest_offsets_zero(&self) -> bool {
        match self.inner {
            None => true,
            Some(b) => b.next.offsets_zero(),
        }
    }

    /// What well-formedness gives of the flattened sequences.
    pub proof fn lemma_chain(&self)
        requires
            self.chain_wf(),
        ensures
            self.produced().len() == self.slots().len(),
            self.consumed().len() == self.slots().len(),
            self.first_len() <= self.slots().len(),
            self.len() == 0 <==> self.slots().len() == 0,
            self.len() > 0 ==> self.first_len() > 0,
            self.len() == 1 ==> self.slots().len() == self.first_len(),
            forall|p: int| 0 <= p < self.slots().len() ==> #[trigger] self.consumed()[p] ==> self.produced()[p],
            forall|p: int|
                0 <= p < self.slots().len() ==> (#[trigger] self.slots()[p]).is_some() == (
                self.produced()[p] && !self.consumed()[p]),
        decreases self,
    {
        match self.inner {
            None => {},
            Some(b) => {
                b.lemma_wf();
                b.next.lemma_chain();
                let n = b.len() as int;
                assert forall|p: int| 0 <= p < self.slots().len() && #[trigger] self.consumed()[p]
                    implies self.produced()[p] by {
                    if p < n {
                        assert(self.consumed()[p] == b.consumed_at(p));
                        assert(self.produced()[p] == b.produced_at(p));
                    } else {
                        assert(self.consumed()[p] == b.next.consumed()[p - n]);
                        assert(self.produced()[p] == b.next.produced()[p - n]);
                    }
                }
                assert forall|p: int| 0 <= p < self.slots().len() implies (
                #[trigger] self.slots()[p]).is_some() == (self.produced()[p] && !self.consumed()[p]) by {
                    if p < n {
                        assert(self.slots()[p] == b.slots_view()[p]);
                        assert(self.consumed()[p] == b.consumed_at(p));
                        assert(self.produced()[p] == b.produced_at(p));
                    } else {
                        assert(self.slots()[p] == b.next.slots()[p - n]);
                        assert(self.consumed()[p] == b.next.consumed()[p - n]);
                        assert(self.produced()[p] == b.next.produced()[p - n]);
                    }
                }
            },
        }
    }

    /// In a uniform chain, the first block has the common length.
    pub proof fn lemma_uniform(&self, n: nat)
        requires
            self.uniform(n),
            self.len() > 0,
        ensures
            self.first_len() == n,
    {
    }

    /// An empty link.
    pub fn new() -> (p: Self)
        ensures
            p.len() == 0,
            p.chain_wf(),
            forall|n: nat| p.uniform(n),
            p.offsets_zero(),
            p.slots() == Seq::<Option<T>>::empty(),
            p.produced() == Seq::<bool>::empty(),
            p.consumed() == Seq::<bool>::empty(),
    {
        BlockPointer { inner: None }
    }

    /// The block this link points to, if any.
    pub fn load(&self) -> (block: Option<&Block<T>>)
        ensures
            block is None <==> self.len() == 0,
            block matches Some(b) ==> b.len() == self.first_len() && b.offset_view()
                == self.first_offset(),
    {
        match &self.inner {
            None => None,
            Some(b) => Some(&**b),
        }
    }

    /// Adds `tail` at the end of the chain.
    pub fn append(&mut self, tail: Box<Block<T>>)
        requires
            tail.next_view().len() == 0,
        ensures
            final(self).len() == old(self).len() + 1,
            final(self).slots() == old(self).slots() + tail.slots_view(),
            final(self).produced() == old(self).produced() + tail.produced_view(),
            final(self).consumed() == old(self).consumed() + tail.consumed_view(),
            old(self).chain_wf() && tail.wf() ==> final(self).chain_wf(),
            forall|n: nat| old(self).uniform(n) && tail.len() == n ==> final(self).uniform(n),
            old(self).offsets_zero() && tail.offset_view() == 0 ==> final(self).offsets_zero(),
            old(self).len() > 0 ==> final(self).first_len() == old(self).first_len()
                && final(self).first_offset() == old(self).first_offset(),
            old(self).len() > 0 && old(self).rest_offsets_zero() && tail.offset_view() == 0
                ==> final(self).rest_offsets_zero(),
            old(self).len() == 0 ==> final(self).first_len() == tail.len()
                && final(self).first_offset() == tail.offset_view() && final(self).rest_offsets_zero(),
        decreases old(self).len(),
    {
        match self.inner.take() {
            None => {
                proof {
                    tail.next.lemma_empty();
                }
                self.inner = Some(tail);
                assert(self.slots() =~= tail.slots_view());
                assert(self.produced() =~= tail.produced_view());
                assert(self.consumed() =~= tail.consumed_view());
            },
            Some(mut b) => {
                let ghost before = *b;
                b.next.append(tail);
                self.inner = Some(b);
                assert forall|n: nat| old(self).uniform(n) && tail.len() == n implies self.uniform(
                    n,
                ) by {
                    assert(before.next.uniform(n));
                }
                assert(self.slots() =~= old(self).slots() + tail.slots_view());
                assert(self.produced() =~= old(self).produced() + tail.produced_view());
                assert(self.consumed() =~= old(self).consumed() + tail.consumed_view());
            },
        }
    }

    /// Allocates a new block of `8 * flag_len` empty slots and adds it at the
    /// end of the chain.
    pub fn append_new(&mut self, flag_len: usize)
        requires
            0 < flag_len,
            8 * flag_len <= usize::MAX,
        ensures
            final(self).len() == old(self).len() + 1,
            final(self).slots() == old(self).slots() + Seq::new(8 * flag_len as nat, |i: int| None::<T>),
            final(self).produced() == old(self).produced() + Seq::new(8 * flag_len as nat, |i: int| false),
            final(self).consumed() == old(self).consumed() + Seq::new(8 * flag_len as nat, |i: int| false),
            old(self).chain_wf() ==> final(self).chain_wf(),
            old(self).uniform(8 * flag_len as nat) ==> final(self).uniform(8 * flag_len as nat),
            old(self).offsets_zero() ==> final(self).offsets_zero(),
            old(self).len() > 0 ==> final(self).first_len() == old(self).first_len()
                && final(self).first_offset() == old(self).first_offset(),
            old(self).len() > 0 && old(self).rest_offsets_zero() ==> final(self).rest_offsets_zero(),
            old(self).len() == 0 ==> final(self).first_len() == 8 * flag_len
                && final(self).first_offset() == 0 && final(self).rest_offsets_zero(),
    {
        let block: Block<T> = Block::new(flag_len);
        assert(block.slots_view() =~= Seq::new(8 * flag_len as nat, |i: int| None::<T>));
        assert(block.produced_view() =~= Seq::new(8 * flag_len as nat, |i: int| false));
        assert(block.consumed_view() =~= Seq::new(8 * flag_len as nat, |i: int| false));
        self.append(Box::new(block));
    }

    /// Writes `item` at position `p` of the chain, which must not have been
    /// produced yet.
    pub fn produce_at(&mut self, p: usize, item: T)
        requires
            old(self).chain_wf(),
            p < old(self).slots().len(),
            !old(self).produced()[p as int],
        ensures
            final(self).chain_wf(),
            final(self).len() == old(self).len(),
            final(self).first_len() == old(self).first_len(),
            final(self).first_offset() == old(self).first_offset(),
            final(self).offsets_zero() == old(self).offsets_zero(),
            final(self).rest_offsets_zero() == old(self).rest_offsets_zero(),
            forall|n: nat| old(self).uniform(n) ==> final(self).uniform(n),
            final(self).slots() == old(self).slots().update(p as int, Some(item)),
            final(self).produced() == old(self).produced().update(p as int, true),
            final(self).consumed() == old(self).consumed(),
        decreases old(self).len(),
    {
        proof {
            old(self).lemma_chain();
        }
        let mut b = self.inner.take().unwrap();
        let ghost before = *b;
        let n = b.slot_count();
        if p < n {
            assert(before.produced_view()[p as int] == old(self).produced()[p as int]);
            b.produce(p, item);
        } else {
            proof {
                before.next.lemma_chain();
                assert(old(self).produced()[p as int] == before.next.produced()[p - n]);
            }
            b.next.produce_at(p - n, item);
        }
        self.inner = Some(b);
        assert forall|n: nat| old(self).uniform(n) implies self.uniform(n) by {
            assert(before.next.uniform(n));
        }
        assert(self.slots() =~= old(self).slots().update(p as int, Some(item)));
        assert(self.produced() =~= old(self).produced().update(p as int, true));
        assert(self.consumed() =~= old(self).consumed());
    }

    /// Takes the item at position `p` of the chain, which must be produced
    /// and not yet consumed.
    pub fn consume_at(&mut self, p: usize) -> (item: T)
        requires
            old(self).chain_wf(),
            p < old(self).slots().len(),
            old(self).produced()[p as int],
            !old(self).consumed()[p as int],
        ensures
            final(self).chain_wf(),
            final(self).len() == old(self).len(),
            final(self).first_len() == old(self).first_len(),
            final(self).first_offset() == old(self).first_offset(),
            final(self).offsets_zero() == old(self).offsets_zero(),
            final(self).rest_offsets_zero() == old(self).rest_offsets_zero(),
            forall|n: nat| old(self).uniform(n) ==> final(self).uniform(n),
            old(self).slots()[p as int] == Some(item),
            final(self).slots() == old(self).slots().update(p as int, None),
            final(self).produced() == old(self).produced(),
            final(self).consumed() == old(self).consumed().update(p as int, true),
        decreases old(self).len(),
    {
        proof {
            old(self).lemma_chain();
        }
        let mut b = self.inner.take().unwrap();
        let ghost before = *b;
        let n = b.slot_count();
        let item;
        if p < n {
            assert(before.produced_view()[p as int] == old(self).produced()[p as int]);
            assert(before.consumed_view()[p as int] == old(self).consumed()[p as int]);
            item = b.consume(p);
            assert(old(self).slots()[p as int] == before.slots_view()[p as int]);
        } else {
            proof {
                before.next.lemma_chain();
                assert(old(self).produced()[p as int] == before.next.produced()[p - n]);
                assert(old(self).consumed()[p as int] == before.next.consumed()[p - n]);
            }
            item = b.next.consume_at(p - n);
            assert(old(self).slots()[p as int] == before.next.slots()[p - n]);
        }
        self.inner = Some(b);
        assert forall|n: nat| old(self).uniform(n) implies self.uniform(n) by {
            assert(before.next.uniform(n));
        }
        assert(self.slots() =~= old(self).slots().update(p as int, None));
        assert(self.produced() =~= old(self).produced());
        assert(self.consumed() =~= old(self).consumed().update(p as int, true));
        item
    }

    /// Detaches the first block if it is fully consumed and followed by
    /// another block, which then becomes the first block and records the
    /// position that follows the detached one.
    pub fn try_collect(&mut self, revision: &mut usize) -> (collected: Option<CollectedBlock<T>>)
        requires
            old(self).chain_wf(),
            old(self).rest_offsets_zero(),
        ensures
            final(self).chain_wf(),
            final(self).rest_offsets_zero(),
            collected is Some <==> (old(self).len() >= 2 && forall|i: int|
                0 <= i < old(self).first_len() ==> #[trigger] old(self).consumed()[i]),
            collected is None ==> *final(self) == *old(self) && *final(revision) == *old(revision),
            collected matches Some(c) ==> {
                &&& c.wf()
                &&& c.revision_view() == *old(revision)
                &&& *final(revision) == old(revision).wrapping_add(1)
                &&& c.len() == old(self).first_len()
                &&& forall|n: nat| old(self).uniform(n) ==> final(self).uniform(n)
                &&& final(self).len() == old(self).len() - 1
                &&& final(self).first_offset() == old(self).first_offset().wrapping_add(
                    old(self).first_len() as usize,
                )
                &&& final(self).slots() == old(self).slots().skip(old(self).first_len() as int)
                &&& final(self).produced() == old(self).produced().skip(
                    old(self).first_len() as int,
                )
                &&& final(self).consumed() == old(self).consumed().skip(
                    old(self).first_len() as int,
                )
            },
    {
        let this = match self.inner.take() {
            None => {
                return None;
            },
            Some(b) => b,
        };
        let ghost before = *this;
        if this.next.inner.is_none() {
            assert(before.next.len() == 0);
            self.inner = Some(this);
            return None;
        }
        if !this.fully_consumed() {
            proof {
                let i = choose|i: int| 0 <= i < before.len() && !#[trigger] before.consumed_at(i);
                assert(old(self).consumed()[i] == before.consumed_view()[i]);
            }
            self.inner = Some(this);
            return None;
        }
        let mut this = this;
        let mut next = this.next.inner.take().unwrap();
        let ghost after_first = *next;
        proof {
            assert forall|i: int| 0 <= i < old(self).first_len() implies #[trigger] old(
                self,
            ).consumed()[i] by {
                assert(old(self).consumed()[i] == before.consumed_view()[i]);
            }
            before.lemma_wf();
        }
        let len = this.slot_count();
        next.offset = this.offset.wrapping_add(len);
        self.inner = Some(next);
        assert(before.next.slots() == after_first.slots_view() + after_first.next.slots());
        assert(before.next.chain_wf() == (after_first.wf() && after_first.next.chain_wf()));
        assert(before.next.len() == 1 + after_first.next.len());
        assert forall|n: nat| old(self).uniform(n) implies self.uniform(n) by {
            assert(before.next.uniform(n));
            assert(after_first.next.uniform(n));
        }
        assert(before.next.offsets_zero() ==> after_first.next.offsets_zero());
        assert(before.next.produced() == after_first.produced_view() + after_first.next.produced());
        assert(before.next.consumed() == after_first.consumed_view() + after_first.next.consumed());
        assert(self.slots() =~= old(self).slots().skip(len as int));
        assert(self.produced() =~= old(self).produced().skip(len as int));
        assert(self.consumed() =~= old(self).consumed().skip(len as int));
        let rev = *revision;
        *revision = revision.wrapping_add(1);
        assert(this.consumed@ == before.consumed@);
        assert(this.produced@ == before.produced@);
        assert(this.slots@ == before.slots@);
        let c = CollectedBlock { revision: rev, block: this };
        assert forall|i: int| 0 <= i < c.block.len() implies #[trigger] c.block.consumed_at(i) by {
            assert(before.consumed_at(i));
        }
        assert(c.wf());
        assert(c.len() == old(self).first_len());
        assert(self.len() == old(self).len() - 1);
        assert(self.first_offset() == old(self).first_offset().wrapping_add(old(self).first_len() as usize));
        Some(c)
    }

    /// Resets a collected block and adds it at the end of the chain.
    pub fn recycle(&mut self, collected: CollectedBlock<T>)
        requires
            collected.wf(),
        ensures
            final(self).len() == old(self).len() + 1,
            final(self).slots() == old(self).slots() + Seq::new(collected.len(), |i: int| None::<T>),
            final(self).produced() == old(self).produced() + Seq::new(collected.len(), |i: int| false),
            final(self).consumed() == old(self).consumed() + Seq::new(collected.len(), |i: int| false),
            old(self).chain_wf() ==> final(self).chain_wf(),
            old(self).uniform(collected.len()) ==> final(self).uniform(collected.len()),
            old(self).offsets_zero() ==> final(self).offsets_zero(),
            old(self).len() > 0 ==> final(self).first_len() == old(self).first_len()
                && final(self).first_offset() == old(self).first_offset(),
            old(self).len() > 0 && old(self).rest_offsets_zero() ==> final(self).rest_offsets_zero(),
    {
        let block = collected.recycle();
        assert(block.slots_view() =~= Seq::new(collected.len(), |i: int| None::<T>));
        assert(block.produced_view() =~= Seq::new(collected.len(), |i: int| false));
        assert(block.consumed_view() =~= Seq::new(collected.len(), |i: int| false));
        self.append(block);
    }

    /// An empty chain has empty sequences.
    pub proof fn lemma_empty(&self)
        requires
            self.len() == 0,
        ensures
            self.chain_wf(),
            self.offsets_zero(),
            self.slots() == Seq::<Option<T>>::empty(),
            self.produced() == Seq::<bool>::empty(),
            self.consumed() == Seq::<bool>::empty(),
    {
    }
}


impl<T> CollectedBlock<T> {
    /// Ordinal of this collection.
    pub closed spec fn revision_view(&self) -> usize {
        self.revision
    }

    /// Number of slots of the collected block.
    pub closed spec fn len(&self) -> nat {
        self.block.len()
    }

    /// The collected block is well-formed, detached, and every slot is consumed.
    pub closed spec fn wf(&self) -> bool {
        &&& self.block.wf()
        &&& self.block.next.len() == 0
        &&& forall|i: int| 0 <= i < self.block.len() ==> #[trigger] self.block.consumed_at(i)
    }

    /// Number of slots of the collected block.
    pub fn slot_count(&self) -> (n: usize)
        ensures
            n == self.len(),
    {
        self.block.slot_count()
    }

    /// The block, emptied of its flags and offset, ready to be appended again.
    pub fn recycle(self) -> (block: Box<Block<T>>)
        requires
            self.wf(),
        ensures
            block.wf(),
            block.len() == self.len(),
            block.next_view().len() == 0,
            block.offset_view() == 0,
            forall|i: int| 0 <= i < block.len() ==> !#[trigger] block.produced_at(i),
            forall|i: int| 0 <= i < block.len() ==> !#[trigger] block.consumed_at(i),
            forall|i: int| 0 <= i < block.len() ==> (#[trigger] block.slots_view()[i]).is_none(),
    {
        let mut block = self.block;
        proof {
            assert forall|i: int| 0 <= i < block.len() implies (
            #[trigger] block.slots_view()[i]).is_none() by {
                assert(block.consumed_at(i));
            }
        }
        block.offset = 0;
        block.reset_flags();
        block
    }
}

} // verus!
