//! # `Slot<T>`
//!
//! You can atomically swap the contents of this slot from any thread.
//! Think of it as `Mutex<Option<Box<T>>>` with a "locked" state that keeps
//! items out until it is unlocked.

use vstd::prelude::*;
use vstd::rwlock::RwLockPredicate;

use crate::locked::Locked;
use crate::channel::oneshot::{Sender, Receiver};

verus! {

/// What a slot holds.
pub enum SlotState<T> {
    /// Nothing; an item can be inserted.
    Empty,
    /// Nothing, and items are kept out until the slot is unlocked.
    Locked,
    /// An item.
    Full(Box<T>),
}

impl<T> SlotState<T> {
    /// The state and the result of `try_insert(item)`.
    pub open spec fn try_insert_spec(self, item: Box<T>) -> (SlotState<T>, Result<(), Box<T>>) {
        match self {
            SlotState::Empty => (SlotState::Full(item), Ok(())),
            _ => (self, Err(item)),
        }
    }

    /// The state and the result of `insert(item)`.
    pub open spec fn insert_spec(self, item: Box<T>) -> (SlotState<T>, Option<Box<T>>) {
        (
            SlotState::Full(item),
            match self {
                SlotState::Full(b) => Some(b),
                _ => None,
            },
        )
    }

    /// The state and the result of `try_take(lock)`.
    pub open spec fn take_spec(self, lock: bool) -> (SlotState<T>, Option<Box<T>>) {
        match self {
            SlotState::Full(b) => (
                if lock {
                    SlotState::Locked
                } else {
                    SlotState::Empty
                },
                Some(b),
            ),
            _ => (self, None),
        }
    }

    /// Whether the slot is locked.
    pub open spec fn is_locked_spec(self) -> bool {
        self is Locked
    }

    /// The state and the result of `unlock()`.
    pub open spec fn unlock_spec(self) -> (SlotState<T>, bool) {
        match self {
            SlotState::Locked => (SlotState::Empty, true),
            _ => (self, false),
        }
    }

    /// Puts `item` in if the slot is empty; otherwise gives it back.
    pub fn try_insert(&mut self, item: Box<T>) -> (result: Result<(), Box<T>>)
        ensures
            (*final(self), result) == old(self).try_insert_spec(item),
    {
        match self {
            SlotState::Empty => {
                *self = SlotState::Full(item);
                Ok(())
            },
            _ => Err(item),
        }
    }

    /// Puts `item` in, whatever the slot held, and discards the "locked"
    /// state. Gives back the previous item, if any.
    pub fn insert(&mut self, item: Box<T>) -> (previous: Option<Box<T>>)
        ensures
            (*final(self), previous) == old(self).insert_spec(item),
    {
        let mut old_state = SlotState::Full(item);
        std::mem::swap(self, &mut old_state);
        match old_state {
            SlotState::Full(b) => Some(b),
            _ => None,
        }
    }

    /// Takes the item out, if any, leaving the slot locked if `lock` is set
    /// and empty otherwise.
    pub fn try_take(&mut self, lock: bool) -> (taken: Option<Box<T>>)
        ensures
            (*final(self), taken) == old(self).take_spec(lock),
    {
        let next = if lock {
            SlotState::Locked
        } else {
            SlotState::Empty
        };
        match self {
            SlotState::Full(_) => {
                let mut old_state = next;
                std::mem::swap(self, &mut old_state);
                match old_state {
                    SlotState::Full(b) => Some(b),
                    _ => None,
                }
            },
            _ => None,
        }
    }

    /// Whether the slot is locked.
    pub fn is_locked(&self) -> (locked: bool)
        ensures
            locked == (*self is Locked),
    {
        match self {
            SlotState::Locked => true,
            _ => false,
        }
    }

    /// Empties a locked slot; does nothing otherwise. Returns whether the
    /// slot was locked.
    pub fn unlock(&mut self) -> (unlocked: bool)
        ensures
            (*final(self), unlocked) == old(self).unlock_spec(),
    {
        match self {
            SlotState::Locked => {
                *self = SlotState::Empty;
                true
            },
            _ => false,
        }
    }
}

/// What a slot gives back is what was last put in: an item inserted is the
/// item that the next take returns.
pub proof fn law_take_returns_inserted<T>(state: SlotState<T>, item: Box<T>, lock: bool)
    ensures
        state.insert_spec(item).0.take_spec(lock).1 == Some(item),
        state.insert_spec(item).0.take_spec(lock).0 == if lock {
            SlotState::<T>::Locked
        } else {
            SlotState::<T>::Empty
        },
{
}

/// `try_insert` never loses an item: it stores it, or gives it back and
/// leaves the slot as it was.
pub proof fn law_try_insert_keeps_item<T>(state: SlotState<T>, item: Box<T>)
    ensures
        state.try_insert_spec(item).1 is Ok <==> state is Empty,
        state.try_insert_spec(item).1 is Ok ==> state.try_insert_spec(item).0 == SlotState::Full(item),
        state.try_insert_spec(item).1 is Err ==> state.try_insert_spec(item).1 == Err::<(), Box<T>>(item)
            && state.try_insert_spec(item).0 == state,
{
}

/// A slot emptied with `lock` set refuses items until it is unlocked, and
/// takes them again afterwards.
pub proof fn law_lock_until_unlock<T>(content: Box<T>, item: Box<T>)
    ensures
        ({
            let locked = SlotState::Full(content).take_spec(true).0;
            &&& locked.try_insert_spec(item) == (locked, Err::<(), Box<T>>(item))
            &&& locked.unlock_spec() == (SlotState::<T>::Empty, true)
            &&& locked.unlock_spec().0.try_insert_spec(item) == (SlotState::Full(item), Ok::<(), Box<T>>(()))
        }),
{
}

/// A take from a slot that holds no item gives nothing and changes nothing,
/// whatever `lock` is: only a taken item is replaced by the locked state.
pub proof fn law_take_without_item_changes_nothing<T>(state: SlotState<T>, lock: bool)
    requires
        !(state is Full),
    ensures
        state.take_spec(lock) == (state, None::<Box<T>>),
        forall|item: Box<T>| (#[trigger] state.take_spec(lock).0.try_insert_spec(item)).1 is Ok <==> state is Empty,
{
}

/// A take from a slot that holds an item gives that very item, and leaves
/// the slot locked exactly when `lock` is set.
pub proof fn law_take_gives_held_item<T>(item: Box<T>, lock: bool)
    ensures
        SlotState::Full(item).take_spec(lock).1 == Some(item),
        (SlotState::Full(item).take_spec(lock).0 is Locked) == lock,
        SlotState::Full(item).take_spec(lock).0 !is Full,
{
}

/// Unlocking changes only a locked slot, which it empties: any other slot,
/// holding an item or not, is left as it was, and `false` is returned.
pub proof fn law_unlock_changes_only_locked<T>(state: SlotState<T>)
    ensures
        state.unlock_spec().1 == (state is Locked),
        !(state is Locked) ==> state.unlock_spec().0 == state,
        state is Locked ==> state.unlock_spec().0 is Empty,
        forall|item: Box<T>| state == SlotState::Full(item) ==> state.unlock_spec().0.take_spec(false).1 == Some(item),
{
}

/// Every state is allowed in a slot.
pub struct AnyState;

impl<T> RwLockPredicate<SlotState<T>> for AnyState {
    open spec fn inv(self, state: SlotState<T>) -> bool {
        true
    }
}

/// Atomically Swappable `Option<Box<T>>`
///
/// Each operation applies the corresponding [`SlotState`] operation to the
/// state the slot holds at that moment, exclusively; its contract says that
/// its result is that operation's result on some state. Which state that is
/// depends on the operations of the other holders of the slot, and is not
/// carried in the contracts.
pub struct Slot<T> {
    inner: Locked<SlotState<T>, AnyState>,
}

impl<T> Slot<T> {
    /// Creates a new `Slot` with an initial item inside.
    pub fn new(item: Box<T>) -> Self {
        Slot { inner: Locked::new(SlotState::Full(item), Ghost(AnyState)) }
    }

    /// Creates an empty `Slot`.
    pub fn none() -> Self {
        Slot { inner: Locked::new(SlotState::Empty, Ghost(AnyState)) }
    }

    /// Tries to push an item into this slot, failing if it's occupied or
    /// locked, in which case the item is given back.
    pub fn try_insert(&self, item: Box<T>) -> (result: Result<(), Box<T>>)
        ensures
            result matches Err(b) ==> b == item,
            exists|held: SlotState<T>| #[trigger] held.try_insert_spec(item).1 == result,
    {
        let (mut state, handle) = self.inner.acquire();
        let ghost held = state;
        let result = state.try_insert(item);
        assert(held.try_insert_spec(item).1 == result);
        handle.release_write(state);
        result
    }

    /// Forcibly pushes an item into this slot, returning the previous content.
    ///
    /// This discards the "locked" flag.
    pub fn insert(&self, item: Box<T>) -> (previous: Option<Box<T>>)
        ensures
            exists|held: SlotState<T>| #[trigger] held.insert_spec(item).1 == previous,
    {
        let (mut state, handle) = self.inner.acquire();
        let ghost held = state;
        let previous = state.insert(item);
        assert(held.insert_spec(item).1 == previous);
        handle.release_write(state);
        previous
    }

    /// Tries to extract the contained item.
    ///
    /// Setting `lock` to `true` will prevent pushing into this slot again.
    pub fn try_take(&self, lock: bool) -> (taken: Option<Box<T>>)
        ensures
            exists|held: SlotState<T>| #[trigger] held.take_spec(lock).1 == taken,
    {
        let (mut state, handle) = self.inner.acquire();
        let ghost held = state;
        let taken = state.try_take(lock);
        assert(held.take_spec(lock).1 == taken);
        handle.release_write(state);
        taken
    }

    /// Whether this slot is locked.
    pub fn is_locked(&self) -> (locked: bool)
        ensures
            exists|held: SlotState<T>| #[trigger] held.is_locked_spec() == locked,
    {
        let (state, handle) = self.inner.acquire();
        let locked = state.is_locked();
        assert(state.is_locked_spec() == locked);
        handle.release_write(state);
        locked
    }

    /// Forcibly unlocks this slot.
    ///
    /// Does nothing if the slot isn't locked. Returns whether it was.
    pub fn unlock(&self) -> (unlocked: bool)
        ensures
            exists|held: SlotState<T>| #[trigger] held.unlock_spec().1 == unlocked,
    {
        let (mut state, handle) = self.inner.acquire();
        let ghost held = state;
        let unlocked = state.unlock();
        assert(held.unlock_spec().1 == unlocked);
        handle.release_write(state);
        unlocked
    }
}

/// Create a new oneshot channel, returning a sender/receiver pair.
pub fn oneshot<T>() -> (channel: (Sender<T>, Receiver<T>))
    ensures
        channel.1.paired_with(&channel.0),
{
    crate::channel::oneshot::new()
}

} // verus!
