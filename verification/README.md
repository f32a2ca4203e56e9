# async_fifo

FIFO channels (multi-producer, multi-consumer, every item delivered to exactly
one consumer, in order, in atomic batches), one-shot channels and swappable
slots, written in Verus.

## Layout

- `src/fifo/flags.rs`: packed per-slot flags (eight per byte).
- `src/fifo/block.rs`: blocks of item slots with produced/consumed flags, the
  chain of blocks (`BlockPointer`), and the collection and recycling of fully
  consumed first blocks.
- `src/fifo/queue.rs`: `Fifo`, a chain with a production and a consumption
  cursor; its view is the sequence of items between the cursors.
- `src/fifo/laws.rs`: what holds of every run of a fifo (exactly once, in
  order, within the bounds of the receiving storage).
- `src/fifo/storage.rs`: the `Storage` trait that receives fill, and its
  implementations.
- `src/fifo/api.rs`, `src/fifo/async_api.rs`: producer and consumer handles
  sharing a fifo behind a lock, and the polling steps of asynchronous receives.
- `src/channel/`: senders and receivers with subscribed wakers, one-shot
  channels.
- `src/slot.rs`: the slot state machine and the shared `Slot`.
- `app/`: futures over the polling steps, a thread-parking executor, blocking
  receives, and `AsyncRead` for byte channels.

The handles share their fifo through vstd's verified `RwLock`, whose invariant
is the fifo's well-formedness. What a handle receives depends on what other
handles did before it took the lock, so the exact contracts stand on `Fifo`,
`BlockPointer`, `Block` and `SlotState`, which the handles call under the lock.

vstd's `RwLock` keeps its value in a cell that it never drops. So when the
last handle of a fifo, a channel or a slot goes away, the items still queued
in it are not dropped: their memory is not reclaimed and their destructors do
not run. Receive everything that was sent to avoid this.

Dropping the last `Sender` of a channel counts the sender out, but wakes no
receiver: the receiver learns that the channel is closed at its next poll.

A send always returns at once, but a batch goes in only if the fifo's
cursors can count that many more items (they are `usize`, and a fifo keeps
room for two blocks beyond its items); otherwise the whole batch is left out.
Strict order and exactly-once delivery are proved of `Fifo` (see
`src/fifo/laws.rs`); the handles apply `Fifo`'s operations under the lock.
