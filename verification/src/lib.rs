//! Multi-producer multi-consumer FIFO channels, one-shot channels and
//! swappable slots, built on a chain of blocks of item slots whose
//! bookkeeping (slot flags, production and consumption cursors, recycling of
//! consumed blocks) is verified to deliver every item exactly once, in order.
//!
//! (The main items of the `channel` module are re-exported here at the root.)

pub mod task;
pub mod locked;
pub mod slot;
pub mod fifo;
pub mod channel;

pub use channel::{new, Sender, Receiver, Closed, Recv, Fill, FillMany, FillExact, RecvOne, RecvArray, FillStorage, RecvStorage};
