//! Fifos own a chain of blocks of item slots.
//!
//! - blocks have a configurable number of item slots
//! - they are appended to the chain by producers when more room is needed
//! - they are populated by producers and consumed by consumers
//! - fully consumed first blocks get recycled and appended again at the end of the chain
//! - cursors track which slots are available for production and consumption

pub mod flags;
pub mod block;
pub mod queue;
pub mod storage;
pub mod counter;
pub mod api;
pub mod async_api;

pub use api::{Producer, Consumer, BlockSize, new, new_vec, new_box};
pub use api::{SmallBlockSize, DefaultBlockSize, LargeBlockSize, HugeBlockSize};
pub use storage::{Storage, TmpArray};
pub use async_api::{Closed, Recv, Fill, RecvOne, RecvArray, FillMany, FillExact, FillStorage, RecvStorage};
pub mod laws;
