//! Channels based on [`crate::fifo`]: asynchronous senders and receivers,
//! and one-shot channels.

use vstd::prelude::*;

use crate::fifo::api::{DefaultBlockSize, BlockSize};

pub mod non_blocking;
pub mod subscription;
pub mod async_api;
pub mod future;
pub mod oneshot;
pub mod async_read;

pub use async_api::{Sender, Receiver};
pub use future::{Closed, Recv, Fill, FillMany, FillExact, RecvOne, RecvArray, FillStorage, RecvStorage};

verus! {

/// Creates a channel with the default block size.
pub fn new<T>() -> (channel: (Sender<T>, Receiver<T>))
    ensures
        channel.1.fed_by(&channel.0),
{
    DefaultBlockSize::channel()
}

} // verus!
