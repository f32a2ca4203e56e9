//! Non-blocking handles of a channel: the producing and consuming handles
//! of a fifo with a single waker slot.

pub use crate::fifo::api::{Producer, Consumer};
