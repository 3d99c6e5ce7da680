//! An in-process publish/subscribe bus over a framed byte ring.
//!
//! `message_bus` holds the ring: records of a header and a word-aligned
//! payload, published in order and read back by position. `router` and
//! `worker` decide, for each record a worker reads, which handlers run and
//! when the worker stops. `traits` are the handler, message and bus
//! interfaces; `mmap` holds the memory-map helpers that need no system call.

pub mod message_bus;
pub mod messenger;
pub mod mmap;
pub mod router;
pub mod worker;
pub mod traits;
