use vstd::prelude::*;

pub mod base;
pub mod extended;
pub mod zero_copy;

pub use self::base::{Handle, Handler, Message, MessageBus, Reader, Router, Writer};
pub use self::extended::{ExtendedMessage, Sender};
pub use self::zero_copy::{CastFrom, ZeroCopyMessage};

verus! {

/// A message that can be rebuilt from the payload bytes of a frame.
pub trait DeserializeFrom: self::base::Message + Sized {
    fn deserialize_from(buffer: &[u8]) -> Self;
}

} // verus!
