pub mod circular_bus;
pub mod condvar_bus;

pub use circular_bus::{CircularBus, Config};
pub use condvar_bus::{poll_read, Poll};
