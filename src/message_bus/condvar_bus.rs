use vstd::prelude::*;

use crate::messenger::Header;
use crate::traits::base::Reader;

verus! {

/// Outcome of one attempt of a waiting read.
pub enum Poll<'a> {
    /// A record is there: its header and payload.
    Ready(Header, &'a [u8]),
    /// Nothing is there and the bus is stopped: the read gives up.
    Closed,
    /// Nothing is there yet: the reader parks until the next write or stop.
    Wait,
}

/// One attempt of a waiting read at `position`: the record if the bus has one
/// there; otherwise give up once the bus is stopped, else wait for a write.
pub fn poll_read<'a, R: Reader>(bus: &'a R, position: usize, stopped: bool) -> (r: Poll<'a>)
    requires
        bus.ready(),
    ensures
        match bus.visible(position as nat) {
            Some((h, b)) => r matches Poll::Ready(rh, rb) && rh == h && rb@ == b,
            None => if stopped { r is Closed } else { r is Wait },
        },
{
    match bus.read(position) {
        Some((h, b)) => Poll::Ready(h, b),
        None => if stopped {
            Poll::Closed
        } else {
            Poll::Wait
        },
    }
}

} // verus!
