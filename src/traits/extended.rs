use vstd::prelude::*;

use crate::messenger::{align_up, Frame};
use crate::traits::base::{Handler, Message, Writer};

verus! {

/// A message that encodes itself: `get_size` bytes written by `write_into`.
pub trait ExtendedMessage: Message {
    fn get_size(&self) -> usize;

    fn write_into(&self, buffer: &mut [u8]);
}

/// Publication of an encoded message under the sending handler's id.
pub trait Sender: Handler {
    /// Publishes `message` if the writer accepts the size `get_size` reports;
    /// returns whether it did. See `send_sized` for what follows that size.
    fn send<M: ExtendedMessage, W: Writer>(message: &M, writer: &mut W) -> (r: bool)
        requires
            old(writer).inv(),
        ensures
            final(writer).inv(),
            r ==> final(writer).published() == old(writer).published().push(
                Frame {
                    source: Self::ID,
                    message_id: M::ID,
                    payload: final(writer).published().last().payload,
                },
            ),
            !r ==> final(writer).published() == old(writer).published(),
    ;
}

impl<H: Handler> Sender for H {
    fn send<M: ExtendedMessage, W: Writer>(message: &M, writer: &mut W) -> (r: bool) {
        let size = message.get_size();
        send_sized::<H, M, W>(message, size, writer)
    }
}

/// Publishes `message`, encoded into `size` bytes by `write_into`, from
/// handler `H`: if the writer accepts that size, one frame from `H` of type
/// `M` whose payload is `size` rounded up to a word; else nothing. Returns
/// whether it published.
pub fn send_sized<H: Handler, M: ExtendedMessage, W: Writer>(message: &M, size: usize, writer: &mut W) -> (r: bool)
    requires
        old(writer).inv(),
    ensures
        final(writer).inv(),
        r == old(writer).accepts(size as nat),
        r ==> final(writer).published() == old(writer).published().push(
            Frame {
                source: H::ID,
                message_id: M::ID,
                payload: final(writer).published().last().payload,
            },
        ),
        r ==> final(writer).published().last().payload.len() == align_up(size as nat),
        !r ==> final(writer).published() == old(writer).published(),
{
    if !writer.can_write(size) {
        return false;
    }
    writer.write(H::ID, M::ID, size, |buffer: &mut [u8]| message.write_into(buffer));
    proof {
        let p = writer.published();
        assert(p =~= old(writer).published().push(p.last()));
    }
    true
}

} // verus!
