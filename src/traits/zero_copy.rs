use vstd::prelude::*;

use crate::messenger::{align_up, zeros, Frame};
use crate::traits::base::{Handler, Message, Writer};

verus! {

/// A message laid out in place in the payload region: its size is the size of
/// the type, and the sender fills the region directly.
pub trait ZeroCopyMessage: Message + Sized {
    const SIZE: usize;
}

/// Rebuilds a message laid out in place from the payload bytes of a frame.
pub trait CastFrom: ZeroCopyMessage {
    fn deserialize_from(buffer: &[u8]) -> Self;
}

/// In-place publication under the sending handler's id.
pub trait Sender: Handler {
    /// Publishes a frame of `M::SIZE` bytes, rounded up to a word, that
    /// `callback` fills in place, if the writer accepts that size; returns
    /// whether it did.
    fn send<M: ZeroCopyMessage, W: Writer, F: FnOnce(&mut [u8])>(writer: &mut W, callback: F) -> (r: bool)
        requires
            old(writer).inv(),
            forall|s: &mut [u8]| callback.requires((s,)),
        ensures
            final(writer).inv(),
            r == old(writer).accepts(M::SIZE as nat),
            r ==> final(writer).published() == old(writer).published().push(
                Frame {
                    source: Self::ID,
                    message_id: M::ID,
                    payload: final(writer).published().last().payload,
                },
            ),
            r ==> final(writer).published().last().payload.len() == align_up(M::SIZE as nat),
            r ==> exists|s: &mut [u8]|
                {
                    &&& s@ == zeros(align_up(M::SIZE as nat))
                    &&& #[trigger] callback.ensures((s,), ())
                    &&& final(s)@.len() == align_up(M::SIZE as nat) ==> final(writer).published().last().payload == final(s)@
                    &&& final(s)@.len() != align_up(M::SIZE as nat) ==> final(writer).published().last().payload == zeros(align_up(M::SIZE as nat))
                },
            !r ==> final(writer).published() == old(writer).published(),
    ;
}

impl<H: Handler> Sender for H {
    fn send<M: ZeroCopyMessage, W: Writer, F: FnOnce(&mut [u8])>(writer: &mut W, callback: F) -> (r: bool) {
        if !writer.can_write(M::SIZE) {
            return false;
        }
        writer.write(H::ID, M::ID, M::SIZE, callback);
        proof {
            let p = writer.published();
            assert(p =~= old(writer).published().push(p.last()));
        }
        true
    }
}

} // verus!
