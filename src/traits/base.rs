use vstd::prelude::*;

use crate::messenger::{align_up, zeros, Frame, Header};

verus! {

/// A stateful object bound to a 16-bit id that reacts to routed messages.
pub trait Handler {
    const ID: u16;

    fn on_start<W: Writer>(&mut self, _writer: &mut W) {
    }

    fn on_loop<W: Writer>(&mut self, _writer: &mut W) {
    }

    fn on_stop(&mut self) {
    }
}

/// Typed dispatch of one message type to a handler.
pub trait Handle<M: Message> {
    fn handle<W: Writer>(&mut self, message: &M, writer: &mut W);
}

/// A message type with its 16-bit type id.
pub trait Message {
    const ID: u16;
}

/// Sequential access to published frames by logical position.
pub trait Reader {
    /// The reader's own well-formedness.
    spec fn ready(&self) -> bool;

    /// What a read at `position` yields: a header and its payload bytes, or nothing.
    spec fn visible(&self, position: nat) -> Option<(Header, Seq<u8>)>;

    fn read(&self, position: usize) -> (r: Option<(Header, &[u8])>)
        requires
            self.ready(),
        ensures
            match r {
                None => self.visible(position as nat) is None,
                Some((h, s)) => self.visible(position as nat) == Some((h, s@)),
            },
    ;
}

/// Publication of frames.
///
/// The spec functions describe a writer for its contracts. A writer that
/// does not override `inv` (one written outside this library) never meets
/// the methods' preconditions, so their contracts claim nothing of it.
pub trait Writer {
    /// The writer's own well-formedness.
    open spec fn inv(&self) -> bool {
        false
    }

    /// Every frame published so far, oldest first.
    open spec fn published(&self) -> Seq<Frame> {
        Seq::empty()
    }

    /// A payload of `size` bytes can be published now.
    open spec fn accepts(&self, size: nat) -> bool {
        false
    }

    fn can_write(&self, size: usize) -> (r: bool)
        requires
            self.inv(),
        ensures
            r == self.accepts(size as nat),
    ;

    /// Publishes one frame from handler `source` of message type `message_id`
    /// whose payload region, `size` rounded up to a word and zeroed, is handed
    /// to `callback` to fill.
    fn write<F: FnOnce(&mut [u8])>(&mut self, source: u16, message_id: u16, size: usize, callback: F)
        requires
            old(self).inv(),
            old(self).accepts(size as nat),
            forall|s: &mut [u8]| callback.requires((s,)),
        ensures
            final(self).inv(),
            final(self).published().len() == old(self).published().len() + 1,
            final(self).published().drop_last() == old(self).published(),
            final(self).published().last().source == source,
            final(self).published().last().message_id == message_id,
            final(self).published().last().payload.len() == align_up(size as nat),
            exists|s: &mut [u8]|
                {
                    &&& s@ == zeros(align_up(size as nat))
                    &&& #[trigger] callback.ensures((s,), ())
                    &&& final(s)@.len() == align_up(size as nat) ==> final(self).published().last().payload == final(s)@
                    &&& final(s)@.len() != align_up(size as nat) ==> final(self).published().last().payload == zeros(align_up(size as nat))
                },
    ;
}

/// A bus: readable, writable, and told when the system stops.
pub trait MessageBus: Reader + Writer {
    fn on_stop(&self) {
    }
}

/// Routes a frame to the handlers subscribed to its (source, message id) key.
pub trait Router {
    fn route<W: Writer>(&mut self, header: &Header, buffer: &[u8], writer: &mut W);
}

} // verus!
