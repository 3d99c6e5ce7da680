use vstd::prelude::*;

use crate::messenger::{
    zeros, align_to_usize, align_up, decode_header, decode_header_at, encode_header_into, header_bytes,
    lemma_align_up, lemma_header_round_trip, lemma_word, word, Frame, Header, ALIGNED_HEADER_SIZE,
    HEADER_SIZE,
};
use crate::traits::base::{MessageBus, Reader, Writer};

verus! {

/// Supplies the ring's buffer size.
pub trait Config {
    fn get_buffer_size(&self) -> usize;
}

pub open spec fn is_power_of_two(n: nat) -> bool
    decreases n,
{
    if n <= 1 {
        n == 1
    } else {
        n % 2 == 0 && is_power_of_two(n / 2)
    }
}

/// A buffer size the ring accepts: a power of two, at least the page size,
/// whose half holds at least a header.
pub open spec fn valid_capacity(c: nat, page_size: nat) -> bool {
    is_power_of_two(c) && c >= page_size && c >= 2 * ALIGNED_HEADER_SIZE
}

/// `bytes` appear in `buf` from offset `off` on.
pub open spec fn stored(buf: Seq<u8>, off: int, bytes: Seq<u8>) -> bool {
    &&& 0 <= off
    &&& off + bytes.len() <= buf.len()
    &&& forall|k: int| 0 <= k < bytes.len() ==> buf[off + k] == #[trigger] bytes[k]
}

/// A byte ring of capacity `C` whose logical positions grow without reset and
/// map to offset `position % (C/2)`. Each record is a header followed by its
/// word-aligned payload; readers see records up to the read head.
///
/// A write reserves its frame at the write head, fills it, then publishes it
/// by moving the read head past it. Writes take `&mut self`, so frames are
/// reserved and published in one order; threads share a bus through a lock.
/// Nothing keeps a writer from overwriting frames that a reader has left more
/// than `C/2` bytes behind.
pub struct CircularBus {
    buffer: Vec<u8>,
    write_head: usize,
    read_head: usize,
    wrap_size: usize,
    frames: Ghost<Seq<Frame>>,
    starts: Ghost<Seq<nat>>,
}

impl CircularBus {
    /// Every frame published so far, oldest first.
    pub closed spec fn frames(&self) -> Seq<Frame> {
        self.frames@
    }

    /// Logical position of frame `i`.
    pub closed spec fn start(&self, i: int) -> nat {
        self.starts@[i]
    }

    /// The read head: frames below it are visible to readers.
    pub closed spec fn head(&self) -> nat {
        self.read_head as nat
    }

    /// The write head: next position to reserve.
    pub closed spec fn reserved(&self) -> nat {
        self.write_head as nat
    }

    /// The ring's bytes.
    pub closed spec fn bytes(&self) -> Seq<u8> {
        self.buffer@
    }

    pub open spec fn capacity(&self) -> nat {
        self.bytes().len()
    }

    /// The wrap window `C/2`.
    pub open spec fn wrap(&self) -> nat {
        self.capacity() / 2
    }

    /// Frame `i` has not been overwritten: nothing written since lies more than
    /// a wrap window past its start.
    pub open spec fn intact(&self, i: int) -> bool {
        self.start(i) + self.wrap() >= self.head()
    }

    /// A frame with a payload of `size` bytes fits the window, the header's
    /// size field and the position counter.
    pub open spec fn fits(&self, size: nat) -> bool {
        &&& ALIGNED_HEADER_SIZE + align_up(size) <= self.wrap()
        &&& align_up(size) <= u16::MAX
        &&& self.head() + ALIGNED_HEADER_SIZE + align_up(size) <= usize::MAX
    }

    /// What a read at `position` yields: nothing at or past the read head;
    /// otherwise the header stored at the wrapped offset and the payload bytes
    /// it announces, if they lie inside the ring.
    pub open spec fn observe(&self, position: nat) -> Option<(Header, Seq<u8>)> {
        if position >= self.head() {
            None
        } else {
            let off = position % self.wrap();
            let h = decode_header(self.bytes().subrange(off as int, off + HEADER_SIZE));
            let end = off + ALIGNED_HEADER_SIZE + h.size;
            if end <= self.capacity() {
                Some((h, self.bytes().subrange(off + ALIGNED_HEADER_SIZE, end)))
            } else {
                None
            }
        }
    }

    pub closed spec fn wf(&self) -> bool {
        let frames = self.frames@;
        let starts = self.starts@;
        let w = self.wrap_size as nat;
        &&& self.buffer@.len() == 2 * w
        &&& self.buffer@.len() <= usize::MAX
        &&& w >= ALIGNED_HEADER_SIZE
        &&& self.write_head == self.read_head
        &&& starts.len() == frames.len()
        &&& frames.len() == 0 ==> self.read_head == 0
        &&& frames.len() > 0 ==> starts[0] == 0 && self.read_head == starts.last()
            + frames.last().len()
        &&& forall|i: int|
            #![trigger starts[i + 1]]
            0 <= i < frames.len() - 1 ==> starts[i + 1] == starts[i] + frames[i].len()
        &&& forall|i: int, j: int|
            #![trigger starts[i], starts[j]]
            0 <= i < j < frames.len() ==> starts[i] + frames[i].len() <= starts[j]
        &&& forall|i: int|
            #![trigger starts[i]]
            0 <= i < frames.len() ==> starts[i] + frames[i].len() <= self.read_head
        &&& forall|i: int|
            0 <= i < frames.len() ==> {
                &&& (#[trigger] frames[i]).payload.len() <= u16::MAX
                &&& frames[i].payload.len() % word() == 0
                &&& frames[i].len() <= w
            }
        &&& forall|i: int|
            0 <= i < frames.len() && starts[i] + w >= self.read_head ==> stored(
                self.buffer@,
                (#[trigger] starts[i]) as int % (w as int),
                frames[i].bytes(),
            )
    }

    /// Builds a ring over `capacity` zeroed bytes, for a capacity valid for
    /// pages of `page_size` bytes.
    pub fn from_capacity(capacity: usize, page_size: usize) -> (r: CircularBus)
        requires
            valid_capacity(capacity as nat, page_size as nat),
        ensures
            r.wf(),
            r.capacity() == capacity,
            r.wrap() == capacity / 2,
            r.bytes() == zeros(capacity as nat),
            r.frames().len() == 0,
            r.head() == 0,
            r.reserved() == 0,
    {
        let buffer = vec![0u8; capacity];
        assert(buffer@ =~= zeros(capacity as nat));
        CircularBus {
            buffer,
            write_head: 0,
            read_head: 0,
            wrap_size: capacity / 2,
            frames: Ghost(Seq::empty()),
            starts: Ghost(Seq::empty()),
        }
    }

    /// Whether `capacity` is a valid ring size for pages of `page_size` bytes.
    pub fn valid_size(capacity: usize, page_size: usize) -> (r: bool)
        ensures
            r == valid_capacity(capacity as nat, page_size as nat),
    {
        is_valid_capacity(capacity) && capacity >= page_size
    }

    /// Builds a ring of the configured buffer size if that size is valid for
    /// pages of `page_size` bytes; `None` otherwise.
    pub fn new<C: Config>(config: &C, page_size: usize) -> (r: Option<CircularBus>)
        ensures
            r matches Some(b) ==> {
                &&& b.wf()
                &&& valid_capacity(b.capacity(), page_size as nat)
                &&& b.bytes() == zeros(b.capacity())
                &&& b.frames().len() == 0
                &&& b.head() == 0
                &&& b.reserved() == 0
            },
    {
        let capacity = config.get_buffer_size();
        if CircularBus::valid_size(capacity, page_size) {
            Some(CircularBus::from_capacity(capacity, page_size))
        } else {
            None
        }
    }

    pub fn read_head(&self) -> (r: usize)
        ensures
            r == self.head(),
    {
        self.read_head
    }

    pub fn write_head(&self) -> (r: usize)
        ensures
            r == self.reserved(),
    {
        self.write_head
    }

    pub fn capacity_bytes(&self) -> (r: usize)
        ensures
            r == self.capacity(),
    {
        self.buffer.len()
    }

    /// Whether a payload of `size` bytes can be published now.
    pub fn fits_payload(&self, size: usize) -> (r: bool)
        requires
            self.wf(),
        ensures
            r == self.fits(size as nat),
    {
        proof {
            lemma_word();
            lemma_align_up(size as nat);
        }
        if size > self.wrap_size {
            return false;
        }
        let aligned = align_to_usize(size);
        if ALIGNED_HEADER_SIZE + aligned > self.wrap_size || aligned > 0xFFFF {
            return false;
        }
        self.read_head <= usize::MAX - ALIGNED_HEADER_SIZE - aligned
    }

    /// Appends a frame whose payload is already word-aligned.
    fn append_frame(&mut self, source: u16, message_id: u16, payload: &[u8])
        requires
            old(self).wf(),
            payload@.len() % word() == 0,
            payload@.len() <= u16::MAX,
            ALIGNED_HEADER_SIZE + payload@.len() <= old(self).wrap(),
            old(self).head() + ALIGNED_HEADER_SIZE + payload@.len() <= usize::MAX,
        ensures
            final(self).wf(),
            final(self).frames() == old(self).frames().push(
                Frame { source, message_id, payload: payload@ },
            ),
            final(self).start(old(self).frames().len() as int) == old(self).head(),
            final(self).capacity() == old(self).capacity(),
            final(self).head() == old(self).head() + ALIGNED_HEADER_SIZE + payload@.len(),
            final(self).reserved() == final(self).head(),
            forall|j: int| 0 <= j < old(self).frames().len() ==> #[trigger] final(self).start(j) == old(self).start(j),
    {
        let ghost old_buf = self.buffer@;
        let ghost frame = Frame { source, message_id, payload: payload@ };
        let len = ALIGNED_HEADER_SIZE + payload.len();
        // reserve
        let position = self.write_head;
        self.write_head = position + len;
        let off = position % self.wrap_size;
        let header = Header { source, message_id, size: payload.len() as u16 };
        assert(header == frame.header());
        encode_header_into(header, &mut self.buffer, off);
        let base = off + ALIGNED_HEADER_SIZE;
        let mut k: usize = 0;
        while k < payload.len()
            invariant
                k <= payload@.len(),
                base == off + ALIGNED_HEADER_SIZE,
                off < self.wrap_size,
                base + payload@.len() <= self.buffer@.len(),
                self.buffer@.len() == old_buf.len(),
                old_buf.len() <= usize::MAX,
                self.frames == old(self).frames,
                self.starts == old(self).starts,
                self.wrap_size == old(self).wrap_size,
                self.write_head == position + len,
                self.read_head == position,
                forall|j: int| 0 <= j < ALIGNED_HEADER_SIZE ==> self.buffer@[off + j] == #[trigger] header_bytes(header)[j],
                forall|j: int| 0 <= j < k ==> self.buffer@[base + j] == #[trigger] payload@[j],
                forall|j: int|
                    0 <= j < old_buf.len() && !(off <= j < base + k) ==> #[trigger] self.buffer@[j] == old_buf[j],
            decreases payload@.len() - k,
        {
            self.buffer.set(base + k, payload[k]);
            k = k + 1;
        }
        // publish
        self.read_head = position + len;
        proof {
            let w = self.wrap_size as int;
            let bytes = frame.bytes();
            assert(stored(self.buffer@, off as int, bytes)) by {
                assert forall|j: int| 0 <= j < bytes.len() implies self.buffer@[off + j] == #[trigger] bytes[j] by {
                    if j < ALIGNED_HEADER_SIZE {
                    } else {
                        assert(self.buffer@[base + (j - ALIGNED_HEADER_SIZE)] == payload@[j - ALIGNED_HEADER_SIZE]);
                    }
                }
            }
            let old_frames = self.frames@;
            let old_starts = self.starts@;
            assert(old_starts.len() == old_frames.len());
            assert(position == old(self).read_head);
            self.frames@ = old_frames.push(frame);
            self.starts@ = old_starts.push(position as nat);
            assert forall|i: int|
                0 <= i < self.frames@.len() && self.starts@[i] + w >= self.read_head implies stored(
                self.buffer@,
                (#[trigger] self.starts@[i]) as int % w,
                self.frames@[i].bytes(),
            ) by {
                if i < old_frames.len() {
                    assert(old_starts[i] + old_frames[i].len() <= position);
                    let p = old_starts[i] as int;
                    let lp = old_frames[i].len() as int;
                    lemma_disjoint(p, lp, position as int, len as int, w);
                    assert(stored(old_buf, p % w, old_frames[i].bytes()));
                    let b = old_frames[i].bytes();
                    assert forall|j: int| 0 <= j < b.len() implies self.buffer@[p % w + j] == #[trigger] b[j] by {
                        assert(old_buf[p % w + j] == b[j]);
                    }
                }
            }
        }
    }

    /// Publishes `payload` from handler `source` as message `message_id`,
    /// zero-padded to a whole number of words.
    pub fn write_bytes(&mut self, source: u16, message_id: u16, payload: &[u8])
        requires
            old(self).wf(),
            old(self).fits(payload@.len()),
        ensures
            final(self).wf(),
            final(self).frames() == old(self).frames().push(
                Frame { source, message_id, payload: padded(payload@) },
            ),
            final(self).start(old(self).frames().len() as int) == old(self).head(),
            final(self).capacity() == old(self).capacity(),
            final(self).head() == old(self).head() + ALIGNED_HEADER_SIZE + align_up(payload@.len()),
            final(self).reserved() == final(self).head(),
            forall|j: int| 0 <= j < old(self).frames().len() ==> #[trigger] final(self).start(j) == old(self).start(j),
    {
        proof {
            lemma_word();
            lemma_align_up(payload@.len());
        }
        let aligned = align_to_usize(payload.len());
        let mut region: Vec<u8> = vec![0u8; aligned];
        let mut k: usize = 0;
        while k < payload.len()
            invariant
                k <= payload@.len() <= aligned,
                region@.len() == aligned,
                forall|j: int| 0 <= j < k ==> region@[j] == #[trigger] payload@[j],
                forall|j: int| payload@.len() <= j < aligned ==> #[trigger] region@[j] == 0u8,
            decreases payload@.len() - k,
        {
            region.set(k, payload[k]);
            k = k + 1;
        }
        assert(region@ =~= padded(payload@));
        self.append_frame(source, message_id, region.as_slice());
    }

    /// Publishes a frame whose payload region, `size` rounded up to a word
    /// and zeroed, is handed to `callback` to fill; the filled region is then
    /// placed behind the header.
    pub fn write_with<F: FnOnce(&mut [u8])>(
        &mut self,
        source: u16,
        message_id: u16,
        size: usize,
        callback: F,
    )
        requires
            old(self).wf(),
            old(self).fits(size as nat),
            forall|s: &mut [u8]| callback.requires((s,)),
        ensures
            final(self).wf(),
            final(self).frames() == old(self).frames().push(
                Frame { source, message_id, payload: final(self).frames().last().payload },
            ),
            final(self).frames().last().payload.len() == align_up(size as nat),
            exists|s: &mut [u8]|
                {
                    &&& s@ == zeros(align_up(size as nat))
                    &&& #[trigger] callback.ensures((s,), ())
                    &&& final(s)@.len() == align_up(size as nat) ==> final(self).frames().last().payload == final(s)@
                    &&& final(s)@.len() != align_up(size as nat) ==> final(self).frames().last().payload == zeros(align_up(size as nat))
                },
            final(self).start(old(self).frames().len() as int) == old(self).head(),
            final(self).capacity() == old(self).capacity(),
            final(self).head() == old(self).head() + ALIGNED_HEADER_SIZE + align_up(size as nat),
            final(self).reserved() == final(self).head(),
            forall|j: int| 0 <= j < old(self).frames().len() ==> #[trigger] final(self).start(j) == old(self).start(j),
    {
        proof {
            lemma_word();
            lemma_align_up(size as nat);
        }
        let aligned = align_to_usize(size);
        let mut region: Vec<u8> = vec![0u8; aligned];
        assert(region@ =~= zeros(aligned as nat));
        let slice = region.as_mut_slice();
        callback(slice);
        // A mutably borrowed slice keeps its length, so the second branch never
        // runs; the verifier is not told that, hence the test.
        if region.len() == aligned {
            self.append_frame(source, message_id, region.as_slice());
        } else {
            let zeroed = vec![0u8; aligned];
            assert(zeroed@ =~= zeros(aligned as nat));
            self.append_frame(source, message_id, zeroed.as_slice());
        }
    }

    /// The frame at `position`, if one is published there.
    pub fn read(&self, position: usize) -> (r: Option<(Header, &[u8])>)
        requires
            self.wf(),
        ensures
            match r {
                None => self.observe(position as nat) is None,
                Some((h, s)) => self.observe(position as nat) == Some((h, s@)),
            },
    {
        if position >= self.read_head {
            return None;
        }
        let off = position % self.wrap_size;
        let h = decode_header_at(self.buffer.as_slice(), off);
        let begin = off + ALIGNED_HEADER_SIZE;
        let end = begin + h.size as usize;
        if end > self.buffer.len() {
            return None;
        }
        Some((h, vstd::slice::slice_subrange(self.buffer.as_slice(), begin, end)))
    }
}

impl Writer for CircularBus {
    open spec fn inv(&self) -> bool {
        self.wf()
    }

    open spec fn published(&self) -> Seq<Frame> {
        self.frames()
    }

    open spec fn accepts(&self, size: nat) -> bool {
        self.fits(size)
    }

    fn can_write(&self, size: usize) -> (r: bool) {
        self.fits_payload(size)
    }

    fn write<F: FnOnce(&mut [u8])>(&mut self, source: u16, message_id: u16, size: usize, callback: F)
        ensures
            final(self).start(old(self).frames().len() as int) == old(self).head(),
            final(self).capacity() == old(self).capacity(),
            final(self).head() == old(self).head() + ALIGNED_HEADER_SIZE + align_up(size as nat),
            final(self).reserved() == final(self).head(),
            forall|j: int| 0 <= j < old(self).frames().len() ==> #[trigger] final(self).start(j) == old(self).start(j),
    {
        self.write_with(source, message_id, size, callback)
    }
}

impl Reader for CircularBus {
    open spec fn ready(&self) -> bool {
        self.wf()
    }

    open spec fn visible(&self, position: nat) -> Option<(Header, Seq<u8>)> {
        self.observe(position)
    }

    fn read(&self, position: usize) -> (r: Option<(Header, &[u8])>) {
        CircularBus::read(self, position)
    }
}

impl MessageBus for CircularBus {
}

/// A published frame that has not been overwritten is read back exactly: its
/// header and its payload.
pub proof fn lemma_observe_intact(bus: &CircularBus, i: int)
    requires
        bus.wf(),
        0 <= i < bus.frames().len(),
        bus.intact(i),
    ensures
        bus.start(i) < bus.head(),
        bus.observe(bus.start(i)) == Some((bus.frames()[i].header(), bus.frames()[i].payload)),
        bus.frames()[i].payload.len() % word() == 0,
        bus.frames()[i].payload.len() <= u16::MAX,
        bus.frames()[i].len() <= bus.wrap(),
        bus.reserved() == bus.head(),
{
    let f = bus.frames()[i];
    let w = bus.wrap_size as int;
    let off = bus.start(i) as int % w;
    assert(bus.starts@[i] + f.len() <= bus.read_head);
    assert(stored(bus.buffer@, off, f.bytes()));
    lemma_header_round_trip(f.header());
    let hb = header_bytes(f.header());
    assert(bus.buffer@.subrange(off, off + HEADER_SIZE) =~= hb.subrange(0, HEADER_SIZE as int)) by {
        assert forall|k: int| 0 <= k < HEADER_SIZE implies bus.buffer@[off + k] == hb[k] by {
            assert(f.bytes()[k] == hb[k]);
        }
    }
    let b = bus.buffer@.subrange(off, off + HEADER_SIZE);
    assert(decode_header(b) == decode_header(hb));
    assert(bus.buffer@.subrange(off + ALIGNED_HEADER_SIZE, off + ALIGNED_HEADER_SIZE + f.payload.len()) =~= f.payload) by {
        assert forall|k: int| 0 <= k < f.payload.len() implies bus.buffer@[off + ALIGNED_HEADER_SIZE + k] == f.payload[k] by {
            assert(f.bytes()[ALIGNED_HEADER_SIZE + k] == f.payload[k]);
        }
    }
}

/// A later write leaves an earlier record alone: if frame `i` of the ring
/// before the write still lies within a wrap window of the new read head, it
/// reads back after the write exactly as before.
pub proof fn write_keeps_earlier(before: &CircularBus, after: &CircularBus, i: int)
    requires
        before.wf(),
        after.wf(),
        after.capacity() == before.capacity(),
        after.frames().drop_last() == before.frames(),
        after.frames().len() == before.frames().len() + 1,
        forall|j: int| 0 <= j < before.frames().len() ==> #[trigger] after.start(j) == before.start(j),
        0 <= i < before.frames().len(),
        after.intact(i),
        after.head() >= before.head(),
    ensures
        before.intact(i),
        after.observe(after.start(i)) == before.observe(before.start(i)),
{
    assert(after.frames()[i] == after.frames().drop_last()[i]);
    lemma_observe_intact(before, i);
    lemma_observe_intact(after, i);
}

/// Round trip: the frame a write publishes is read back at the position the
/// write started from, with the writer's source and message id, the payload
/// size rounded up to a word, and the payload bytes first.
pub proof fn round_trip(before: &CircularBus, after: &CircularBus, source: u16, message_id: u16, payload: Seq<u8>)
    requires
        before.wf(),
        after.wf(),
        before.fits(payload.len()),
        after.capacity() == before.capacity(),
        after.frames() == before.frames().push(Frame { source, message_id, payload: padded(payload) }),
        after.start(before.frames().len() as int) == before.head(),
    ensures
        after.observe(before.head()) matches Some((h, b)) && {
            &&& h.source == source
            &&& h.message_id == message_id
            &&& h.size == align_up(payload.len())
            &&& b.len() == align_up(payload.len())
            &&& b.subrange(0, payload.len() as int) == payload
        },
{
    let i = before.frames().len() as int;
    lemma_align_up(payload.len());
    assert(after.head() == after.start(i) + after.frames()[i].len());
    lemma_observe_intact(after, i);
    assert(padded(payload).subrange(0, payload.len() as int) =~= payload);
}

/// A consumer's cursor moves strictly forward: reading frame `i` at its start
/// and advancing by the header and the announced size lands on the start of
/// frame `i + 1`, or on the read head after the last frame.
pub proof fn cursor_advances(bus: &CircularBus, i: int)
    requires
        bus.wf(),
        0 <= i < bus.frames().len(),
        bus.intact(i),
    ensures
        bus.observe(bus.start(i)) matches Some((h, _)) && {
            let next = bus.start(i) + ALIGNED_HEADER_SIZE + h.size;
            &&& next > bus.start(i)
            &&& (h.size as nat) % word() == 0
            &&& i + 1 < bus.frames().len() ==> next == bus.start(i + 1)
            &&& i + 1 == bus.frames().len() ==> next == bus.head()
        },
{
    lemma_observe_intact(bus, i);
    let f = bus.frames()[i];
    assert(f.header().size == f.payload.len());
    if i + 1 < bus.frames().len() {
        assert(bus.starts@[i + 1] == bus.starts@[i] + f.len());
    }
}

/// Frames never share a start: later frames start strictly further on.
pub proof fn starts_increase(bus: &CircularBus, i: int, j: int)
    requires
        bus.wf(),
        0 <= i < j < bus.frames().len(),
    ensures
        bus.start(i) < bus.start(j),
{
    assert(bus.starts@[i] + bus.frames@[i].len() <= bus.starts@[j]);
}

/// Position of a consumer that starts at `p` after `k` reads, advancing by each
/// record it sees.
pub open spec fn cursor_after(bus: &CircularBus, p: nat, k: nat) -> nat
    decreases k,
{
    if k == 0 {
        p
    } else {
        let q = cursor_after(bus, p, (k - 1) as nat);
        match bus.observe(q) {
            Some((h, _)) => (q + ALIGNED_HEADER_SIZE + h.size) as nat,
            None => q,
        }
    }
}

/// Observation order is publication order: a consumer that starts at frame
/// `i` and keeps up sees frames `i`, `i + 1`, ... one after another.
pub proof fn observation_order(bus: &CircularBus, i: int, k: nat)
    requires
        bus.wf(),
        0 <= i,
        i + k < bus.frames().len(),
        bus.intact(i),
    ensures
        cursor_after(bus, bus.start(i), k) == bus.start(i + k),
        bus.observe(cursor_after(bus, bus.start(i), k)) == Some(
            (bus.frames()[i + k].header(), bus.frames()[i + k].payload),
        ),
    decreases k,
{
    if k > 0 {
        observation_order(bus, i, (k - 1) as nat);
        let j = i + k - 1;
        if i < j {
            starts_increase(bus, i, j);
        }
        cursor_advances(bus, j);
    }
    if i < i + k {
        starts_increase(bus, i, i + k);
    }
    lemma_observe_intact(bus, i + k);
}

/// `p` zero-padded to a whole number of words.
pub open spec fn padded(p: Seq<u8>) -> Seq<u8> {
    p + Seq::new((align_up(p.len()) - p.len()) as nat, |i: int| 0u8)
}

/// Whether `capacity` is a power of two whose half holds at least a header.
pub fn is_valid_capacity(capacity: usize) -> (r: bool)
    ensures
        r == (is_power_of_two(capacity as nat) && capacity >= 2 * ALIGNED_HEADER_SIZE),
{
    if capacity < 2 * ALIGNED_HEADER_SIZE {
        return false;
    }
    let mut n = capacity;
    while n > 1 && n % 2 == 0
        invariant
            n >= 1,
            is_power_of_two(capacity as nat) == is_power_of_two(n as nat),
        decreases n,
    {
        n = n / 2;
    }
    n == 1
}

/// Two frames within one wrap window, the second after the first, occupy
/// disjoint offsets.
proof fn lemma_disjoint(p: int, lp: int, q: int, lq: int, w: int)
    requires
        w > 0,
        p >= 0,
        lp >= 0,
        lq > 0,
        p + lp <= q,
        q + lq <= p + w,
    ensures
        q % w + lq <= p % w || p % w + lp <= q % w,
{
    let a = p % w;
    let k = p / w;
    vstd::arithmetic::div_mod::lemma_fundamental_div_mod(p, w);
    vstd::arithmetic::div_mod::lemma_mod_bound(p, w);
    let d = q - p;
    if a + d < w {
        vstd::arithmetic::div_mod::lemma_fundamental_div_mod_converse(q, w, k, a + d);
    } else {
        assert((k + 1) * w == k * w + w) by (nonlinear_arith);
        vstd::arithmetic::div_mod::lemma_fundamental_div_mod_converse(q, w, k + 1, a + d - w);
    }
}

} // verus!
