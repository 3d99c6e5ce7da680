use vstd::prelude::*;

verus! {

/// Fixed frame header: publisher id, message type id and the payload length
/// that follows the (aligned) header. Stored little-endian in the ring.
#[derive(Clone, Copy, Debug, PartialEq, Eq, Structural)]
pub struct Header {
    pub source: u16,
    pub message_id: u16,
    pub size: u16,
}

/// Bytes taken by the three header fields.
pub const HEADER_SIZE: usize = 6;

/// Bytes taken by a header in the ring: `HEADER_SIZE` rounded up to the word size.
pub const ALIGNED_HEADER_SIZE: usize = 8;

/// A published record as the ring's model sees it.
pub struct Frame {
    pub source: u16,
    pub message_id: u16,
    pub payload: Seq<u8>,
}

impl Frame {
    pub open spec fn header(self) -> Header {
        Header { source: self.source, message_id: self.message_id, size: self.payload.len() as u16 }
    }

    /// Bytes the frame occupies in the ring: header, padding, payload.
    pub open spec fn bytes(self) -> Seq<u8> {
        header_bytes(self.header()) + self.payload
    }

    pub open spec fn len(self) -> nat {
        ALIGNED_HEADER_SIZE as nat + self.payload.len()
    }
}

/// Native word size in bytes; frames and payloads are aligned to it.
pub open spec fn word() -> nat {
    vstd::layout::size_of::<usize>()
}

/// `n` rounded up to the next multiple of the native word size.
pub open spec fn align_up(n: nat) -> nat {
    (((n + word() - 1) as int / word() as int) * word()) as nat
}

/// `n` zero bytes.
pub open spec fn zeros(n: nat) -> Seq<u8> {
    Seq::new(n, |i: int| 0u8)
}

/// Little-endian encoding of a 16-bit value.
pub open spec fn le16(v: u16) -> Seq<u8> {
    seq![(v % 256) as u8, (v / 256) as u8]
}

/// Value of two little-endian bytes.
pub open spec fn from_le16(lo: u8, hi: u8) -> u16 {
    (lo as int + hi as int * 256) as u16
}

/// The `ALIGNED_HEADER_SIZE` bytes that stand for a header in the ring.
pub open spec fn header_bytes(h: Header) -> Seq<u8> {
    le16(h.source) + le16(h.message_id) + le16(h.size) + seq![0u8, 0u8]
}

/// The header that the first six bytes of `b` encode.
pub open spec fn decode_header(b: Seq<u8>) -> Header {
    Header {
        source: from_le16(b[0], b[1]),
        message_id: from_le16(b[2], b[3]),
        size: from_le16(b[4], b[5]),
    }
}

pub proof fn lemma_word()
    ensures
        word() == 4 || word() == 8,
        core::mem::size_of::<usize>() as nat == word(),
{
    broadcast use vstd::layout::layout_of_primitives;
}

/// The aligned header size is the header size rounded up to a word.
pub proof fn lemma_aligned_header_size()
    ensures
        ALIGNED_HEADER_SIZE as nat == align_up(HEADER_SIZE as nat),
        ALIGNED_HEADER_SIZE as nat % word() == 0,
{
    lemma_word();
    if word() == 4 {
        assert(align_up(6) == 8);
    } else {
        assert(align_up(6) == 8);
    }
}

/// `align_up(n)` is the least multiple of the word size that is not below `n`.
pub proof fn lemma_align_up(n: nat)
    ensures
        align_up(n) % word() == 0,
        n <= align_up(n) < n + word(),
{
    lemma_word();
    let w = word() as int;
    let q = (n + w - 1) / w;
    vstd::arithmetic::div_mod::lemma_fundamental_div_mod(n + w - 1, w);
    vstd::arithmetic::div_mod::lemma_mod_multiples_basic(q, w);
    assert(0 <= (n + w - 1) % w < w) by {
        vstd::arithmetic::div_mod::lemma_mod_bound(n + w - 1, w);
    }
    assert(q * w == w * q) by (nonlinear_arith);
    assert(q >= 0) by {
        vstd::arithmetic::div_mod::lemma_div_pos_is_pos(n + w - 1, w);
    }
    assert(q * w >= 0) by (nonlinear_arith) requires q >= 0, w > 0;
}

/// Alignment on the boundary values: zero stays zero, one to a word becomes a
/// word, one byte past a word becomes two words.
pub proof fn align_up_boundaries()
    ensures
        align_up(0) == 0,
        align_up(1) == word(),
        align_up(word()) == word(),
        align_up(word() + 1) == 2 * word(),
{
    lemma_word();
    if word() == 4 {
        assert(align_up(0) == 0 && align_up(1) == 4 && align_up(4) == 4 && align_up(5) == 8);
    } else {
        assert(align_up(0) == 0 && align_up(1) == 8 && align_up(8) == 8 && align_up(9) == 16);
    }
}

/// A header survives encoding and decoding unchanged.
pub proof fn lemma_header_round_trip(h: Header)
    ensures
        header_bytes(h).len() == ALIGNED_HEADER_SIZE,
        decode_header(header_bytes(h)) == h,
{
    let b = header_bytes(h);
    assert(b[0] == (h.source % 256) as u8 && b[1] == (h.source / 256) as u8);
    assert(b[2] == (h.message_id % 256) as u8 && b[3] == (h.message_id / 256) as u8);
    assert(b[4] == (h.size % 256) as u8 && b[5] == (h.size / 256) as u8);
}

/// Aligns to register size of current architecture
pub fn align_to_usize(from: usize) -> (r: usize)
    requires
        from + core::mem::size_of::<usize>() - 1 <= usize::MAX,
    ensures
        r as nat == align_up(from as nat),
{
    let w = core::mem::size_of::<usize>();
    proof {
        lemma_word();
        lemma_align_up(from as nat);
    }
    let q = (from + (w - 1)) / w;
    assert(q * w == align_up(from as nat));
    q * w
}

/// Writes the little-endian bytes of `h` into `buf` at `off`.
pub fn encode_header_into(h: Header, buf: &mut Vec<u8>, off: usize)
    requires
        off + ALIGNED_HEADER_SIZE <= old(buf)@.len(),
    ensures
        final(buf)@.len() == old(buf)@.len(),
        forall|k: int| 0 <= k < ALIGNED_HEADER_SIZE ==> final(buf)@[off + k] == #[trigger] header_bytes(h)[k],
        forall|k: int| 0 <= k < old(buf)@.len() && !(off <= k < off + ALIGNED_HEADER_SIZE)
            ==> final(buf)@[k] == old(buf)@[k],
{
    let len = buf.len();
    assert(off + ALIGNED_HEADER_SIZE <= len);
    buf.set(off, (h.source % 256) as u8);
    buf.set(off + 1, (h.source / 256) as u8);
    buf.set(off + 2, (h.message_id % 256) as u8);
    buf.set(off + 3, (h.message_id / 256) as u8);
    buf.set(off + 4, (h.size % 256) as u8);
    buf.set(off + 5, (h.size / 256) as u8);
    buf.set(off + 6, 0);
    buf.set(off + 7, 0);
    assert forall|k: int| 0 <= k < ALIGNED_HEADER_SIZE implies buf@[off + k] == #[trigger] header_bytes(h)[k] by {
        if k < 2 {
        } else if k < 4 {
        } else if k < 6 {
        } else {
        }
    }
}

/// Reads the header whose little-endian bytes start at `off` in `buf`.
pub fn decode_header_at(buf: &[u8], off: usize) -> (h: Header)
    requires
        off + HEADER_SIZE <= buf@.len(),
    ensures
        h == decode_header(buf@.subrange(off as int, off + HEADER_SIZE)),
{
    let s = buf[off] as u16 + buf[off + 1] as u16 * 256;
    let m = buf[off + 2] as u16 + buf[off + 3] as u16 * 256;
    let z = buf[off + 4] as u16 + buf[off + 5] as u16 * 256;
    Header { source: s, message_id: m, size: z }
}

} // verus!
