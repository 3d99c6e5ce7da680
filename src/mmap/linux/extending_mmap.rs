use vstd::prelude::*;

use crate::message_bus::circular_bus::is_power_of_two;
use crate::messenger::{align_up, lemma_align_up, lemma_word};

verus! {

/// Aligns to register size of current architecture; defined from one up.
pub fn _align_to_usize(from: usize) -> (r: usize)
    requires
        1 <= from,
        from + core::mem::size_of::<usize>() - 1 <= usize::MAX,
    ensures
        r as nat == align_up(from as nat),
{
    let w = core::mem::size_of::<usize>();
    proof {
        lemma_word();
        lemma_align_up(from as nat);
    }
    let q = (from - 1) / w + 1;
    assert(q * w == align_up(from as nat)) by {
        let f = from as int;
        let ww = w as int;
        vstd::arithmetic::div_mod::lemma_fundamental_div_mod(f - 1, ww);
        vstd::arithmetic::div_mod::lemma_fundamental_div_mod(f - 1 + ww, ww);
        vstd::arithmetic::div_mod::lemma_div_plus_one(f - 1, ww);
        assert(((f - 1) / ww + 1) * ww == (f - 1) / ww * ww + ww) by (nonlinear_arith);
    }
    q * w
}

/// The least power of two that is at least `n`.
pub open spec fn pow2_ceil(n: nat) -> nat
    decreases n,
{
    if n <= 1 {
        1
    } else {
        2 * pow2_ceil(((n + 1) / 2) as nat)
    }
}

/// A power of two `r` with `r / 2 < n <= r` is the least power of two not below `n`.
proof fn lemma_pow2_ceil(r: nat, n: nat)
    requires
        is_power_of_two(r),
        1 <= n <= r,
        r / 2 < n,
    ensures
        pow2_ceil(n) == r,
    decreases r,
{
    if r > 1 {
        lemma_pow2_ceil(r / 2, ((n + 1) / 2) as nat);
    }
}

/// Aligns a length to a power of two, with minimum size equal to the page size:
/// the least power of two that is at least `min_len` and at least `page_size`.
pub fn align_page_size(min_len: usize, page_size: usize) -> (r: usize)
    requires
        1 <= min_len <= usize::MAX / 2 + 1,
        1 <= page_size <= usize::MAX / 2 + 1,
    ensures
        r == pow2_ceil(if min_len > page_size { min_len as nat } else { page_size as nat }),
{
    let target = if min_len > page_size { min_len } else { page_size };
    let mut r: usize = 1;
    while r < target
        invariant
            1 <= r,
            is_power_of_two(r as nat),
            r > 1 ==> r / 2 < target,
            target <= usize::MAX / 2 + 1,
        decreases usize::MAX - r,
    {
        assert(r * 2 / 2 == r);
        r = r * 2;
    }
    proof {
        lemma_pow2_ceil(r as nat, target as nat);
    }
    r
}

} // verus!
