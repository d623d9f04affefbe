//! Rounding of addresses to multiples of an alignment, and the test for a
//! power of two.

use vstd::prelude::*;
use vstd::arithmetic::div_mod::{
    lemma_fundamental_div_mod,
    lemma_fundamental_div_mod_converse,
    lemma_mod_bound,
};
use vstd::arithmetic::power2::is_pow2;

verus! {

/// The greatest multiple of `align` that is not above `pos`.
pub open spec fn align_down_spec(pos: int, align: int) -> int {
    pos - pos % align
}

/// The least multiple of `align` that is not below `pos`.
pub open spec fn align_up_spec(pos: int, align: int) -> int {
    if pos % align == 0 {
        pos
    } else {
        pos - pos % align + align
    }
}

/// `m` is a multiple of `align`.
pub open spec fn is_multiple(m: int, align: int) -> bool {
    m % align == 0
}

/// `q * align` is a multiple of `align`, and every multiple has that shape.
pub proof fn lemma_multiple_iff_product(m: int, align: int)
    requires
        align > 0,
    ensures
        is_multiple(m, align) <==> exists|q: int| m == #[trigger] (q * align),
{
    if is_multiple(m, align) {
        lemma_fundamental_div_mod(m, align);
        assert(align * (m / align) == (m / align) * align) by (nonlinear_arith);
        assert(m == (m / align) * align);
    }
    if exists|q: int| m == #[trigger] (q * align) {
        let q = choose|q: int| m == #[trigger] (q * align);
        lemma_fundamental_div_mod_converse(m, align, q, 0);
    }
}

/// Rounding down gives a multiple of `align` within `align` below `pos`,
/// and no multiple lies between the two.
pub proof fn lemma_align_down(pos: int, align: int)
    requires
        align > 0,
    ensures
        is_multiple(align_down_spec(pos, align), align),
        align_down_spec(pos, align) <= pos < align_down_spec(pos, align) + align,
        forall|m: int| #[trigger]
            is_multiple(m, align) && m <= pos ==> m <= align_down_spec(pos, align),
{
    let d = align_down_spec(pos, align);
    lemma_mod_bound(pos, align);
    lemma_fundamental_div_mod(pos, align);
    assert(d == (pos / align) * align) by (nonlinear_arith)
        requires
            pos == align * (pos / align) + pos % align,
            d == pos - pos % align,
    ;
    lemma_fundamental_div_mod_converse(d, align, pos / align, 0);
    assert forall|m: int| #[trigger] is_multiple(m, align) && m <= pos implies m <= d by {
        lemma_multiples_are_apart(d, m, align);
    }
}

/// Rounding up gives a multiple of `align` within `align` above `pos`,
/// and no multiple lies between the two.
pub proof fn lemma_align_up(pos: int, align: int)
    requires
        align > 0,
    ensures
        is_multiple(align_up_spec(pos, align), align),
        pos <= align_up_spec(pos, align) < pos + align,
        forall|m: int| #[trigger]
            is_multiple(m, align) && pos <= m ==> align_up_spec(pos, align) <= m,
{
    let u = align_up_spec(pos, align);
    lemma_mod_bound(pos, align);
    lemma_align_down(pos, align);
    if pos % align != 0 {
        let d = align_down_spec(pos, align);
        lemma_multiple_iff_product(d, align);
        let q = choose|q: int| d == #[trigger] (q * align);
        assert(u == (q + 1) * align) by (nonlinear_arith)
            requires
                u == d + align,
                d == q * align,
        ;
        lemma_fundamental_div_mod_converse(u, align, q + 1, 0);
    }
    assert forall|m: int| #[trigger] is_multiple(m, align) && pos <= m implies u <= m by {
        lemma_multiples_are_apart(m, u, align);
    }
}

/// Rounding down keeps the order of two positions.
pub proof fn lemma_align_down_is_monotonic(a: int, b: int, align: int)
    requires
        align > 0,
        a <= b,
    ensures
        align_down_spec(a, align) <= align_down_spec(b, align),
{
    lemma_align_down(a, align);
    lemma_align_down(b, align);
    assert(is_multiple(align_down_spec(a, align), align));
}

/// Two multiples of `align` are equal or at least `align` apart.
pub proof fn lemma_multiples_are_apart(a: int, b: int, align: int)
    requires
        align > 0,
        is_multiple(a, align),
        is_multiple(b, align),
    ensures
        a < b ==> a + align <= b,
{
    lemma_fundamental_div_mod(a, align);
    lemma_fundamental_div_mod(b, align);
    let qa = a / align;
    let qb = b / align;
    assert(a < b ==> a + align <= b) by (nonlinear_arith)
        requires
            align > 0,
            a == align * qa,
            b == align * qb,
    ;
}

/// Rounds `pos` down to a multiple of `align`.
pub fn align_down(pos: usize, align: usize) -> (r: usize)
    requires
        align > 0,
    ensures
        r == align_down_spec(pos as int, align as int),
{
    proof {
        lemma_mod_bound(pos as int, align as int);
        lemma_fundamental_div_mod(pos as int, align as int);
        assert(0 <= (align as int) * (pos as int / align as int)) by (nonlinear_arith)
            requires
                align > 0,
                pos >= 0,
        ;
    }
    pos - pos % align
}

/// Rounds `pos` up to a multiple of `align`, where that multiple is an
/// address.
pub fn align_up(pos: usize, align: usize) -> (r: usize)
    requires
        align > 0,
        align_up_spec(pos as int, align as int) <= usize::MAX,
    ensures
        r == align_up_spec(pos as int, align as int),
{
    let rest: usize = pos % align;
    if rest == 0 {
        pos
    } else {
        align_down(pos, align) + align
    }
}

/// Rounds `pos` up to a multiple of `align`; `None` where that multiple
/// is above every address.
pub fn checked_align_up(pos: usize, align: usize) -> (r: Option<usize>)
    requires
        align > 0,
    ensures
        r == if align_up_spec(pos as int, align as int) <= usize::MAX {
            Some(align_up_spec(pos as int, align as int) as usize)
        } else {
            None
        },
{
    let rest: usize = pos % align;
    if rest != 0 && align - rest > usize::MAX - pos {
        None
    } else {
        Some(align_up(pos, align))
    }
}

/// A positive number that shares no bit with its predecessor is a power
/// of two, and no other number is.
proof fn lemma_one_bit_is_pow2(n: u64)
    ensures
        (n != 0 && n & ((n - 1) as u64) == 0) <==> is_pow2(n as int),
    decreases n,
{
    reveal(is_pow2);
    if n == 1 {
        assert(1u64 & 0u64 == 0) by (bit_vector);
    } else if n != 0 && n % 2 == 0 {
        let h: u64 = n / 2;
        assert((n & ((n - 1) as u64) == 0) <==> (h & ((h - 1) as u64) == 0)) by (bit_vector)
            requires
                n % 2 == 0,
                n >= 2,
                h == n / 2,
        ;
        lemma_one_bit_is_pow2(h);
    } else if n != 0 {
        assert(n & ((n - 1) as u64) != 0) by (bit_vector)
            requires
                n % 2 == 1,
                n > 1,
        ;
    }
}

/// A power of two is positive.
pub proof fn lemma_pow2_is_positive(n: int)
    requires
        is_pow2(n),
    ensures
        n > 0,
{
    reveal(is_pow2);
}

/// A multiple of a multiple of `align` is a multiple of `align`.
pub proof fn lemma_multiple_of_multiple(x: int, m: int, align: int)
    requires
        align > 0,
        m > 0,
        is_multiple(x, m),
        is_multiple(m, align),
    ensures
        is_multiple(x, align),
{
    lemma_multiple_iff_product(x, m);
    lemma_multiple_iff_product(m, align);
    let q = choose|q: int| x == #[trigger] (q * m);
    let p = choose|p: int| m == #[trigger] (p * align);
    assert(x == (q * p) * align) by (nonlinear_arith)
        requires
            x == q * m,
            m == p * align,
    ;
    lemma_multiple_iff_product(x, align);
}

/// Multiples of `align` stay multiples when a multiple is added or taken
/// away.
pub proof fn lemma_multiples_add_up(a: int, n: int, align: int)
    requires
        align > 0,
        is_multiple(a, align),
    ensures
        is_multiple(a + n * align, align),
        is_multiple(a - n * align, align),
{
    lemma_multiple_iff_product(a, align);
    let q = choose|q: int| a == #[trigger] (q * align);
    assert(a + n * align == (q + n) * align) by (nonlinear_arith)
        requires
            a == q * align,
    ;
    assert(a - n * align == (q - n) * align) by (nonlinear_arith)
        requires
            a == q * align,
    ;
    lemma_multiple_iff_product(a + n * align, align);
    lemma_multiple_iff_product(a - n * align, align);
}

/// Whether `n` is a power of two.
pub fn is_power_of_two(n: usize) -> (r: bool)
    ensures
        r == is_pow2(n as int),
        r ==> n > 0,
{
    let wide: u64 = n as u64;
    proof {
        lemma_one_bit_is_pow2(wide);
        if is_pow2(n as int) {
            lemma_pow2_is_positive(n as int);
        }
    }
    wide != 0 && wide & (wide - 1) == 0
}

} // verus!
