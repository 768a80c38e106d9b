//! Rounding addresses to an alignment.

use vstd::arithmetic::div_mod::{lemma_fundamental_div_mod, lemma_fundamental_div_mod_converse};
use vstd::arithmetic::power::{lemma_pow_adds, lemma_pow_positive, pow};
use vstd::arithmetic::power2::{is_pow2, is_pow2_equiv, is_pow2_exists, lemma_pow2, pow2};
use vstd::bits::{lemma_usize_low_bits_mask_is_mod, low_bits_mask};
use vstd::prelude::*;

verus! {

/// `usize::is_power_of_two` answers whether the number is two to some power.
pub assume_specification[ usize::is_power_of_two ](x: usize) -> (r: bool)
    ensures
        r == is_pow2(x as int),
;

/// The greatest multiple of `align` that is not above `pos`.
pub open spec fn multiple_below(pos: int, align: int) -> int {
    pos - pos % align
}

/// The least multiple of `align` that is not below `pos`.
pub open spec fn multiple_above(pos: int, align: int) -> int {
    multiple_below(pos + align - 1, align)
}

/// `pos` with the bits of `align - 1` cleared.
pub open spec fn clear_low(pos: usize, align: usize) -> usize {
    pos & !((align - 1) as usize)
}

/// Clears in `pos` the bits of `align - 1`. For a power of two this is the greatest
/// multiple of `align` that is not above `pos`.
pub fn align_down(pos: usize, align: usize) -> (r: usize)
    requires
        align > 0,
    ensures
        r == clear_low(pos, align),
        r <= pos,
        is_pow2(align as int) ==> r == multiple_below(pos as int, align as int),
        is_pow2(align as int) ==> r % align == 0 && pos < r + align,
        r & ((align - 1) as usize) == 0,
        r | (pos & ((align - 1) as usize)) == pos,
{
    proof {
        lemma_clear_low(pos, align);
        law_clearing_splits_bits(pos, align);
        lemma_multiples(pos as int, align as int);
    }
    pos & !(align - 1)
}

/// Adds `align - 1` to `pos` and clears the bits of `align - 1`. For a power of two this
/// is the least multiple of `align` that is not below `pos`.
pub fn align_up(pos: usize, align: usize) -> (r: usize)
    requires
        align > 0,
        pos + align <= usize::MAX,
    ensures
        r == clear_low((pos + align - 1) as usize, align),
        r <= pos + align - 1,
        is_pow2(align as int) ==> r == multiple_above(pos as int, align as int),
        is_pow2(align as int) ==> r % align == 0 && pos <= r,
        r & ((align - 1) as usize) == 0,
        r | (((pos + align - 1) as usize) & ((align - 1) as usize)) == pos + align - 1,
{
    proof {
        lemma_clear_low((pos + align - 1) as usize, align);
        law_clearing_splits_bits((pos + align - 1) as usize, align);
        lemma_multiples(pos as int, align as int);
    }
    (pos + align - 1) & !(align - 1)
}

/// Clearing low bits never raises an address, and for a power of two it rounds down.
pub proof fn lemma_clear_low(pos: usize, align: usize)
    requires
        align > 0,
    ensures
        clear_low(pos, align) <= pos,
        is_pow2(align as int) ==> clear_low(pos, align) == multiple_below(
            pos as int,
            align as int,
        ),
{
    let mask: usize = (align - 1) as usize;
    assert((pos & !mask) + (pos & mask) == pos) by (bit_vector);
    if is_pow2(align as int) {
        is_pow2_equiv(align as int);
        let k = choose|i: nat| pow(2, i) == align as int;
        lemma_pow2(k);
        lemma_exponent_bound(k, align);
        lemma_usize_low_bits_mask_is_mod(pos, k);
        assert(low_bits_mask(k) == mask);
    }
}

/// Clearing low bits takes away exactly the bits that `align - 1` has: none of them is left,
/// and put together with them the rest is the address again. No other number is like that.
pub proof fn law_clearing_splits_bits(pos: usize, align: usize)
    requires
        align > 0,
    ensures
        clear_low(pos, align) & ((align - 1) as usize) == 0,
        clear_low(pos, align) | (pos & ((align - 1) as usize)) == pos,
        forall|x: usize|
            #![trigger x & ((align - 1) as usize)]
            x & ((align - 1) as usize) == 0 && x | (pos & ((align - 1) as usize)) == pos ==> x
                == clear_low(pos, align),
{
    let mask: usize = (align - 1) as usize;
    assert((pos & !mask) & mask == 0 && (pos & !mask) | (pos & mask) == pos) by (bit_vector);
    assert forall|x: usize|
        #![trigger x & mask]
        x & mask == 0 && x | (pos & mask) == pos implies x == clear_low(pos, align) by {
        assert(x == pos & !mask) by (bit_vector)
            requires
                x & mask == 0,
                x | (pos & mask) == pos,
        ;
    }
}

/// The exponent of a power of two that fits in a word is below the word's width.
proof fn lemma_exponent_bound(k: nat, x: usize)
    requires
        pow2(k) == x,
    ensures
        k < usize::BITS,
{
    if k >= usize::BITS {
        vstd::arithmetic::power2::lemma_pow2_strictly_increases((usize::BITS - 1) as nat, k);
        vstd::arithmetic::power2::lemma2_to64();
        vstd::arithmetic::power2::lemma2_to64_rest();
        if k > usize::BITS {
            vstd::arithmetic::power2::lemma_pow2_strictly_increases(usize::BITS as nat, k);
        }
    }
}

/// Rounding keeps within one alignment of the address and lands on a multiple.
pub proof fn lemma_multiples(pos: int, align: int)
    requires
        align > 0,
    ensures
        multiple_below(pos, align) <= pos < multiple_below(pos, align) + align,
        multiple_below(pos, align) % align == 0,
        pos <= multiple_above(pos, align) < pos + align,
        multiple_above(pos, align) % align == 0,
{
    lemma_below(pos, align);
    lemma_below(pos + align - 1, align);
}

/// Nothing between the address and what it is rounded to is a multiple: rounding up gives the
/// least multiple that is not below, rounding down the greatest that is not above.
pub proof fn law_rounding_is_tight(pos: int, align: int, m: int)
    requires
        align > 0,
        m % align == 0,
    ensures
        m >= pos ==> multiple_above(pos, align) <= m,
        m <= pos ==> m <= multiple_below(pos, align),
{
    lemma_multiples(pos, align);
    if m >= pos {
        lemma_gap(m, multiple_above(pos, align), align);
    }
    if m <= pos {
        lemma_gap(multiple_below(pos, align), m, align);
    }
}

/// Multiples less than one alignment apart are in order.
proof fn lemma_gap(low: int, high: int, align: int)
    requires
        align > 0,
        low % align == 0,
        high % align == 0,
        high < low + align,
    ensures
        high <= low,
{
    lemma_fundamental_div_mod(low, align);
    lemma_fundamental_div_mod(high, align);
    let a = low / align;
    let b = high / align;
    assert(b <= a) by (nonlinear_arith)
        requires
            align > 0,
            align * b < align * a + align,
    ;
    assert(align * b <= align * a) by (nonlinear_arith)
        requires
            align > 0,
            b <= a,
    ;
}

proof fn lemma_below(pos: int, align: int)
    requires
        align > 0,
    ensures
        0 <= pos % align < align,
        multiple_below(pos, align) % align == 0,
{
    lemma_fundamental_div_mod(pos, align);
    let q = pos / align;
    assert(align * q == q * align) by (nonlinear_arith);
    lemma_fundamental_div_mod_converse(q * align, align, q, 0);
}

/// The product of two powers of two is a power of two.
pub proof fn lemma_pow2_product(a: int, b: int)
    requires
        is_pow2(a),
        is_pow2(b),
    ensures
        is_pow2(a * b),
{
    is_pow2_equiv(a);
    is_pow2_equiv(b);
    let i = choose|i: nat| pow(2, i) == a;
    let j = choose|j: nat| pow(2, j) == b;
    lemma_pow_adds(2, i, j);
    assert(pow(2, i + j) == a * b);
    assert(is_pow2_exists(a * b));
    is_pow2_equiv(a * b);
}

/// A power of two is positive.
pub proof fn lemma_pow2_positive(a: int)
    requires
        is_pow2(a),
    ensures
        a > 0,
{
    is_pow2_equiv(a);
    let i = choose|i: nat| pow(2, i) == a;
    lemma_pow_positive(2, i);
}

} // verus!
