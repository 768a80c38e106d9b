//! How a machine word turns into the narrower or signed number that a system call takes.

use vstd::prelude::*;

verus! {

/// The number of values of a machine word.
pub open spec fn word_values() -> int {
    usize::MAX + 1
}

/// The signed number that has the same word as `n`, in two's complement.
pub open spec fn signed_word(n: int) -> int {
    let m = n % word_values();
    if m <= isize::MAX {
        m
    } else {
        m - word_values()
    }
}

/// The unsigned number in the low 32 bits of `n`.
pub open spec fn low_u32(n: int) -> int {
    n % 0x1_0000_0000
}

/// The signed number in the low 32 bits of `n`, in two's complement.
pub open spec fn low_i32(n: int) -> int {
    if low_u32(n) < 0x8000_0000 {
        low_u32(n)
    } else {
        low_u32(n) - 0x1_0000_0000
    }
}

/// The low 32 bits of a number are the one number in range that is congruent to it.
pub proof fn law_low_u32_is_congruent(n: int)
    ensures
        0 <= low_u32(n) < 0x1_0000_0000,
        (n - low_u32(n)) % 0x1_0000_0000 == 0,
        0 <= n < 0x1_0000_0000 ==> low_u32(n) == n,
{
}

/// Read as a signed number, the low 32 bits of a number are the one signed number in range
/// that is congruent to it; so a number in range stays as it is.
pub proof fn law_low_i32_is_congruent(n: int)
    ensures
        -0x8000_0000 <= low_i32(n) < 0x8000_0000,
        (n - low_i32(n)) % 0x1_0000_0000 == 0,
        -0x8000_0000 <= n < 0x8000_0000 ==> low_i32(n) == n,
{
}

/// A signed word is the one signed number in range that is congruent to the number modulo the
/// number of words; so a number in range stays as it is.
pub proof fn law_signed_word_is_congruent(n: int)
    ensures
        isize::MIN <= signed_word(n) <= isize::MAX,
        (n - signed_word(n)) % (usize::MAX + 1) == 0,
        isize::MIN <= n <= isize::MAX ==> signed_word(n) == n,
{
    let d = usize::MAX + 1;
    assert(isize::MIN + d == isize::MAX + 1);
    let q = n / d;
    vstd::arithmetic::div_mod::lemma_fundamental_div_mod(n, d);
    assert(n - n % d == q * d) by (nonlinear_arith)
        requires
            n == d * q + n % d,
    ;
    assert(n - n % d + d == (q + 1) * d) by (nonlinear_arith)
        requires
            n - n % d == q * d,
    ;
    vstd::arithmetic::div_mod::lemma_mod_multiples_basic(q, d);
    vstd::arithmetic::div_mod::lemma_mod_multiples_basic(q + 1, d);
    vstd::arithmetic::div_mod::lemma_mod_bound(n, d);
    if 0 <= n <= isize::MAX {
        vstd::arithmetic::div_mod::lemma_small_mod(n as nat, d as nat);
    }
    if isize::MIN <= n < 0 {
        vstd::arithmetic::div_mod::lemma_small_mod((n + d) as nat, d as nat);
        vstd::arithmetic::div_mod::lemma_mod_add_multiples_vanish(n, d);
    }
}

/// Two signed words differ where the words do.
pub proof fn law_signed_words_tell_words_apart(a: usize, b: usize)
    requires
        signed_word(a as int) == signed_word(b as int),
    ensures
        a == b,
{
    vstd::arithmetic::div_mod::lemma_small_mod(a as nat, (usize::MAX + 1) as nat);
    vstd::arithmetic::div_mod::lemma_small_mod(b as nat, (usize::MAX + 1) as nat);
}

/// Reads a word as a signed number.
pub fn as_isize(word: usize) -> (r: isize)
    ensures
        r == signed_word(word as int),
{
    proof {
        let wide = word as u64;
        if usize::BITS == 64 {
            assert(wide < 0x8000_0000_0000_0000 ==> wide as isize == wide) by (bit_vector)
                requires
                    usize::BITS == 64,
            ;
            assert(wide >= 0x8000_0000_0000_0000 ==> wide as isize == wide
                - 0x1_0000_0000_0000_0000) by (bit_vector)
                requires
                    usize::BITS == 64,
            ;
        } else {
            assert(wide < 0x8000_0000 ==> wide as isize == wide) by (bit_vector)
                requires
                    usize::BITS == 32,
            ;
            assert(0x8000_0000 <= wide && wide < 0x1_0000_0000 ==> wide as isize == wide
                - 0x1_0000_0000) by (bit_vector)
                requires
                    usize::BITS == 32,
            ;
        }
        vstd::arithmetic::div_mod::lemma_small_mod(word as nat, word_values() as nat);
    }
    #[verifier::truncate]
    (word as isize)
}

/// Reads the low 32 bits of a word.
pub fn as_u32(word: usize) -> (r: u32)
    ensures
        r == low_u32(word as int),
{
    let wide: u64 = word as u64;
    assert(wide as u32 == wide % 0x1_0000_0000) by (bit_vector);
    #[verifier::truncate]
    (wide as u32)
}

/// Reads the low 32 bits of a word as a signed number.
pub fn as_i32(word: usize) -> (r: i32)
    ensures
        r == low_i32(word as int),
{
    let low: u32 = as_u32(word);
    assert(low < 0x8000_0000 ==> low as i32 == low) by (bit_vector);
    assert(low >= 0x8000_0000 ==> low as i32 == low - 0x1_0000_0000) by (bit_vector);
    #[verifier::truncate]
    (low as i32)
}

/// Reads the low word of a 64-bit number as a signed number.
pub fn u64_as_isize(n: u64) -> (r: isize)
    ensures
        r == signed_word(n as int),
{
    proof {
        if usize::BITS == 64 {
            assert(n as usize == n) by (bit_vector)
                requires
                    usize::BITS == 64,
            ;
        } else {
            assert(n as usize == n % 0x1_0000_0000) by (bit_vector)
                requires
                    usize::BITS == 32,
            ;
        }
    }
    #[verifier::truncate]
    let word: usize = n as usize;
    proof {
        vstd::arithmetic::div_mod::lemma_small_mod(word as nat, word_values() as nat);
        if usize::BITS == 64 {
            vstd::arithmetic::div_mod::lemma_small_mod(n as nat, word_values() as nat);
        }
        assert(word as int == n as int % word_values());
    }
    as_isize(word)
}

} // verus!
