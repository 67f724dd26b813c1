//! Bit-field extraction, the foundation of every operand formatter.

use vstd::prelude::*;
use vstd::arithmetic::div_mod::lemma_mod_bound;
use vstd::arithmetic::power2::{
    lemma2_to64, lemma2_to64_rest, lemma_pow2_strictly_increases, pow2,
};
use vstd::bits::{
    lemma_u16_low_bits_mask_is_mod, lemma_u16_pow2_no_overflow, lemma_u16_shr_is_div,
    lemma_u32_low_bits_mask_is_mod, lemma_u32_pow2_no_overflow, lemma_u32_shr_is_div,
    lemma_u64_low_bits_mask_is_mod, lemma_u64_pow2_no_overflow, lemma_u64_shl_is_mul,
    lemma_u64_shr_is_div, low_bits_mask,
};
use vstd::std_specs::convert::IntoSpec;

verus! {

/// Two to the power `n`. The powers up to the 64th are written out, so that
/// a field of a given word can be computed.
#[verifier::inline]
pub open spec fn two_to(n: nat) -> int {
    if n == 0 {
        0x1
    } else if n == 1 {
        0x2
    } else if n == 2 {
        0x4
    } else if n == 3 {
        0x8
    } else if n == 4 {
        0x10
    } else if n == 5 {
        0x20
    } else if n == 6 {
        0x40
    } else if n == 7 {
        0x80
    } else if n == 8 {
        0x100
    } else if n == 9 {
        0x200
    } else if n == 10 {
        0x400
    } else if n == 11 {
        0x800
    } else if n == 12 {
        0x1000
    } else if n == 13 {
        0x2000
    } else if n == 14 {
        0x4000
    } else if n == 15 {
        0x8000
    } else if n == 16 {
        0x1_0000
    } else if n == 17 {
        0x2_0000
    } else if n == 18 {
        0x4_0000
    } else if n == 19 {
        0x8_0000
    } else if n == 20 {
        0x10_0000
    } else if n == 21 {
        0x20_0000
    } else if n == 22 {
        0x40_0000
    } else if n == 23 {
        0x80_0000
    } else if n == 24 {
        0x100_0000
    } else if n == 25 {
        0x200_0000
    } else if n == 26 {
        0x400_0000
    } else if n == 27 {
        0x800_0000
    } else if n == 28 {
        0x1000_0000
    } else if n == 29 {
        0x2000_0000
    } else if n == 30 {
        0x4000_0000
    } else if n == 31 {
        0x8000_0000
    } else if n == 32 {
        0x1_0000_0000
    } else if n == 33 {
        0x2_0000_0000
    } else if n == 34 {
        0x4_0000_0000
    } else if n == 35 {
        0x8_0000_0000
    } else if n == 36 {
        0x10_0000_0000
    } else if n == 37 {
        0x20_0000_0000
    } else if n == 38 {
        0x40_0000_0000
    } else if n == 39 {
        0x80_0000_0000
    } else if n == 40 {
        0x100_0000_0000
    } else if n == 41 {
        0x200_0000_0000
    } else if n == 42 {
        0x400_0000_0000
    } else if n == 43 {
        0x800_0000_0000
    } else if n == 44 {
        0x1000_0000_0000
    } else if n == 45 {
        0x2000_0000_0000
    } else if n == 46 {
        0x4000_0000_0000
    } else if n == 47 {
        0x8000_0000_0000
    } else if n == 48 {
        0x1_0000_0000_0000
    } else if n == 49 {
        0x2_0000_0000_0000
    } else if n == 50 {
        0x4_0000_0000_0000
    } else if n == 51 {
        0x8_0000_0000_0000
    } else if n == 52 {
        0x10_0000_0000_0000
    } else if n == 53 {
        0x20_0000_0000_0000
    } else if n == 54 {
        0x40_0000_0000_0000
    } else if n == 55 {
        0x80_0000_0000_0000
    } else if n == 56 {
        0x100_0000_0000_0000
    } else if n == 57 {
        0x200_0000_0000_0000
    } else if n == 58 {
        0x400_0000_0000_0000
    } else if n == 59 {
        0x800_0000_0000_0000
    } else if n == 60 {
        0x1000_0000_0000_0000
    } else if n == 61 {
        0x2000_0000_0000_0000
    } else if n == 62 {
        0x4000_0000_0000_0000
    } else if n == 63 {
        0x8000_0000_0000_0000
    } else if n == 64 {
        0x1_0000_0000_0000_0000
    } else {
        pow2(n) as int
    }
}

/// The written-out powers of two are the powers of two.
pub proof fn lemma_two_to(n: nat)
    ensures
        two_to(n) == pow2(n),
{
    lemma2_to64();
    lemma2_to64_rest();
}

/// The `size`-bit field of `value` that starts at bit `from`, as a
/// non-negative number: `floor(value / 2^from) mod 2^size`.
#[verifier::inline]
pub open spec fn bits(value: int, from: nat, size: nat) -> int {
    (value / two_to(from)) % two_to(size)
}

/// Extracts the `size`-bit field of `value` that starts at bit `from`,
/// right-justified and never negative.
pub fn x<N: Into<u64>>(value: N, from: usize, size: usize) -> (r: i64)
    requires
        N::obeys_into_spec(),
        from < 64,
        size < 64,
        from + size <= 64,
    ensures
        r == bits(value.into_spec() as int, from as nat, size as nat),
        0 <= r < two_to(size as nat),
{
    let v: u64 = value.into();
    let shifted: u64 = v >> from;
    let one: u64 = 1;
    proof {
        lemma2_to64_rest();
        lemma_two_to(from as nat);
        lemma_two_to(size as nat);
        lemma_u64_pow2_no_overflow(size as nat);
        if size < 63 {
            lemma_pow2_strictly_increases(size as nat, 63);
        }
        lemma_u64_shl_is_mul(1, size as u64);
        assert(one << size == pow2(size as nat));
    }
    let mask: u64 = (one << size) - 1;
    let field: u64 = shifted & mask;
    proof {
        assert(mask == low_bits_mask(size as nat) as u64);
        lemma_u64_shr_is_div(v, from as u64);
        lemma_u64_low_bits_mask_is_mod(shifted, size as nat);
        assert(field == shifted % (pow2(size as nat) as u64));
        assert(shifted == v as nat / pow2(from as nat));
        lemma_mod_bound(shifted as int, pow2(size as nat) as int);
        assert(pow2(size as nat) <= pow2(63));
    }
    field as i64
}

/// The value of a `width`-bit field read as a two's-complement number: a
/// field with its top bit set stands for `value - 2^width`.
pub open spec fn sign_extend(value: int, width: nat) -> int
    recommends
        width >= 1,
        0 <= value < two_to(width),
{
    if value >= two_to((width - 1) as nat) {
        value - two_to(width)
    } else {
        value
    }
}

/// The 64-bit pattern of `value` read as an unsigned number.
pub open spec fn unsigned(value: i64) -> u64 {
    if value >= 0 {
        value as u64
    } else {
        (value + 0x1_0000_0000_0000_0000) as u64
    }
}

/// The 64-bit pattern of `value` read as a two's-complement number.
pub open spec fn signed(value: u64) -> i64 {
    if value < 0x8000_0000_0000_0000 {
        value as i64
    } else {
        (value - 0x1_0000_0000_0000_0000) as i64
    }
}

/// Reinterprets a signed 64-bit word as unsigned.
pub fn to_unsigned(value: i64) -> (r: u64)
    ensures
        r == unsigned(value),
{
    assert(value as u64 == unsigned(value)) by (bit_vector);
    value as u64
}

/// Reinterprets an unsigned 64-bit word as signed.
pub fn to_signed(value: u64) -> (r: i64)
    ensures
        r == signed(value),
{
    assert(value as i64 == signed(value)) by (bit_vector);
    value as i64
}

/// Reading a word as unsigned and back as signed, or the other way round,
/// gives the word back.
pub proof fn lemma_signed_unsigned(a: i64, b: u64)
    ensures
        signed(unsigned(a)) == a,
        unsigned(signed(b)) == b,
{
}

/// A field of a 32-bit word is the word shifted right and masked.
pub proof fn lemma_bits_u32(word: u32, from: u32, size: u32)
    requires
        from < 32,
        size < 32,
    ensures
        bits(word as int, from as nat, size as nat) == (word >> from) & ((two_to(size as nat)
            - 1) as u32),
{
    lemma_two_to(from as nat);
    lemma_two_to(size as nat);
    lemma_u32_shr_is_div(word, from);
    lemma_u32_low_bits_mask_is_mod(word >> from, size as nat);
    lemma_u32_pow2_no_overflow(size as nat);
}

/// A field of a 16-bit word is the word shifted right and masked.
pub proof fn lemma_bits_u16(word: u16, from: u16, size: u16)
    requires
        from < 16,
        size < 16,
    ensures
        bits(word as int, from as nat, size as nat) == (word >> from) & ((two_to(size as nat)
            - 1) as u16),
{
    lemma_two_to(from as nat);
    lemma_two_to(size as nat);
    lemma_u16_shr_is_div(word, from);
    lemma_u16_low_bits_mask_is_mod(word >> from, size as nat);
    lemma_u16_pow2_no_overflow(size as nat);
}

} // verus!
