//! Immediates written into instruction words, and the proofs that the operand
//! formatters read back what was written, over the whole range of each
//! format, and that what they read writes back to the same word.

use vstd::prelude::*;
use crate::instructions::rv32i::{imm_b, imm_i, imm_j, imm_s, imm_u};
use crate::instructions::rvc::{
    cb_offset, ci_imm, ci_offset_d, ci_offset_q, ci_offset_w, ci_shamt, ciw_imm, cj_offset,
    cl_offset_d, cl_offset_q, cl_offset_w, css_offset_d, css_offset_q, css_offset_w,
};
use crate::utils::{lemma_bits_u16, lemma_bits_u32};

verus! {

/// The word `inst` with `imm` written to the immediate of the I format and
/// every other bit left as it was.
pub open spec fn encode_imm_i(inst: u32, imm: int) -> u32 {
    let u = (imm % 0x1000) as u32;
    (inst & 0x000f_ffff) | ((u & 0xfff) << 20)
}

/// Both directions at once, in one argument over the bits: what is written
/// reads back, and what is read writes back.
proof fn lemma_imm_i_bits(inst: u32, imm: int, word: u32)
    ensures
        -2048 <= imm < 2048 ==> imm_i(encode_imm_i(inst, imm)) == imm,
        encode_imm_i(inst, imm) & 0x000f_ffff == inst & 0x000f_ffff,
        encode_imm_i(word, imm_i(word)) == word,
{
    let u = (imm % 0x1000) as u32;
    let w = encode_imm_i(inst, imm);
    let v = (imm_i(word) % 0x1000) as u32;
    let back = encode_imm_i(word, imm_i(word));
    lemma_bits_u32(w, 20, 12);
    lemma_bits_u32(word, 20, 12);
    assert((((w >> 20) & 0xfff) == u)
        && w & 0x000f_ffff == inst & 0x000f_ffff && back == word) by (bit_vector)
        requires
            u < 0x1000,
            w == (inst & 0x000f_ffff) | ((u & 0xfff) << 20),
            v == ((word >> 20) & 0xfff),
            back == (word & 0x000f_ffff) | ((v & 0xfff) << 20),
    ;
}

/// Any value from -2048 up to, but not including, 2048
/// that is written to a word as the immediate of the I format
/// reads back unchanged, and no other bit of the word changes.
pub proof fn lemma_imm_i_round_trip(inst: u32, imm: int)
    requires
        -2048 <= imm < 2048,
    ensures
        imm_i(encode_imm_i(inst, imm)) == imm,
        encode_imm_i(inst, imm) & 0x000f_ffff == inst & 0x000f_ffff,
{
    lemma_imm_i_bits(inst, imm, 0);
}

/// The immediate of the I format that a word holds,
/// written back to the word, leaves the word as it was.
pub proof fn lemma_imm_i_write_back(word: u32)
    ensures
        encode_imm_i(word, imm_i(word)) == word,
{
    lemma_imm_i_bits(0, 0, word);
}

/// The word `inst` with `imm` written to the immediate of the S format and
/// every other bit left as it was.
pub open spec fn encode_imm_s(inst: u32, imm: int) -> u32 {
    let u = (imm % 0x1000) as u32;
    (inst & 0x01ff_f07f) | ((u & 0x1f) << 7) | (((u >> 5) & 0x7f) << 25)
}

/// Both directions at once, in one argument over the bits: what is written
/// reads back, and what is read writes back.
proof fn lemma_imm_s_bits(inst: u32, imm: int, word: u32)
    ensures
        -2048 <= imm < 2048 ==> imm_s(encode_imm_s(inst, imm)) == imm,
        encode_imm_s(inst, imm) & 0x01ff_f07f == inst & 0x01ff_f07f,
        encode_imm_s(word, imm_s(word)) == word,
{
    let u = (imm % 0x1000) as u32;
    let w = encode_imm_s(inst, imm);
    let v = (imm_s(word) % 0x1000) as u32;
    let back = encode_imm_s(word, imm_s(word));
    lemma_bits_u32(w, 7, 5);
    lemma_bits_u32(w, 25, 7);
    lemma_bits_u32(word, 7, 5);
    lemma_bits_u32(word, 25, 7);
    assert((((w >> 7) & 0x1f) + 32 * ((w >> 25) & 0x7f) == u)
        && w & 0x01ff_f07f == inst & 0x01ff_f07f && back == word) by (bit_vector)
        requires
            u < 0x1000,
            w == (inst & 0x01ff_f07f) | ((u & 0x1f) << 7) | (((u >> 5) & 0x7f) << 25),
            v == ((word >> 7) & 0x1f) + 32 * ((word >> 25) & 0x7f),
            back == (word & 0x01ff_f07f) | ((v & 0x1f) << 7) | (((v >> 5) & 0x7f) << 25),
    ;
}

/// Any value from -2048 up to, but not including, 2048
/// that is written to a word as the immediate of the S format
/// reads back unchanged, and no other bit of the word changes.
pub proof fn lemma_imm_s_round_trip(inst: u32, imm: int)
    requires
        -2048 <= imm < 2048,
    ensures
        imm_s(encode_imm_s(inst, imm)) == imm,
        encode_imm_s(inst, imm) & 0x01ff_f07f == inst & 0x01ff_f07f,
{
    lemma_imm_s_bits(inst, imm, 0);
}

/// The immediate of the S format that a word holds,
/// written back to the word, leaves the word as it was.
pub proof fn lemma_imm_s_write_back(word: u32)
    ensures
        encode_imm_s(word, imm_s(word)) == word,
{
    lemma_imm_s_bits(0, 0, word);
}

/// The word `inst` with `imm` written to the offset of the B format and
/// every other bit left as it was.
pub open spec fn encode_imm_b(inst: u32, imm: int) -> u32 {
    let u = (imm % 0x2000) as u32;
    (inst & 0x01ff_f07f) | (((u >> 1) & 0xf) << 8) | (((u >> 5) & 0x3f) << 25)
        | (((u >> 11) & 0x1) << 7) | (((u >> 12) & 0x1) << 31)
}

/// Both directions at once, in one argument over the bits: what is written
/// reads back, and what is read writes back.
proof fn lemma_imm_b_bits(inst: u32, imm: int, word: u32)
    ensures
        -4096 <= imm < 4096 && imm % 2 == 0 ==> imm_b(encode_imm_b(inst, imm)) == imm,
        encode_imm_b(inst, imm) & 0x01ff_f07f == inst & 0x01ff_f07f,
        encode_imm_b(word, imm_b(word)) == word,
{
    let u = (imm % 0x2000) as u32;
    let w = encode_imm_b(inst, imm);
    let v = (imm_b(word) % 0x2000) as u32;
    let back = encode_imm_b(word, imm_b(word));
    lemma_bits_u32(w, 7, 1);
    lemma_bits_u32(w, 8, 4);
    lemma_bits_u32(w, 25, 6);
    lemma_bits_u32(w, 31, 1);
    lemma_bits_u32(word, 7, 1);
    lemma_bits_u32(word, 8, 4);
    lemma_bits_u32(word, 25, 6);
    lemma_bits_u32(word, 31, 1);
    assert((u % 2 == 0 ==> 2 * ((w >> 8) & 0xf) + 32 * ((w >> 25) & 0x3f)
        + 2048 * ((w >> 7) & 0x1) + 4096 * ((w >> 31) & 0x1) == u)
        && w & 0x01ff_f07f == inst & 0x01ff_f07f && back == word) by (bit_vector)
        requires
            u < 0x2000,
            w == (inst & 0x01ff_f07f) | (((u >> 1) & 0xf) << 8) | (((u >> 5) & 0x3f) << 25)
                | (((u >> 11) & 0x1) << 7) | (((u >> 12) & 0x1) << 31),
            v == 2 * ((word >> 8) & 0xf) + 32 * ((word >> 25) & 0x3f)
                + 2048 * ((word >> 7) & 0x1) + 4096 * ((word >> 31) & 0x1),
            back == (word & 0x01ff_f07f) | (((v >> 1) & 0xf) << 8)
                | (((v >> 5) & 0x3f) << 25) | (((v >> 11) & 0x1) << 7)
                | (((v >> 12) & 0x1) << 31),
    ;
}

/// Any value from -4096 up to, but not including, 4096 that is a multiple of 2
/// that is written to a word as the offset of the B format
/// reads back unchanged, and no other bit of the word changes.
pub proof fn lemma_imm_b_round_trip(inst: u32, imm: int)
    requires
        -4096 <= imm < 4096,
        imm % 2 == 0,
    ensures
        imm_b(encode_imm_b(inst, imm)) == imm,
        encode_imm_b(inst, imm) & 0x01ff_f07f == inst & 0x01ff_f07f,
{
    lemma_imm_b_bits(inst, imm, 0);
}

/// The offset of the B format that a word holds,
/// written back to the word, leaves the word as it was.
pub proof fn lemma_imm_b_write_back(word: u32)
    ensures
        encode_imm_b(word, imm_b(word)) == word,
{
    lemma_imm_b_bits(0, 0, word);
}

/// The word `inst` with `imm` written to the immediate of the U format and
/// every other bit left as it was.
pub open spec fn encode_imm_u(inst: u32, imm: int) -> u32 {
    let u = (imm % 0x0010_0000) as u32;
    (inst & 0xfff) | ((u & 0x000f_ffff) << 12)
}

/// Both directions at once, in one argument over the bits: what is written
/// reads back, and what is read writes back.
proof fn lemma_imm_u_bits(inst: u32, imm: int, word: u32)
    ensures
        -524288 <= imm < 524288 ==> imm_u(encode_imm_u(inst, imm)) == imm,
        encode_imm_u(inst, imm) & 0xfff == inst & 0xfff,
        encode_imm_u(word, imm_u(word)) == word,
{
    let u = (imm % 0x0010_0000) as u32;
    let w = encode_imm_u(inst, imm);
    let v = (imm_u(word) % 0x0010_0000) as u32;
    let back = encode_imm_u(word, imm_u(word));
    lemma_bits_u32(w, 12, 20);
    lemma_bits_u32(word, 12, 20);
    assert((((w >> 12) & 0x000f_ffff) == u)
        && w & 0xfff == inst & 0xfff && back == word) by (bit_vector)
        requires
            u < 0x0010_0000,
            w == (inst & 0xfff) | ((u & 0x000f_ffff) << 12),
            v == ((word >> 12) & 0x000f_ffff),
            back == (word & 0xfff) | ((v & 0x000f_ffff) << 12),
    ;
}

/// Any value from -524288 up to, but not including, 524288
/// that is written to a word as the immediate of the U format
/// reads back unchanged, and no other bit of the word changes.
pub proof fn lemma_imm_u_round_trip(inst: u32, imm: int)
    requires
        -524288 <= imm < 524288,
    ensures
        imm_u(encode_imm_u(inst, imm)) == imm,
        encode_imm_u(inst, imm) & 0xfff == inst & 0xfff,
{
    lemma_imm_u_bits(inst, imm, 0);
}

/// The immediate of the U format that a word holds,
/// written back to the word, leaves the word as it was.
pub proof fn lemma_imm_u_write_back(word: u32)
    ensures
        encode_imm_u(word, imm_u(word)) == word,
{
    lemma_imm_u_bits(0, 0, word);
}

/// The word `inst` with `imm` written to the offset of the J format and
/// every other bit left as it was.
pub open spec fn encode_imm_j(inst: u32, imm: int) -> u32 {
    let u = (imm % 0x0020_0000) as u32;
    (inst & 0xfff) | (((u >> 1) & 0x3ff) << 21) | (((u >> 11) & 0x1) << 20)
        | (((u >> 12) & 0xff) << 12) | (((u >> 20) & 0x1) << 31)
}

/// Both directions at once, in one argument over the bits: what is written
/// reads back, and what is read writes back.
proof fn lemma_imm_j_bits(inst: u32, imm: int, word: u32)
    ensures
        -1048576 <= imm < 1048576 && imm % 2 == 0 ==> imm_j(encode_imm_j(inst, imm)) == imm,
        encode_imm_j(inst, imm) & 0xfff == inst & 0xfff,
        encode_imm_j(word, imm_j(word)) == word,
{
    let u = (imm % 0x0020_0000) as u32;
    let w = encode_imm_j(inst, imm);
    let v = (imm_j(word) % 0x0020_0000) as u32;
    let back = encode_imm_j(word, imm_j(word));
    lemma_bits_u32(w, 12, 8);
    lemma_bits_u32(w, 20, 1);
    lemma_bits_u32(w, 21, 10);
    lemma_bits_u32(w, 31, 1);
    lemma_bits_u32(word, 12, 8);
    lemma_bits_u32(word, 20, 1);
    lemma_bits_u32(word, 21, 10);
    lemma_bits_u32(word, 31, 1);
    assert((u % 2 == 0 ==> 2 * ((w >> 21) & 0x3ff) + 2048 * ((w >> 20) & 0x1)
        + 4096 * ((w >> 12) & 0xff) + 1048576 * ((w >> 31) & 0x1) == u)
        && w & 0xfff == inst & 0xfff && back == word) by (bit_vector)
        requires
            u < 0x0020_0000,
            w == (inst & 0xfff) | (((u >> 1) & 0x3ff) << 21) | (((u >> 11) & 0x1) << 20)
                | (((u >> 12) & 0xff) << 12) | (((u >> 20) & 0x1) << 31),
            v == 2 * ((word >> 21) & 0x3ff) + 2048 * ((word >> 20) & 0x1)
                + 4096 * ((word >> 12) & 0xff) + 1048576 * ((word >> 31) & 0x1),
            back == (word & 0xfff) | (((v >> 1) & 0x3ff) << 21) | (((v >> 11) & 0x1) << 20)
                | (((v >> 12) & 0xff) << 12) | (((v >> 20) & 0x1) << 31),
    ;
}

/// Any value from -1048576 up to, but not including, 1048576 that is a multiple of 2
/// that is written to a word as the offset of the J format
/// reads back unchanged, and no other bit of the word changes.
pub proof fn lemma_imm_j_round_trip(inst: u32, imm: int)
    requires
        -1048576 <= imm < 1048576,
        imm % 2 == 0,
    ensures
        imm_j(encode_imm_j(inst, imm)) == imm,
        encode_imm_j(inst, imm) & 0xfff == inst & 0xfff,
{
    lemma_imm_j_bits(inst, imm, 0);
}

/// The offset of the J format that a word holds,
/// written back to the word, leaves the word as it was.
pub proof fn lemma_imm_j_write_back(word: u32)
    ensures
        encode_imm_j(word, imm_j(word)) == word,
{
    lemma_imm_j_bits(0, 0, word);
}

/// The word `inst` with `imm` written to the signed immediate of the CI format and
/// every other bit left as it was.
pub open spec fn encode_ci_imm(inst: u16, imm: int) -> u16 {
    let u = (imm % 0x40) as u16;
    (inst & 0xef83) | ((u & 0x1f) << 2) | (((u >> 5) & 0x1) << 12)
}

/// Both directions at once, in one argument over the bits: what is written
/// reads back, and what is read writes back.
proof fn lemma_ci_imm_bits(inst: u16, imm: int, word: u16)
    ensures
        -32 <= imm < 32 ==> ci_imm(encode_ci_imm(inst, imm)) == imm,
        encode_ci_imm(inst, imm) & 0xef83 == inst & 0xef83,
        encode_ci_imm(word, ci_imm(word)) == word,
{
    let u = (imm % 0x40) as u16;
    let w = encode_ci_imm(inst, imm);
    let v = (ci_imm(word) % 0x40) as u16;
    let back = encode_ci_imm(word, ci_imm(word));
    lemma_bits_u16(w, 2, 5);
    lemma_bits_u16(w, 12, 1);
    lemma_bits_u16(word, 2, 5);
    lemma_bits_u16(word, 12, 1);
    assert((((w >> 2) & 0x1f) + 32 * ((w >> 12) & 0x1) == u)
        && w & 0xef83 == inst & 0xef83 && back == word) by (bit_vector)
        requires
            u < 0x40,
            w == (inst & 0xef83) | ((u & 0x1f) << 2) | (((u >> 5) & 0x1) << 12),
            v == ((word >> 2) & 0x1f) + 32 * ((word >> 12) & 0x1),
            back == (word & 0xef83) | ((v & 0x1f) << 2) | (((v >> 5) & 0x1) << 12),
    ;
}

/// Any value from -32 up to, but not including, 32
/// that is written to a word as the signed immediate of the CI format
/// reads back unchanged, and no other bit of the word changes.
pub proof fn lemma_ci_imm_round_trip(inst: u16, imm: int)
    requires
        -32 <= imm < 32,
    ensures
        ci_imm(encode_ci_imm(inst, imm)) == imm,
        encode_ci_imm(inst, imm) & 0xef83 == inst & 0xef83,
{
    lemma_ci_imm_bits(inst, imm, 0);
}

/// The signed immediate of the CI format that a word holds,
/// written back to the word, leaves the word as it was.
pub proof fn lemma_ci_imm_write_back(word: u16)
    ensures
        encode_ci_imm(word, ci_imm(word)) == word,
{
    lemma_ci_imm_bits(0, 0, word);
}

/// The word `inst` with `imm` written to the shift amount and
/// every other bit left as it was.
pub open spec fn encode_ci_shamt(inst: u16, imm: int) -> u16 {
    let u = (imm % 0x40) as u16;
    (inst & 0xef83) | ((u & 0x1f) << 2) | (((u >> 5) & 0x1) << 12)
}

/// Both directions at once, in one argument over the bits: what is written
/// reads back, and what is read writes back.
proof fn lemma_ci_shamt_bits(inst: u16, imm: int, word: u16)
    ensures
        0 <= imm < 64 ==> ci_shamt(encode_ci_shamt(inst, imm)) == imm,
        encode_ci_shamt(inst, imm) & 0xef83 == inst & 0xef83,
        encode_ci_shamt(word, ci_shamt(word)) == word,
{
    let u = (imm % 0x40) as u16;
    let w = encode_ci_shamt(inst, imm);
    let v = (ci_shamt(word) % 0x40) as u16;
    let back = encode_ci_shamt(word, ci_shamt(word));
    lemma_bits_u16(w, 2, 5);
    lemma_bits_u16(w, 12, 1);
    lemma_bits_u16(word, 2, 5);
    lemma_bits_u16(word, 12, 1);
    assert((((w >> 2) & 0x1f) + 32 * ((w >> 12) & 0x1) == u)
        && w & 0xef83 == inst & 0xef83 && back == word) by (bit_vector)
        requires
            u < 0x40,
            w == (inst & 0xef83) | ((u & 0x1f) << 2) | (((u >> 5) & 0x1) << 12),
            v == ((word >> 2) & 0x1f) + 32 * ((word >> 12) & 0x1),
            back == (word & 0xef83) | ((v & 0x1f) << 2) | (((v >> 5) & 0x1) << 12),
    ;
}

/// Any value from 0 up to, but not including, 64
/// that is written to a word as the shift amount
/// reads back unchanged, and no other bit of the word changes.
pub proof fn lemma_ci_shamt_round_trip(inst: u16, imm: int)
    requires
        0 <= imm < 64,
    ensures
        ci_shamt(encode_ci_shamt(inst, imm)) == imm,
        encode_ci_shamt(inst, imm) & 0xef83 == inst & 0xef83,
{
    lemma_ci_shamt_bits(inst, imm, 0);
}

/// The shift amount that a word holds,
/// written back to the word, leaves the word as it was.
pub proof fn lemma_ci_shamt_write_back(word: u16)
    ensures
        encode_ci_shamt(word, ci_shamt(word)) == word,
{
    lemma_ci_shamt_bits(0, 0, word);
}

/// The word `inst` with `imm` written to the stack-pointer offset of a word load and
/// every other bit left as it was.
pub open spec fn encode_ci_offset_w(inst: u16, imm: int) -> u16 {
    let u = (imm % 0x100) as u16;
    (inst & 0xef83) | (((u >> 2) & 0x7) << 4) | (((u >> 5) & 0x1) << 12)
        | (((u >> 6) & 0x3) << 2)
}

/// Both directions at once, in one argument over the bits: what is written
/// reads back, and what is read writes back.
proof fn lemma_ci_offset_w_bits(inst: u16, imm: int, word: u16)
    ensures
        0 <= imm < 256 && imm % 4 == 0 ==> ci_offset_w(encode_ci_offset_w(inst, imm)) == imm,
        encode_ci_offset_w(inst, imm) & 0xef83 == inst & 0xef83,
        encode_ci_offset_w(word, ci_offset_w(word)) == word,
{
    let u = (imm % 0x100) as u16;
    let w = encode_ci_offset_w(inst, imm);
    let v = (ci_offset_w(word) % 0x100) as u16;
    let back = encode_ci_offset_w(word, ci_offset_w(word));
    lemma_bits_u16(w, 2, 2);
    lemma_bits_u16(w, 4, 3);
    lemma_bits_u16(w, 12, 1);
    lemma_bits_u16(word, 2, 2);
    lemma_bits_u16(word, 4, 3);
    lemma_bits_u16(word, 12, 1);
    assert((u % 4 == 0 ==> 4 * ((w >> 4) & 0x7) + 32 * ((w >> 12) & 0x1)
        + 64 * ((w >> 2) & 0x3) == u)
        && w & 0xef83 == inst & 0xef83 && back == word) by (bit_vector)
        requires
            u < 0x100,
            w == (inst & 0xef83) | (((u >> 2) & 0x7) << 4) | (((u >> 5) & 0x1) << 12)
                | (((u >> 6) & 0x3) << 2),
            v == 4 * ((word >> 4) & 0x7) + 32 * ((word >> 12) & 0x1)
                + 64 * ((word >> 2) & 0x3),
            back == (word & 0xef83) | (((v >> 2) & 0x7) << 4) | (((v >> 5) & 0x1) << 12)
                | (((v >> 6) & 0x3) << 2),
    ;
}

/// Any value from 0 up to, but not including, 256 that is a multiple of 4
/// that is written to a word as the stack-pointer offset of a word load
/// reads back unchanged, and no other bit of the word changes.
pub proof fn lemma_ci_offset_w_round_trip(inst: u16, imm: int)
    requires
        0 <= imm < 256,
        imm % 4 == 0,
    ensures
        ci_offset_w(encode_ci_offset_w(inst, imm)) == imm,
        encode_ci_offset_w(inst, imm) & 0xef83 == inst & 0xef83,
{
    lemma_ci_offset_w_bits(inst, imm, 0);
}

/// The stack-pointer offset of a word load that a word holds,
/// written back to the word, leaves the word as it was.
pub proof fn lemma_ci_offset_w_write_back(word: u16)
    ensures
        encode_ci_offset_w(word, ci_offset_w(word)) == word,
{
    lemma_ci_offset_w_bits(0, 0, word);
}

/// The word `inst` with `imm` written to the stack-pointer offset of a double-word load and
/// every other bit left as it was.
pub open spec fn encode_ci_offset_d(inst: u16, imm: int) -> u16 {
    let u = (imm % 0x200) as u16;
    (inst & 0xef83) | (((u >> 3) & 0x3) << 5) | (((u >> 5) & 0x1) << 12)
        | (((u >> 6) & 0x7) << 2)
}

/// Both directions at once, in one argument over the bits: what is written
/// reads back, and what is read writes back.
proof fn lemma_ci_offset_d_bits(inst: u16, imm: int, word: u16)
    ensures
        0 <= imm < 512 && imm % 8 == 0 ==> ci_offset_d(encode_ci_offset_d(inst, imm)) == imm,
        encode_ci_offset_d(inst, imm) & 0xef83 == inst & 0xef83,
        encode_ci_offset_d(word, ci_offset_d(word)) == word,
{
    let u = (imm % 0x200) as u16;
    let w = encode_ci_offset_d(inst, imm);
    let v = (ci_offset_d(word) % 0x200) as u16;
    let back = encode_ci_offset_d(word, ci_offset_d(word));
    lemma_bits_u16(w, 2, 3);
    lemma_bits_u16(w, 5, 2);
    lemma_bits_u16(w, 12, 1);
    lemma_bits_u16(word, 2, 3);
    lemma_bits_u16(word, 5, 2);
    lemma_bits_u16(word, 12, 1);
    assert((u % 8 == 0 ==> 8 * ((w >> 5) & 0x3) + 32 * ((w >> 12) & 0x1)
        + 64 * ((w >> 2) & 0x7) == u)
        && w & 0xef83 == inst & 0xef83 && back == word) by (bit_vector)
        requires
            u < 0x200,
            w == (inst & 0xef83) | (((u >> 3) & 0x3) << 5) | (((u >> 5) & 0x1) << 12)
                | (((u >> 6) & 0x7) << 2),
            v == 8 * ((word >> 5) & 0x3) + 32 * ((word >> 12) & 0x1)
                + 64 * ((word >> 2) & 0x7),
            back == (word & 0xef83) | (((v >> 3) & 0x3) << 5) | (((v >> 5) & 0x1) << 12)
                | (((v >> 6) & 0x7) << 2),
    ;
}

/// Any value from 0 up to, but not including, 512 that is a multiple of 8
/// that is written to a word as the stack-pointer offset of a double-word load
/// reads back unchanged, and no other bit of the word changes.
pub proof fn lemma_ci_offset_d_round_trip(inst: u16, imm: int)
    requires
        0 <= imm < 512,
        imm % 8 == 0,
    ensures
        ci_offset_d(encode_ci_offset_d(inst, imm)) == imm,
        encode_ci_offset_d(inst, imm) & 0xef83 == inst & 0xef83,
{
    lemma_ci_offset_d_bits(inst, imm, 0);
}

/// The stack-pointer offset of a double-word load that a word holds,
/// written back to the word, leaves the word as it was.
pub proof fn lemma_ci_offset_d_write_back(word: u16)
    ensures
        encode_ci_offset_d(word, ci_offset_d(word)) == word,
{
    lemma_ci_offset_d_bits(0, 0, word);
}

/// The word `inst` with `imm` written to the stack-pointer offset of a quad-word load and
/// every other bit left as it was.
pub open spec fn encode_ci_offset_q(inst: u16, imm: int) -> u16 {
    let u = (imm % 0x400) as u16;
    (inst & 0xef83) | (((u >> 4) & 0x1) << 6) | (((u >> 5) & 0x1) << 12)
        | (((u >> 6) & 0xf) << 2)
}

/// Both directions at once, in one argument over the bits: what is written
/// reads back, and what is read writes back.
proof fn lemma_ci_offset_q_bits(inst: u16, imm: int, word: u16)
    ensures
        0 <= imm < 1024 && imm % 16 == 0 ==> ci_offset_q(encode_ci_offset_q(inst, imm)) == imm,
        encode_ci_offset_q(inst, imm) & 0xef83 == inst & 0xef83,
        encode_ci_offset_q(word, ci_offset_q(word)) == word,
{
    let u = (imm % 0x400) as u16;
    let w = encode_ci_offset_q(inst, imm);
    let v = (ci_offset_q(word) % 0x400) as u16;
    let back = encode_ci_offset_q(word, ci_offset_q(word));
    lemma_bits_u16(w, 2, 4);
    lemma_bits_u16(w, 6, 1);
    lemma_bits_u16(w, 12, 1);
    lemma_bits_u16(word, 2, 4);
    lemma_bits_u16(word, 6, 1);
    lemma_bits_u16(word, 12, 1);
    assert((u % 16 == 0 ==> 16 * ((w >> 6) & 0x1) + 32 * ((w >> 12) & 0x1)
        + 64 * ((w >> 2) & 0xf) == u)
        && w & 0xef83 == inst & 0xef83 && back == word) by (bit_vector)
        requires
            u < 0x400,
            w == (inst & 0xef83) | (((u >> 4) & 0x1) << 6) | (((u >> 5) & 0x1) << 12)
                | (((u >> 6) & 0xf) << 2),
            v == 16 * ((word >> 6) & 0x1) + 32 * ((word >> 12) & 0x1)
                + 64 * ((word >> 2) & 0xf),
            back == (word & 0xef83) | (((v >> 4) & 0x1) << 6) | (((v >> 5) & 0x1) << 12)
                | (((v >> 6) & 0xf) << 2),
    ;
}

/// Any value from 0 up to, but not including, 1024 that is a multiple of 16
/// that is written to a word as the stack-pointer offset of a quad-word load
/// reads back unchanged, and no other bit of the word changes.
pub proof fn lemma_ci_offset_q_round_trip(inst: u16, imm: int)
    requires
        0 <= imm < 1024,
        imm % 16 == 0,
    ensures
        ci_offset_q(encode_ci_offset_q(inst, imm)) == imm,
        encode_ci_offset_q(inst, imm) & 0xef83 == inst & 0xef83,
{
    lemma_ci_offset_q_bits(inst, imm, 0);
}

/// The stack-pointer offset of a quad-word load that a word holds,
/// written back to the word, leaves the word as it was.
pub proof fn lemma_ci_offset_q_write_back(word: u16)
    ensures
        encode_ci_offset_q(word, ci_offset_q(word)) == word,
{
    lemma_ci_offset_q_bits(0, 0, word);
}

/// The word `inst` with `imm` written to the stack-pointer offset of a word store and
/// every other bit left as it was.
pub open spec fn encode_css_offset_w(inst: u16, imm: int) -> u16 {
    let u = (imm % 0x100) as u16;
    (inst & 0xe07f) | (((u >> 2) & 0xf) << 9) | (((u >> 6) & 0x3) << 7)
}

/// Both directions at once, in one argument over the bits: what is written
/// reads back, and what is read writes back.
proof fn lemma_css_offset_w_bits(inst: u16, imm: int, word: u16)
    ensures
        0 <= imm < 256 && imm % 4 == 0 ==> css_offset_w(encode_css_offset_w(inst, imm)) == imm,
        encode_css_offset_w(inst, imm) & 0xe07f == inst & 0xe07f,
        encode_css_offset_w(word, css_offset_w(word)) == word,
{
    let u = (imm % 0x100) as u16;
    let w = encode_css_offset_w(inst, imm);
    let v = (css_offset_w(word) % 0x100) as u16;
    let back = encode_css_offset_w(word, css_offset_w(word));
    lemma_bits_u16(w, 7, 2);
    lemma_bits_u16(w, 9, 4);
    lemma_bits_u16(word, 7, 2);
    lemma_bits_u16(word, 9, 4);
    assert((u % 4 == 0 ==> 4 * ((w >> 9) & 0xf) + 64 * ((w >> 7) & 0x3) == u)
        && w & 0xe07f == inst & 0xe07f && back == word) by (bit_vector)
        requires
            u < 0x100,
            w == (inst & 0xe07f) | (((u >> 2) & 0xf) << 9) | (((u >> 6) & 0x3) << 7),
            v == 4 * ((word >> 9) & 0xf) + 64 * ((word >> 7) & 0x3),
            back == (word & 0xe07f) | (((v >> 2) & 0xf) << 9) | (((v >> 6) & 0x3) << 7),
    ;
}

/// Any value from 0 up to, but not including, 256 that is a multiple of 4
/// that is written to a word as the stack-pointer offset of a word store
/// reads back unchanged, and no other bit of the word changes.
pub proof fn lemma_css_offset_w_round_trip(inst: u16, imm: int)
    requires
        0 <= imm < 256,
        imm % 4 == 0,
    ensures
        css_offset_w(encode_css_offset_w(inst, imm)) == imm,
        encode_css_offset_w(inst, imm) & 0xe07f == inst & 0xe07f,
{
    lemma_css_offset_w_bits(inst, imm, 0);
}

/// The stack-pointer offset of a word store that a word holds,
/// written back to the word, leaves the word as it was.
pub proof fn lemma_css_offset_w_write_back(word: u16)
    ensures
        encode_css_offset_w(word, css_offset_w(word)) == word,
{
    lemma_css_offset_w_bits(0, 0, word);
}

/// The word `inst` with `imm` written to the stack-pointer offset of a double-word store and
/// every other bit left as it was.
pub open spec fn encode_css_offset_d(inst: u16, imm: int) -> u16 {
    let u = (imm % 0x200) as u16;
    (inst & 0xe07f) | (((u >> 3) & 0x7) << 10) | (((u >> 6) & 0x7) << 7)
}

/// Both directions at once, in one argument over the bits: what is written
/// reads back, and what is read writes back.
proof fn lemma_css_offset_d_bits(inst: u16, imm: int, word: u16)
    ensures
        0 <= imm < 512 && imm % 8 == 0 ==> css_offset_d(encode_css_offset_d(inst, imm)) == imm,
        encode_css_offset_d(inst, imm) & 0xe07f == inst & 0xe07f,
        encode_css_offset_d(word, css_offset_d(word)) == word,
{
    let u = (imm % 0x200) as u16;
    let w = encode_css_offset_d(inst, imm);
    let v = (css_offset_d(word) % 0x200) as u16;
    let back = encode_css_offset_d(word, css_offset_d(word));
    lemma_bits_u16(w, 7, 3);
    lemma_bits_u16(w, 10, 3);
    lemma_bits_u16(word, 7, 3);
    lemma_bits_u16(word, 10, 3);
    assert((u % 8 == 0 ==> 8 * ((w >> 10) & 0x7) + 64 * ((w >> 7) & 0x7) == u)
        && w & 0xe07f == inst & 0xe07f && back == word) by (bit_vector)
        requires
            u < 0x200,
            w == (inst & 0xe07f) | (((u >> 3) & 0x7) << 10) | (((u >> 6) & 0x7) << 7),
            v == 8 * ((word >> 10) & 0x7) + 64 * ((word >> 7) & 0x7),
            back == (word & 0xe07f) | (((v >> 3) & 0x7) << 10) | (((v >> 6) & 0x7) << 7),
    ;
}

/// Any value from 0 up to, but not including, 512 that is a multiple of 8
/// that is written to a word as the stack-pointer offset of a double-word store
/// reads back unchanged, and no other bit of the word changes.
pub proof fn lemma_css_offset_d_round_trip(inst: u16, imm: int)
    requires
        0 <= imm < 512,
        imm % 8 == 0,
    ensures
        css_offset_d(encode_css_offset_d(inst, imm)) == imm,
        encode_css_offset_d(inst, imm) & 0xe07f == inst & 0xe07f,
{
    lemma_css_offset_d_bits(inst, imm, 0);
}

/// The stack-pointer offset of a double-word store that a word holds,
/// written back to the word, leaves the word as it was.
pub proof fn lemma_css_offset_d_write_back(word: u16)
    ensures
        encode_css_offset_d(word, css_offset_d(word)) == word,
{
    lemma_css_offset_d_bits(0, 0, word);
}

/// The word `inst` with `imm` written to the stack-pointer offset of a quad-word store and
/// every other bit left as it was.
pub open spec fn encode_css_offset_q(inst: u16, imm: int) -> u16 {
    let u = (imm % 0x400) as u16;
    (inst & 0xe07f) | (((u >> 4) & 0x3) << 11) | (((u >> 6) & 0xf) << 7)
}

/// Both directions at once, in one argument over the bits: what is written
/// reads back, and what is read writes back.
proof fn lemma_css_offset_q_bits(inst: u16, imm: int, word: u16)
    ensures
        0 <= imm < 1024 && imm % 16 == 0 ==> css_offset_q(encode_css_offset_q(inst, imm)) == imm,
        encode_css_offset_q(inst, imm) & 0xe07f == inst & 0xe07f,
        encode_css_offset_q(word, css_offset_q(word)) == word,
{
    let u = (imm % 0x400) as u16;
    let w = encode_css_offset_q(inst, imm);
    let v = (css_offset_q(word) % 0x400) as u16;
    let back = encode_css_offset_q(word, css_offset_q(word));
    lemma_bits_u16(w, 7, 4);
    lemma_bits_u16(w, 11, 2);
    lemma_bits_u16(word, 7, 4);
    lemma_bits_u16(word, 11, 2);
    assert((u % 16 == 0 ==> 16 * ((w >> 11) & 0x3) + 64 * ((w >> 7) & 0xf) == u)
        && w & 0xe07f == inst & 0xe07f && back == word) by (bit_vector)
        requires
            u < 0x400,
            w == (inst & 0xe07f) | (((u >> 4) & 0x3) << 11) | (((u >> 6) & 0xf) << 7),
            v == 16 * ((word >> 11) & 0x3) + 64 * ((word >> 7) & 0xf),
            back == (word & 0xe07f) | (((v >> 4) & 0x3) << 11) | (((v >> 6) & 0xf) << 7),
    ;
}

/// Any value from 0 up to, but not including, 1024 that is a multiple of 16
/// that is written to a word as the stack-pointer offset of a quad-word store
/// reads back unchanged, and no other bit of the word changes.
pub proof fn lemma_css_offset_q_round_trip(inst: u16, imm: int)
    requires
        0 <= imm < 1024,
        imm % 16 == 0,
    ensures
        css_offset_q(encode_css_offset_q(inst, imm)) == imm,
        encode_css_offset_q(inst, imm) & 0xe07f == inst & 0xe07f,
{
    lemma_css_offset_q_bits(inst, imm, 0);
}

/// The stack-pointer offset of a quad-word store that a word holds,
/// written back to the word, leaves the word as it was.
pub proof fn lemma_css_offset_q_write_back(word: u16)
    ensures
        encode_css_offset_q(word, css_offset_q(word)) == word,
{
    lemma_css_offset_q_bits(0, 0, word);
}

/// The word `inst` with `imm` written to the immediate of the CIW format and
/// every other bit left as it was.
pub open spec fn encode_ciw_imm(inst: u16, imm: int) -> u16 {
    let u = (imm % 0x400) as u16;
    (inst & 0xe01f) | (((u >> 2) & 0x1) << 6) | (((u >> 3) & 0x1) << 5)
        | (((u >> 4) & 0x3) << 11) | (((u >> 6) & 0xf) << 7)
}

/// Both directions at once, in one argument over the bits: what is written
/// reads back, and what is read writes back.
proof fn lemma_ciw_imm_bits(inst: u16, imm: int, word: u16)
    ensures
        0 <= imm < 1024 && imm % 4 == 0 ==> ciw_imm(encode_ciw_imm(inst, imm)) == imm,
        encode_ciw_imm(inst, imm) & 0xe01f == inst & 0xe01f,
        encode_ciw_imm(word, ciw_imm(word)) == word,
{
    let u = (imm % 0x400) as u16;
    let w = encode_ciw_imm(inst, imm);
    let v = (ciw_imm(word) % 0x400) as u16;
    let back = encode_ciw_imm(word, ciw_imm(word));
    lemma_bits_u16(w, 5, 1);
    lemma_bits_u16(w, 6, 1);
    lemma_bits_u16(w, 7, 4);
    lemma_bits_u16(w, 11, 2);
    lemma_bits_u16(word, 5, 1);
    lemma_bits_u16(word, 6, 1);
    lemma_bits_u16(word, 7, 4);
    lemma_bits_u16(word, 11, 2);
    assert((u % 4 == 0 ==> 4 * ((w >> 6) & 0x1) + 8 * ((w >> 5) & 0x1)
        + 16 * ((w >> 11) & 0x3) + 64 * ((w >> 7) & 0xf) == u)
        && w & 0xe01f == inst & 0xe01f && back == word) by (bit_vector)
        requires
            u < 0x400,
            w == (inst & 0xe01f) | (((u >> 2) & 0x1) << 6) | (((u >> 3) & 0x1) << 5)
                | (((u >> 4) & 0x3) << 11) | (((u >> 6) & 0xf) << 7),
            v == 4 * ((word >> 6) & 0x1) + 8 * ((word >> 5) & 0x1)
                + 16 * ((word >> 11) & 0x3) + 64 * ((word >> 7) & 0xf),
            back == (word & 0xe01f) | (((v >> 2) & 0x1) << 6) | (((v >> 3) & 0x1) << 5)
                | (((v >> 4) & 0x3) << 11) | (((v >> 6) & 0xf) << 7),
    ;
}

/// Any value from 0 up to, but not including, 1024 that is a multiple of 4
/// that is written to a word as the immediate of the CIW format
/// reads back unchanged, and no other bit of the word changes.
pub proof fn lemma_ciw_imm_round_trip(inst: u16, imm: int)
    requires
        0 <= imm < 1024,
        imm % 4 == 0,
    ensures
        ciw_imm(encode_ciw_imm(inst, imm)) == imm,
        encode_ciw_imm(inst, imm) & 0xe01f == inst & 0xe01f,
{
    lemma_ciw_imm_bits(inst, imm, 0);
}

/// The immediate of the CIW format that a word holds,
/// written back to the word, leaves the word as it was.
pub proof fn lemma_ciw_imm_write_back(word: u16)
    ensures
        encode_ciw_imm(word, ciw_imm(word)) == word,
{
    lemma_ciw_imm_bits(0, 0, word);
}

/// The word `inst` with `imm` written to the offset of a word load or store and
/// every other bit left as it was.
pub open spec fn encode_cl_offset_w(inst: u16, imm: int) -> u16 {
    let u = (imm % 0x80) as u16;
    (inst & 0xe39f) | (((u >> 2) & 0x1) << 6) | (((u >> 3) & 0x7) << 10)
        | (((u >> 6) & 0x1) << 5)
}

/// Both directions at once, in one argument over the bits: what is written
/// reads back, and what is read writes back.
proof fn lemma_cl_offset_w_bits(inst: u16, imm: int, word: u16)
    ensures
        0 <= imm < 128 && imm % 4 == 0 ==> cl_offset_w(encode_cl_offset_w(inst, imm)) == imm,
        encode_cl_offset_w(inst, imm) & 0xe39f == inst & 0xe39f,
        encode_cl_offset_w(word, cl_offset_w(word)) == word,
{
    let u = (imm % 0x80) as u16;
    let w = encode_cl_offset_w(inst, imm);
    let v = (cl_offset_w(word) % 0x80) as u16;
    let back = encode_cl_offset_w(word, cl_offset_w(word));
    lemma_bits_u16(w, 5, 1);
    lemma_bits_u16(w, 6, 1);
    lemma_bits_u16(w, 10, 3);
    lemma_bits_u16(word, 5, 1);
    lemma_bits_u16(word, 6, 1);
    lemma_bits_u16(word, 10, 3);
    assert((u % 4 == 0 ==> 4 * ((w >> 6) & 0x1) + 8 * ((w >> 10) & 0x7)
        + 64 * ((w >> 5) & 0x1) == u)
        && w & 0xe39f == inst & 0xe39f && back == word) by (bit_vector)
        requires
            u < 0x80,
            w == (inst & 0xe39f) | (((u >> 2) & 0x1) << 6) | (((u >> 3) & 0x7) << 10)
                | (((u >> 6) & 0x1) << 5),
            v == 4 * ((word >> 6) & 0x1) + 8 * ((word >> 10) & 0x7)
                + 64 * ((word >> 5) & 0x1),
            back == (word & 0xe39f) | (((v >> 2) & 0x1) << 6) | (((v >> 3) & 0x7) << 10)
                | (((v >> 6) & 0x1) << 5),
    ;
}

/// Any value from 0 up to, but not including, 128 that is a multiple of 4
/// that is written to a word as the offset of a word load or store
/// reads back unchanged, and no other bit of the word changes.
pub proof fn lemma_cl_offset_w_round_trip(inst: u16, imm: int)
    requires
        0 <= imm < 128,
        imm % 4 == 0,
    ensures
        cl_offset_w(encode_cl_offset_w(inst, imm)) == imm,
        encode_cl_offset_w(inst, imm) & 0xe39f == inst & 0xe39f,
{
    lemma_cl_offset_w_bits(inst, imm, 0);
}

/// The offset of a word load or store that a word holds,
/// written back to the word, leaves the word as it was.
pub proof fn lemma_cl_offset_w_write_back(word: u16)
    ensures
        encode_cl_offset_w(word, cl_offset_w(word)) == word,
{
    lemma_cl_offset_w_bits(0, 0, word);
}

/// The word `inst` with `imm` written to the offset of a double-word load or store and
/// every other bit left as it was.
pub open spec fn encode_cl_offset_d(inst: u16, imm: int) -> u16 {
    let u = (imm % 0x100) as u16;
    (inst & 0xe39f) | (((u >> 3) & 0x7) << 10) | (((u >> 6) & 0x3) << 5)
}

/// Both directions at once, in one argument over the bits: what is written
/// reads back, and what is read writes back.
proof fn lemma_cl_offset_d_bits(inst: u16, imm: int, word: u16)
    ensures
        0 <= imm < 256 && imm % 8 == 0 ==> cl_offset_d(encode_cl_offset_d(inst, imm)) == imm,
        encode_cl_offset_d(inst, imm) & 0xe39f == inst & 0xe39f,
        encode_cl_offset_d(word, cl_offset_d(word)) == word,
{
    let u = (imm % 0x100) as u16;
    let w = encode_cl_offset_d(inst, imm);
    let v = (cl_offset_d(word) % 0x100) as u16;
    let back = encode_cl_offset_d(word, cl_offset_d(word));
    lemma_bits_u16(w, 5, 2);
    lemma_bits_u16(w, 10, 3);
    lemma_bits_u16(word, 5, 2);
    lemma_bits_u16(word, 10, 3);
    assert((u % 8 == 0 ==> 8 * ((w >> 10) & 0x7) + 64 * ((w >> 5) & 0x3) == u)
        && w & 0xe39f == inst & 0xe39f && back == word) by (bit_vector)
        requires
            u < 0x100,
            w == (inst & 0xe39f) | (((u >> 3) & 0x7) << 10) | (((u >> 6) & 0x3) << 5),
            v == 8 * ((word >> 10) & 0x7) + 64 * ((word >> 5) & 0x3),
            back == (word & 0xe39f) | (((v >> 3) & 0x7) << 10) | (((v >> 6) & 0x3) << 5),
    ;
}

/// Any value from 0 up to, but not including, 256 that is a multiple of 8
/// that is written to a word as the offset of a double-word load or store
/// reads back unchanged, and no other bit of the word changes.
pub proof fn lemma_cl_offset_d_round_trip(inst: u16, imm: int)
    requires
        0 <= imm < 256,
        imm % 8 == 0,
    ensures
        cl_offset_d(encode_cl_offset_d(inst, imm)) == imm,
        encode_cl_offset_d(inst, imm) & 0xe39f == inst & 0xe39f,
{
    lemma_cl_offset_d_bits(inst, imm, 0);
}

/// The offset of a double-word load or store that a word holds,
/// written back to the word, leaves the word as it was.
pub proof fn lemma_cl_offset_d_write_back(word: u16)
    ensures
        encode_cl_offset_d(word, cl_offset_d(word)) == word,
{
    lemma_cl_offset_d_bits(0, 0, word);
}

/// The word `inst` with `imm` written to the offset of a quad-word load or store and
/// every other bit left as it was.
pub open spec fn encode_cl_offset_q(inst: u16, imm: int) -> u16 {
    let u = (imm % 0x200) as u16;
    (inst & 0xe39f) | (((u >> 4) & 0x3) << 11) | (((u >> 6) & 0x3) << 5)
        | (((u >> 8) & 0x1) << 10)
}

/// Both directions at once, in one argument over the bits: what is written
/// reads back, and what is read writes back.
proof fn lemma_cl_offset_q_bits(inst: u16, imm: int, word: u16)
    ensures
        0 <= imm < 512 && imm % 16 == 0 ==> cl_offset_q(encode_cl_offset_q(inst, imm)) == imm,
        encode_cl_offset_q(inst, imm) & 0xe39f == inst & 0xe39f,
        encode_cl_offset_q(word, cl_offset_q(word)) == word,
{
    let u = (imm % 0x200) as u16;
    let w = encode_cl_offset_q(inst, imm);
    let v = (cl_offset_q(word) % 0x200) as u16;
    let back = encode_cl_offset_q(word, cl_offset_q(word));
    lemma_bits_u16(w, 5, 2);
    lemma_bits_u16(w, 10, 1);
    lemma_bits_u16(w, 11, 2);
    lemma_bits_u16(word, 5, 2);
    lemma_bits_u16(word, 10, 1);
    lemma_bits_u16(word, 11, 2);
    assert((u % 16 == 0 ==> 16 * ((w >> 11) & 0x3) + 64 * ((w >> 5) & 0x3)
        + 256 * ((w >> 10) & 0x1) == u)
        && w & 0xe39f == inst & 0xe39f && back == word) by (bit_vector)
        requires
            u < 0x200,
            w == (inst & 0xe39f) | (((u >> 4) & 0x3) << 11) | (((u >> 6) & 0x3) << 5)
                | (((u >> 8) & 0x1) << 10),
            v == 16 * ((word >> 11) & 0x3) + 64 * ((word >> 5) & 0x3)
                + 256 * ((word >> 10) & 0x1),
            back == (word & 0xe39f) | (((v >> 4) & 0x3) << 11) | (((v >> 6) & 0x3) << 5)
                | (((v >> 8) & 0x1) << 10),
    ;
}

/// Any value from 0 up to, but not including, 512 that is a multiple of 16
/// that is written to a word as the offset of a quad-word load or store
/// reads back unchanged, and no other bit of the word changes.
pub proof fn lemma_cl_offset_q_round_trip(inst: u16, imm: int)
    requires
        0 <= imm < 512,
        imm % 16 == 0,
    ensures
        cl_offset_q(encode_cl_offset_q(inst, imm)) == imm,
        encode_cl_offset_q(inst, imm) & 0xe39f == inst & 0xe39f,
{
    lemma_cl_offset_q_bits(inst, imm, 0);
}

/// The offset of a quad-word load or store that a word holds,
/// written back to the word, leaves the word as it was.
pub proof fn lemma_cl_offset_q_write_back(word: u16)
    ensures
        encode_cl_offset_q(word, cl_offset_q(word)) == word,
{
    lemma_cl_offset_q_bits(0, 0, word);
}

/// The word `inst` with `imm` written to the branch offset of the CB format and
/// every other bit left as it was.
pub open spec fn encode_cb_offset(inst: u16, imm: int) -> u16 {
    let u = (imm % 0x200) as u16;
    (inst & 0xe383) | (((u >> 1) & 0x3) << 3) | (((u >> 3) & 0x3) << 10)
        | (((u >> 5) & 0x1) << 2) | (((u >> 6) & 0x3) << 5) | (((u >> 8) & 0x1) << 12)
}

/// Both directions at once, in one argument over the bits: what is written
/// reads back, and what is read writes back.
#[verifier::rlimit(100)]
proof fn lemma_cb_offset_bits(inst: u16, imm: int, word: u16)
    ensures
        -256 <= imm < 256 && imm % 2 == 0 ==> cb_offset(encode_cb_offset(inst, imm)) == imm,
        encode_cb_offset(inst, imm) & 0xe383 == inst & 0xe383,
        encode_cb_offset(word, cb_offset(word)) == word,
{
    let u = (imm % 0x200) as u16;
    let w = encode_cb_offset(inst, imm);
    let v = (cb_offset(word) % 0x200) as u16;
    let back = encode_cb_offset(word, cb_offset(word));
    lemma_bits_u16(w, 2, 1);
    lemma_bits_u16(w, 3, 2);
    lemma_bits_u16(w, 5, 2);
    lemma_bits_u16(w, 10, 2);
    lemma_bits_u16(w, 12, 1);
    lemma_bits_u16(word, 2, 1);
    lemma_bits_u16(word, 3, 2);
    lemma_bits_u16(word, 5, 2);
    lemma_bits_u16(word, 10, 2);
    lemma_bits_u16(word, 12, 1);
    assert((u % 2 == 0 ==> 2 * ((w >> 3) & 0x3) + 8 * ((w >> 10) & 0x3)
        + 32 * ((w >> 2) & 0x1) + 64 * ((w >> 5) & 0x3) + 256 * ((w >> 12) & 0x1) == u)
        && w & 0xe383 == inst & 0xe383 && back == word) by (bit_vector)
        requires
            u < 0x200,
            w == (inst & 0xe383) | (((u >> 1) & 0x3) << 3) | (((u >> 3) & 0x3) << 10)
                | (((u >> 5) & 0x1) << 2) | (((u >> 6) & 0x3) << 5)
                | (((u >> 8) & 0x1) << 12),
            v == 2 * ((word >> 3) & 0x3) + 8 * ((word >> 10) & 0x3)
                + 32 * ((word >> 2) & 0x1) + 64 * ((word >> 5) & 0x3)
                + 256 * ((word >> 12) & 0x1),
            back == (word & 0xe383) | (((v >> 1) & 0x3) << 3) | (((v >> 3) & 0x3) << 10)
                | (((v >> 5) & 0x1) << 2) | (((v >> 6) & 0x3) << 5)
                | (((v >> 8) & 0x1) << 12),
    ;
}

/// Any value from -256 up to, but not including, 256 that is a multiple of 2
/// that is written to a word as the branch offset of the CB format
/// reads back unchanged, and no other bit of the word changes.
pub proof fn lemma_cb_offset_round_trip(inst: u16, imm: int)
    requires
        -256 <= imm < 256,
        imm % 2 == 0,
    ensures
        cb_offset(encode_cb_offset(inst, imm)) == imm,
        encode_cb_offset(inst, imm) & 0xe383 == inst & 0xe383,
{
    lemma_cb_offset_bits(inst, imm, 0);
}

/// The branch offset of the CB format that a word holds,
/// written back to the word, leaves the word as it was.
pub proof fn lemma_cb_offset_write_back(word: u16)
    ensures
        encode_cb_offset(word, cb_offset(word)) == word,
{
    lemma_cb_offset_bits(0, 0, word);
}

/// The word `inst` with `imm` written to the jump offset of the CJ format and
/// every other bit left as it was.
pub open spec fn encode_cj_offset(inst: u16, imm: int) -> u16 {
    let u = (imm % 0x1000) as u16;
    (inst & 0xe003) | (((u >> 1) & 0x7) << 3) | (((u >> 4) & 0x1) << 11)
        | (((u >> 5) & 0x1) << 2) | (((u >> 6) & 0x1) << 7) | (((u >> 7) & 0x1) << 6)
        | (((u >> 8) & 0x3) << 9) | (((u >> 10) & 0x1) << 8) | (((u >> 11) & 0x1) << 12)
}

/// Both directions at once, in one argument over the bits: what is written
/// reads back, and what is read writes back.
#[verifier::rlimit(100)]
proof fn lemma_cj_offset_bits(inst: u16, imm: int, word: u16)
    ensures
        -2048 <= imm < 2048 && imm % 2 == 0 ==> cj_offset(encode_cj_offset(inst, imm)) == imm,
        encode_cj_offset(inst, imm) & 0xe003 == inst & 0xe003,
        encode_cj_offset(word, cj_offset(word)) == word,
{
    let u = (imm % 0x1000) as u16;
    let w = encode_cj_offset(inst, imm);
    let v = (cj_offset(word) % 0x1000) as u16;
    let back = encode_cj_offset(word, cj_offset(word));
    lemma_bits_u16(w, 2, 1);
    lemma_bits_u16(w, 3, 3);
    lemma_bits_u16(w, 6, 1);
    lemma_bits_u16(w, 7, 1);
    lemma_bits_u16(w, 8, 1);
    lemma_bits_u16(w, 9, 2);
    lemma_bits_u16(w, 11, 1);
    lemma_bits_u16(w, 12, 1);
    lemma_bits_u16(word, 2, 1);
    lemma_bits_u16(word, 3, 3);
    lemma_bits_u16(word, 6, 1);
    lemma_bits_u16(word, 7, 1);
    lemma_bits_u16(word, 8, 1);
    lemma_bits_u16(word, 9, 2);
    lemma_bits_u16(word, 11, 1);
    lemma_bits_u16(word, 12, 1);
    assert((u % 2 == 0 ==> 2 * ((w >> 3) & 0x7) + 16 * ((w >> 11) & 0x1)
        + 32 * ((w >> 2) & 0x1) + 64 * ((w >> 7) & 0x1) + 128 * ((w >> 6) & 0x1)
        + 256 * ((w >> 9) & 0x3) + 1024 * ((w >> 8) & 0x1) + 2048 * ((w >> 12) & 0x1) == u)
        && w & 0xe003 == inst & 0xe003 && back == word) by (bit_vector)
        requires
            u < 0x1000,
            w == (inst & 0xe003) | (((u >> 1) & 0x7) << 3) | (((u >> 4) & 0x1) << 11)
                | (((u >> 5) & 0x1) << 2) | (((u >> 6) & 0x1) << 7)
                | (((u >> 7) & 0x1) << 6) | (((u >> 8) & 0x3) << 9)
                | (((u >> 10) & 0x1) << 8) | (((u >> 11) & 0x1) << 12),
            v == 2 * ((word >> 3) & 0x7) + 16 * ((word >> 11) & 0x1)
                + 32 * ((word >> 2) & 0x1) + 64 * ((word >> 7) & 0x1)
                + 128 * ((word >> 6) & 0x1) + 256 * ((word >> 9) & 0x3)
                + 1024 * ((word >> 8) & 0x1) + 2048 * ((word >> 12) & 0x1),
            back == (word & 0xe003) | (((v >> 1) & 0x7) << 3) | (((v >> 4) & 0x1) << 11)
                | (((v >> 5) & 0x1) << 2) | (((v >> 6) & 0x1) << 7)
                | (((v >> 7) & 0x1) << 6) | (((v >> 8) & 0x3) << 9)
                | (((v >> 10) & 0x1) << 8) | (((v >> 11) & 0x1) << 12),
    ;
}

/// Any value from -2048 up to, but not including, 2048 that is a multiple of 2
/// that is written to a word as the jump offset of the CJ format
/// reads back unchanged, and no other bit of the word changes.
pub proof fn lemma_cj_offset_round_trip(inst: u16, imm: int)
    requires
        -2048 <= imm < 2048,
        imm % 2 == 0,
    ensures
        cj_offset(encode_cj_offset(inst, imm)) == imm,
        encode_cj_offset(inst, imm) & 0xe003 == inst & 0xe003,
{
    lemma_cj_offset_bits(inst, imm, 0);
}

/// The jump offset of the CJ format that a word holds,
/// written back to the word, leaves the word as it was.
pub proof fn lemma_cj_offset_write_back(word: u16)
    ensures
        encode_cj_offset(word, cj_offset(word)) == word,
{
    lemma_cj_offset_bits(0, 0, word);
}

} // verus!
