//! Words put together from the fields of each encoding format, and the
//! proofs that the fields read back as they were put in and that a word is
//! put together again from the fields it holds.

use vstd::prelude::*;
use crate::instructions::encode::{
    encode_cb_offset, encode_ci_imm, encode_ci_offset_d, encode_ci_offset_q, encode_ci_offset_w,
    encode_ci_shamt, encode_ciw_imm, encode_cj_offset, encode_cl_offset_d, encode_cl_offset_q,
    encode_cl_offset_w, encode_css_offset_d, encode_css_offset_q, encode_css_offset_w,
    encode_imm_b, encode_imm_i, encode_imm_j, encode_imm_u, lemma_cb_offset_round_trip,
    lemma_cb_offset_write_back, lemma_ci_imm_round_trip, lemma_ci_imm_write_back,
    lemma_ci_offset_d_round_trip, lemma_ci_offset_d_write_back, lemma_ci_offset_q_round_trip,
    lemma_ci_offset_q_write_back, lemma_ci_offset_w_round_trip, lemma_ci_offset_w_write_back,
    lemma_ci_shamt_round_trip, lemma_ci_shamt_write_back, lemma_ciw_imm_round_trip,
    lemma_ciw_imm_write_back, lemma_cj_offset_round_trip, lemma_cj_offset_write_back,
    lemma_cl_offset_d_round_trip, lemma_cl_offset_d_write_back, lemma_cl_offset_q_round_trip,
    lemma_cl_offset_q_write_back, lemma_cl_offset_w_round_trip, lemma_cl_offset_w_write_back,
    lemma_css_offset_d_round_trip, lemma_css_offset_d_write_back,
    lemma_css_offset_q_round_trip, lemma_css_offset_q_write_back,
    lemma_css_offset_w_round_trip, lemma_css_offset_w_write_back, lemma_imm_b_round_trip,
    lemma_imm_b_write_back, lemma_imm_i_round_trip, lemma_imm_i_write_back,
    lemma_imm_j_round_trip, lemma_imm_j_write_back, lemma_imm_u_round_trip,
    lemma_imm_u_write_back,
};
use crate::instructions::rv32i::{imm_b, imm_i, imm_j, imm_u};
use crate::instructions::rvc::{
    cb_offset, ci_imm, ci_offset_d, ci_offset_q, ci_offset_w, ci_shamt, ciw_imm, cj_offset,
    cl_offset_d, cl_offset_q, cl_offset_w, css_offset_d, css_offset_q, css_offset_w,
};
use crate::utils::{bits, lemma_bits_u16, lemma_bits_u32};

verus! {

/// A word of the U format, put together from its fields.
pub open spec fn word_u(low: u32, opcode: u32, rd: u32, imm: int) -> u32 {
    encode_imm_u(low | (opcode << 2) | (rd << 7), imm)
}

/// Both directions at once, in one argument over the bits: the fields that
/// are put in read back, and the fields that are read put the word together
/// again.
proof fn lemma_word_u_bits(low: u32, opcode: u32, rd: u32, imm: int, word: u32)
    ensures
        low < 4 && opcode < 32 && rd < 32 && -524288 <= imm < 524288 ==> {
            &&& bits(word_u(low, opcode, rd, imm) as int, 0, 2) == low
            &&& bits(word_u(low, opcode, rd, imm) as int, 2, 5) == opcode
            &&& bits(word_u(low, opcode, rd, imm) as int, 7, 5) == rd
            &&& bits(word_u(low, opcode, rd, imm) as int, 2, 3) == opcode % 8
            &&& imm_u(word_u(low, opcode, rd, imm)) == imm
        },
        word_u(
            bits(word as int, 0, 2) as u32,
            bits(word as int, 2, 5) as u32,
            bits(word as int, 7, 5) as u32,
            imm_u(word),
        ) == word,
{
    let base = low | (opcode << 2) | (rd << 7);
    let w = word_u(low, opcode, rd, imm);
    let t0 = bits(word as int, 0, 2) as u32;
    let t1 = bits(word as int, 2, 5) as u32;
    let t2 = bits(word as int, 7, 5) as u32;
    let again = t0 | (t1 << 2) | (t2 << 7);
    if -524288 <= imm < 524288 {
        lemma_imm_u_round_trip(base, imm);
    }
    lemma_imm_u_write_back(word);
    lemma_bits_u32(w, 0, 2);
    lemma_bits_u32(w, 2, 5);
    lemma_bits_u32(w, 7, 5);
    lemma_bits_u32(w, 2, 3);
    lemma_bits_u32(word, 0, 2);
    lemma_bits_u32(word, 2, 5);
    lemma_bits_u32(word, 7, 5);
    assert((w & 0xfff == base & 0xfff && low < 4 && opcode < 32 && rd < 32
        ==> (w >> 0) & 0x3 == low && (w >> 2) & 0x1f == opcode && (w >> 7) & 0x1f == rd
        && (w >> 2) & 0x7 == opcode % 8)
        && again & 0xfff == word & 0xfff) by (bit_vector)
        requires
            base == low | (opcode << 2) | (rd << 7),
            t0 == (word >> 0) & 0x3,
            t1 == (word >> 2) & 0x1f,
            t2 == (word >> 7) & 0x1f,
            again == t0 | (t1 << 2) | (t2 << 7),
    ;
}

/// The fields of a word of the U format
/// read back as they were put in.
pub proof fn lemma_word_u(low: u32, opcode: u32, rd: u32, imm: int)
    requires
        low < 4,
        opcode < 32,
        rd < 32,
        -524288 <= imm < 524288,
    ensures
        bits(word_u(low, opcode, rd, imm) as int, 0, 2) == low,
        bits(word_u(low, opcode, rd, imm) as int, 2, 5) == opcode,
        bits(word_u(low, opcode, rd, imm) as int, 7, 5) == rd,
        bits(word_u(low, opcode, rd, imm) as int, 2, 3) == opcode % 8,
        imm_u(word_u(low, opcode, rd, imm)) == imm,
{
    lemma_word_u_bits(low, opcode, rd, imm, 0);
}

/// A word is put together again from the fields that it holds in
/// the U format.
pub proof fn lemma_word_u_of_fields(word: u32)
    ensures
        word_u(
            bits(word as int, 0, 2) as u32,
            bits(word as int, 2, 5) as u32,
            bits(word as int, 7, 5) as u32,
            imm_u(word),
        ) == word,
{
    lemma_word_u_bits(0, 0, 0, 0, word);
}

/// A word of the J format, put together from its fields.
pub open spec fn word_j(low: u32, opcode: u32, rd: u32, imm: int) -> u32 {
    encode_imm_j(low | (opcode << 2) | (rd << 7), imm)
}

/// Both directions at once, in one argument over the bits: the fields that
/// are put in read back, and the fields that are read put the word together
/// again.
proof fn lemma_word_j_bits(low: u32, opcode: u32, rd: u32, imm: int, word: u32)
    ensures
        low < 4 && opcode < 32 && rd < 32 && -1048576 <= imm < 1048576 && imm % 2 == 0 ==> {
            &&& bits(word_j(low, opcode, rd, imm) as int, 0, 2) == low
            &&& bits(word_j(low, opcode, rd, imm) as int, 2, 5) == opcode
            &&& bits(word_j(low, opcode, rd, imm) as int, 7, 5) == rd
            &&& bits(word_j(low, opcode, rd, imm) as int, 2, 3) == opcode % 8
            &&& imm_j(word_j(low, opcode, rd, imm)) == imm
        },
        word_j(
            bits(word as int, 0, 2) as u32,
            bits(word as int, 2, 5) as u32,
            bits(word as int, 7, 5) as u32,
            imm_j(word),
        ) == word,
{
    let base = low | (opcode << 2) | (rd << 7);
    let w = word_j(low, opcode, rd, imm);
    let t0 = bits(word as int, 0, 2) as u32;
    let t1 = bits(word as int, 2, 5) as u32;
    let t2 = bits(word as int, 7, 5) as u32;
    let again = t0 | (t1 << 2) | (t2 << 7);
    if -1048576 <= imm < 1048576 && imm % 2 == 0 {
        lemma_imm_j_round_trip(base, imm);
    }
    lemma_imm_j_write_back(word);
    lemma_bits_u32(w, 0, 2);
    lemma_bits_u32(w, 2, 5);
    lemma_bits_u32(w, 7, 5);
    lemma_bits_u32(w, 2, 3);
    lemma_bits_u32(word, 0, 2);
    lemma_bits_u32(word, 2, 5);
    lemma_bits_u32(word, 7, 5);
    assert((w & 0xfff == base & 0xfff && low < 4 && opcode < 32 && rd < 32
        ==> (w >> 0) & 0x3 == low && (w >> 2) & 0x1f == opcode && (w >> 7) & 0x1f == rd
        && (w >> 2) & 0x7 == opcode % 8)
        && again & 0xfff == word & 0xfff) by (bit_vector)
        requires
            base == low | (opcode << 2) | (rd << 7),
            t0 == (word >> 0) & 0x3,
            t1 == (word >> 2) & 0x1f,
            t2 == (word >> 7) & 0x1f,
            again == t0 | (t1 << 2) | (t2 << 7),
    ;
}

/// The fields of a word of the J format
/// read back as they were put in.
pub proof fn lemma_word_j(low: u32, opcode: u32, rd: u32, imm: int)
    requires
        low < 4,
        opcode < 32,
        rd < 32,
        -1048576 <= imm < 1048576,
        imm % 2 == 0,
    ensures
        bits(word_j(low, opcode, rd, imm) as int, 0, 2) == low,
        bits(word_j(low, opcode, rd, imm) as int, 2, 5) == opcode,
        bits(word_j(low, opcode, rd, imm) as int, 7, 5) == rd,
        bits(word_j(low, opcode, rd, imm) as int, 2, 3) == opcode % 8,
        imm_j(word_j(low, opcode, rd, imm)) == imm,
{
    lemma_word_j_bits(low, opcode, rd, imm, 0);
}

/// A word is put together again from the fields that it holds in
/// the J format.
pub proof fn lemma_word_j_of_fields(word: u32)
    ensures
        word_j(
            bits(word as int, 0, 2) as u32,
            bits(word as int, 2, 5) as u32,
            bits(word as int, 7, 5) as u32,
            imm_j(word),
        ) == word,
{
    lemma_word_j_bits(0, 0, 0, 0, word);
}

/// A word of the I format, put together from its fields.
pub open spec fn word_i(
    low: u32,
    opcode: u32,
    rd: u32,
    funct3: u32,
    rs1: u32,
    imm: int,
) -> u32 {
    encode_imm_i(low | (opcode << 2) | (rd << 7) | (funct3 << 12) | (rs1 << 15), imm)
}

/// Both directions at once, in one argument over the bits: the fields that
/// are put in read back, and the fields that are read put the word together
/// again.
proof fn lemma_word_i_bits(
    low: u32,
    opcode: u32,
    rd: u32,
    funct3: u32,
    rs1: u32,
    imm: int,
    word: u32,
)
    ensures
        low < 4 && opcode < 32 && rd < 32 && funct3 < 8 && rs1 < 32 && -2048 <= imm < 2048 ==> {
            &&& bits(word_i(low, opcode, rd, funct3, rs1, imm) as int, 0, 2) == low
            &&& bits(word_i(low, opcode, rd, funct3, rs1, imm) as int, 2, 5) == opcode
            &&& bits(word_i(low, opcode, rd, funct3, rs1, imm) as int, 7, 5) == rd
            &&& bits(word_i(low, opcode, rd, funct3, rs1, imm) as int, 12, 3) == funct3
            &&& bits(word_i(low, opcode, rd, funct3, rs1, imm) as int, 15, 5) == rs1
            &&& bits(word_i(low, opcode, rd, funct3, rs1, imm) as int, 2, 3) == opcode % 8
            &&& imm_i(word_i(low, opcode, rd, funct3, rs1, imm)) == imm
        },
        word_i(
            bits(word as int, 0, 2) as u32,
            bits(word as int, 2, 5) as u32,
            bits(word as int, 7, 5) as u32,
            bits(word as int, 12, 3) as u32,
            bits(word as int, 15, 5) as u32,
            imm_i(word),
        ) == word,
{
    let base = low | (opcode << 2) | (rd << 7) | (funct3 << 12) | (rs1 << 15);
    let w = word_i(low, opcode, rd, funct3, rs1, imm);
    let t0 = bits(word as int, 0, 2) as u32;
    let t1 = bits(word as int, 2, 5) as u32;
    let t2 = bits(word as int, 7, 5) as u32;
    let t3 = bits(word as int, 12, 3) as u32;
    let t4 = bits(word as int, 15, 5) as u32;
    let again = t0 | (t1 << 2) | (t2 << 7) | (t3 << 12) | (t4 << 15);
    if -2048 <= imm < 2048 {
        lemma_imm_i_round_trip(base, imm);
    }
    lemma_imm_i_write_back(word);
    lemma_bits_u32(w, 0, 2);
    lemma_bits_u32(w, 2, 5);
    lemma_bits_u32(w, 7, 5);
    lemma_bits_u32(w, 12, 3);
    lemma_bits_u32(w, 15, 5);
    lemma_bits_u32(w, 2, 3);
    lemma_bits_u32(word, 0, 2);
    lemma_bits_u32(word, 2, 5);
    lemma_bits_u32(word, 7, 5);
    lemma_bits_u32(word, 12, 3);
    lemma_bits_u32(word, 15, 5);
    assert((w & 0x000f_ffff == base & 0x000f_ffff && low < 4 && opcode < 32 && rd < 32
        && funct3 < 8 && rs1 < 32
        ==> (w >> 0) & 0x3 == low && (w >> 2) & 0x1f == opcode && (w >> 7) & 0x1f == rd
        && (w >> 12) & 0x7 == funct3 && (w >> 15) & 0x1f == rs1
        && (w >> 2) & 0x7 == opcode % 8)
        && again & 0x000f_ffff == word & 0x000f_ffff) by (bit_vector)
        requires
            base == low | (opcode << 2) | (rd << 7) | (funct3 << 12) | (rs1 << 15),
            t0 == (word >> 0) & 0x3,
            t1 == (word >> 2) & 0x1f,
            t2 == (word >> 7) & 0x1f,
            t3 == (word >> 12) & 0x7,
            t4 == (word >> 15) & 0x1f,
            again == t0 | (t1 << 2) | (t2 << 7) | (t3 << 12) | (t4 << 15),
    ;
}

/// The fields of a word of the I format
/// read back as they were put in.
pub proof fn lemma_word_i(low: u32, opcode: u32, rd: u32, funct3: u32, rs1: u32, imm: int)
    requires
        low < 4,
        opcode < 32,
        rd < 32,
        funct3 < 8,
        rs1 < 32,
        -2048 <= imm < 2048,
    ensures
        bits(word_i(low, opcode, rd, funct3, rs1, imm) as int, 0, 2) == low,
        bits(word_i(low, opcode, rd, funct3, rs1, imm) as int, 2, 5) == opcode,
        bits(word_i(low, opcode, rd, funct3, rs1, imm) as int, 7, 5) == rd,
        bits(word_i(low, opcode, rd, funct3, rs1, imm) as int, 12, 3) == funct3,
        bits(word_i(low, opcode, rd, funct3, rs1, imm) as int, 15, 5) == rs1,
        bits(word_i(low, opcode, rd, funct3, rs1, imm) as int, 2, 3) == opcode % 8,
        imm_i(word_i(low, opcode, rd, funct3, rs1, imm)) == imm,
{
    lemma_word_i_bits(low, opcode, rd, funct3, rs1, imm, 0);
}

/// A word is put together again from the fields that it holds in
/// the I format.
pub proof fn lemma_word_i_of_fields(word: u32)
    ensures
        word_i(
            bits(word as int, 0, 2) as u32,
            bits(word as int, 2, 5) as u32,
            bits(word as int, 7, 5) as u32,
            bits(word as int, 12, 3) as u32,
            bits(word as int, 15, 5) as u32,
            imm_i(word),
        ) == word,
{
    lemma_word_i_bits(0, 0, 0, 0, 0, 0, word);
}

/// A word of the B format, put together from its fields.
pub open spec fn word_b(
    low: u32,
    opcode: u32,
    funct3: u32,
    rs1: u32,
    rs2: u32,
    imm: int,
) -> u32 {
    encode_imm_b(low | (opcode << 2) | (funct3 << 12) | (rs1 << 15) | (rs2 << 20), imm)
}

/// Both directions at once, in one argument over the bits: the fields that
/// are put in read back, and the fields that are read put the word together
/// again.
proof fn lemma_word_b_bits(
    low: u32,
    opcode: u32,
    funct3: u32,
    rs1: u32,
    rs2: u32,
    imm: int,
    word: u32,
)
    ensures
        low < 4 && opcode < 32 && funct3 < 8 && rs1 < 32 && rs2 < 32
            && -4096 <= imm < 4096 && imm % 2 == 0 ==> {
            &&& bits(word_b(low, opcode, funct3, rs1, rs2, imm) as int, 0, 2) == low
            &&& bits(word_b(low, opcode, funct3, rs1, rs2, imm) as int, 2, 5) == opcode
            &&& bits(word_b(low, opcode, funct3, rs1, rs2, imm) as int, 12, 3) == funct3
            &&& bits(word_b(low, opcode, funct3, rs1, rs2, imm) as int, 15, 5) == rs1
            &&& bits(word_b(low, opcode, funct3, rs1, rs2, imm) as int, 20, 5) == rs2
            &&& bits(word_b(low, opcode, funct3, rs1, rs2, imm) as int, 2, 3) == opcode % 8
            &&& imm_b(word_b(low, opcode, funct3, rs1, rs2, imm)) == imm
        },
        word_b(
            bits(word as int, 0, 2) as u32,
            bits(word as int, 2, 5) as u32,
            bits(word as int, 12, 3) as u32,
            bits(word as int, 15, 5) as u32,
            bits(word as int, 20, 5) as u32,
            imm_b(word),
        ) == word,
{
    let base = low | (opcode << 2) | (funct3 << 12) | (rs1 << 15) | (rs2 << 20);
    let w = word_b(low, opcode, funct3, rs1, rs2, imm);
    let t0 = bits(word as int, 0, 2) as u32;
    let t1 = bits(word as int, 2, 5) as u32;
    let t2 = bits(word as int, 12, 3) as u32;
    let t3 = bits(word as int, 15, 5) as u32;
    let t4 = bits(word as int, 20, 5) as u32;
    let again = t0 | (t1 << 2) | (t2 << 12) | (t3 << 15) | (t4 << 20);
    if -4096 <= imm < 4096 && imm % 2 == 0 {
        lemma_imm_b_round_trip(base, imm);
    }
    lemma_imm_b_write_back(word);
    lemma_bits_u32(w, 0, 2);
    lemma_bits_u32(w, 2, 5);
    lemma_bits_u32(w, 12, 3);
    lemma_bits_u32(w, 15, 5);
    lemma_bits_u32(w, 20, 5);
    lemma_bits_u32(w, 2, 3);
    lemma_bits_u32(word, 0, 2);
    lemma_bits_u32(word, 2, 5);
    lemma_bits_u32(word, 12, 3);
    lemma_bits_u32(word, 15, 5);
    lemma_bits_u32(word, 20, 5);
    assert((w & 0x01ff_f07f == base & 0x01ff_f07f && low < 4 && opcode < 32 && funct3 < 8
        && rs1 < 32 && rs2 < 32
        ==> (w >> 0) & 0x3 == low && (w >> 2) & 0x1f == opcode
        && (w >> 12) & 0x7 == funct3 && (w >> 15) & 0x1f == rs1 && (w >> 20) & 0x1f == rs2
        && (w >> 2) & 0x7 == opcode % 8)
        && again & 0x01ff_f07f == word & 0x01ff_f07f) by (bit_vector)
        requires
            base == low | (opcode << 2) | (funct3 << 12) | (rs1 << 15) | (rs2 << 20),
            t0 == (word >> 0) & 0x3,
            t1 == (word >> 2) & 0x1f,
            t2 == (word >> 12) & 0x7,
            t3 == (word >> 15) & 0x1f,
            t4 == (word >> 20) & 0x1f,
            again == t0 | (t1 << 2) | (t2 << 12) | (t3 << 15) | (t4 << 20),
    ;
}

/// The fields of a word of the B format
/// read back as they were put in.
pub proof fn lemma_word_b(low: u32, opcode: u32, funct3: u32, rs1: u32, rs2: u32, imm: int)
    requires
        low < 4,
        opcode < 32,
        funct3 < 8,
        rs1 < 32,
        rs2 < 32,
        -4096 <= imm < 4096,
        imm % 2 == 0,
    ensures
        bits(word_b(low, opcode, funct3, rs1, rs2, imm) as int, 0, 2) == low,
        bits(word_b(low, opcode, funct3, rs1, rs2, imm) as int, 2, 5) == opcode,
        bits(word_b(low, opcode, funct3, rs1, rs2, imm) as int, 12, 3) == funct3,
        bits(word_b(low, opcode, funct3, rs1, rs2, imm) as int, 15, 5) == rs1,
        bits(word_b(low, opcode, funct3, rs1, rs2, imm) as int, 20, 5) == rs2,
        bits(word_b(low, opcode, funct3, rs1, rs2, imm) as int, 2, 3) == opcode % 8,
        imm_b(word_b(low, opcode, funct3, rs1, rs2, imm)) == imm,
{
    lemma_word_b_bits(low, opcode, funct3, rs1, rs2, imm, 0);
}

/// A word is put together again from the fields that it holds in
/// the B format.
pub proof fn lemma_word_b_of_fields(word: u32)
    ensures
        word_b(
            bits(word as int, 0, 2) as u32,
            bits(word as int, 2, 5) as u32,
            bits(word as int, 12, 3) as u32,
            bits(word as int, 15, 5) as u32,
            bits(word as int, 20, 5) as u32,
            imm_b(word),
        ) == word,
{
    lemma_word_b_bits(0, 0, 0, 0, 0, 0, word);
}

/// A word of the CIW format, put together from its fields.
pub open spec fn word_ciw(op: u16, rd: u16, funct3: u16, imm: int) -> u16 {
    encode_ciw_imm(op | (rd << 2) | (funct3 << 13), imm)
}

/// Both directions at once, in one argument over the bits: the fields that
/// are put in read back, and the fields that are read put the word together
/// again.
proof fn lemma_word_ciw_bits(op: u16, rd: u16, funct3: u16, imm: int, word: u16)
    ensures
        op < 4 && rd < 8 && funct3 < 8 && 0 <= imm < 1024 && imm % 4 == 0 ==> {
            &&& bits(word_ciw(op, rd, funct3, imm) as int, 0, 2) == op
            &&& bits(word_ciw(op, rd, funct3, imm) as int, 2, 3) == rd
            &&& bits(word_ciw(op, rd, funct3, imm) as int, 13, 3) == funct3
            &&& ciw_imm(word_ciw(op, rd, funct3, imm)) == imm
        },
        word_ciw(
            bits(word as int, 0, 2) as u16,
            bits(word as int, 2, 3) as u16,
            bits(word as int, 13, 3) as u16,
            ciw_imm(word),
        ) == word,
{
    let base = op | (rd << 2) | (funct3 << 13);
    let w = word_ciw(op, rd, funct3, imm);
    let t0 = bits(word as int, 0, 2) as u16;
    let t1 = bits(word as int, 2, 3) as u16;
    let t2 = bits(word as int, 13, 3) as u16;
    let again = t0 | (t1 << 2) | (t2 << 13);
    if 0 <= imm < 1024 && imm % 4 == 0 {
        lemma_ciw_imm_round_trip(base, imm);
    }
    lemma_ciw_imm_write_back(word);
    lemma_bits_u16(w, 0, 2);
    lemma_bits_u16(w, 2, 3);
    lemma_bits_u16(w, 13, 3);
    lemma_bits_u16(word, 0, 2);
    lemma_bits_u16(word, 2, 3);
    lemma_bits_u16(word, 13, 3);
    assert((w & 0xe01f == base & 0xe01f && op < 4 && rd < 8 && funct3 < 8
        ==> (w >> 0) & 0x3 == op && (w >> 2) & 0x7 == rd && (w >> 13) & 0x7 == funct3)
        && again & 0xe01f == word & 0xe01f) by (bit_vector)
        requires
            base == op | (rd << 2) | (funct3 << 13),
            t0 == (word >> 0) & 0x3,
            t1 == (word >> 2) & 0x7,
            t2 == (word >> 13) & 0x7,
            again == t0 | (t1 << 2) | (t2 << 13),
    ;
}

/// The fields of a word of the CIW format
/// read back as they were put in.
pub proof fn lemma_word_ciw(op: u16, rd: u16, funct3: u16, imm: int)
    requires
        op < 4,
        rd < 8,
        funct3 < 8,
        0 <= imm < 1024,
        imm % 4 == 0,
    ensures
        bits(word_ciw(op, rd, funct3, imm) as int, 0, 2) == op,
        bits(word_ciw(op, rd, funct3, imm) as int, 2, 3) == rd,
        bits(word_ciw(op, rd, funct3, imm) as int, 13, 3) == funct3,
        ciw_imm(word_ciw(op, rd, funct3, imm)) == imm,
{
    lemma_word_ciw_bits(op, rd, funct3, imm, 0);
}

/// A word is put together again from the fields that it holds in
/// the CIW format.
pub proof fn lemma_word_ciw_of_fields(word: u16)
    ensures
        word_ciw(
            bits(word as int, 0, 2) as u16,
            bits(word as int, 2, 3) as u16,
            bits(word as int, 13, 3) as u16,
            ciw_imm(word),
        ) == word,
{
    lemma_word_ciw_bits(0, 0, 0, 0, word);
}

/// A word of the CL and CS formats with a word offset, put together from its fields.
pub open spec fn word_cl_w(op: u16, rd: u16, rs1: u16, funct3: u16, imm: int) -> u16 {
    encode_cl_offset_w(op | (rd << 2) | (rs1 << 7) | (funct3 << 13), imm)
}

/// Both directions at once, in one argument over the bits: the fields that
/// are put in read back, and the fields that are read put the word together
/// again.
proof fn lemma_word_cl_w_bits(op: u16, rd: u16, rs1: u16, funct3: u16, imm: int, word: u16)
    ensures
        op < 4 && rd < 8 && rs1 < 8 && funct3 < 8 && 0 <= imm < 128 && imm % 4 == 0 ==> {
            &&& bits(word_cl_w(op, rd, rs1, funct3, imm) as int, 0, 2) == op
            &&& bits(word_cl_w(op, rd, rs1, funct3, imm) as int, 2, 3) == rd
            &&& bits(word_cl_w(op, rd, rs1, funct3, imm) as int, 7, 3) == rs1
            &&& bits(word_cl_w(op, rd, rs1, funct3, imm) as int, 13, 3) == funct3
            &&& cl_offset_w(word_cl_w(op, rd, rs1, funct3, imm)) == imm
        },
        word_cl_w(
            bits(word as int, 0, 2) as u16,
            bits(word as int, 2, 3) as u16,
            bits(word as int, 7, 3) as u16,
            bits(word as int, 13, 3) as u16,
            cl_offset_w(word),
        ) == word,
{
    let base = op | (rd << 2) | (rs1 << 7) | (funct3 << 13);
    let w = word_cl_w(op, rd, rs1, funct3, imm);
    let t0 = bits(word as int, 0, 2) as u16;
    let t1 = bits(word as int, 2, 3) as u16;
    let t2 = bits(word as int, 7, 3) as u16;
    let t3 = bits(word as int, 13, 3) as u16;
    let again = t0 | (t1 << 2) | (t2 << 7) | (t3 << 13);
    if 0 <= imm < 128 && imm % 4 == 0 {
        lemma_cl_offset_w_round_trip(base, imm);
    }
    lemma_cl_offset_w_write_back(word);
    lemma_bits_u16(w, 0, 2);
    lemma_bits_u16(w, 2, 3);
    lemma_bits_u16(w, 7, 3);
    lemma_bits_u16(w, 13, 3);
    lemma_bits_u16(word, 0, 2);
    lemma_bits_u16(word, 2, 3);
    lemma_bits_u16(word, 7, 3);
    lemma_bits_u16(word, 13, 3);
    assert((w & 0xe39f == base & 0xe39f && op < 4 && rd < 8 && rs1 < 8 && funct3 < 8
        ==> (w >> 0) & 0x3 == op && (w >> 2) & 0x7 == rd && (w >> 7) & 0x7 == rs1
        && (w >> 13) & 0x7 == funct3)
        && again & 0xe39f == word & 0xe39f) by (bit_vector)
        requires
            base == op | (rd << 2) | (rs1 << 7) | (funct3 << 13),
            t0 == (word >> 0) & 0x3,
            t1 == (word >> 2) & 0x7,
            t2 == (word >> 7) & 0x7,
            t3 == (word >> 13) & 0x7,
            again == t0 | (t1 << 2) | (t2 << 7) | (t3 << 13),
    ;
}

/// The fields of a word of the CL and CS formats with a word offset
/// read back as they were put in.
pub proof fn lemma_word_cl_w(op: u16, rd: u16, rs1: u16, funct3: u16, imm: int)
    requires
        op < 4,
        rd < 8,
        rs1 < 8,
        funct3 < 8,
        0 <= imm < 128,
        imm % 4 == 0,
    ensures
        bits(word_cl_w(op, rd, rs1, funct3, imm) as int, 0, 2) == op,
        bits(word_cl_w(op, rd, rs1, funct3, imm) as int, 2, 3) == rd,
        bits(word_cl_w(op, rd, rs1, funct3, imm) as int, 7, 3) == rs1,
        bits(word_cl_w(op, rd, rs1, funct3, imm) as int, 13, 3) == funct3,
        cl_offset_w(word_cl_w(op, rd, rs1, funct3, imm)) == imm,
{
    lemma_word_cl_w_bits(op, rd, rs1, funct3, imm, 0);
}

/// A word is put together again from the fields that it holds in
/// the CL and CS formats with a word offset.
pub proof fn lemma_word_cl_w_of_fields(word: u16)
    ensures
        word_cl_w(
            bits(word as int, 0, 2) as u16,
            bits(word as int, 2, 3) as u16,
            bits(word as int, 7, 3) as u16,
            bits(word as int, 13, 3) as u16,
            cl_offset_w(word),
        ) == word,
{
    lemma_word_cl_w_bits(0, 0, 0, 0, 0, word);
}

/// A word of the CL and CS formats with a double-word offset, put together from its fields.
pub open spec fn word_cl_d(op: u16, rd: u16, rs1: u16, funct3: u16, imm: int) -> u16 {
    encode_cl_offset_d(op | (rd << 2) | (rs1 << 7) | (funct3 << 13), imm)
}

/// Both directions at once, in one argument over the bits: the fields that
/// are put in read back, and the fields that are read put the word together
/// again.
proof fn lemma_word_cl_d_bits(op: u16, rd: u16, rs1: u16, funct3: u16, imm: int, word: u16)
    ensures
        op < 4 && rd < 8 && rs1 < 8 && funct3 < 8 && 0 <= imm < 256 && imm % 8 == 0 ==> {
            &&& bits(word_cl_d(op, rd, rs1, funct3, imm) as int, 0, 2) == op
            &&& bits(word_cl_d(op, rd, rs1, funct3, imm) as int, 2, 3) == rd
            &&& bits(word_cl_d(op, rd, rs1, funct3, imm) as int, 7, 3) == rs1
            &&& bits(word_cl_d(op, rd, rs1, funct3, imm) as int, 13, 3) == funct3
            &&& cl_offset_d(word_cl_d(op, rd, rs1, funct3, imm)) == imm
        },
        word_cl_d(
            bits(word as int, 0, 2) as u16,
            bits(word as int, 2, 3) as u16,
            bits(word as int, 7, 3) as u16,
            bits(word as int, 13, 3) as u16,
            cl_offset_d(word),
        ) == word,
{
    let base = op | (rd << 2) | (rs1 << 7) | (funct3 << 13);
    let w = word_cl_d(op, rd, rs1, funct3, imm);
    let t0 = bits(word as int, 0, 2) as u16;
    let t1 = bits(word as int, 2, 3) as u16;
    let t2 = bits(word as int, 7, 3) as u16;
    let t3 = bits(word as int, 13, 3) as u16;
    let again = t0 | (t1 << 2) | (t2 << 7) | (t3 << 13);
    if 0 <= imm < 256 && imm % 8 == 0 {
        lemma_cl_offset_d_round_trip(base, imm);
    }
    lemma_cl_offset_d_write_back(word);
    lemma_bits_u16(w, 0, 2);
    lemma_bits_u16(w, 2, 3);
    lemma_bits_u16(w, 7, 3);
    lemma_bits_u16(w, 13, 3);
    lemma_bits_u16(word, 0, 2);
    lemma_bits_u16(word, 2, 3);
    lemma_bits_u16(word, 7, 3);
    lemma_bits_u16(word, 13, 3);
    assert((w & 0xe39f == base & 0xe39f && op < 4 && rd < 8 && rs1 < 8 && funct3 < 8
        ==> (w >> 0) & 0x3 == op && (w >> 2) & 0x7 == rd && (w >> 7) & 0x7 == rs1
        && (w >> 13) & 0x7 == funct3)
        && again & 0xe39f == word & 0xe39f) by (bit_vector)
        requires
            base == op | (rd << 2) | (rs1 << 7) | (funct3 << 13),
            t0 == (word >> 0) & 0x3,
            t1 == (word >> 2) & 0x7,
            t2 == (word >> 7) & 0x7,
            t3 == (word >> 13) & 0x7,
            again == t0 | (t1 << 2) | (t2 << 7) | (t3 << 13),
    ;
}

/// The fields of a word of the CL and CS formats with a double-word offset
/// read back as they were put in.
pub proof fn lemma_word_cl_d(op: u16, rd: u16, rs1: u16, funct3: u16, imm: int)
    requires
        op < 4,
        rd < 8,
        rs1 < 8,
        funct3 < 8,
        0 <= imm < 256,
        imm % 8 == 0,
    ensures
        bits(word_cl_d(op, rd, rs1, funct3, imm) as int, 0, 2) == op,
        bits(word_cl_d(op, rd, rs1, funct3, imm) as int, 2, 3) == rd,
        bits(word_cl_d(op, rd, rs1, funct3, imm) as int, 7, 3) == rs1,
        bits(word_cl_d(op, rd, rs1, funct3, imm) as int, 13, 3) == funct3,
        cl_offset_d(word_cl_d(op, rd, rs1, funct3, imm)) == imm,
{
    lemma_word_cl_d_bits(op, rd, rs1, funct3, imm, 0);
}

/// A word is put together again from the fields that it holds in
/// the CL and CS formats with a double-word offset.
pub proof fn lemma_word_cl_d_of_fields(word: u16)
    ensures
        word_cl_d(
            bits(word as int, 0, 2) as u16,
            bits(word as int, 2, 3) as u16,
            bits(word as int, 7, 3) as u16,
            bits(word as int, 13, 3) as u16,
            cl_offset_d(word),
        ) == word,
{
    lemma_word_cl_d_bits(0, 0, 0, 0, 0, word);
}

/// A word of the CL and CS formats with a quad-word offset, put together from its fields.
pub open spec fn word_cl_q(op: u16, rd: u16, rs1: u16, funct3: u16, imm: int) -> u16 {
    encode_cl_offset_q(op | (rd << 2) | (rs1 << 7) | (funct3 << 13), imm)
}

/// Both directions at once, in one argument over the bits: the fields that
/// are put in read back, and the fields that are read put the word together
/// again.
proof fn lemma_word_cl_q_bits(op: u16, rd: u16, rs1: u16, funct3: u16, imm: int, word: u16)
    ensures
        op < 4 && rd < 8 && rs1 < 8 && funct3 < 8 && 0 <= imm < 512 && imm % 16 == 0 ==> {
            &&& bits(word_cl_q(op, rd, rs1, funct3, imm) as int, 0, 2) == op
            &&& bits(word_cl_q(op, rd, rs1, funct3, imm) as int, 2, 3) == rd
            &&& bits(word_cl_q(op, rd, rs1, funct3, imm) as int, 7, 3) == rs1
            &&& bits(word_cl_q(op, rd, rs1, funct3, imm) as int, 13, 3) == funct3
            &&& cl_offset_q(word_cl_q(op, rd, rs1, funct3, imm)) == imm
        },
        word_cl_q(
            bits(word as int, 0, 2) as u16,
            bits(word as int, 2, 3) as u16,
            bits(word as int, 7, 3) as u16,
            bits(word as int, 13, 3) as u16,
            cl_offset_q(word),
        ) == word,
{
    let base = op | (rd << 2) | (rs1 << 7) | (funct3 << 13);
    let w = word_cl_q(op, rd, rs1, funct3, imm);
    let t0 = bits(word as int, 0, 2) as u16;
    let t1 = bits(word as int, 2, 3) as u16;
    let t2 = bits(word as int, 7, 3) as u16;
    let t3 = bits(word as int, 13, 3) as u16;
    let again = t0 | (t1 << 2) | (t2 << 7) | (t3 << 13);
    if 0 <= imm < 512 && imm % 16 == 0 {
        lemma_cl_offset_q_round_trip(base, imm);
    }
    lemma_cl_offset_q_write_back(word);
    lemma_bits_u16(w, 0, 2);
    lemma_bits_u16(w, 2, 3);
    lemma_bits_u16(w, 7, 3);
    lemma_bits_u16(w, 13, 3);
    lemma_bits_u16(word, 0, 2);
    lemma_bits_u16(word, 2, 3);
    lemma_bits_u16(word, 7, 3);
    lemma_bits_u16(word, 13, 3);
    assert((w & 0xe39f == base & 0xe39f && op < 4 && rd < 8 && rs1 < 8 && funct3 < 8
        ==> (w >> 0) & 0x3 == op && (w >> 2) & 0x7 == rd && (w >> 7) & 0x7 == rs1
        && (w >> 13) & 0x7 == funct3)
        && again & 0xe39f == word & 0xe39f) by (bit_vector)
        requires
            base == op | (rd << 2) | (rs1 << 7) | (funct3 << 13),
            t0 == (word >> 0) & 0x3,
            t1 == (word >> 2) & 0x7,
            t2 == (word >> 7) & 0x7,
            t3 == (word >> 13) & 0x7,
            again == t0 | (t1 << 2) | (t2 << 7) | (t3 << 13),
    ;
}

/// The fields of a word of the CL and CS formats with a quad-word offset
/// read back as they were put in.
pub proof fn lemma_word_cl_q(op: u16, rd: u16, rs1: u16, funct3: u16, imm: int)
    requires
        op < 4,
        rd < 8,
        rs1 < 8,
        funct3 < 8,
        0 <= imm < 512,
        imm % 16 == 0,
    ensures
        bits(word_cl_q(op, rd, rs1, funct3, imm) as int, 0, 2) == op,
        bits(word_cl_q(op, rd, rs1, funct3, imm) as int, 2, 3) == rd,
        bits(word_cl_q(op, rd, rs1, funct3, imm) as int, 7, 3) == rs1,
        bits(word_cl_q(op, rd, rs1, funct3, imm) as int, 13, 3) == funct3,
        cl_offset_q(word_cl_q(op, rd, rs1, funct3, imm)) == imm,
{
    lemma_word_cl_q_bits(op, rd, rs1, funct3, imm, 0);
}

/// A word is put together again from the fields that it holds in
/// the CL and CS formats with a quad-word offset.
pub proof fn lemma_word_cl_q_of_fields(word: u16)
    ensures
        word_cl_q(
            bits(word as int, 0, 2) as u16,
            bits(word as int, 2, 3) as u16,
            bits(word as int, 7, 3) as u16,
            bits(word as int, 13, 3) as u16,
            cl_offset_q(word),
        ) == word,
{
    lemma_word_cl_q_bits(0, 0, 0, 0, 0, word);
}

/// A word of the CI format with a signed immediate, put together from its fields.
pub open spec fn word_ci_imm(op: u16, rd: u16, funct3: u16, imm: int) -> u16 {
    encode_ci_imm(op | (rd << 7) | (funct3 << 13), imm)
}

/// Both directions at once, in one argument over the bits: the fields that
/// are put in read back, and the fields that are read put the word together
/// again.
proof fn lemma_word_ci_imm_bits(op: u16, rd: u16, funct3: u16, imm: int, word: u16)
    ensures
        op < 4 && rd < 32 && funct3 < 8 && -32 <= imm < 32 ==> {
            &&& bits(word_ci_imm(op, rd, funct3, imm) as int, 0, 2) == op
            &&& bits(word_ci_imm(op, rd, funct3, imm) as int, 7, 5) == rd
            &&& bits(word_ci_imm(op, rd, funct3, imm) as int, 13, 3) == funct3
            &&& ci_imm(word_ci_imm(op, rd, funct3, imm)) == imm
        },
        word_ci_imm(
            bits(word as int, 0, 2) as u16,
            bits(word as int, 7, 5) as u16,
            bits(word as int, 13, 3) as u16,
            ci_imm(word),
        ) == word,
{
    let base = op | (rd << 7) | (funct3 << 13);
    let w = word_ci_imm(op, rd, funct3, imm);
    let t0 = bits(word as int, 0, 2) as u16;
    let t1 = bits(word as int, 7, 5) as u16;
    let t2 = bits(word as int, 13, 3) as u16;
    let again = t0 | (t1 << 7) | (t2 << 13);
    if -32 <= imm < 32 {
        lemma_ci_imm_round_trip(base, imm);
    }
    lemma_ci_imm_write_back(word);
    lemma_bits_u16(w, 0, 2);
    lemma_bits_u16(w, 7, 5);
    lemma_bits_u16(w, 13, 3);
    lemma_bits_u16(word, 0, 2);
    lemma_bits_u16(word, 7, 5);
    lemma_bits_u16(word, 13, 3);
    assert((w & 0xef83 == base & 0xef83 && op < 4 && rd < 32 && funct3 < 8
        ==> (w >> 0) & 0x3 == op && (w >> 7) & 0x1f == rd && (w >> 13) & 0x7 == funct3)
        && again & 0xef83 == word & 0xef83) by (bit_vector)
        requires
            base == op | (rd << 7) | (funct3 << 13),
            t0 == (word >> 0) & 0x3,
            t1 == (word >> 7) & 0x1f,
            t2 == (word >> 13) & 0x7,
            again == t0 | (t1 << 7) | (t2 << 13),
    ;
}

/// The fields of a word of the CI format with a signed immediate
/// read back as they were put in.
pub proof fn lemma_word_ci_imm(op: u16, rd: u16, funct3: u16, imm: int)
    requires
        op < 4,
        rd < 32,
        funct3 < 8,
        -32 <= imm < 32,
    ensures
        bits(word_ci_imm(op, rd, funct3, imm) as int, 0, 2) == op,
        bits(word_ci_imm(op, rd, funct3, imm) as int, 7, 5) == rd,
        bits(word_ci_imm(op, rd, funct3, imm) as int, 13, 3) == funct3,
        ci_imm(word_ci_imm(op, rd, funct3, imm)) == imm,
{
    lemma_word_ci_imm_bits(op, rd, funct3, imm, 0);
}

/// A word is put together again from the fields that it holds in
/// the CI format with a signed immediate.
pub proof fn lemma_word_ci_imm_of_fields(word: u16)
    ensures
        word_ci_imm(
            bits(word as int, 0, 2) as u16,
            bits(word as int, 7, 5) as u16,
            bits(word as int, 13, 3) as u16,
            ci_imm(word),
        ) == word,
{
    lemma_word_ci_imm_bits(0, 0, 0, 0, word);
}

/// A word of the CI format with a shift amount, put together from its fields.
pub open spec fn word_ci_shamt(op: u16, rd: u16, funct3: u16, imm: int) -> u16 {
    encode_ci_shamt(op | (rd << 7) | (funct3 << 13), imm)
}

/// Both directions at once, in one argument over the bits: the fields that
/// are put in read back, and the fields that are read put the word together
/// again.
proof fn lemma_word_ci_shamt_bits(op: u16, rd: u16, funct3: u16, imm: int, word: u16)
    ensures
        op < 4 && rd < 32 && funct3 < 8 && 0 <= imm < 64 ==> {
            &&& bits(word_ci_shamt(op, rd, funct3, imm) as int, 0, 2) == op
            &&& bits(word_ci_shamt(op, rd, funct3, imm) as int, 7, 5) == rd
            &&& bits(word_ci_shamt(op, rd, funct3, imm) as int, 13, 3) == funct3
            &&& ci_shamt(word_ci_shamt(op, rd, funct3, imm)) == imm
        },
        word_ci_shamt(
            bits(word as int, 0, 2) as u16,
            bits(word as int, 7, 5) as u16,
            bits(word as int, 13, 3) as u16,
            ci_shamt(word),
        ) == word,
{
    let base = op | (rd << 7) | (funct3 << 13);
    let w = word_ci_shamt(op, rd, funct3, imm);
    let t0 = bits(word as int, 0, 2) as u16;
    let t1 = bits(word as int, 7, 5) as u16;
    let t2 = bits(word as int, 13, 3) as u16;
    let again = t0 | (t1 << 7) | (t2 << 13);
    if 0 <= imm < 64 {
        lemma_ci_shamt_round_trip(base, imm);
    }
    lemma_ci_shamt_write_back(word);
    lemma_bits_u16(w, 0, 2);
    lemma_bits_u16(w, 7, 5);
    lemma_bits_u16(w, 13, 3);
    lemma_bits_u16(word, 0, 2);
    lemma_bits_u16(word, 7, 5);
    lemma_bits_u16(word, 13, 3);
    assert((w & 0xef83 == base & 0xef83 && op < 4 && rd < 32 && funct3 < 8
        ==> (w >> 0) & 0x3 == op && (w >> 7) & 0x1f == rd && (w >> 13) & 0x7 == funct3)
        && again & 0xef83 == word & 0xef83) by (bit_vector)
        requires
            base == op | (rd << 7) | (funct3 << 13),
            t0 == (word >> 0) & 0x3,
            t1 == (word >> 7) & 0x1f,
            t2 == (word >> 13) & 0x7,
            again == t0 | (t1 << 7) | (t2 << 13),
    ;
}

/// The fields of a word of the CI format with a shift amount
/// read back as they were put in.
pub proof fn lemma_word_ci_shamt(op: u16, rd: u16, funct3: u16, imm: int)
    requires
        op < 4,
        rd < 32,
        funct3 < 8,
        0 <= imm < 64,
    ensures
        bits(word_ci_shamt(op, rd, funct3, imm) as int, 0, 2) == op,
        bits(word_ci_shamt(op, rd, funct3, imm) as int, 7, 5) == rd,
        bits(word_ci_shamt(op, rd, funct3, imm) as int, 13, 3) == funct3,
        ci_shamt(word_ci_shamt(op, rd, funct3, imm)) == imm,
{
    lemma_word_ci_shamt_bits(op, rd, funct3, imm, 0);
}

/// A word is put together again from the fields that it holds in
/// the CI format with a shift amount.
pub proof fn lemma_word_ci_shamt_of_fields(word: u16)
    ensures
        word_ci_shamt(
            bits(word as int, 0, 2) as u16,
            bits(word as int, 7, 5) as u16,
            bits(word as int, 13, 3) as u16,
            ci_shamt(word),
        ) == word,
{
    lemma_word_ci_shamt_bits(0, 0, 0, 0, word);
}

/// A word of the CI format with a word offset, put together from its fields.
pub open spec fn word_ci_w(op: u16, rd: u16, funct3: u16, imm: int) -> u16 {
    encode_ci_offset_w(op | (rd << 7) | (funct3 << 13), imm)
}

/// Both directions at once, in one argument over the bits: the fields that
/// are put in read back, and the fields that are read put the word together
/// again.
proof fn lemma_word_ci_w_bits(op: u16, rd: u16, funct3: u16, imm: int, word: u16)
    ensures
        op < 4 && rd < 32 && funct3 < 8 && 0 <= imm < 256 && imm % 4 == 0 ==> {
            &&& bits(word_ci_w(op, rd, funct3, imm) as int, 0, 2) == op
            &&& bits(word_ci_w(op, rd, funct3, imm) as int, 7, 5) == rd
            &&& bits(word_ci_w(op, rd, funct3, imm) as int, 13, 3) == funct3
            &&& ci_offset_w(word_ci_w(op, rd, funct3, imm)) == imm
        },
        word_ci_w(
            bits(word as int, 0, 2) as u16,
            bits(word as int, 7, 5) as u16,
            bits(word as int, 13, 3) as u16,
            ci_offset_w(word),
        ) == word,
{
    let base = op | (rd << 7) | (funct3 << 13);
    let w = word_ci_w(op, rd, funct3, imm);
    let t0 = bits(word as int, 0, 2) as u16;
    let t1 = bits(word as int, 7, 5) as u16;
    let t2 = bits(word as int, 13, 3) as u16;
    let again = t0 | (t1 << 7) | (t2 << 13);
    if 0 <= imm < 256 && imm % 4 == 0 {
        lemma_ci_offset_w_round_trip(base, imm);
    }
    lemma_ci_offset_w_write_back(word);
    lemma_bits_u16(w, 0, 2);
    lemma_bits_u16(w, 7, 5);
    lemma_bits_u16(w, 13, 3);
    lemma_bits_u16(word, 0, 2);
    lemma_bits_u16(word, 7, 5);
    lemma_bits_u16(word, 13, 3);
    assert((w & 0xef83 == base & 0xef83 && op < 4 && rd < 32 && funct3 < 8
        ==> (w >> 0) & 0x3 == op && (w >> 7) & 0x1f == rd && (w >> 13) & 0x7 == funct3)
        && again & 0xef83 == word & 0xef83) by (bit_vector)
        requires
            base == op | (rd << 7) | (funct3 << 13),
            t0 == (word >> 0) & 0x3,
            t1 == (word >> 7) & 0x1f,
            t2 == (word >> 13) & 0x7,
            again == t0 | (t1 << 7) | (t2 << 13),
    ;
}

/// The fields of a word of the CI format with a word offset
/// read back as they were put in.
pub proof fn lemma_word_ci_w(op: u16, rd: u16, funct3: u16, imm: int)
    requires
        op < 4,
        rd < 32,
        funct3 < 8,
        0 <= imm < 256,
        imm % 4 == 0,
    ensures
        bits(word_ci_w(op, rd, funct3, imm) as int, 0, 2) == op,
        bits(word_ci_w(op, rd, funct3, imm) as int, 7, 5) == rd,
        bits(word_ci_w(op, rd, funct3, imm) as int, 13, 3) == funct3,
        ci_offset_w(word_ci_w(op, rd, funct3, imm)) == imm,
{
    lemma_word_ci_w_bits(op, rd, funct3, imm, 0);
}

/// A word is put together again from the fields that it holds in
/// the CI format with a word offset.
pub proof fn lemma_word_ci_w_of_fields(word: u16)
    ensures
        word_ci_w(
            bits(word as int, 0, 2) as u16,
            bits(word as int, 7, 5) as u16,
            bits(word as int, 13, 3) as u16,
            ci_offset_w(word),
        ) == word,
{
    lemma_word_ci_w_bits(0, 0, 0, 0, word);
}

/// A word of the CI format with a double-word offset, put together from its fields.
pub open spec fn word_ci_d(op: u16, rd: u16, funct3: u16, imm: int) -> u16 {
    encode_ci_offset_d(op | (rd << 7) | (funct3 << 13), imm)
}

/// Both directions at once, in one argument over the bits: the fields that
/// are put in read back, and the fields that are read put the word together
/// again.
proof fn lemma_word_ci_d_bits(op: u16, rd: u16, funct3: u16, imm: int, word: u16)
    ensures
        op < 4 && rd < 32 && funct3 < 8 && 0 <= imm < 512 && imm % 8 == 0 ==> {
            &&& bits(word_ci_d(op, rd, funct3, imm) as int, 0, 2) == op
            &&& bits(word_ci_d(op, rd, funct3, imm) as int, 7, 5) == rd
            &&& bits(word_ci_d(op, rd, funct3, imm) as int, 13, 3) == funct3
            &&& ci_offset_d(word_ci_d(op, rd, funct3, imm)) == imm
        },
        word_ci_d(
            bits(word as int, 0, 2) as u16,
            bits(word as int, 7, 5) as u16,
            bits(word as int, 13, 3) as u16,
            ci_offset_d(word),
        ) == word,
{
    let base = op | (rd << 7) | (funct3 << 13);
    let w = word_ci_d(op, rd, funct3, imm);
    let t0 = bits(word as int, 0, 2) as u16;
    let t1 = bits(word as int, 7, 5) as u16;
    let t2 = bits(word as int, 13, 3) as u16;
    let again = t0 | (t1 << 7) | (t2 << 13);
    if 0 <= imm < 512 && imm % 8 == 0 {
        lemma_ci_offset_d_round_trip(base, imm);
    }
    lemma_ci_offset_d_write_back(word);
    lemma_bits_u16(w, 0, 2);
    lemma_bits_u16(w, 7, 5);
    lemma_bits_u16(w, 13, 3);
    lemma_bits_u16(word, 0, 2);
    lemma_bits_u16(word, 7, 5);
    lemma_bits_u16(word, 13, 3);
    assert((w & 0xef83 == base & 0xef83 && op < 4 && rd < 32 && funct3 < 8
        ==> (w >> 0) & 0x3 == op && (w >> 7) & 0x1f == rd && (w >> 13) & 0x7 == funct3)
        && again & 0xef83 == word & 0xef83) by (bit_vector)
        requires
            base == op | (rd << 7) | (funct3 << 13),
            t0 == (word >> 0) & 0x3,
            t1 == (word >> 7) & 0x1f,
            t2 == (word >> 13) & 0x7,
            again == t0 | (t1 << 7) | (t2 << 13),
    ;
}

/// The fields of a word of the CI format with a double-word offset
/// read back as they were put in.
pub proof fn lemma_word_ci_d(op: u16, rd: u16, funct3: u16, imm: int)
    requires
        op < 4,
        rd < 32,
        funct3 < 8,
        0 <= imm < 512,
        imm % 8 == 0,
    ensures
        bits(word_ci_d(op, rd, funct3, imm) as int, 0, 2) == op,
        bits(word_ci_d(op, rd, funct3, imm) as int, 7, 5) == rd,
        bits(word_ci_d(op, rd, funct3, imm) as int, 13, 3) == funct3,
        ci_offset_d(word_ci_d(op, rd, funct3, imm)) == imm,
{
    lemma_word_ci_d_bits(op, rd, funct3, imm, 0);
}

/// A word is put together again from the fields that it holds in
/// the CI format with a double-word offset.
pub proof fn lemma_word_ci_d_of_fields(word: u16)
    ensures
        word_ci_d(
            bits(word as int, 0, 2) as u16,
            bits(word as int, 7, 5) as u16,
            bits(word as int, 13, 3) as u16,
            ci_offset_d(word),
        ) == word,
{
    lemma_word_ci_d_bits(0, 0, 0, 0, word);
}

/// A word of the CI format with a quad-word offset, put together from its fields.
pub open spec fn word_ci_q(op: u16, rd: u16, funct3: u16, imm: int) -> u16 {
    encode_ci_offset_q(op | (rd << 7) | (funct3 << 13), imm)
}

/// Both directions at once, in one argument over the bits: the fields that
/// are put in read back, and the fields that are read put the word together
/// again.
proof fn lemma_word_ci_q_bits(op: u16, rd: u16, funct3: u16, imm: int, word: u16)
    ensures
        op < 4 && rd < 32 && funct3 < 8 && 0 <= imm < 1024 && imm % 16 == 0 ==> {
            &&& bits(word_ci_q(op, rd, funct3, imm) as int, 0, 2) == op
            &&& bits(word_ci_q(op, rd, funct3, imm) as int, 7, 5) == rd
            &&& bits(word_ci_q(op, rd, funct3, imm) as int, 13, 3) == funct3
            &&& ci_offset_q(word_ci_q(op, rd, funct3, imm)) == imm
        },
        word_ci_q(
            bits(word as int, 0, 2) as u16,
            bits(word as int, 7, 5) as u16,
            bits(word as int, 13, 3) as u16,
            ci_offset_q(word),
        ) == word,
{
    let base = op | (rd << 7) | (funct3 << 13);
    let w = word_ci_q(op, rd, funct3, imm);
    let t0 = bits(word as int, 0, 2) as u16;
    let t1 = bits(word as int, 7, 5) as u16;
    let t2 = bits(word as int, 13, 3) as u16;
    let again = t0 | (t1 << 7) | (t2 << 13);
    if 0 <= imm < 1024 && imm % 16 == 0 {
        lemma_ci_offset_q_round_trip(base, imm);
    }
    lemma_ci_offset_q_write_back(word);
    lemma_bits_u16(w, 0, 2);
    lemma_bits_u16(w, 7, 5);
    lemma_bits_u16(w, 13, 3);
    lemma_bits_u16(word, 0, 2);
    lemma_bits_u16(word, 7, 5);
    lemma_bits_u16(word, 13, 3);
    assert((w & 0xef83 == base & 0xef83 && op < 4 && rd < 32 && funct3 < 8
        ==> (w >> 0) & 0x3 == op && (w >> 7) & 0x1f == rd && (w >> 13) & 0x7 == funct3)
        && again & 0xef83 == word & 0xef83) by (bit_vector)
        requires
            base == op | (rd << 7) | (funct3 << 13),
            t0 == (word >> 0) & 0x3,
            t1 == (word >> 7) & 0x1f,
            t2 == (word >> 13) & 0x7,
            again == t0 | (t1 << 7) | (t2 << 13),
    ;
}

/// The fields of a word of the CI format with a quad-word offset
/// read back as they were put in.
pub proof fn lemma_word_ci_q(op: u16, rd: u16, funct3: u16, imm: int)
    requires
        op < 4,
        rd < 32,
        funct3 < 8,
        0 <= imm < 1024,
        imm % 16 == 0,
    ensures
        bits(word_ci_q(op, rd, funct3, imm) as int, 0, 2) == op,
        bits(word_ci_q(op, rd, funct3, imm) as int, 7, 5) == rd,
        bits(word_ci_q(op, rd, funct3, imm) as int, 13, 3) == funct3,
        ci_offset_q(word_ci_q(op, rd, funct3, imm)) == imm,
{
    lemma_word_ci_q_bits(op, rd, funct3, imm, 0);
}

/// A word is put together again from the fields that it holds in
/// the CI format with a quad-word offset.
pub proof fn lemma_word_ci_q_of_fields(word: u16)
    ensures
        word_ci_q(
            bits(word as int, 0, 2) as u16,
            bits(word as int, 7, 5) as u16,
            bits(word as int, 13, 3) as u16,
            ci_offset_q(word),
        ) == word,
{
    lemma_word_ci_q_bits(0, 0, 0, 0, word);
}

/// A word of the CSS format with a word offset, put together from its fields.
pub open spec fn word_css_w(op: u16, rs2: u16, funct3: u16, imm: int) -> u16 {
    encode_css_offset_w(op | (rs2 << 2) | (funct3 << 13), imm)
}

/// Both directions at once, in one argument over the bits: the fields that
/// are put in read back, and the fields that are read put the word together
/// again.
proof fn lemma_word_css_w_bits(op: u16, rs2: u16, funct3: u16, imm: int, word: u16)
    ensures
        op < 4 && rs2 < 32 && funct3 < 8 && 0 <= imm < 256 && imm % 4 == 0 ==> {
            &&& bits(word_css_w(op, rs2, funct3, imm) as int, 0, 2) == op
            &&& bits(word_css_w(op, rs2, funct3, imm) as int, 2, 5) == rs2
            &&& bits(word_css_w(op, rs2, funct3, imm) as int, 13, 3) == funct3
            &&& css_offset_w(word_css_w(op, rs2, funct3, imm)) == imm
        },
        word_css_w(
            bits(word as int, 0, 2) as u16,
            bits(word as int, 2, 5) as u16,
            bits(word as int, 13, 3) as u16,
            css_offset_w(word),
        ) == word,
{
    let base = op | (rs2 << 2) | (funct3 << 13);
    let w = word_css_w(op, rs2, funct3, imm);
    let t0 = bits(word as int, 0, 2) as u16;
    let t1 = bits(word as int, 2, 5) as u16;
    let t2 = bits(word as int, 13, 3) as u16;
    let again = t0 | (t1 << 2) | (t2 << 13);
    if 0 <= imm < 256 && imm % 4 == 0 {
        lemma_css_offset_w_round_trip(base, imm);
    }
    lemma_css_offset_w_write_back(word);
    lemma_bits_u16(w, 0, 2);
    lemma_bits_u16(w, 2, 5);
    lemma_bits_u16(w, 13, 3);
    lemma_bits_u16(word, 0, 2);
    lemma_bits_u16(word, 2, 5);
    lemma_bits_u16(word, 13, 3);
    assert((w & 0xe07f == base & 0xe07f && op < 4 && rs2 < 32 && funct3 < 8
        ==> (w >> 0) & 0x3 == op && (w >> 2) & 0x1f == rs2 && (w >> 13) & 0x7 == funct3)
        && again & 0xe07f == word & 0xe07f) by (bit_vector)
        requires
            base == op | (rs2 << 2) | (funct3 << 13),
            t0 == (word >> 0) & 0x3,
            t1 == (word >> 2) & 0x1f,
            t2 == (word >> 13) & 0x7,
            again == t0 | (t1 << 2) | (t2 << 13),
    ;
}

/// The fields of a word of the CSS format with a word offset
/// read back as they were put in.
pub proof fn lemma_word_css_w(op: u16, rs2: u16, funct3: u16, imm: int)
    requires
        op < 4,
        rs2 < 32,
        funct3 < 8,
        0 <= imm < 256,
        imm % 4 == 0,
    ensures
        bits(word_css_w(op, rs2, funct3, imm) as int, 0, 2) == op,
        bits(word_css_w(op, rs2, funct3, imm) as int, 2, 5) == rs2,
        bits(word_css_w(op, rs2, funct3, imm) as int, 13, 3) == funct3,
        css_offset_w(word_css_w(op, rs2, funct3, imm)) == imm,
{
    lemma_word_css_w_bits(op, rs2, funct3, imm, 0);
}

/// A word is put together again from the fields that it holds in
/// the CSS format with a word offset.
pub proof fn lemma_word_css_w_of_fields(word: u16)
    ensures
        word_css_w(
            bits(word as int, 0, 2) as u16,
            bits(word as int, 2, 5) as u16,
            bits(word as int, 13, 3) as u16,
            css_offset_w(word),
        ) == word,
{
    lemma_word_css_w_bits(0, 0, 0, 0, word);
}

/// A word of the CSS format with a double-word offset, put together from its fields.
pub open spec fn word_css_d(op: u16, rs2: u16, funct3: u16, imm: int) -> u16 {
    encode_css_offset_d(op | (rs2 << 2) | (funct3 << 13), imm)
}

/// Both directions at once, in one argument over the bits: the fields that
/// are put in read back, and the fields that are read put the word together
/// again.
proof fn lemma_word_css_d_bits(op: u16, rs2: u16, funct3: u16, imm: int, word: u16)
    ensures
        op < 4 && rs2 < 32 && funct3 < 8 && 0 <= imm < 512 && imm % 8 == 0 ==> {
            &&& bits(word_css_d(op, rs2, funct3, imm) as int, 0, 2) == op
            &&& bits(word_css_d(op, rs2, funct3, imm) as int, 2, 5) == rs2
            &&& bits(word_css_d(op, rs2, funct3, imm) as int, 13, 3) == funct3
            &&& css_offset_d(word_css_d(op, rs2, funct3, imm)) == imm
        },
        word_css_d(
            bits(word as int, 0, 2) as u16,
            bits(word as int, 2, 5) as u16,
            bits(word as int, 13, 3) as u16,
            css_offset_d(word),
        ) == word,
{
    let base = op | (rs2 << 2) | (funct3 << 13);
    let w = word_css_d(op, rs2, funct3, imm);
    let t0 = bits(word as int, 0, 2) as u16;
    let t1 = bits(word as int, 2, 5) as u16;
    let t2 = bits(word as int, 13, 3) as u16;
    let again = t0 | (t1 << 2) | (t2 << 13);
    if 0 <= imm < 512 && imm % 8 == 0 {
        lemma_css_offset_d_round_trip(base, imm);
    }
    lemma_css_offset_d_write_back(word);
    lemma_bits_u16(w, 0, 2);
    lemma_bits_u16(w, 2, 5);
    lemma_bits_u16(w, 13, 3);
    lemma_bits_u16(word, 0, 2);
    lemma_bits_u16(word, 2, 5);
    lemma_bits_u16(word, 13, 3);
    assert((w & 0xe07f == base & 0xe07f && op < 4 && rs2 < 32 && funct3 < 8
        ==> (w >> 0) & 0x3 == op && (w >> 2) & 0x1f == rs2 && (w >> 13) & 0x7 == funct3)
        && again & 0xe07f == word & 0xe07f) by (bit_vector)
        requires
            base == op | (rs2 << 2) | (funct3 << 13),
            t0 == (word >> 0) & 0x3,
            t1 == (word >> 2) & 0x1f,
            t2 == (word >> 13) & 0x7,
            again == t0 | (t1 << 2) | (t2 << 13),
    ;
}

/// The fields of a word of the CSS format with a double-word offset
/// read back as they were put in.
pub proof fn lemma_word_css_d(op: u16, rs2: u16, funct3: u16, imm: int)
    requires
        op < 4,
        rs2 < 32,
        funct3 < 8,
        0 <= imm < 512,
        imm % 8 == 0,
    ensures
        bits(word_css_d(op, rs2, funct3, imm) as int, 0, 2) == op,
        bits(word_css_d(op, rs2, funct3, imm) as int, 2, 5) == rs2,
        bits(word_css_d(op, rs2, funct3, imm) as int, 13, 3) == funct3,
        css_offset_d(word_css_d(op, rs2, funct3, imm)) == imm,
{
    lemma_word_css_d_bits(op, rs2, funct3, imm, 0);
}

/// A word is put together again from the fields that it holds in
/// the CSS format with a double-word offset.
pub proof fn lemma_word_css_d_of_fields(word: u16)
    ensures
        word_css_d(
            bits(word as int, 0, 2) as u16,
            bits(word as int, 2, 5) as u16,
            bits(word as int, 13, 3) as u16,
            css_offset_d(word),
        ) == word,
{
    lemma_word_css_d_bits(0, 0, 0, 0, word);
}

/// A word of the CSS format with a quad-word offset, put together from its fields.
pub open spec fn word_css_q(op: u16, rs2: u16, funct3: u16, imm: int) -> u16 {
    encode_css_offset_q(op | (rs2 << 2) | (funct3 << 13), imm)
}

/// Both directions at once, in one argument over the bits: the fields that
/// are put in read back, and the fields that are read put the word together
/// again.
proof fn lemma_word_css_q_bits(op: u16, rs2: u16, funct3: u16, imm: int, word: u16)
    ensures
        op < 4 && rs2 < 32 && funct3 < 8 && 0 <= imm < 1024 && imm % 16 == 0 ==> {
            &&& bits(word_css_q(op, rs2, funct3, imm) as int, 0, 2) == op
            &&& bits(word_css_q(op, rs2, funct3, imm) as int, 2, 5) == rs2
            &&& bits(word_css_q(op, rs2, funct3, imm) as int, 13, 3) == funct3
            &&& css_offset_q(word_css_q(op, rs2, funct3, imm)) == imm
        },
        word_css_q(
            bits(word as int, 0, 2) as u16,
            bits(word as int, 2, 5) as u16,
            bits(word as int, 13, 3) as u16,
            css_offset_q(word),
        ) == word,
{
    let base = op | (rs2 << 2) | (funct3 << 13);
    let w = word_css_q(op, rs2, funct3, imm);
    let t0 = bits(word as int, 0, 2) as u16;
    let t1 = bits(word as int, 2, 5) as u16;
    let t2 = bits(word as int, 13, 3) as u16;
    let again = t0 | (t1 << 2) | (t2 << 13);
    if 0 <= imm < 1024 && imm % 16 == 0 {
        lemma_css_offset_q_round_trip(base, imm);
    }
    lemma_css_offset_q_write_back(word);
    lemma_bits_u16(w, 0, 2);
    lemma_bits_u16(w, 2, 5);
    lemma_bits_u16(w, 13, 3);
    lemma_bits_u16(word, 0, 2);
    lemma_bits_u16(word, 2, 5);
    lemma_bits_u16(word, 13, 3);
    assert((w & 0xe07f == base & 0xe07f && op < 4 && rs2 < 32 && funct3 < 8
        ==> (w >> 0) & 0x3 == op && (w >> 2) & 0x1f == rs2 && (w >> 13) & 0x7 == funct3)
        && again & 0xe07f == word & 0xe07f) by (bit_vector)
        requires
            base == op | (rs2 << 2) | (funct3 << 13),
            t0 == (word >> 0) & 0x3,
            t1 == (word >> 2) & 0x1f,
            t2 == (word >> 13) & 0x7,
            again == t0 | (t1 << 2) | (t2 << 13),
    ;
}

/// The fields of a word of the CSS format with a quad-word offset
/// read back as they were put in.
pub proof fn lemma_word_css_q(op: u16, rs2: u16, funct3: u16, imm: int)
    requires
        op < 4,
        rs2 < 32,
        funct3 < 8,
        0 <= imm < 1024,
        imm % 16 == 0,
    ensures
        bits(word_css_q(op, rs2, funct3, imm) as int, 0, 2) == op,
        bits(word_css_q(op, rs2, funct3, imm) as int, 2, 5) == rs2,
        bits(word_css_q(op, rs2, funct3, imm) as int, 13, 3) == funct3,
        css_offset_q(word_css_q(op, rs2, funct3, imm)) == imm,
{
    lemma_word_css_q_bits(op, rs2, funct3, imm, 0);
}

/// A word is put together again from the fields that it holds in
/// the CSS format with a quad-word offset.
pub proof fn lemma_word_css_q_of_fields(word: u16)
    ensures
        word_css_q(
            bits(word as int, 0, 2) as u16,
            bits(word as int, 2, 5) as u16,
            bits(word as int, 13, 3) as u16,
            css_offset_q(word),
        ) == word,
{
    lemma_word_css_q_bits(0, 0, 0, 0, word);
}

/// A word of the CB format with a shift amount, put together from its fields.
pub open spec fn word_cb_shamt(op: u16, rd: u16, funct2: u16, funct3: u16, imm: int) -> u16 {
    encode_ci_shamt(op | (rd << 7) | (funct2 << 10) | (funct3 << 13), imm)
}

/// Both directions at once, in one argument over the bits: the fields that
/// are put in read back, and the fields that are read put the word together
/// again.
proof fn lemma_word_cb_shamt_bits(
    op: u16,
    rd: u16,
    funct2: u16,
    funct3: u16,
    imm: int,
    word: u16,
)
    ensures
        op < 4 && rd < 8 && funct2 < 4 && funct3 < 8 && 0 <= imm < 64 ==> {
            &&& bits(word_cb_shamt(op, rd, funct2, funct3, imm) as int, 0, 2) == op
            &&& bits(word_cb_shamt(op, rd, funct2, funct3, imm) as int, 7, 3) == rd
            &&& bits(word_cb_shamt(op, rd, funct2, funct3, imm) as int, 10, 2) == funct2
            &&& bits(word_cb_shamt(op, rd, funct2, funct3, imm) as int, 13, 3) == funct3
            &&& ci_shamt(word_cb_shamt(op, rd, funct2, funct3, imm)) == imm
        },
        word_cb_shamt(
            bits(word as int, 0, 2) as u16,
            bits(word as int, 7, 3) as u16,
            bits(word as int, 10, 2) as u16,
            bits(word as int, 13, 3) as u16,
            ci_shamt(word),
        ) == word,
{
    let base = op | (rd << 7) | (funct2 << 10) | (funct3 << 13);
    let w = word_cb_shamt(op, rd, funct2, funct3, imm);
    let t0 = bits(word as int, 0, 2) as u16;
    let t1 = bits(word as int, 7, 3) as u16;
    let t2 = bits(word as int, 10, 2) as u16;
    let t3 = bits(word as int, 13, 3) as u16;
    let again = t0 | (t1 << 7) | (t2 << 10) | (t3 << 13);
    if 0 <= imm < 64 {
        lemma_ci_shamt_round_trip(base, imm);
    }
    lemma_ci_shamt_write_back(word);
    lemma_bits_u16(w, 0, 2);
    lemma_bits_u16(w, 7, 3);
    lemma_bits_u16(w, 10, 2);
    lemma_bits_u16(w, 13, 3);
    lemma_bits_u16(word, 0, 2);
    lemma_bits_u16(word, 7, 3);
    lemma_bits_u16(word, 10, 2);
    lemma_bits_u16(word, 13, 3);
    assert((w & 0xef83 == base & 0xef83 && op < 4 && rd < 8 && funct2 < 4 && funct3 < 8
        ==> (w >> 0) & 0x3 == op && (w >> 7) & 0x7 == rd && (w >> 10) & 0x3 == funct2
        && (w >> 13) & 0x7 == funct3)
        && again & 0xef83 == word & 0xef83) by (bit_vector)
        requires
            base == op | (rd << 7) | (funct2 << 10) | (funct3 << 13),
            t0 == (word >> 0) & 0x3,
            t1 == (word >> 7) & 0x7,
            t2 == (word >> 10) & 0x3,
            t3 == (word >> 13) & 0x7,
            again == t0 | (t1 << 7) | (t2 << 10) | (t3 << 13),
    ;
}

/// The fields of a word of the CB format with a shift amount
/// read back as they were put in.
pub proof fn lemma_word_cb_shamt(op: u16, rd: u16, funct2: u16, funct3: u16, imm: int)
    requires
        op < 4,
        rd < 8,
        funct2 < 4,
        funct3 < 8,
        0 <= imm < 64,
    ensures
        bits(word_cb_shamt(op, rd, funct2, funct3, imm) as int, 0, 2) == op,
        bits(word_cb_shamt(op, rd, funct2, funct3, imm) as int, 7, 3) == rd,
        bits(word_cb_shamt(op, rd, funct2, funct3, imm) as int, 10, 2) == funct2,
        bits(word_cb_shamt(op, rd, funct2, funct3, imm) as int, 13, 3) == funct3,
        ci_shamt(word_cb_shamt(op, rd, funct2, funct3, imm)) == imm,
{
    lemma_word_cb_shamt_bits(op, rd, funct2, funct3, imm, 0);
}

/// A word is put together again from the fields that it holds in
/// the CB format with a shift amount.
pub proof fn lemma_word_cb_shamt_of_fields(word: u16)
    ensures
        word_cb_shamt(
            bits(word as int, 0, 2) as u16,
            bits(word as int, 7, 3) as u16,
            bits(word as int, 10, 2) as u16,
            bits(word as int, 13, 3) as u16,
            ci_shamt(word),
        ) == word,
{
    lemma_word_cb_shamt_bits(0, 0, 0, 0, 0, word);
}

/// A word of the CB format with a signed immediate, put together from its fields.
pub open spec fn word_cb_imm(op: u16, rd: u16, funct2: u16, funct3: u16, imm: int) -> u16 {
    encode_ci_imm(op | (rd << 7) | (funct2 << 10) | (funct3 << 13), imm)
}

/// Both directions at once, in one argument over the bits: the fields that
/// are put in read back, and the fields that are read put the word together
/// again.
proof fn lemma_word_cb_imm_bits(op: u16, rd: u16, funct2: u16, funct3: u16, imm: int, word: u16)
    ensures
        op < 4 && rd < 8 && funct2 < 4 && funct3 < 8 && -32 <= imm < 32 ==> {
            &&& bits(word_cb_imm(op, rd, funct2, funct3, imm) as int, 0, 2) == op
            &&& bits(word_cb_imm(op, rd, funct2, funct3, imm) as int, 7, 3) == rd
            &&& bits(word_cb_imm(op, rd, funct2, funct3, imm) as int, 10, 2) == funct2
            &&& bits(word_cb_imm(op, rd, funct2, funct3, imm) as int, 13, 3) == funct3
            &&& ci_imm(word_cb_imm(op, rd, funct2, funct3, imm)) == imm
        },
        word_cb_imm(
            bits(word as int, 0, 2) as u16,
            bits(word as int, 7, 3) as u16,
            bits(word as int, 10, 2) as u16,
            bits(word as int, 13, 3) as u16,
            ci_imm(word),
        ) == word,
{
    let base = op | (rd << 7) | (funct2 << 10) | (funct3 << 13);
    let w = word_cb_imm(op, rd, funct2, funct3, imm);
    let t0 = bits(word as int, 0, 2) as u16;
    let t1 = bits(word as int, 7, 3) as u16;
    let t2 = bits(word as int, 10, 2) as u16;
    let t3 = bits(word as int, 13, 3) as u16;
    let again = t0 | (t1 << 7) | (t2 << 10) | (t3 << 13);
    if -32 <= imm < 32 {
        lemma_ci_imm_round_trip(base, imm);
    }
    lemma_ci_imm_write_back(word);
    lemma_bits_u16(w, 0, 2);
    lemma_bits_u16(w, 7, 3);
    lemma_bits_u16(w, 10, 2);
    lemma_bits_u16(w, 13, 3);
    lemma_bits_u16(word, 0, 2);
    lemma_bits_u16(word, 7, 3);
    lemma_bits_u16(word, 10, 2);
    lemma_bits_u16(word, 13, 3);
    assert((w & 0xef83 == base & 0xef83 && op < 4 && rd < 8 && funct2 < 4 && funct3 < 8
        ==> (w >> 0) & 0x3 == op && (w >> 7) & 0x7 == rd && (w >> 10) & 0x3 == funct2
        && (w >> 13) & 0x7 == funct3)
        && again & 0xef83 == word & 0xef83) by (bit_vector)
        requires
            base == op | (rd << 7) | (funct2 << 10) | (funct3 << 13),
            t0 == (word >> 0) & 0x3,
            t1 == (word >> 7) & 0x7,
            t2 == (word >> 10) & 0x3,
            t3 == (word >> 13) & 0x7,
            again == t0 | (t1 << 7) | (t2 << 10) | (t3 << 13),
    ;
}

/// The fields of a word of the CB format with a signed immediate
/// read back as they were put in.
pub proof fn lemma_word_cb_imm(op: u16, rd: u16, funct2: u16, funct3: u16, imm: int)
    requires
        op < 4,
        rd < 8,
        funct2 < 4,
        funct3 < 8,
        -32 <= imm < 32,
    ensures
        bits(word_cb_imm(op, rd, funct2, funct3, imm) as int, 0, 2) == op,
        bits(word_cb_imm(op, rd, funct2, funct3, imm) as int, 7, 3) == rd,
        bits(word_cb_imm(op, rd, funct2, funct3, imm) as int, 10, 2) == funct2,
        bits(word_cb_imm(op, rd, funct2, funct3, imm) as int, 13, 3) == funct3,
        ci_imm(word_cb_imm(op, rd, funct2, funct3, imm)) == imm,
{
    lemma_word_cb_imm_bits(op, rd, funct2, funct3, imm, 0);
}

/// A word is put together again from the fields that it holds in
/// the CB format with a signed immediate.
pub proof fn lemma_word_cb_imm_of_fields(word: u16)
    ensures
        word_cb_imm(
            bits(word as int, 0, 2) as u16,
            bits(word as int, 7, 3) as u16,
            bits(word as int, 10, 2) as u16,
            bits(word as int, 13, 3) as u16,
            ci_imm(word),
        ) == word,
{
    lemma_word_cb_imm_bits(0, 0, 0, 0, 0, word);
}

/// A word of the CA format, put together from its fields.
pub open spec fn word_ca(
    op: u16,
    rs2: u16,
    funct: u16,
    rd: u16,
    funct2: u16,
    wide: u16,
    funct3: u16,
) -> u16 {
    op | (rs2 << 2) | (funct << 5) | (rd << 7) | (funct2 << 10) | (wide << 12) | (funct3 << 13)
}

/// Both directions at once, in one argument over the bits: the fields that
/// are put in read back, and the fields that are read put the word together
/// again.
proof fn lemma_word_ca_bits(
    op: u16,
    rs2: u16,
    funct: u16,
    rd: u16,
    funct2: u16,
    wide: u16,
    funct3: u16,
    word: u16,
)
    ensures
        op < 4 && rs2 < 8 && funct < 4 && rd < 8 && funct2 < 4 && wide < 2 && funct3 < 8 ==> {
            &&& bits(word_ca(op, rs2, funct, rd, funct2, wide, funct3) as int, 0, 2) == op
            &&& bits(word_ca(op, rs2, funct, rd, funct2, wide, funct3) as int, 2, 3) == rs2
            &&& bits(word_ca(op, rs2, funct, rd, funct2, wide, funct3) as int, 5, 2) == funct
            &&& bits(word_ca(op, rs2, funct, rd, funct2, wide, funct3) as int, 7, 3) == rd
            &&& bits(word_ca(op, rs2, funct, rd, funct2, wide, funct3) as int, 10, 2) == funct2
            &&& bits(word_ca(op, rs2, funct, rd, funct2, wide, funct3) as int, 12, 1) == wide
            &&& bits(word_ca(op, rs2, funct, rd, funct2, wide, funct3) as int, 13, 3) == funct3
        },
        word_ca(
            bits(word as int, 0, 2) as u16,
            bits(word as int, 2, 3) as u16,
            bits(word as int, 5, 2) as u16,
            bits(word as int, 7, 3) as u16,
            bits(word as int, 10, 2) as u16,
            bits(word as int, 12, 1) as u16,
            bits(word as int, 13, 3) as u16,
        ) == word,
{
    let w = word_ca(op, rs2, funct, rd, funct2, wide, funct3);
    let t0 = bits(word as int, 0, 2) as u16;
    let t1 = bits(word as int, 2, 3) as u16;
    let t2 = bits(word as int, 5, 2) as u16;
    let t3 = bits(word as int, 7, 3) as u16;
    let t4 = bits(word as int, 10, 2) as u16;
    let t5 = bits(word as int, 12, 1) as u16;
    let t6 = bits(word as int, 13, 3) as u16;
    let again = t0 | (t1 << 2) | (t2 << 5) | (t3 << 7) | (t4 << 10) | (t5 << 12) | (t6 << 13);
    lemma_bits_u16(w, 0, 2);
    lemma_bits_u16(w, 2, 3);
    lemma_bits_u16(w, 5, 2);
    lemma_bits_u16(w, 7, 3);
    lemma_bits_u16(w, 10, 2);
    lemma_bits_u16(w, 12, 1);
    lemma_bits_u16(w, 13, 3);
    lemma_bits_u16(word, 0, 2);
    lemma_bits_u16(word, 2, 3);
    lemma_bits_u16(word, 5, 2);
    lemma_bits_u16(word, 7, 3);
    lemma_bits_u16(word, 10, 2);
    lemma_bits_u16(word, 12, 1);
    lemma_bits_u16(word, 13, 3);
    assert((op < 4 && rs2 < 8 && funct < 4 && rd < 8 && funct2 < 4 && wide < 2
        && funct3 < 8
        ==> (w >> 0) & 0x3 == op && (w >> 2) & 0x7 == rs2 && (w >> 5) & 0x3 == funct
        && (w >> 7) & 0x7 == rd && (w >> 10) & 0x3 == funct2 && (w >> 12) & 0x1 == wide
        && (w >> 13) & 0x7 == funct3)
        && again == word) by (bit_vector)
        requires
            w == op | (rs2 << 2) | (funct << 5) | (rd << 7) | (funct2 << 10) | (wide << 12)
                | (funct3 << 13),
            t0 == (word >> 0) & 0x3,
            t1 == (word >> 2) & 0x7,
            t2 == (word >> 5) & 0x3,
            t3 == (word >> 7) & 0x7,
            t4 == (word >> 10) & 0x3,
            t5 == (word >> 12) & 0x1,
            t6 == (word >> 13) & 0x7,
            again == t0 | (t1 << 2) | (t2 << 5) | (t3 << 7) | (t4 << 10) | (t5 << 12)
                | (t6 << 13),
    ;
}

/// The fields of a word of the CA format
/// read back as they were put in.
pub proof fn lemma_word_ca(
    op: u16,
    rs2: u16,
    funct: u16,
    rd: u16,
    funct2: u16,
    wide: u16,
    funct3: u16,
)
    requires
        op < 4,
        rs2 < 8,
        funct < 4,
        rd < 8,
        funct2 < 4,
        wide < 2,
        funct3 < 8,
    ensures
        bits(word_ca(op, rs2, funct, rd, funct2, wide, funct3) as int, 0, 2) == op,
        bits(word_ca(op, rs2, funct, rd, funct2, wide, funct3) as int, 2, 3) == rs2,
        bits(word_ca(op, rs2, funct, rd, funct2, wide, funct3) as int, 5, 2) == funct,
        bits(word_ca(op, rs2, funct, rd, funct2, wide, funct3) as int, 7, 3) == rd,
        bits(word_ca(op, rs2, funct, rd, funct2, wide, funct3) as int, 10, 2) == funct2,
        bits(word_ca(op, rs2, funct, rd, funct2, wide, funct3) as int, 12, 1) == wide,
        bits(word_ca(op, rs2, funct, rd, funct2, wide, funct3) as int, 13, 3) == funct3,
{
    lemma_word_ca_bits(op, rs2, funct, rd, funct2, wide, funct3, 0);
}

/// A word is put together again from the fields that it holds in
/// the CA format.
pub proof fn lemma_word_ca_of_fields(word: u16)
    ensures
        word_ca(
            bits(word as int, 0, 2) as u16,
            bits(word as int, 2, 3) as u16,
            bits(word as int, 5, 2) as u16,
            bits(word as int, 7, 3) as u16,
            bits(word as int, 10, 2) as u16,
            bits(word as int, 12, 1) as u16,
            bits(word as int, 13, 3) as u16,
        ) == word,
{
    lemma_word_ca_bits(0, 0, 0, 0, 0, 0, 0, word);
}

/// A word of the CB format with a branch offset, put together from its fields.
pub open spec fn word_cb(op: u16, rs1: u16, funct3: u16, imm: int) -> u16 {
    encode_cb_offset(op | (rs1 << 7) | (funct3 << 13), imm)
}

/// Both directions at once, in one argument over the bits: the fields that
/// are put in read back, and the fields that are read put the word together
/// again.
proof fn lemma_word_cb_bits(op: u16, rs1: u16, funct3: u16, imm: int, word: u16)
    ensures
        op < 4 && rs1 < 8 && funct3 < 8 && -256 <= imm < 256 && imm % 2 == 0 ==> {
            &&& bits(word_cb(op, rs1, funct3, imm) as int, 0, 2) == op
            &&& bits(word_cb(op, rs1, funct3, imm) as int, 7, 3) == rs1
            &&& bits(word_cb(op, rs1, funct3, imm) as int, 13, 3) == funct3
            &&& cb_offset(word_cb(op, rs1, funct3, imm)) == imm
        },
        word_cb(
            bits(word as int, 0, 2) as u16,
            bits(word as int, 7, 3) as u16,
            bits(word as int, 13, 3) as u16,
            cb_offset(word),
        ) == word,
{
    let base = op | (rs1 << 7) | (funct3 << 13);
    let w = word_cb(op, rs1, funct3, imm);
    let t0 = bits(word as int, 0, 2) as u16;
    let t1 = bits(word as int, 7, 3) as u16;
    let t2 = bits(word as int, 13, 3) as u16;
    let again = t0 | (t1 << 7) | (t2 << 13);
    if -256 <= imm < 256 && imm % 2 == 0 {
        lemma_cb_offset_round_trip(base, imm);
    }
    lemma_cb_offset_write_back(word);
    lemma_bits_u16(w, 0, 2);
    lemma_bits_u16(w, 7, 3);
    lemma_bits_u16(w, 13, 3);
    lemma_bits_u16(word, 0, 2);
    lemma_bits_u16(word, 7, 3);
    lemma_bits_u16(word, 13, 3);
    assert((w & 0xe383 == base & 0xe383 && op < 4 && rs1 < 8 && funct3 < 8
        ==> (w >> 0) & 0x3 == op && (w >> 7) & 0x7 == rs1 && (w >> 13) & 0x7 == funct3)
        && again & 0xe383 == word & 0xe383) by (bit_vector)
        requires
            base == op | (rs1 << 7) | (funct3 << 13),
            t0 == (word >> 0) & 0x3,
            t1 == (word >> 7) & 0x7,
            t2 == (word >> 13) & 0x7,
            again == t0 | (t1 << 7) | (t2 << 13),
    ;
}

/// The fields of a word of the CB format with a branch offset
/// read back as they were put in.
pub proof fn lemma_word_cb(op: u16, rs1: u16, funct3: u16, imm: int)
    requires
        op < 4,
        rs1 < 8,
        funct3 < 8,
        -256 <= imm < 256,
        imm % 2 == 0,
    ensures
        bits(word_cb(op, rs1, funct3, imm) as int, 0, 2) == op,
        bits(word_cb(op, rs1, funct3, imm) as int, 7, 3) == rs1,
        bits(word_cb(op, rs1, funct3, imm) as int, 13, 3) == funct3,
        cb_offset(word_cb(op, rs1, funct3, imm)) == imm,
{
    lemma_word_cb_bits(op, rs1, funct3, imm, 0);
}

/// A word is put together again from the fields that it holds in
/// the CB format with a branch offset.
pub proof fn lemma_word_cb_of_fields(word: u16)
    ensures
        word_cb(
            bits(word as int, 0, 2) as u16,
            bits(word as int, 7, 3) as u16,
            bits(word as int, 13, 3) as u16,
            cb_offset(word),
        ) == word,
{
    lemma_word_cb_bits(0, 0, 0, 0, word);
}

/// A word of the CJ format, put together from its fields.
pub open spec fn word_cj(op: u16, funct3: u16, imm: int) -> u16 {
    encode_cj_offset(op | (funct3 << 13), imm)
}

/// Both directions at once, in one argument over the bits: the fields that
/// are put in read back, and the fields that are read put the word together
/// again.
proof fn lemma_word_cj_bits(op: u16, funct3: u16, imm: int, word: u16)
    ensures
        op < 4 && funct3 < 8 && -2048 <= imm < 2048 && imm % 2 == 0 ==> {
            &&& bits(word_cj(op, funct3, imm) as int, 0, 2) == op
            &&& bits(word_cj(op, funct3, imm) as int, 13, 3) == funct3
            &&& cj_offset(word_cj(op, funct3, imm)) == imm
        },
        word_cj(
            bits(word as int, 0, 2) as u16,
            bits(word as int, 13, 3) as u16,
            cj_offset(word),
        ) == word,
{
    let base = op | (funct3 << 13);
    let w = word_cj(op, funct3, imm);
    let t0 = bits(word as int, 0, 2) as u16;
    let t1 = bits(word as int, 13, 3) as u16;
    let again = t0 | (t1 << 13);
    if -2048 <= imm < 2048 && imm % 2 == 0 {
        lemma_cj_offset_round_trip(base, imm);
    }
    lemma_cj_offset_write_back(word);
    lemma_bits_u16(w, 0, 2);
    lemma_bits_u16(w, 13, 3);
    lemma_bits_u16(word, 0, 2);
    lemma_bits_u16(word, 13, 3);
    assert((w & 0xe003 == base & 0xe003 && op < 4 && funct3 < 8
        ==> (w >> 0) & 0x3 == op && (w >> 13) & 0x7 == funct3)
        && again & 0xe003 == word & 0xe003) by (bit_vector)
        requires
            base == op | (funct3 << 13),
            t0 == (word >> 0) & 0x3,
            t1 == (word >> 13) & 0x7,
            again == t0 | (t1 << 13),
    ;
}

/// The fields of a word of the CJ format
/// read back as they were put in.
pub proof fn lemma_word_cj(op: u16, funct3: u16, imm: int)
    requires
        op < 4,
        funct3 < 8,
        -2048 <= imm < 2048,
        imm % 2 == 0,
    ensures
        bits(word_cj(op, funct3, imm) as int, 0, 2) == op,
        bits(word_cj(op, funct3, imm) as int, 13, 3) == funct3,
        cj_offset(word_cj(op, funct3, imm)) == imm,
{
    lemma_word_cj_bits(op, funct3, imm, 0);
}

/// A word is put together again from the fields that it holds in
/// the CJ format.
pub proof fn lemma_word_cj_of_fields(word: u16)
    ensures
        word_cj(
            bits(word as int, 0, 2) as u16,
            bits(word as int, 13, 3) as u16,
            cj_offset(word),
        ) == word,
{
    lemma_word_cj_bits(0, 0, 0, word);
}

/// A word of the CR format, put together from its fields.
pub open spec fn word_cr(op: u16, rs2: u16, rd: u16, flag: u16, funct3: u16) -> u16 {
    op | (rs2 << 2) | (rd << 7) | (flag << 12) | (funct3 << 13)
}

/// Both directions at once, in one argument over the bits: the fields that
/// are put in read back, and the fields that are read put the word together
/// again.
proof fn lemma_word_cr_bits(op: u16, rs2: u16, rd: u16, flag: u16, funct3: u16, word: u16)
    ensures
        op < 4 && rs2 < 32 && rd < 32 && flag < 2 && funct3 < 8 ==> {
            &&& bits(word_cr(op, rs2, rd, flag, funct3) as int, 0, 2) == op
            &&& bits(word_cr(op, rs2, rd, flag, funct3) as int, 2, 5) == rs2
            &&& bits(word_cr(op, rs2, rd, flag, funct3) as int, 7, 5) == rd
            &&& bits(word_cr(op, rs2, rd, flag, funct3) as int, 12, 1) == flag
            &&& bits(word_cr(op, rs2, rd, flag, funct3) as int, 13, 3) == funct3
        },
        word_cr(
            bits(word as int, 0, 2) as u16,
            bits(word as int, 2, 5) as u16,
            bits(word as int, 7, 5) as u16,
            bits(word as int, 12, 1) as u16,
            bits(word as int, 13, 3) as u16,
        ) == word,
{
    let w = word_cr(op, rs2, rd, flag, funct3);
    let t0 = bits(word as int, 0, 2) as u16;
    let t1 = bits(word as int, 2, 5) as u16;
    let t2 = bits(word as int, 7, 5) as u16;
    let t3 = bits(word as int, 12, 1) as u16;
    let t4 = bits(word as int, 13, 3) as u16;
    let again = t0 | (t1 << 2) | (t2 << 7) | (t3 << 12) | (t4 << 13);
    lemma_bits_u16(w, 0, 2);
    lemma_bits_u16(w, 2, 5);
    lemma_bits_u16(w, 7, 5);
    lemma_bits_u16(w, 12, 1);
    lemma_bits_u16(w, 13, 3);
    lemma_bits_u16(word, 0, 2);
    lemma_bits_u16(word, 2, 5);
    lemma_bits_u16(word, 7, 5);
    lemma_bits_u16(word, 12, 1);
    lemma_bits_u16(word, 13, 3);
    assert((op < 4 && rs2 < 32 && rd < 32 && flag < 2 && funct3 < 8
        ==> (w >> 0) & 0x3 == op && (w >> 2) & 0x1f == rs2 && (w >> 7) & 0x1f == rd
        && (w >> 12) & 0x1 == flag && (w >> 13) & 0x7 == funct3)
        && again == word) by (bit_vector)
        requires
            w == op | (rs2 << 2) | (rd << 7) | (flag << 12) | (funct3 << 13),
            t0 == (word >> 0) & 0x3,
            t1 == (word >> 2) & 0x1f,
            t2 == (word >> 7) & 0x1f,
            t3 == (word >> 12) & 0x1,
            t4 == (word >> 13) & 0x7,
            again == t0 | (t1 << 2) | (t2 << 7) | (t3 << 12) | (t4 << 13),
    ;
}

/// The fields of a word of the CR format
/// read back as they were put in.
pub proof fn lemma_word_cr(op: u16, rs2: u16, rd: u16, flag: u16, funct3: u16)
    requires
        op < 4,
        rs2 < 32,
        rd < 32,
        flag < 2,
        funct3 < 8,
    ensures
        bits(word_cr(op, rs2, rd, flag, funct3) as int, 0, 2) == op,
        bits(word_cr(op, rs2, rd, flag, funct3) as int, 2, 5) == rs2,
        bits(word_cr(op, rs2, rd, flag, funct3) as int, 7, 5) == rd,
        bits(word_cr(op, rs2, rd, flag, funct3) as int, 12, 1) == flag,
        bits(word_cr(op, rs2, rd, flag, funct3) as int, 13, 3) == funct3,
{
    lemma_word_cr_bits(op, rs2, rd, flag, funct3, 0);
}

/// A word is put together again from the fields that it holds in
/// the CR format.
pub proof fn lemma_word_cr_of_fields(word: u16)
    ensures
        word_cr(
            bits(word as int, 0, 2) as u16,
            bits(word as int, 2, 5) as u16,
            bits(word as int, 7, 5) as u16,
            bits(word as int, 12, 1) as u16,
            bits(word as int, 13, 3) as u16,
        ) == word,
{
    lemma_word_cr_bits(0, 0, 0, 0, 0, word);
}

} // verus!
