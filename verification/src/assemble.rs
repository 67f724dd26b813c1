//! Instructions put together into words, the inverse of decoding: for
//! each instruction the word that encodes it, and the proofs that the decoder
//! gives the instruction back and that a word that decodes is the word that
//! encodes what it decodes to.

pub mod formats;

use vstd::prelude::*;
use crate::assemble::formats::{
    lemma_word_b, lemma_word_b_of_fields, lemma_word_ca, lemma_word_ca_of_fields, lemma_word_cb,
    lemma_word_cb_imm, lemma_word_cb_imm_of_fields, lemma_word_cb_of_fields,
    lemma_word_cb_shamt, lemma_word_cb_shamt_of_fields, lemma_word_ci_d,
    lemma_word_ci_d_of_fields, lemma_word_ci_imm, lemma_word_ci_imm_of_fields, lemma_word_ci_q,
    lemma_word_ci_q_of_fields, lemma_word_ci_shamt, lemma_word_ci_shamt_of_fields,
    lemma_word_ci_w, lemma_word_ci_w_of_fields, lemma_word_ciw, lemma_word_ciw_of_fields,
    lemma_word_cj, lemma_word_cj_of_fields, lemma_word_cl_d, lemma_word_cl_d_of_fields,
    lemma_word_cl_q, lemma_word_cl_q_of_fields, lemma_word_cl_w, lemma_word_cl_w_of_fields,
    lemma_word_cr, lemma_word_cr_of_fields, lemma_word_css_d, lemma_word_css_d_of_fields,
    lemma_word_css_q, lemma_word_css_q_of_fields, lemma_word_css_w, lemma_word_css_w_of_fields,
    lemma_word_i, lemma_word_i_of_fields, lemma_word_j, lemma_word_j_of_fields, lemma_word_u,
    lemma_word_u_of_fields, word_b, word_ca, word_cb, word_cb_imm, word_cb_shamt, word_ci_d,
    word_ci_imm, word_ci_q, word_ci_shamt, word_ci_w, word_ciw, word_cj, word_cl_d, word_cl_q,
    word_cl_w, word_cr, word_css_d, word_css_q, word_css_w, word_i, word_j, word_u,
};
use crate::decode::{
    decode, decode16, decode32, decode_c0, decode_c1, decode_c2, InstructionRaw,
};
use crate::error::SimError;
use crate::instructions::rv32i::{
    ADDI, ANDI, AUIPC, BEQ, BGE, BGEU, BLT, BLTU, BNE, JAL, JALR, LB, LUI, ORI, SLTI, SLTIU, XORI,
};
use crate::instructions::rvc::{
    C_ADD, C_ADDI, C_ADDI4SPN, C_ADDW, C_AND, C_ANDI, C_BEQZ, C_BNEZ, C_EBREAK, C_FLD, C_FLDSP,
    C_FLWSP, C_FSD, C_FSDSP, C_FSWSP, C_J, C_JAL, C_JALR, C_JR, C_LD, C_LDSP, C_LI, C_LQ, C_LQSP,
    C_LW, C_LWSP, C_MV, C_NOP, C_OR, C_SD, C_SDSP, C_SLLI, C_SLLI64, C_SQ, C_SQSP, C_SRAI,
    C_SRAI64, C_SRLI, C_SRLI64, C_SUB, C_SUBW, C_SW, C_SWSP, C_XOR,
};
use crate::instructions::DecodedInstruction;
use crate::processor::{FprName, XprName, XLEN};
use crate::utils::{bits, lemma_bits_u16};

verus! {

/// A register that a field of a word names has the number in the field.
proof fn lemma_register_fields(inst: int)
    ensures
        XprName::from_index(bits(inst, 7, 5)).index() == bits(inst, 7, 5),
        XprName::from_index(bits(inst, 2, 5)).index() == bits(inst, 2, 5),
        XprName::from_index(bits(inst, 15, 5)).index() == bits(inst, 15, 5),
        XprName::from_index(bits(inst, 20, 5)).index() == bits(inst, 20, 5),
        XprName::from_index(bits(inst, 2, 3) + 8).index() == bits(inst, 2, 3) + 8,
        XprName::from_index(bits(inst, 7, 3) + 8).index() == bits(inst, 7, 3) + 8,
        FprName::from_index(bits(inst, 7, 5)).index() == bits(inst, 7, 5),
        FprName::from_index(bits(inst, 2, 5)).index() == bits(inst, 2, 5),
        FprName::from_index(bits(inst, 2, 3) + 8).index() == bits(inst, 2, 3) + 8,
{
    XprName::lemma_from_index_round_trip(bits(inst, 7, 5));
    XprName::lemma_from_index_round_trip(bits(inst, 2, 5));
    XprName::lemma_from_index_round_trip(bits(inst, 15, 5));
    XprName::lemma_from_index_round_trip(bits(inst, 20, 5));
    XprName::lemma_from_index_round_trip(bits(inst, 2, 3) + 8);
    XprName::lemma_from_index_round_trip(bits(inst, 7, 3) + 8);
    FprName::lemma_from_index_round_trip(bits(inst, 7, 5));
    FprName::lemma_from_index_round_trip(bits(inst, 2, 5));
    FprName::lemma_from_index_round_trip(bits(inst, 2, 3) + 8);
}

impl LUI {
    /// Whether the operands can be encoded and the instruction exists in the
    /// width mode `xlen`.
    pub open spec fn canonical(self, xlen: XLEN) -> bool {
        &&& -0x8_0000 <= self.imm < 0x8_0000
    }

    /// The word that encodes the instruction.
    pub open spec fn encode(self) -> u32 {
        word_u(3, 0xd, self.rd.index() as u32, self.imm as int)
    }

    /// The encoded instruction decodes to the instruction.
    pub proof fn lemma_decode_encode(self, xlen: XLEN)
        requires
            self.canonical(xlen),
        ensures
            decode32(self.encode(), xlen) == Ok::<DecodedInstruction, SimError>(
                DecodedInstruction::LUI(self),
            ),
    {
        lemma_word_u(3, 0xd, self.rd.index() as u32, self.imm as int);
        self.rd.lemma_index_round_trip();
    }

    /// The word that decodes to the instruction is the word that encodes it.
    pub proof fn lemma_encode_decode(self, word: u32, xlen: XLEN)
        requires
            decode32(word, xlen) == Ok::<DecodedInstruction, SimError>(
                DecodedInstruction::LUI(self),
            ),
        ensures
            self.encode() == word,
    {
        lemma_word_u_of_fields(word);
        lemma_register_fields(word as int);
    }
}

impl AUIPC {
    /// Whether the operands can be encoded and the instruction exists in the
    /// width mode `xlen`.
    pub open spec fn canonical(self, xlen: XLEN) -> bool {
        &&& -0x8_0000 <= self.imm < 0x8_0000
    }

    /// The word that encodes the instruction.
    pub open spec fn encode(self) -> u32 {
        word_u(3, 5, self.rd.index() as u32, self.imm as int)
    }

    /// The encoded instruction decodes to the instruction.
    pub proof fn lemma_decode_encode(self, xlen: XLEN)
        requires
            self.canonical(xlen),
        ensures
            decode32(self.encode(), xlen) == Ok::<DecodedInstruction, SimError>(
                DecodedInstruction::AUIPC(self),
            ),
    {
        lemma_word_u(3, 5, self.rd.index() as u32, self.imm as int);
        self.rd.lemma_index_round_trip();
    }

    /// The word that decodes to the instruction is the word that encodes it.
    pub proof fn lemma_encode_decode(self, word: u32, xlen: XLEN)
        requires
            decode32(word, xlen) == Ok::<DecodedInstruction, SimError>(
                DecodedInstruction::AUIPC(self),
            ),
        ensures
            self.encode() == word,
    {
        lemma_word_u_of_fields(word);
        lemma_register_fields(word as int);
    }
}

impl JAL {
    /// Whether the operands can be encoded and the instruction exists in the
    /// width mode `xlen`.
    pub open spec fn canonical(self, xlen: XLEN) -> bool {
        &&& -0x10_0000 <= self.imm < 0x10_0000
        &&& self.imm % 2 == 0
    }

    /// The word that encodes the instruction.
    pub open spec fn encode(self) -> u32 {
        word_j(3, 0x1b, self.rd.index() as u32, self.imm as int)
    }

    /// The encoded instruction decodes to the instruction.
    pub proof fn lemma_decode_encode(self, xlen: XLEN)
        requires
            self.canonical(xlen),
        ensures
            decode32(self.encode(), xlen) == Ok::<DecodedInstruction, SimError>(
                DecodedInstruction::JAL(self),
            ),
    {
        lemma_word_j(3, 0x1b, self.rd.index() as u32, self.imm as int);
        self.rd.lemma_index_round_trip();
    }

    /// The word that decodes to the instruction is the word that encodes it.
    pub proof fn lemma_encode_decode(self, word: u32, xlen: XLEN)
        requires
            decode32(word, xlen) == Ok::<DecodedInstruction, SimError>(
                DecodedInstruction::JAL(self),
            ),
        ensures
            self.encode() == word,
    {
        lemma_word_j_of_fields(word);
        lemma_register_fields(word as int);
    }
}

impl JALR {
    /// Whether the operands can be encoded and the instruction exists in the
    /// width mode `xlen`.
    pub open spec fn canonical(self, xlen: XLEN) -> bool {
        &&& -2048 <= self.imm < 2048
    }

    /// The word that encodes the instruction.
    pub open spec fn encode(self) -> u32 {
        word_i(3, 0x19, self.rd.index() as u32, 0, self.rs1.index() as u32, self.imm as int)
    }

    /// The encoded instruction decodes to the instruction.
    pub proof fn lemma_decode_encode(self, xlen: XLEN)
        requires
            self.canonical(xlen),
        ensures
            decode32(self.encode(), xlen) == Ok::<DecodedInstruction, SimError>(
                DecodedInstruction::JALR(self),
            ),
    {
        lemma_word_i(
            3,
            0x19,
            self.rd.index() as u32,
            0,
            self.rs1.index() as u32,
            self.imm as int,
        );
        self.rd.lemma_index_round_trip();
        self.rs1.lemma_index_round_trip();
    }

    /// The word that decodes to the instruction is the word that encodes it.
    pub proof fn lemma_encode_decode(self, word: u32, xlen: XLEN)
        requires
            decode32(word, xlen) == Ok::<DecodedInstruction, SimError>(
                DecodedInstruction::JALR(self),
            ),
        ensures
            self.encode() == word,
    {
        lemma_word_i_of_fields(word);
        lemma_register_fields(word as int);
    }
}

impl BEQ {
    /// Whether the operands can be encoded and the instruction exists in the
    /// width mode `xlen`.
    pub open spec fn canonical(self, xlen: XLEN) -> bool {
        &&& -4096 <= self.offset < 4096
        &&& self.offset % 2 == 0
    }

    /// The word that encodes the instruction.
    pub open spec fn encode(self) -> u32 {
        word_b(3, 0x18, 0, self.rs1.index() as u32, self.rs2.index() as u32, self.offset as int)
    }

    /// The encoded instruction decodes to the instruction.
    pub proof fn lemma_decode_encode(self, xlen: XLEN)
        requires
            self.canonical(xlen),
        ensures
            decode32(self.encode(), xlen) == Ok::<DecodedInstruction, SimError>(
                DecodedInstruction::BEQ(self),
            ),
    {
        lemma_word_b(
            3,
            0x18,
            0,
            self.rs1.index() as u32,
            self.rs2.index() as u32,
            self.offset as int,
        );
        self.rs1.lemma_index_round_trip();
        self.rs2.lemma_index_round_trip();
    }

    /// The word that decodes to the instruction is the word that encodes it.
    pub proof fn lemma_encode_decode(self, word: u32, xlen: XLEN)
        requires
            decode32(word, xlen) == Ok::<DecodedInstruction, SimError>(
                DecodedInstruction::BEQ(self),
            ),
        ensures
            self.encode() == word,
    {
        lemma_word_b_of_fields(word);
        lemma_register_fields(word as int);
    }
}

impl BNE {
    /// Whether the operands can be encoded and the instruction exists in the
    /// width mode `xlen`.
    pub open spec fn canonical(self, xlen: XLEN) -> bool {
        &&& -4096 <= self.offset < 4096
        &&& self.offset % 2 == 0
    }

    /// The word that encodes the instruction.
    pub open spec fn encode(self) -> u32 {
        word_b(3, 0x18, 1, self.rs1.index() as u32, self.rs2.index() as u32, self.offset as int)
    }

    /// The encoded instruction decodes to the instruction.
    pub proof fn lemma_decode_encode(self, xlen: XLEN)
        requires
            self.canonical(xlen),
        ensures
            decode32(self.encode(), xlen) == Ok::<DecodedInstruction, SimError>(
                DecodedInstruction::BNE(self),
            ),
    {
        lemma_word_b(
            3,
            0x18,
            1,
            self.rs1.index() as u32,
            self.rs2.index() as u32,
            self.offset as int,
        );
        self.rs1.lemma_index_round_trip();
        self.rs2.lemma_index_round_trip();
    }

    /// The word that decodes to the instruction is the word that encodes it.
    pub proof fn lemma_encode_decode(self, word: u32, xlen: XLEN)
        requires
            decode32(word, xlen) == Ok::<DecodedInstruction, SimError>(
                DecodedInstruction::BNE(self),
            ),
        ensures
            self.encode() == word,
    {
        lemma_word_b_of_fields(word);
        lemma_register_fields(word as int);
    }
}

impl BLT {
    /// Whether the operands can be encoded and the instruction exists in the
    /// width mode `xlen`.
    pub open spec fn canonical(self, xlen: XLEN) -> bool {
        &&& -4096 <= self.offset < 4096
        &&& self.offset % 2 == 0
    }

    /// The word that encodes the instruction.
    pub open spec fn encode(self) -> u32 {
        word_b(3, 0x18, 4, self.rs1.index() as u32, self.rs2.index() as u32, self.offset as int)
    }

    /// The encoded instruction decodes to the instruction.
    pub proof fn lemma_decode_encode(self, xlen: XLEN)
        requires
            self.canonical(xlen),
        ensures
            decode32(self.encode(), xlen) == Ok::<DecodedInstruction, SimError>(
                DecodedInstruction::BLT(self),
            ),
    {
        lemma_word_b(
            3,
            0x18,
            4,
            self.rs1.index() as u32,
            self.rs2.index() as u32,
            self.offset as int,
        );
        self.rs1.lemma_index_round_trip();
        self.rs2.lemma_index_round_trip();
    }

    /// The word that decodes to the instruction is the word that encodes it.
    pub proof fn lemma_encode_decode(self, word: u32, xlen: XLEN)
        requires
            decode32(word, xlen) == Ok::<DecodedInstruction, SimError>(
                DecodedInstruction::BLT(self),
            ),
        ensures
            self.encode() == word,
    {
        lemma_word_b_of_fields(word);
        lemma_register_fields(word as int);
    }
}

impl BGE {
    /// Whether the operands can be encoded and the instruction exists in the
    /// width mode `xlen`.
    pub open spec fn canonical(self, xlen: XLEN) -> bool {
        &&& -4096 <= self.offset < 4096
        &&& self.offset % 2 == 0
    }

    /// The word that encodes the instruction.
    pub open spec fn encode(self) -> u32 {
        word_b(3, 0x18, 5, self.rs1.index() as u32, self.rs2.index() as u32, self.offset as int)
    }

    /// The encoded instruction decodes to the instruction.
    pub proof fn lemma_decode_encode(self, xlen: XLEN)
        requires
            self.canonical(xlen),
        ensures
            decode32(self.encode(), xlen) == Ok::<DecodedInstruction, SimError>(
                DecodedInstruction::BGE(self),
            ),
    {
        lemma_word_b(
            3,
            0x18,
            5,
            self.rs1.index() as u32,
            self.rs2.index() as u32,
            self.offset as int,
        );
        self.rs1.lemma_index_round_trip();
        self.rs2.lemma_index_round_trip();
    }

    /// The word that decodes to the instruction is the word that encodes it.
    pub proof fn lemma_encode_decode(self, word: u32, xlen: XLEN)
        requires
            decode32(word, xlen) == Ok::<DecodedInstruction, SimError>(
                DecodedInstruction::BGE(self),
            ),
        ensures
            self.encode() == word,
    {
        lemma_word_b_of_fields(word);
        lemma_register_fields(word as int);
    }
}

impl BLTU {
    /// Whether the operands can be encoded and the instruction exists in the
    /// width mode `xlen`.
    pub open spec fn canonical(self, xlen: XLEN) -> bool {
        &&& -4096 <= self.offset < 4096
        &&& self.offset % 2 == 0
    }

    /// The word that encodes the instruction.
    pub open spec fn encode(self) -> u32 {
        word_b(3, 0x18, 6, self.rs1.index() as u32, self.rs2.index() as u32, self.offset as int)
    }

    /// The encoded instruction decodes to the instruction.
    pub proof fn lemma_decode_encode(self, xlen: XLEN)
        requires
            self.canonical(xlen),
        ensures
            decode32(self.encode(), xlen) == Ok::<DecodedInstruction, SimError>(
                DecodedInstruction::BLTU(self),
            ),
    {
        lemma_word_b(
            3,
            0x18,
            6,
            self.rs1.index() as u32,
            self.rs2.index() as u32,
            self.offset as int,
        );
        self.rs1.lemma_index_round_trip();
        self.rs2.lemma_index_round_trip();
    }

    /// The word that decodes to the instruction is the word that encodes it.
    pub proof fn lemma_encode_decode(self, word: u32, xlen: XLEN)
        requires
            decode32(word, xlen) == Ok::<DecodedInstruction, SimError>(
                DecodedInstruction::BLTU(self),
            ),
        ensures
            self.encode() == word,
    {
        lemma_word_b_of_fields(word);
        lemma_register_fields(word as int);
    }
}

impl BGEU {
    /// Whether the operands can be encoded and the instruction exists in the
    /// width mode `xlen`.
    pub open spec fn canonical(self, xlen: XLEN) -> bool {
        &&& -4096 <= self.offset < 4096
        &&& self.offset % 2 == 0
    }

    /// The word that encodes the instruction.
    pub open spec fn encode(self) -> u32 {
        word_b(3, 0x18, 7, self.rs1.index() as u32, self.rs2.index() as u32, self.offset as int)
    }

    /// The encoded instruction decodes to the instruction.
    pub proof fn lemma_decode_encode(self, xlen: XLEN)
        requires
            self.canonical(xlen),
        ensures
            decode32(self.encode(), xlen) == Ok::<DecodedInstruction, SimError>(
                DecodedInstruction::BGEU(self),
            ),
    {
        lemma_word_b(
            3,
            0x18,
            7,
            self.rs1.index() as u32,
            self.rs2.index() as u32,
            self.offset as int,
        );
        self.rs1.lemma_index_round_trip();
        self.rs2.lemma_index_round_trip();
    }

    /// The word that decodes to the instruction is the word that encodes it.
    pub proof fn lemma_encode_decode(self, word: u32, xlen: XLEN)
        requires
            decode32(word, xlen) == Ok::<DecodedInstruction, SimError>(
                DecodedInstruction::BGEU(self),
            ),
        ensures
            self.encode() == word,
    {
        lemma_word_b_of_fields(word);
        lemma_register_fields(word as int);
    }
}

impl LB {
    /// Whether the operands can be encoded and the instruction exists in the
    /// width mode `xlen`.
    pub open spec fn canonical(self, xlen: XLEN) -> bool {
        &&& -2048 <= self.imm < 2048
    }

    /// The word that encodes the instruction.
    pub open spec fn encode(self) -> u32 {
        word_i(3, 0, self.rd.index() as u32, 0, self.rs1.index() as u32, self.imm as int)
    }

    /// The encoded instruction decodes to the instruction.
    pub proof fn lemma_decode_encode(self, xlen: XLEN)
        requires
            self.canonical(xlen),
        ensures
            decode32(self.encode(), xlen) == Ok::<DecodedInstruction, SimError>(
                DecodedInstruction::LB(self),
            ),
    {
        lemma_word_i(3, 0, self.rd.index() as u32, 0, self.rs1.index() as u32, self.imm as int);
        self.rd.lemma_index_round_trip();
        self.rs1.lemma_index_round_trip();
    }

    /// The word that decodes to the instruction is the word that encodes it.
    pub proof fn lemma_encode_decode(self, word: u32, xlen: XLEN)
        requires
            decode32(word, xlen) == Ok::<DecodedInstruction, SimError>(
                DecodedInstruction::LB(self),
            ),
        ensures
            self.encode() == word,
    {
        lemma_word_i_of_fields(word);
        lemma_register_fields(word as int);
    }
}

impl ADDI {
    /// Whether the operands can be encoded and the instruction exists in the
    /// width mode `xlen`.
    pub open spec fn canonical(self, xlen: XLEN) -> bool {
        &&& -2048 <= self.imm < 2048
    }

    /// The word that encodes the instruction.
    pub open spec fn encode(self) -> u32 {
        word_i(3, 4, self.rd.index() as u32, 0, self.rs1.index() as u32, self.imm as int)
    }

    /// The encoded instruction decodes to the instruction.
    pub proof fn lemma_decode_encode(self, xlen: XLEN)
        requires
            self.canonical(xlen),
        ensures
            decode32(self.encode(), xlen) == Ok::<DecodedInstruction, SimError>(
                DecodedInstruction::ADDI(self),
            ),
    {
        lemma_word_i(3, 4, self.rd.index() as u32, 0, self.rs1.index() as u32, self.imm as int);
        self.rd.lemma_index_round_trip();
        self.rs1.lemma_index_round_trip();
    }

    /// The word that decodes to the instruction is the word that encodes it.
    pub proof fn lemma_encode_decode(self, word: u32, xlen: XLEN)
        requires
            decode32(word, xlen) == Ok::<DecodedInstruction, SimError>(
                DecodedInstruction::ADDI(self),
            ),
        ensures
            self.encode() == word,
    {
        lemma_word_i_of_fields(word);
        lemma_register_fields(word as int);
    }
}

impl SLTI {
    /// Whether the operands can be encoded and the instruction exists in the
    /// width mode `xlen`.
    pub open spec fn canonical(self, xlen: XLEN) -> bool {
        &&& -2048 <= self.imm < 2048
    }

    /// The word that encodes the instruction.
    pub open spec fn encode(self) -> u32 {
        word_i(3, 4, self.rd.index() as u32, 2, self.rs1.index() as u32, self.imm as int)
    }

    /// The encoded instruction decodes to the instruction.
    pub proof fn lemma_decode_encode(self, xlen: XLEN)
        requires
            self.canonical(xlen),
        ensures
            decode32(self.encode(), xlen) == Ok::<DecodedInstruction, SimError>(
                DecodedInstruction::SLTI(self),
            ),
    {
        lemma_word_i(3, 4, self.rd.index() as u32, 2, self.rs1.index() as u32, self.imm as int);
        self.rd.lemma_index_round_trip();
        self.rs1.lemma_index_round_trip();
    }

    /// The word that decodes to the instruction is the word that encodes it.
    pub proof fn lemma_encode_decode(self, word: u32, xlen: XLEN)
        requires
            decode32(word, xlen) == Ok::<DecodedInstruction, SimError>(
                DecodedInstruction::SLTI(self),
            ),
        ensures
            self.encode() == word,
    {
        lemma_word_i_of_fields(word);
        lemma_register_fields(word as int);
    }
}

impl SLTIU {
    /// Whether the operands can be encoded and the instruction exists in the
    /// width mode `xlen`.
    pub open spec fn canonical(self, xlen: XLEN) -> bool {
        &&& -2048 <= self.imm < 2048
    }

    /// The word that encodes the instruction.
    pub open spec fn encode(self) -> u32 {
        word_i(3, 4, self.rd.index() as u32, 3, self.rs1.index() as u32, self.imm as int)
    }

    /// The encoded instruction decodes to the instruction.
    pub proof fn lemma_decode_encode(self, xlen: XLEN)
        requires
            self.canonical(xlen),
        ensures
            decode32(self.encode(), xlen) == Ok::<DecodedInstruction, SimError>(
                DecodedInstruction::SLTIU(self),
            ),
    {
        lemma_word_i(3, 4, self.rd.index() as u32, 3, self.rs1.index() as u32, self.imm as int);
        self.rd.lemma_index_round_trip();
        self.rs1.lemma_index_round_trip();
    }

    /// The word that decodes to the instruction is the word that encodes it.
    pub proof fn lemma_encode_decode(self, word: u32, xlen: XLEN)
        requires
            decode32(word, xlen) == Ok::<DecodedInstruction, SimError>(
                DecodedInstruction::SLTIU(self),
            ),
        ensures
            self.encode() == word,
    {
        lemma_word_i_of_fields(word);
        lemma_register_fields(word as int);
    }
}

impl XORI {
    /// Whether the operands can be encoded and the instruction exists in the
    /// width mode `xlen`.
    pub open spec fn canonical(self, xlen: XLEN) -> bool {
        &&& -2048 <= self.imm < 2048
    }

    /// The word that encodes the instruction.
    pub open spec fn encode(self) -> u32 {
        word_i(3, 4, self.rd.index() as u32, 4, self.rs1.index() as u32, self.imm as int)
    }

    /// The encoded instruction decodes to the instruction.
    pub proof fn lemma_decode_encode(self, xlen: XLEN)
        requires
            self.canonical(xlen),
        ensures
            decode32(self.encode(), xlen) == Ok::<DecodedInstruction, SimError>(
                DecodedInstruction::XORI(self),
            ),
    {
        lemma_word_i(3, 4, self.rd.index() as u32, 4, self.rs1.index() as u32, self.imm as int);
        self.rd.lemma_index_round_trip();
        self.rs1.lemma_index_round_trip();
    }

    /// The word that decodes to the instruction is the word that encodes it.
    pub proof fn lemma_encode_decode(self, word: u32, xlen: XLEN)
        requires
            decode32(word, xlen) == Ok::<DecodedInstruction, SimError>(
                DecodedInstruction::XORI(self),
            ),
        ensures
            self.encode() == word,
    {
        lemma_word_i_of_fields(word);
        lemma_register_fields(word as int);
    }
}

impl ORI {
    /// Whether the operands can be encoded and the instruction exists in the
    /// width mode `xlen`.
    pub open spec fn canonical(self, xlen: XLEN) -> bool {
        &&& -2048 <= self.imm < 2048
    }

    /// The word that encodes the instruction.
    pub open spec fn encode(self) -> u32 {
        word_i(3, 4, self.rd.index() as u32, 6, self.rs1.index() as u32, self.imm as int)
    }

    /// The encoded instruction decodes to the instruction.
    pub proof fn lemma_decode_encode(self, xlen: XLEN)
        requires
            self.canonical(xlen),
        ensures
            decode32(self.encode(), xlen) == Ok::<DecodedInstruction, SimError>(
                DecodedInstruction::ORI(self),
            ),
    {
        lemma_word_i(3, 4, self.rd.index() as u32, 6, self.rs1.index() as u32, self.imm as int);
        self.rd.lemma_index_round_trip();
        self.rs1.lemma_index_round_trip();
    }

    /// The word that decodes to the instruction is the word that encodes it.
    pub proof fn lemma_encode_decode(self, word: u32, xlen: XLEN)
        requires
            decode32(word, xlen) == Ok::<DecodedInstruction, SimError>(
                DecodedInstruction::ORI(self),
            ),
        ensures
            self.encode() == word,
    {
        lemma_word_i_of_fields(word);
        lemma_register_fields(word as int);
    }
}

impl ANDI {
    /// Whether the operands can be encoded and the instruction exists in the
    /// width mode `xlen`.
    pub open spec fn canonical(self, xlen: XLEN) -> bool {
        &&& -2048 <= self.imm < 2048
    }

    /// The word that encodes the instruction.
    pub open spec fn encode(self) -> u32 {
        word_i(3, 4, self.rd.index() as u32, 7, self.rs1.index() as u32, self.imm as int)
    }

    /// The encoded instruction decodes to the instruction.
    pub proof fn lemma_decode_encode(self, xlen: XLEN)
        requires
            self.canonical(xlen),
        ensures
            decode32(self.encode(), xlen) == Ok::<DecodedInstruction, SimError>(
                DecodedInstruction::ANDI(self),
            ),
    {
        lemma_word_i(3, 4, self.rd.index() as u32, 7, self.rs1.index() as u32, self.imm as int);
        self.rd.lemma_index_round_trip();
        self.rs1.lemma_index_round_trip();
    }

    /// The word that decodes to the instruction is the word that encodes it.
    pub proof fn lemma_encode_decode(self, word: u32, xlen: XLEN)
        requires
            decode32(word, xlen) == Ok::<DecodedInstruction, SimError>(
                DecodedInstruction::ANDI(self),
            ),
        ensures
            self.encode() == word,
    {
        lemma_word_i_of_fields(word);
        lemma_register_fields(word as int);
    }
}

impl C_ADDI4SPN {
    /// Whether the operands can be encoded and the instruction exists in the
    /// width mode `xlen`.
    pub open spec fn canonical(self, xlen: XLEN) -> bool {
        &&& 8 <= self.rd.index() < 16
        &&& self.imm < 1024
        &&& self.imm % 4 == 0
        &&& self.imm != 0
    }

    /// The word that encodes the instruction.
    pub open spec fn encode(self) -> u16 {
        word_ciw(0, (self.rd.index() - 8) as u16, 0, self.imm as int)
    }

    /// The encoded instruction decodes to the instruction.
    pub proof fn lemma_decode_encode(self, xlen: XLEN)
        requires
            self.canonical(xlen),
        ensures
            decode16(self.encode(), xlen) == Ok::<DecodedInstruction, SimError>(
                DecodedInstruction::C_ADDI4SPN(self),
            ),
    {
        lemma_word_ciw(0, (self.rd.index() - 8) as u16, 0, self.imm as int);
        self.rd.lemma_index_round_trip();
    }

    /// The word that decodes to the instruction is the word that encodes it.
    pub proof fn lemma_encode_decode(self, word: u16, xlen: XLEN)
        requires
            decode16(word, xlen) == Ok::<DecodedInstruction, SimError>(
                DecodedInstruction::C_ADDI4SPN(self),
            ),
        ensures
            self.encode() == word,
    {
        lemma_word_ciw_of_fields(word);
        lemma_register_fields(word as int);
    }
}

impl C_FLD {
    /// Whether the operands can be encoded and the instruction exists in the
    /// width mode `xlen`.
    pub open spec fn canonical(self, xlen: XLEN) -> bool {
        &&& 8 <= self.rd.index() < 16
        &&& 8 <= self.rs1.index() < 16
        &&& self.offset < 256
        &&& self.offset % 8 == 0
        &&& xlen != XLEN::RV128
    }

    /// The word that encodes the instruction.
    pub open spec fn encode(self) -> u16 {
        word_cl_d(
            0,
            (self.rd.index() - 8) as u16,
            (self.rs1.index() - 8) as u16,
            1,
            self.offset as int,
        )
    }

    /// The encoded instruction decodes to the instruction.
    pub proof fn lemma_decode_encode(self, xlen: XLEN)
        requires
            self.canonical(xlen),
        ensures
            decode16(self.encode(), xlen) == Ok::<DecodedInstruction, SimError>(
                DecodedInstruction::C_FLD(self),
            ),
    {
        lemma_word_cl_d(
            0,
            (self.rd.index() - 8) as u16,
            (self.rs1.index() - 8) as u16,
            1,
            self.offset as int,
        );
        self.rd.lemma_index_round_trip();
        self.rs1.lemma_index_round_trip();
    }

    /// The word that decodes to the instruction is the word that encodes it.
    pub proof fn lemma_encode_decode(self, word: u16, xlen: XLEN)
        requires
            decode16(word, xlen) == Ok::<DecodedInstruction, SimError>(
                DecodedInstruction::C_FLD(self),
            ),
        ensures
            self.encode() == word,
    {
        lemma_word_cl_d_of_fields(word);
        lemma_register_fields(word as int);
    }
}

impl C_LQ {
    /// Whether the operands can be encoded and the instruction exists in the
    /// width mode `xlen`.
    pub open spec fn canonical(self, xlen: XLEN) -> bool {
        &&& 8 <= self.rd.index() < 16
        &&& 8 <= self.rs1.index() < 16
        &&& self.offset < 512
        &&& self.offset % 16 == 0
        &&& xlen == XLEN::RV128
    }

    /// The word that encodes the instruction.
    pub open spec fn encode(self) -> u16 {
        word_cl_q(
            0,
            (self.rd.index() - 8) as u16,
            (self.rs1.index() - 8) as u16,
            1,
            self.offset as int,
        )
    }

    /// The encoded instruction decodes to the instruction.
    pub proof fn lemma_decode_encode(self, xlen: XLEN)
        requires
            self.canonical(xlen),
        ensures
            decode16(self.encode(), xlen) == Ok::<DecodedInstruction, SimError>(
                DecodedInstruction::C_LQ(self),
            ),
    {
        lemma_word_cl_q(
            0,
            (self.rd.index() - 8) as u16,
            (self.rs1.index() - 8) as u16,
            1,
            self.offset as int,
        );
        self.rd.lemma_index_round_trip();
        self.rs1.lemma_index_round_trip();
    }

    /// The word that decodes to the instruction is the word that encodes it.
    pub proof fn lemma_encode_decode(self, word: u16, xlen: XLEN)
        requires
            decode16(word, xlen) == Ok::<DecodedInstruction, SimError>(
                DecodedInstruction::C_LQ(self),
            ),
        ensures
            self.encode() == word,
    {
        lemma_word_cl_q_of_fields(word);
        lemma_register_fields(word as int);
    }
}

impl C_LW {
    /// Whether the operands can be encoded and the instruction exists in the
    /// width mode `xlen`.
    pub open spec fn canonical(self, xlen: XLEN) -> bool {
        &&& 8 <= self.rd.index() < 16
        &&& 8 <= self.rs1.index() < 16
        &&& self.offset < 128
        &&& self.offset % 4 == 0
    }

    /// The word that encodes the instruction.
    pub open spec fn encode(self) -> u16 {
        word_cl_w(
            0,
            (self.rd.index() - 8) as u16,
            (self.rs1.index() - 8) as u16,
            2,
            self.offset as int,
        )
    }

    /// The encoded instruction decodes to the instruction.
    pub proof fn lemma_decode_encode(self, xlen: XLEN)
        requires
            self.canonical(xlen),
        ensures
            decode16(self.encode(), xlen) == Ok::<DecodedInstruction, SimError>(
                DecodedInstruction::C_LW(self),
            ),
    {
        lemma_word_cl_w(
            0,
            (self.rd.index() - 8) as u16,
            (self.rs1.index() - 8) as u16,
            2,
            self.offset as int,
        );
        self.rd.lemma_index_round_trip();
        self.rs1.lemma_index_round_trip();
    }

    /// The word that decodes to the instruction is the word that encodes it.
    pub proof fn lemma_encode_decode(self, word: u16, xlen: XLEN)
        requires
            decode16(word, xlen) == Ok::<DecodedInstruction, SimError>(
                DecodedInstruction::C_LW(self),
            ),
        ensures
            self.encode() == word,
    {
        lemma_word_cl_w_of_fields(word);
        lemma_register_fields(word as int);
    }
}

impl C_LD {
    /// Whether the operands can be encoded and the instruction exists in the
    /// width mode `xlen`.
    pub open spec fn canonical(self, xlen: XLEN) -> bool {
        &&& 8 <= self.rd.index() < 16
        &&& 8 <= self.rs1.index() < 16
        &&& self.offset < 256
        &&& self.offset % 8 == 0
        &&& xlen != XLEN::RV32
    }

    /// The word that encodes the instruction.
    pub open spec fn encode(self) -> u16 {
        word_cl_d(
            0,
            (self.rd.index() - 8) as u16,
            (self.rs1.index() - 8) as u16,
            3,
            self.offset as int,
        )
    }

    /// The encoded instruction decodes to the instruction.
    pub proof fn lemma_decode_encode(self, xlen: XLEN)
        requires
            self.canonical(xlen),
        ensures
            decode16(self.encode(), xlen) == Ok::<DecodedInstruction, SimError>(
                DecodedInstruction::C_LD(self),
            ),
    {
        lemma_word_cl_d(
            0,
            (self.rd.index() - 8) as u16,
            (self.rs1.index() - 8) as u16,
            3,
            self.offset as int,
        );
        self.rd.lemma_index_round_trip();
        self.rs1.lemma_index_round_trip();
    }

    /// The word that decodes to the instruction is the word that encodes it.
    pub proof fn lemma_encode_decode(self, word: u16, xlen: XLEN)
        requires
            decode16(word, xlen) == Ok::<DecodedInstruction, SimError>(
                DecodedInstruction::C_LD(self),
            ),
        ensures
            self.encode() == word,
    {
        lemma_word_cl_d_of_fields(word);
        lemma_register_fields(word as int);
    }
}

impl C_FSD {
    /// Whether the operands can be encoded and the instruction exists in the
    /// width mode `xlen`.
    pub open spec fn canonical(self, xlen: XLEN) -> bool {
        &&& 8 <= self.rs2.index() < 16
        &&& 8 <= self.rs1.index() < 16
        &&& self.offset < 256
        &&& self.offset % 8 == 0
        &&& xlen != XLEN::RV128
    }

    /// The word that encodes the instruction.
    pub open spec fn encode(self) -> u16 {
        word_cl_d(
            0,
            (self.rs2.index() - 8) as u16,
            (self.rs1.index() - 8) as u16,
            5,
            self.offset as int,
        )
    }

    /// The encoded instruction decodes to the instruction.
    pub proof fn lemma_decode_encode(self, xlen: XLEN)
        requires
            self.canonical(xlen),
        ensures
            decode16(self.encode(), xlen) == Ok::<DecodedInstruction, SimError>(
                DecodedInstruction::C_FSD(self),
            ),
    {
        lemma_word_cl_d(
            0,
            (self.rs2.index() - 8) as u16,
            (self.rs1.index() - 8) as u16,
            5,
            self.offset as int,
        );
        self.rs2.lemma_index_round_trip();
        self.rs1.lemma_index_round_trip();
    }

    /// The word that decodes to the instruction is the word that encodes it.
    pub proof fn lemma_encode_decode(self, word: u16, xlen: XLEN)
        requires
            decode16(word, xlen) == Ok::<DecodedInstruction, SimError>(
                DecodedInstruction::C_FSD(self),
            ),
        ensures
            self.encode() == word,
    {
        lemma_word_cl_d_of_fields(word);
        lemma_register_fields(word as int);
    }
}

impl C_SQ {
    /// Whether the operands can be encoded and the instruction exists in the
    /// width mode `xlen`.
    pub open spec fn canonical(self, xlen: XLEN) -> bool {
        &&& 8 <= self.rs2.index() < 16
        &&& 8 <= self.rs1.index() < 16
        &&& self.offset < 512
        &&& self.offset % 16 == 0
        &&& xlen == XLEN::RV128
    }

    /// The word that encodes the instruction.
    pub open spec fn encode(self) -> u16 {
        word_cl_q(
            0,
            (self.rs2.index() - 8) as u16,
            (self.rs1.index() - 8) as u16,
            5,
            self.offset as int,
        )
    }

    /// The encoded instruction decodes to the instruction.
    pub proof fn lemma_decode_encode(self, xlen: XLEN)
        requires
            self.canonical(xlen),
        ensures
            decode16(self.encode(), xlen) == Ok::<DecodedInstruction, SimError>(
                DecodedInstruction::C_SQ(self),
            ),
    {
        lemma_word_cl_q(
            0,
            (self.rs2.index() - 8) as u16,
            (self.rs1.index() - 8) as u16,
            5,
            self.offset as int,
        );
        self.rs2.lemma_index_round_trip();
        self.rs1.lemma_index_round_trip();
    }

    /// The word that decodes to the instruction is the word that encodes it.
    pub proof fn lemma_encode_decode(self, word: u16, xlen: XLEN)
        requires
            decode16(word, xlen) == Ok::<DecodedInstruction, SimError>(
                DecodedInstruction::C_SQ(self),
            ),
        ensures
            self.encode() == word,
    {
        lemma_word_cl_q_of_fields(word);
        lemma_register_fields(word as int);
    }
}

impl C_SW {
    /// Whether the operands can be encoded and the instruction exists in the
    /// width mode `xlen`.
    pub open spec fn canonical(self, xlen: XLEN) -> bool {
        &&& 8 <= self.rs2.index() < 16
        &&& 8 <= self.rs1.index() < 16
        &&& self.offset < 128
        &&& self.offset % 4 == 0
    }

    /// The word that encodes the instruction.
    pub open spec fn encode(self) -> u16 {
        word_cl_w(
            0,
            (self.rs2.index() - 8) as u16,
            (self.rs1.index() - 8) as u16,
            6,
            self.offset as int,
        )
    }

    /// The encoded instruction decodes to the instruction.
    pub proof fn lemma_decode_encode(self, xlen: XLEN)
        requires
            self.canonical(xlen),
        ensures
            decode16(self.encode(), xlen) == Ok::<DecodedInstruction, SimError>(
                DecodedInstruction::C_SW(self),
            ),
    {
        lemma_word_cl_w(
            0,
            (self.rs2.index() - 8) as u16,
            (self.rs1.index() - 8) as u16,
            6,
            self.offset as int,
        );
        self.rs2.lemma_index_round_trip();
        self.rs1.lemma_index_round_trip();
    }

    /// The word that decodes to the instruction is the word that encodes it.
    pub proof fn lemma_encode_decode(self, word: u16, xlen: XLEN)
        requires
            decode16(word, xlen) == Ok::<DecodedInstruction, SimError>(
                DecodedInstruction::C_SW(self),
            ),
        ensures
            self.encode() == word,
    {
        lemma_word_cl_w_of_fields(word);
        lemma_register_fields(word as int);
    }
}

impl C_SD {
    /// Whether the operands can be encoded and the instruction exists in the
    /// width mode `xlen`.
    pub open spec fn canonical(self, xlen: XLEN) -> bool {
        &&& 8 <= self.rs2.index() < 16
        &&& 8 <= self.rs1.index() < 16
        &&& self.offset < 256
        &&& self.offset % 8 == 0
        &&& xlen != XLEN::RV32
    }

    /// The word that encodes the instruction.
    pub open spec fn encode(self) -> u16 {
        word_cl_d(
            0,
            (self.rs2.index() - 8) as u16,
            (self.rs1.index() - 8) as u16,
            7,
            self.offset as int,
        )
    }

    /// The encoded instruction decodes to the instruction.
    pub proof fn lemma_decode_encode(self, xlen: XLEN)
        requires
            self.canonical(xlen),
        ensures
            decode16(self.encode(), xlen) == Ok::<DecodedInstruction, SimError>(
                DecodedInstruction::C_SD(self),
            ),
    {
        lemma_word_cl_d(
            0,
            (self.rs2.index() - 8) as u16,
            (self.rs1.index() - 8) as u16,
            7,
            self.offset as int,
        );
        self.rs2.lemma_index_round_trip();
        self.rs1.lemma_index_round_trip();
    }

    /// The word that decodes to the instruction is the word that encodes it.
    pub proof fn lemma_encode_decode(self, word: u16, xlen: XLEN)
        requires
            decode16(word, xlen) == Ok::<DecodedInstruction, SimError>(
                DecodedInstruction::C_SD(self),
            ),
        ensures
            self.encode() == word,
    {
        lemma_word_cl_d_of_fields(word);
        lemma_register_fields(word as int);
    }
}

impl C_NOP {
    /// Whether the instruction holds the one word that encodes it.
    pub open spec fn canonical(self, xlen: XLEN) -> bool {
        self.0 == 0x1
    }

    /// The word that encodes the instruction.
    pub open spec fn encode(self) -> u16 {
        self.0
    }

    /// The encoded instruction decodes to the instruction.
    pub proof fn lemma_decode_encode(self, xlen: XLEN)
        requires
            self.canonical(xlen),
        ensures
            decode16(self.encode(), xlen) == Ok::<DecodedInstruction, SimError>(
                DecodedInstruction::C_NOP(self),
            ),
    {
    }

    /// The word that decodes to the instruction is the word that encodes it.
    pub proof fn lemma_encode_decode(self, word: u16, xlen: XLEN)
        requires
            decode16(word, xlen) == Ok::<DecodedInstruction, SimError>(
                DecodedInstruction::C_NOP(self),
            ),
        ensures
            self.encode() == word,
    {
    }
}

impl C_ADDI {
    /// Whether the operands can be encoded and the instruction exists in the
    /// width mode `xlen`.
    pub open spec fn canonical(self, xlen: XLEN) -> bool {
        &&& -32 <= self.imm < 32
        &&& self.rd != XprName::zero || self.imm != 0
    }

    /// The word that encodes the instruction.
    pub open spec fn encode(self) -> u16 {
        word_ci_imm(1, self.rd.index() as u16, 0, self.imm as int)
    }

    /// The encoded instruction decodes to the instruction.
    pub proof fn lemma_decode_encode(self, xlen: XLEN)
        requires
            self.canonical(xlen),
        ensures
            decode16(self.encode(), xlen) == Ok::<DecodedInstruction, SimError>(
                DecodedInstruction::C_ADDI(self),
            ),
    {
        lemma_word_ci_imm(1, self.rd.index() as u16, 0, self.imm as int);
        self.rd.lemma_index_round_trip();
    }

    /// The word that decodes to the instruction is the word that encodes it.
    pub proof fn lemma_encode_decode(self, word: u16, xlen: XLEN)
        requires
            decode16(word, xlen) == Ok::<DecodedInstruction, SimError>(
                DecodedInstruction::C_ADDI(self),
            ),
        ensures
            self.encode() == word,
    {
        lemma_word_ci_imm_of_fields(word);
        lemma_register_fields(word as int);
    }
}

impl C_JAL {
    /// Whether the operands can be encoded and the instruction exists in the
    /// width mode `xlen`.
    pub open spec fn canonical(self, xlen: XLEN) -> bool {
        &&& -2048 <= self.offset < 2048
        &&& self.offset % 2 == 0
        &&& xlen == XLEN::RV32
    }

    /// The word that encodes the instruction.
    pub open spec fn encode(self) -> u16 {
        word_cj(1, 1, self.offset as int)
    }

    /// The encoded instruction decodes to the instruction.
    pub proof fn lemma_decode_encode(self, xlen: XLEN)
        requires
            self.canonical(xlen),
        ensures
            decode16(self.encode(), xlen) == Ok::<DecodedInstruction, SimError>(
                DecodedInstruction::C_JAL(self),
            ),
    {
        lemma_word_cj(1, 1, self.offset as int);
    }

    /// The word that decodes to the instruction is the word that encodes it.
    pub proof fn lemma_encode_decode(self, word: u16, xlen: XLEN)
        requires
            decode16(word, xlen) == Ok::<DecodedInstruction, SimError>(
                DecodedInstruction::C_JAL(self),
            ),
        ensures
            self.encode() == word,
    {
        lemma_word_cj_of_fields(word);
        lemma_register_fields(word as int);
    }
}

impl C_LI {
    /// Whether the operands can be encoded and the instruction exists in the
    /// width mode `xlen`.
    pub open spec fn canonical(self, xlen: XLEN) -> bool {
        &&& -32 <= self.imm < 32
    }

    /// The word that encodes the instruction.
    pub open spec fn encode(self) -> u16 {
        word_ci_imm(1, self.rd.index() as u16, 2, self.imm as int)
    }

    /// The encoded instruction decodes to the instruction.
    pub proof fn lemma_decode_encode(self, xlen: XLEN)
        requires
            self.canonical(xlen),
        ensures
            decode16(self.encode(), xlen) == Ok::<DecodedInstruction, SimError>(
                DecodedInstruction::C_LI(self),
            ),
    {
        lemma_word_ci_imm(1, self.rd.index() as u16, 2, self.imm as int);
        self.rd.lemma_index_round_trip();
    }

    /// The word that decodes to the instruction is the word that encodes it.
    pub proof fn lemma_encode_decode(self, word: u16, xlen: XLEN)
        requires
            decode16(word, xlen) == Ok::<DecodedInstruction, SimError>(
                DecodedInstruction::C_LI(self),
            ),
        ensures
            self.encode() == word,
    {
        lemma_word_ci_imm_of_fields(word);
        lemma_register_fields(word as int);
    }
}

impl C_SRLI {
    /// Whether the operands can be encoded and the instruction exists in the
    /// width mode `xlen`.
    pub open spec fn canonical(self, xlen: XLEN) -> bool {
        &&& 8 <= self.rd.index() < 16
        &&& self.shamt < 64
        &&& self.shamt != 0
        &&& xlen == XLEN::RV32 ==> self.shamt < 32
    }

    /// The word that encodes the instruction.
    pub open spec fn encode(self) -> u16 {
        word_cb_shamt(1, (self.rd.index() - 8) as u16, 0, 4, self.shamt as int)
    }

    /// The encoded instruction decodes to the instruction.
    pub proof fn lemma_decode_encode(self, xlen: XLEN)
        requires
            self.canonical(xlen),
        ensures
            decode16(self.encode(), xlen) == Ok::<DecodedInstruction, SimError>(
                DecodedInstruction::C_SRLI(self),
            ),
    {
        lemma_word_cb_shamt(1, (self.rd.index() - 8) as u16, 0, 4, self.shamt as int);
        self.rd.lemma_index_round_trip();
    }

    /// The word that decodes to the instruction is the word that encodes it.
    pub proof fn lemma_encode_decode(self, word: u16, xlen: XLEN)
        requires
            decode16(word, xlen) == Ok::<DecodedInstruction, SimError>(
                DecodedInstruction::C_SRLI(self),
            ),
        ensures
            self.encode() == word,
    {
        lemma_word_cb_shamt_of_fields(word);
        lemma_register_fields(word as int);
    }
}

impl C_SRLI64 {
    /// Whether the operands can be encoded and the instruction exists in the
    /// width mode `xlen`.
    pub open spec fn canonical(self, xlen: XLEN) -> bool {
        &&& 8 <= self.rd.index() < 16
        &&& self.shamt == 64
    }

    /// The word that encodes the instruction.
    pub open spec fn encode(self) -> u16 {
        word_cb_shamt(1, (self.rd.index() - 8) as u16, 0, 4, 0)
    }

    /// The encoded instruction decodes to the instruction.
    pub proof fn lemma_decode_encode(self, xlen: XLEN)
        requires
            self.canonical(xlen),
        ensures
            decode16(self.encode(), xlen) == Ok::<DecodedInstruction, SimError>(
                DecodedInstruction::C_SRLI64(self),
            ),
    {
        lemma_word_cb_shamt(1, (self.rd.index() - 8) as u16, 0, 4, 0);
        self.rd.lemma_index_round_trip();
    }

    /// The word that decodes to the instruction is the word that encodes it.
    pub proof fn lemma_encode_decode(self, word: u16, xlen: XLEN)
        requires
            decode16(word, xlen) == Ok::<DecodedInstruction, SimError>(
                DecodedInstruction::C_SRLI64(self),
            ),
        ensures
            self.encode() == word,
    {
        lemma_word_cb_shamt_of_fields(word);
        lemma_register_fields(word as int);
    }
}

impl C_SRAI {
    /// Whether the operands can be encoded and the instruction exists in the
    /// width mode `xlen`.
    pub open spec fn canonical(self, xlen: XLEN) -> bool {
        &&& 8 <= self.rd.index() < 16
        &&& self.shamt < 64
        &&& self.shamt != 0
        &&& xlen == XLEN::RV32 ==> self.shamt < 32
    }

    /// The word that encodes the instruction.
    pub open spec fn encode(self) -> u16 {
        word_cb_shamt(1, (self.rd.index() - 8) as u16, 1, 4, self.shamt as int)
    }

    /// The encoded instruction decodes to the instruction.
    pub proof fn lemma_decode_encode(self, xlen: XLEN)
        requires
            self.canonical(xlen),
        ensures
            decode16(self.encode(), xlen) == Ok::<DecodedInstruction, SimError>(
                DecodedInstruction::C_SRAI(self),
            ),
    {
        lemma_word_cb_shamt(1, (self.rd.index() - 8) as u16, 1, 4, self.shamt as int);
        self.rd.lemma_index_round_trip();
    }

    /// The word that decodes to the instruction is the word that encodes it.
    pub proof fn lemma_encode_decode(self, word: u16, xlen: XLEN)
        requires
            decode16(word, xlen) == Ok::<DecodedInstruction, SimError>(
                DecodedInstruction::C_SRAI(self),
            ),
        ensures
            self.encode() == word,
    {
        lemma_word_cb_shamt_of_fields(word);
        lemma_register_fields(word as int);
    }
}

impl C_SRAI64 {
    /// Whether the operands can be encoded and the instruction exists in the
    /// width mode `xlen`.
    pub open spec fn canonical(self, xlen: XLEN) -> bool {
        &&& 8 <= self.rd.index() < 16
        &&& self.shamt == 64
    }

    /// The word that encodes the instruction.
    pub open spec fn encode(self) -> u16 {
        word_cb_shamt(1, (self.rd.index() - 8) as u16, 1, 4, 0)
    }

    /// The encoded instruction decodes to the instruction.
    pub proof fn lemma_decode_encode(self, xlen: XLEN)
        requires
            self.canonical(xlen),
        ensures
            decode16(self.encode(), xlen) == Ok::<DecodedInstruction, SimError>(
                DecodedInstruction::C_SRAI64(self),
            ),
    {
        lemma_word_cb_shamt(1, (self.rd.index() - 8) as u16, 1, 4, 0);
        self.rd.lemma_index_round_trip();
    }

    /// The word that decodes to the instruction is the word that encodes it.
    pub proof fn lemma_encode_decode(self, word: u16, xlen: XLEN)
        requires
            decode16(word, xlen) == Ok::<DecodedInstruction, SimError>(
                DecodedInstruction::C_SRAI64(self),
            ),
        ensures
            self.encode() == word,
    {
        lemma_word_cb_shamt_of_fields(word);
        lemma_register_fields(word as int);
    }
}

impl C_ANDI {
    /// Whether the operands can be encoded and the instruction exists in the
    /// width mode `xlen`.
    pub open spec fn canonical(self, xlen: XLEN) -> bool {
        &&& 8 <= self.rd.index() < 16
        &&& -32 <= self.imm < 32
    }

    /// The word that encodes the instruction.
    pub open spec fn encode(self) -> u16 {
        word_cb_imm(1, (self.rd.index() - 8) as u16, 2, 4, self.imm as int)
    }

    /// The encoded instruction decodes to the instruction.
    pub proof fn lemma_decode_encode(self, xlen: XLEN)
        requires
            self.canonical(xlen),
        ensures
            decode16(self.encode(), xlen) == Ok::<DecodedInstruction, SimError>(
                DecodedInstruction::C_ANDI(self),
            ),
    {
        lemma_word_cb_imm(1, (self.rd.index() - 8) as u16, 2, 4, self.imm as int);
        self.rd.lemma_index_round_trip();
    }

    /// The word that decodes to the instruction is the word that encodes it.
    pub proof fn lemma_encode_decode(self, word: u16, xlen: XLEN)
        requires
            decode16(word, xlen) == Ok::<DecodedInstruction, SimError>(
                DecodedInstruction::C_ANDI(self),
            ),
        ensures
            self.encode() == word,
    {
        lemma_word_cb_imm_of_fields(word);
        lemma_register_fields(word as int);
    }
}

impl C_SUB {
    /// Whether the operands can be encoded and the instruction exists in the
    /// width mode `xlen`.
    pub open spec fn canonical(self, xlen: XLEN) -> bool {
        &&& 8 <= self.rs2.index() < 16
        &&& 8 <= self.rd.index() < 16
    }

    /// The word that encodes the instruction.
    pub open spec fn encode(self) -> u16 {
        word_ca(1, (self.rs2.index() - 8) as u16, 0, (self.rd.index() - 8) as u16, 3, 0, 4)
    }

    /// The encoded instruction decodes to the instruction.
    pub proof fn lemma_decode_encode(self, xlen: XLEN)
        requires
            self.canonical(xlen),
        ensures
            decode16(self.encode(), xlen) == Ok::<DecodedInstruction, SimError>(
                DecodedInstruction::C_SUB(self),
            ),
    {
        lemma_word_ca(
            1,
            (self.rs2.index() - 8) as u16,
            0,
            (self.rd.index() - 8) as u16,
            3,
            0,
            4,
        );
        self.rs2.lemma_index_round_trip();
        self.rd.lemma_index_round_trip();
    }

    /// The word that decodes to the instruction is the word that encodes it.
    pub proof fn lemma_encode_decode(self, word: u16, xlen: XLEN)
        requires
            decode16(word, xlen) == Ok::<DecodedInstruction, SimError>(
                DecodedInstruction::C_SUB(self),
            ),
        ensures
            self.encode() == word,
    {
        lemma_word_ca_of_fields(word);
        lemma_register_fields(word as int);
    }
}

impl C_XOR {
    /// Whether the operands can be encoded and the instruction exists in the
    /// width mode `xlen`.
    pub open spec fn canonical(self, xlen: XLEN) -> bool {
        &&& 8 <= self.rs2.index() < 16
        &&& 8 <= self.rd.index() < 16
    }

    /// The word that encodes the instruction.
    pub open spec fn encode(self) -> u16 {
        word_ca(1, (self.rs2.index() - 8) as u16, 1, (self.rd.index() - 8) as u16, 3, 0, 4)
    }

    /// The encoded instruction decodes to the instruction.
    pub proof fn lemma_decode_encode(self, xlen: XLEN)
        requires
            self.canonical(xlen),
        ensures
            decode16(self.encode(), xlen) == Ok::<DecodedInstruction, SimError>(
                DecodedInstruction::C_XOR(self),
            ),
    {
        lemma_word_ca(
            1,
            (self.rs2.index() - 8) as u16,
            1,
            (self.rd.index() - 8) as u16,
            3,
            0,
            4,
        );
        self.rs2.lemma_index_round_trip();
        self.rd.lemma_index_round_trip();
    }

    /// The word that decodes to the instruction is the word that encodes it.
    pub proof fn lemma_encode_decode(self, word: u16, xlen: XLEN)
        requires
            decode16(word, xlen) == Ok::<DecodedInstruction, SimError>(
                DecodedInstruction::C_XOR(self),
            ),
        ensures
            self.encode() == word,
    {
        lemma_word_ca_of_fields(word);
        lemma_register_fields(word as int);
    }
}

impl C_OR {
    /// Whether the operands can be encoded and the instruction exists in the
    /// width mode `xlen`.
    pub open spec fn canonical(self, xlen: XLEN) -> bool {
        &&& 8 <= self.rs2.index() < 16
        &&& 8 <= self.rd.index() < 16
    }

    /// The word that encodes the instruction.
    pub open spec fn encode(self) -> u16 {
        word_ca(1, (self.rs2.index() - 8) as u16, 2, (self.rd.index() - 8) as u16, 3, 0, 4)
    }

    /// The encoded instruction decodes to the instruction.
    pub proof fn lemma_decode_encode(self, xlen: XLEN)
        requires
            self.canonical(xlen),
        ensures
            decode16(self.encode(), xlen) == Ok::<DecodedInstruction, SimError>(
                DecodedInstruction::C_OR(self),
            ),
    {
        lemma_word_ca(
            1,
            (self.rs2.index() - 8) as u16,
            2,
            (self.rd.index() - 8) as u16,
            3,
            0,
            4,
        );
        self.rs2.lemma_index_round_trip();
        self.rd.lemma_index_round_trip();
    }

    /// The word that decodes to the instruction is the word that encodes it.
    pub proof fn lemma_encode_decode(self, word: u16, xlen: XLEN)
        requires
            decode16(word, xlen) == Ok::<DecodedInstruction, SimError>(
                DecodedInstruction::C_OR(self),
            ),
        ensures
            self.encode() == word,
    {
        lemma_word_ca_of_fields(word);
        lemma_register_fields(word as int);
    }
}

impl C_AND {
    /// Whether the operands can be encoded and the instruction exists in the
    /// width mode `xlen`.
    pub open spec fn canonical(self, xlen: XLEN) -> bool {
        &&& 8 <= self.rs2.index() < 16
        &&& 8 <= self.rd.index() < 16
    }

    /// The word that encodes the instruction.
    pub open spec fn encode(self) -> u16 {
        word_ca(1, (self.rs2.index() - 8) as u16, 3, (self.rd.index() - 8) as u16, 3, 0, 4)
    }

    /// The encoded instruction decodes to the instruction.
    pub proof fn lemma_decode_encode(self, xlen: XLEN)
        requires
            self.canonical(xlen),
        ensures
            decode16(self.encode(), xlen) == Ok::<DecodedInstruction, SimError>(
                DecodedInstruction::C_AND(self),
            ),
    {
        lemma_word_ca(
            1,
            (self.rs2.index() - 8) as u16,
            3,
            (self.rd.index() - 8) as u16,
            3,
            0,
            4,
        );
        self.rs2.lemma_index_round_trip();
        self.rd.lemma_index_round_trip();
    }

    /// The word that decodes to the instruction is the word that encodes it.
    pub proof fn lemma_encode_decode(self, word: u16, xlen: XLEN)
        requires
            decode16(word, xlen) == Ok::<DecodedInstruction, SimError>(
                DecodedInstruction::C_AND(self),
            ),
        ensures
            self.encode() == word,
    {
        lemma_word_ca_of_fields(word);
        lemma_register_fields(word as int);
    }
}

impl C_SUBW {
    /// Whether the operands can be encoded and the instruction exists in the
    /// width mode `xlen`.
    pub open spec fn canonical(self, xlen: XLEN) -> bool {
        &&& 8 <= self.rs2.index() < 16
        &&& 8 <= self.rd.index() < 16
        &&& xlen != XLEN::RV32
    }

    /// The word that encodes the instruction.
    pub open spec fn encode(self) -> u16 {
        word_ca(1, (self.rs2.index() - 8) as u16, 0, (self.rd.index() - 8) as u16, 3, 1, 4)
    }

    /// The encoded instruction decodes to the instruction.
    pub proof fn lemma_decode_encode(self, xlen: XLEN)
        requires
            self.canonical(xlen),
        ensures
            decode16(self.encode(), xlen) == Ok::<DecodedInstruction, SimError>(
                DecodedInstruction::C_SUBW(self),
            ),
    {
        lemma_word_ca(
            1,
            (self.rs2.index() - 8) as u16,
            0,
            (self.rd.index() - 8) as u16,
            3,
            1,
            4,
        );
        self.rs2.lemma_index_round_trip();
        self.rd.lemma_index_round_trip();
    }

    /// The word that decodes to the instruction is the word that encodes it.
    pub proof fn lemma_encode_decode(self, word: u16, xlen: XLEN)
        requires
            decode16(word, xlen) == Ok::<DecodedInstruction, SimError>(
                DecodedInstruction::C_SUBW(self),
            ),
        ensures
            self.encode() == word,
    {
        lemma_word_ca_of_fields(word);
        lemma_register_fields(word as int);
    }
}

impl C_ADDW {
    /// Whether the operands can be encoded and the instruction exists in the
    /// width mode `xlen`.
    pub open spec fn canonical(self, xlen: XLEN) -> bool {
        &&& 8 <= self.rs2.index() < 16
        &&& 8 <= self.rd.index() < 16
        &&& xlen != XLEN::RV32
    }

    /// The word that encodes the instruction.
    pub open spec fn encode(self) -> u16 {
        word_ca(1, (self.rs2.index() - 8) as u16, 1, (self.rd.index() - 8) as u16, 3, 1, 4)
    }

    /// The encoded instruction decodes to the instruction.
    pub proof fn lemma_decode_encode(self, xlen: XLEN)
        requires
            self.canonical(xlen),
        ensures
            decode16(self.encode(), xlen) == Ok::<DecodedInstruction, SimError>(
                DecodedInstruction::C_ADDW(self),
            ),
    {
        lemma_word_ca(
            1,
            (self.rs2.index() - 8) as u16,
            1,
            (self.rd.index() - 8) as u16,
            3,
            1,
            4,
        );
        self.rs2.lemma_index_round_trip();
        self.rd.lemma_index_round_trip();
    }

    /// The word that decodes to the instruction is the word that encodes it.
    pub proof fn lemma_encode_decode(self, word: u16, xlen: XLEN)
        requires
            decode16(word, xlen) == Ok::<DecodedInstruction, SimError>(
                DecodedInstruction::C_ADDW(self),
            ),
        ensures
            self.encode() == word,
    {
        lemma_word_ca_of_fields(word);
        lemma_register_fields(word as int);
    }
}

impl C_J {
    /// Whether the operands can be encoded and the instruction exists in the
    /// width mode `xlen`.
    pub open spec fn canonical(self, xlen: XLEN) -> bool {
        &&& -2048 <= self.offset < 2048
        &&& self.offset % 2 == 0
    }

    /// The word that encodes the instruction.
    pub open spec fn encode(self) -> u16 {
        word_cj(1, 5, self.offset as int)
    }

    /// The encoded instruction decodes to the instruction.
    pub proof fn lemma_decode_encode(self, xlen: XLEN)
        requires
            self.canonical(xlen),
        ensures
            decode16(self.encode(), xlen) == Ok::<DecodedInstruction, SimError>(
                DecodedInstruction::C_J(self),
            ),
    {
        lemma_word_cj(1, 5, self.offset as int);
    }

    /// The word that decodes to the instruction is the word that encodes it.
    pub proof fn lemma_encode_decode(self, word: u16, xlen: XLEN)
        requires
            decode16(word, xlen) == Ok::<DecodedInstruction, SimError>(
                DecodedInstruction::C_J(self),
            ),
        ensures
            self.encode() == word,
    {
        lemma_word_cj_of_fields(word);
        lemma_register_fields(word as int);
    }
}

impl C_BEQZ {
    /// Whether the operands can be encoded and the instruction exists in the
    /// width mode `xlen`.
    pub open spec fn canonical(self, xlen: XLEN) -> bool {
        &&& 8 <= self.rs1.index() < 16
        &&& -256 <= self.offset < 256
        &&& self.offset % 2 == 0
    }

    /// The word that encodes the instruction.
    pub open spec fn encode(self) -> u16 {
        word_cb(1, (self.rs1.index() - 8) as u16, 6, self.offset as int)
    }

    /// The encoded instruction decodes to the instruction.
    pub proof fn lemma_decode_encode(self, xlen: XLEN)
        requires
            self.canonical(xlen),
        ensures
            decode16(self.encode(), xlen) == Ok::<DecodedInstruction, SimError>(
                DecodedInstruction::C_BEQZ(self),
            ),
    {
        lemma_word_cb(1, (self.rs1.index() - 8) as u16, 6, self.offset as int);
        self.rs1.lemma_index_round_trip();
    }

    /// The word that decodes to the instruction is the word that encodes it.
    pub proof fn lemma_encode_decode(self, word: u16, xlen: XLEN)
        requires
            decode16(word, xlen) == Ok::<DecodedInstruction, SimError>(
                DecodedInstruction::C_BEQZ(self),
            ),
        ensures
            self.encode() == word,
    {
        lemma_word_cb_of_fields(word);
        lemma_register_fields(word as int);
    }
}

impl C_BNEZ {
    /// Whether the operands can be encoded and the instruction exists in the
    /// width mode `xlen`.
    pub open spec fn canonical(self, xlen: XLEN) -> bool {
        &&& 8 <= self.rs1.index() < 16
        &&& -256 <= self.offset < 256
        &&& self.offset % 2 == 0
    }

    /// The word that encodes the instruction.
    pub open spec fn encode(self) -> u16 {
        word_cb(1, (self.rs1.index() - 8) as u16, 7, self.offset as int)
    }

    /// The encoded instruction decodes to the instruction.
    pub proof fn lemma_decode_encode(self, xlen: XLEN)
        requires
            self.canonical(xlen),
        ensures
            decode16(self.encode(), xlen) == Ok::<DecodedInstruction, SimError>(
                DecodedInstruction::C_BNEZ(self),
            ),
    {
        lemma_word_cb(1, (self.rs1.index() - 8) as u16, 7, self.offset as int);
        self.rs1.lemma_index_round_trip();
    }

    /// The word that decodes to the instruction is the word that encodes it.
    pub proof fn lemma_encode_decode(self, word: u16, xlen: XLEN)
        requires
            decode16(word, xlen) == Ok::<DecodedInstruction, SimError>(
                DecodedInstruction::C_BNEZ(self),
            ),
        ensures
            self.encode() == word,
    {
        lemma_word_cb_of_fields(word);
        lemma_register_fields(word as int);
    }
}

impl C_SLLI {
    /// Whether the operands can be encoded and the instruction exists in the
    /// width mode `xlen`.
    pub open spec fn canonical(self, xlen: XLEN) -> bool {
        &&& self.shamt < 64
        &&& self.shamt != 0
        &&& xlen == XLEN::RV32 ==> self.shamt < 32
    }

    /// The word that encodes the instruction.
    pub open spec fn encode(self) -> u16 {
        word_ci_shamt(2, self.rd.index() as u16, 0, self.shamt as int)
    }

    /// The encoded instruction decodes to the instruction.
    pub proof fn lemma_decode_encode(self, xlen: XLEN)
        requires
            self.canonical(xlen),
        ensures
            decode16(self.encode(), xlen) == Ok::<DecodedInstruction, SimError>(
                DecodedInstruction::C_SLLI(self),
            ),
    {
        lemma_word_ci_shamt(2, self.rd.index() as u16, 0, self.shamt as int);
        self.rd.lemma_index_round_trip();
    }

    /// The word that decodes to the instruction is the word that encodes it.
    pub proof fn lemma_encode_decode(self, word: u16, xlen: XLEN)
        requires
            decode16(word, xlen) == Ok::<DecodedInstruction, SimError>(
                DecodedInstruction::C_SLLI(self),
            ),
        ensures
            self.encode() == word,
    {
        lemma_word_ci_shamt_of_fields(word);
        lemma_register_fields(word as int);
    }
}

impl C_SLLI64 {
    /// Whether the operands can be encoded and the instruction exists in the
    /// width mode `xlen`.
    pub open spec fn canonical(self, xlen: XLEN) -> bool {
        &&& self.shamt == 64
    }

    /// The word that encodes the instruction.
    pub open spec fn encode(self) -> u16 {
        word_ci_shamt(2, self.rd.index() as u16, 0, 0)
    }

    /// The encoded instruction decodes to the instruction.
    pub proof fn lemma_decode_encode(self, xlen: XLEN)
        requires
            self.canonical(xlen),
        ensures
            decode16(self.encode(), xlen) == Ok::<DecodedInstruction, SimError>(
                DecodedInstruction::C_SLLI64(self),
            ),
    {
        lemma_word_ci_shamt(2, self.rd.index() as u16, 0, 0);
        self.rd.lemma_index_round_trip();
    }

    /// The word that decodes to the instruction is the word that encodes it.
    pub proof fn lemma_encode_decode(self, word: u16, xlen: XLEN)
        requires
            decode16(word, xlen) == Ok::<DecodedInstruction, SimError>(
                DecodedInstruction::C_SLLI64(self),
            ),
        ensures
            self.encode() == word,
    {
        lemma_word_ci_shamt_of_fields(word);
        lemma_register_fields(word as int);
    }
}

impl C_FLDSP {
    /// Whether the operands can be encoded and the instruction exists in the
    /// width mode `xlen`.
    pub open spec fn canonical(self, xlen: XLEN) -> bool {
        &&& self.offset < 512
        &&& self.offset % 8 == 0
        &&& xlen != XLEN::RV128
    }

    /// The word that encodes the instruction.
    pub open spec fn encode(self) -> u16 {
        word_ci_d(2, self.rd.index() as u16, 1, self.offset as int)
    }

    /// The encoded instruction decodes to the instruction.
    pub proof fn lemma_decode_encode(self, xlen: XLEN)
        requires
            self.canonical(xlen),
        ensures
            decode16(self.encode(), xlen) == Ok::<DecodedInstruction, SimError>(
                DecodedInstruction::C_FLDSP(self),
            ),
    {
        lemma_word_ci_d(2, self.rd.index() as u16, 1, self.offset as int);
        self.rd.lemma_index_round_trip();
    }

    /// The word that decodes to the instruction is the word that encodes it.
    pub proof fn lemma_encode_decode(self, word: u16, xlen: XLEN)
        requires
            decode16(word, xlen) == Ok::<DecodedInstruction, SimError>(
                DecodedInstruction::C_FLDSP(self),
            ),
        ensures
            self.encode() == word,
    {
        lemma_word_ci_d_of_fields(word);
        lemma_register_fields(word as int);
    }
}

impl C_LQSP {
    /// Whether the operands can be encoded and the instruction exists in the
    /// width mode `xlen`.
    pub open spec fn canonical(self, xlen: XLEN) -> bool {
        &&& self.offset < 1024
        &&& self.offset % 16 == 0
        &&& self.rd != XprName::zero
        &&& xlen == XLEN::RV128
    }

    /// The word that encodes the instruction.
    pub open spec fn encode(self) -> u16 {
        word_ci_q(2, self.rd.index() as u16, 1, self.offset as int)
    }

    /// The encoded instruction decodes to the instruction.
    pub proof fn lemma_decode_encode(self, xlen: XLEN)
        requires
            self.canonical(xlen),
        ensures
            decode16(self.encode(), xlen) == Ok::<DecodedInstruction, SimError>(
                DecodedInstruction::C_LQSP(self),
            ),
    {
        lemma_word_ci_q(2, self.rd.index() as u16, 1, self.offset as int);
        self.rd.lemma_index_round_trip();
    }

    /// The word that decodes to the instruction is the word that encodes it.
    pub proof fn lemma_encode_decode(self, word: u16, xlen: XLEN)
        requires
            decode16(word, xlen) == Ok::<DecodedInstruction, SimError>(
                DecodedInstruction::C_LQSP(self),
            ),
        ensures
            self.encode() == word,
    {
        lemma_word_ci_q_of_fields(word);
        lemma_register_fields(word as int);
    }
}

impl C_LWSP {
    /// Whether the operands can be encoded and the instruction exists in the
    /// width mode `xlen`.
    pub open spec fn canonical(self, xlen: XLEN) -> bool {
        &&& self.offset < 256
        &&& self.offset % 4 == 0
        &&& self.rd != XprName::zero
    }

    /// The word that encodes the instruction.
    pub open spec fn encode(self) -> u16 {
        word_ci_w(2, self.rd.index() as u16, 2, self.offset as int)
    }

    /// The encoded instruction decodes to the instruction.
    pub proof fn lemma_decode_encode(self, xlen: XLEN)
        requires
            self.canonical(xlen),
        ensures
            decode16(self.encode(), xlen) == Ok::<DecodedInstruction, SimError>(
                DecodedInstruction::C_LWSP(self),
            ),
    {
        lemma_word_ci_w(2, self.rd.index() as u16, 2, self.offset as int);
        self.rd.lemma_index_round_trip();
    }

    /// The word that decodes to the instruction is the word that encodes it.
    pub proof fn lemma_encode_decode(self, word: u16, xlen: XLEN)
        requires
            decode16(word, xlen) == Ok::<DecodedInstruction, SimError>(
                DecodedInstruction::C_LWSP(self),
            ),
        ensures
            self.encode() == word,
    {
        lemma_word_ci_w_of_fields(word);
        lemma_register_fields(word as int);
    }
}

impl C_FLWSP {
    /// Whether the operands can be encoded and the instruction exists in the
    /// width mode `xlen`.
    pub open spec fn canonical(self, xlen: XLEN) -> bool {
        &&& self.offset < 256
        &&& self.offset % 4 == 0
        &&& xlen == XLEN::RV32
    }

    /// The word that encodes the instruction.
    pub open spec fn encode(self) -> u16 {
        word_ci_w(2, self.rd.index() as u16, 3, self.offset as int)
    }

    /// The encoded instruction decodes to the instruction.
    pub proof fn lemma_decode_encode(self, xlen: XLEN)
        requires
            self.canonical(xlen),
        ensures
            decode16(self.encode(), xlen) == Ok::<DecodedInstruction, SimError>(
                DecodedInstruction::C_FLWSP(self),
            ),
    {
        lemma_word_ci_w(2, self.rd.index() as u16, 3, self.offset as int);
        self.rd.lemma_index_round_trip();
    }

    /// The word that decodes to the instruction is the word that encodes it.
    pub proof fn lemma_encode_decode(self, word: u16, xlen: XLEN)
        requires
            decode16(word, xlen) == Ok::<DecodedInstruction, SimError>(
                DecodedInstruction::C_FLWSP(self),
            ),
        ensures
            self.encode() == word,
    {
        lemma_word_ci_w_of_fields(word);
        lemma_register_fields(word as int);
    }
}

impl C_LDSP {
    /// Whether the operands can be encoded and the instruction exists in the
    /// width mode `xlen`.
    pub open spec fn canonical(self, xlen: XLEN) -> bool {
        &&& self.offset < 512
        &&& self.offset % 8 == 0
        &&& self.rd != XprName::zero
        &&& xlen != XLEN::RV32
    }

    /// The word that encodes the instruction.
    pub open spec fn encode(self) -> u16 {
        word_ci_d(2, self.rd.index() as u16, 3, self.offset as int)
    }

    /// The encoded instruction decodes to the instruction.
    pub proof fn lemma_decode_encode(self, xlen: XLEN)
        requires
            self.canonical(xlen),
        ensures
            decode16(self.encode(), xlen) == Ok::<DecodedInstruction, SimError>(
                DecodedInstruction::C_LDSP(self),
            ),
    {
        lemma_word_ci_d(2, self.rd.index() as u16, 3, self.offset as int);
        self.rd.lemma_index_round_trip();
    }

    /// The word that decodes to the instruction is the word that encodes it.
    pub proof fn lemma_encode_decode(self, word: u16, xlen: XLEN)
        requires
            decode16(word, xlen) == Ok::<DecodedInstruction, SimError>(
                DecodedInstruction::C_LDSP(self),
            ),
        ensures
            self.encode() == word,
    {
        lemma_word_ci_d_of_fields(word);
        lemma_register_fields(word as int);
    }
}

impl C_JR {
    /// Whether the operands can be encoded and the instruction exists in the
    /// width mode `xlen`.
    pub open spec fn canonical(self, xlen: XLEN) -> bool {
        &&& self.rs1 != XprName::zero
    }

    /// The word that encodes the instruction.
    pub open spec fn encode(self) -> u16 {
        word_cr(2, 0, self.rs1.index() as u16, 0, 4)
    }

    /// The encoded instruction decodes to the instruction.
    pub proof fn lemma_decode_encode(self, xlen: XLEN)
        requires
            self.canonical(xlen),
        ensures
            decode16(self.encode(), xlen) == Ok::<DecodedInstruction, SimError>(
                DecodedInstruction::C_JR(self),
            ),
    {
        lemma_word_cr(2, 0, self.rs1.index() as u16, 0, 4);
        self.rs1.lemma_index_round_trip();
    }

    /// The word that decodes to the instruction is the word that encodes it.
    pub proof fn lemma_encode_decode(self, word: u16, xlen: XLEN)
        requires
            decode16(word, xlen) == Ok::<DecodedInstruction, SimError>(
                DecodedInstruction::C_JR(self),
            ),
        ensures
            self.encode() == word,
    {
        lemma_word_cr_of_fields(word);
        lemma_register_fields(word as int);
    }
}

impl C_MV {
    /// Whether the operands can be encoded and the instruction exists in the
    /// width mode `xlen`.
    pub open spec fn canonical(self, xlen: XLEN) -> bool {
        &&& self.rs2 != XprName::zero
    }

    /// The word that encodes the instruction.
    pub open spec fn encode(self) -> u16 {
        word_cr(2, self.rs2.index() as u16, self.rd.index() as u16, 0, 4)
    }

    /// The encoded instruction decodes to the instruction.
    pub proof fn lemma_decode_encode(self, xlen: XLEN)
        requires
            self.canonical(xlen),
        ensures
            decode16(self.encode(), xlen) == Ok::<DecodedInstruction, SimError>(
                DecodedInstruction::C_MV(self),
            ),
    {
        lemma_word_cr(2, self.rs2.index() as u16, self.rd.index() as u16, 0, 4);
        self.rs2.lemma_index_round_trip();
        self.rd.lemma_index_round_trip();
    }

    /// The word that decodes to the instruction is the word that encodes it.
    pub proof fn lemma_encode_decode(self, word: u16, xlen: XLEN)
        requires
            decode16(word, xlen) == Ok::<DecodedInstruction, SimError>(
                DecodedInstruction::C_MV(self),
            ),
        ensures
            self.encode() == word,
    {
        lemma_word_cr_of_fields(word);
        lemma_register_fields(word as int);
    }
}

impl C_EBREAK {
    /// Whether the instruction holds the one word that encodes it.
    pub open spec fn canonical(self, xlen: XLEN) -> bool {
        self.0 == 0x9002
    }

    /// The word that encodes the instruction.
    pub open spec fn encode(self) -> u16 {
        self.0
    }

    /// The encoded instruction decodes to the instruction.
    pub proof fn lemma_decode_encode(self, xlen: XLEN)
        requires
            self.canonical(xlen),
        ensures
            decode16(self.encode(), xlen) == Ok::<DecodedInstruction, SimError>(
                DecodedInstruction::C_EBREAK(self),
            ),
    {
    }

    /// The word that decodes to the instruction is the word that encodes it.
    pub proof fn lemma_encode_decode(self, word: u16, xlen: XLEN)
        requires
            decode16(word, xlen) == Ok::<DecodedInstruction, SimError>(
                DecodedInstruction::C_EBREAK(self),
            ),
        ensures
            self.encode() == word,
    {
    }
}

impl C_JALR {
    /// Whether the operands can be encoded and the instruction exists in the
    /// width mode `xlen`.
    pub open spec fn canonical(self, xlen: XLEN) -> bool {
        &&& self.rs1 != XprName::zero
    }

    /// The word that encodes the instruction.
    pub open spec fn encode(self) -> u16 {
        word_cr(2, 0, self.rs1.index() as u16, 1, 4)
    }

    /// The encoded instruction decodes to the instruction.
    pub proof fn lemma_decode_encode(self, xlen: XLEN)
        requires
            self.canonical(xlen),
        ensures
            decode16(self.encode(), xlen) == Ok::<DecodedInstruction, SimError>(
                DecodedInstruction::C_JALR(self),
            ),
    {
        lemma_word_cr(2, 0, self.rs1.index() as u16, 1, 4);
        self.rs1.lemma_index_round_trip();
    }

    /// The word that decodes to the instruction is the word that encodes it.
    pub proof fn lemma_encode_decode(self, word: u16, xlen: XLEN)
        requires
            decode16(word, xlen) == Ok::<DecodedInstruction, SimError>(
                DecodedInstruction::C_JALR(self),
            ),
        ensures
            self.encode() == word,
    {
        lemma_word_cr_of_fields(word);
        lemma_register_fields(word as int);
    }
}

impl C_ADD {
    /// Whether the operands can be encoded and the instruction exists in the
    /// width mode `xlen`.
    pub open spec fn canonical(self, xlen: XLEN) -> bool {
        &&& self.rs2 != XprName::zero
    }

    /// The word that encodes the instruction.
    pub open spec fn encode(self) -> u16 {
        word_cr(2, self.rs2.index() as u16, self.rs1.index() as u16, 1, 4)
    }

    /// The encoded instruction decodes to the instruction.
    pub proof fn lemma_decode_encode(self, xlen: XLEN)
        requires
            self.canonical(xlen),
        ensures
            decode16(self.encode(), xlen) == Ok::<DecodedInstruction, SimError>(
                DecodedInstruction::C_ADD(self),
            ),
    {
        lemma_word_cr(2, self.rs2.index() as u16, self.rs1.index() as u16, 1, 4);
        self.rs2.lemma_index_round_trip();
        self.rs1.lemma_index_round_trip();
    }

    /// The word that decodes to the instruction is the word that encodes it.
    pub proof fn lemma_encode_decode(self, word: u16, xlen: XLEN)
        requires
            decode16(word, xlen) == Ok::<DecodedInstruction, SimError>(
                DecodedInstruction::C_ADD(self),
            ),
        ensures
            self.encode() == word,
    {
        lemma_word_cr_of_fields(word);
        lemma_register_fields(word as int);
    }
}

impl C_FSDSP {
    /// Whether the operands can be encoded and the instruction exists in the
    /// width mode `xlen`.
    pub open spec fn canonical(self, xlen: XLEN) -> bool {
        &&& self.offset < 512
        &&& self.offset % 8 == 0
        &&& xlen != XLEN::RV128
    }

    /// The word that encodes the instruction.
    pub open spec fn encode(self) -> u16 {
        word_css_d(2, self.rs2.index() as u16, 5, self.offset as int)
    }

    /// The encoded instruction decodes to the instruction.
    pub proof fn lemma_decode_encode(self, xlen: XLEN)
        requires
            self.canonical(xlen),
        ensures
            decode16(self.encode(), xlen) == Ok::<DecodedInstruction, SimError>(
                DecodedInstruction::C_FSDSP(self),
            ),
    {
        lemma_word_css_d(2, self.rs2.index() as u16, 5, self.offset as int);
        self.rs2.lemma_index_round_trip();
    }

    /// The word that decodes to the instruction is the word that encodes it.
    pub proof fn lemma_encode_decode(self, word: u16, xlen: XLEN)
        requires
            decode16(word, xlen) == Ok::<DecodedInstruction, SimError>(
                DecodedInstruction::C_FSDSP(self),
            ),
        ensures
            self.encode() == word,
    {
        lemma_word_css_d_of_fields(word);
        lemma_register_fields(word as int);
    }
}

impl C_SQSP {
    /// Whether the operands can be encoded and the instruction exists in the
    /// width mode `xlen`.
    pub open spec fn canonical(self, xlen: XLEN) -> bool {
        &&& self.offset < 1024
        &&& self.offset % 16 == 0
        &&& xlen == XLEN::RV128
    }

    /// The word that encodes the instruction.
    pub open spec fn encode(self) -> u16 {
        word_css_q(2, self.rs2.index() as u16, 5, self.offset as int)
    }

    /// The encoded instruction decodes to the instruction.
    pub proof fn lemma_decode_encode(self, xlen: XLEN)
        requires
            self.canonical(xlen),
        ensures
            decode16(self.encode(), xlen) == Ok::<DecodedInstruction, SimError>(
                DecodedInstruction::C_SQSP(self),
            ),
    {
        lemma_word_css_q(2, self.rs2.index() as u16, 5, self.offset as int);
        self.rs2.lemma_index_round_trip();
    }

    /// The word that decodes to the instruction is the word that encodes it.
    pub proof fn lemma_encode_decode(self, word: u16, xlen: XLEN)
        requires
            decode16(word, xlen) == Ok::<DecodedInstruction, SimError>(
                DecodedInstruction::C_SQSP(self),
            ),
        ensures
            self.encode() == word,
    {
        lemma_word_css_q_of_fields(word);
        lemma_register_fields(word as int);
    }
}

impl C_SWSP {
    /// Whether the operands can be encoded and the instruction exists in the
    /// width mode `xlen`.
    pub open spec fn canonical(self, xlen: XLEN) -> bool {
        &&& self.offset < 256
        &&& self.offset % 4 == 0
    }

    /// The word that encodes the instruction.
    pub open spec fn encode(self) -> u16 {
        word_css_w(2, self.rs2.index() as u16, 6, self.offset as int)
    }

    /// The encoded instruction decodes to the instruction.
    pub proof fn lemma_decode_encode(self, xlen: XLEN)
        requires
            self.canonical(xlen),
        ensures
            decode16(self.encode(), xlen) == Ok::<DecodedInstruction, SimError>(
                DecodedInstruction::C_SWSP(self),
            ),
    {
        lemma_word_css_w(2, self.rs2.index() as u16, 6, self.offset as int);
        self.rs2.lemma_index_round_trip();
    }

    /// The word that decodes to the instruction is the word that encodes it.
    pub proof fn lemma_encode_decode(self, word: u16, xlen: XLEN)
        requires
            decode16(word, xlen) == Ok::<DecodedInstruction, SimError>(
                DecodedInstruction::C_SWSP(self),
            ),
        ensures
            self.encode() == word,
    {
        lemma_word_css_w_of_fields(word);
        lemma_register_fields(word as int);
    }
}

impl C_FSWSP {
    /// Whether the operands can be encoded and the instruction exists in the
    /// width mode `xlen`.
    pub open spec fn canonical(self, xlen: XLEN) -> bool {
        &&& self.offset < 256
        &&& self.offset % 4 == 0
        &&& xlen == XLEN::RV32
    }

    /// The word that encodes the instruction.
    pub open spec fn encode(self) -> u16 {
        word_css_w(2, self.rs2.index() as u16, 7, self.offset as int)
    }

    /// The encoded instruction decodes to the instruction.
    pub proof fn lemma_decode_encode(self, xlen: XLEN)
        requires
            self.canonical(xlen),
        ensures
            decode16(self.encode(), xlen) == Ok::<DecodedInstruction, SimError>(
                DecodedInstruction::C_FSWSP(self),
            ),
    {
        lemma_word_css_w(2, self.rs2.index() as u16, 7, self.offset as int);
        self.rs2.lemma_index_round_trip();
    }

    /// The word that decodes to the instruction is the word that encodes it.
    pub proof fn lemma_encode_decode(self, word: u16, xlen: XLEN)
        requires
            decode16(word, xlen) == Ok::<DecodedInstruction, SimError>(
                DecodedInstruction::C_FSWSP(self),
            ),
        ensures
            self.encode() == word,
    {
        lemma_word_css_w_of_fields(word);
        lemma_register_fields(word as int);
    }
}

impl C_SDSP {
    /// Whether the operands can be encoded and the instruction exists in the
    /// width mode `xlen`.
    pub open spec fn canonical(self, xlen: XLEN) -> bool {
        &&& self.offset < 512
        &&& self.offset % 8 == 0
        &&& xlen != XLEN::RV32
    }

    /// The word that encodes the instruction.
    pub open spec fn encode(self) -> u16 {
        word_css_d(2, self.rs2.index() as u16, 7, self.offset as int)
    }

    /// The encoded instruction decodes to the instruction.
    pub proof fn lemma_decode_encode(self, xlen: XLEN)
        requires
            self.canonical(xlen),
        ensures
            decode16(self.encode(), xlen) == Ok::<DecodedInstruction, SimError>(
                DecodedInstruction::C_SDSP(self),
            ),
    {
        lemma_word_css_d(2, self.rs2.index() as u16, 7, self.offset as int);
        self.rs2.lemma_index_round_trip();
    }

    /// The word that decodes to the instruction is the word that encodes it.
    pub proof fn lemma_encode_decode(self, word: u16, xlen: XLEN)
        requires
            decode16(word, xlen) == Ok::<DecodedInstruction, SimError>(
                DecodedInstruction::C_SDSP(self),
            ),
        ensures
            self.encode() == word,
    {
        lemma_word_css_d_of_fields(word);
        lemma_register_fields(word as int);
    }
}

impl DecodedInstruction {
    /// Whether the operands of the instruction can be encoded and the
    /// instruction exists in the width mode `xlen`.
    pub open spec fn canonical(self, xlen: XLEN) -> bool {
        match self {
            DecodedInstruction::LUI(inst) => inst.canonical(xlen),
            DecodedInstruction::AUIPC(inst) => inst.canonical(xlen),
            DecodedInstruction::JAL(inst) => inst.canonical(xlen),
            DecodedInstruction::JALR(inst) => inst.canonical(xlen),
            DecodedInstruction::BEQ(inst) => inst.canonical(xlen),
            DecodedInstruction::BNE(inst) => inst.canonical(xlen),
            DecodedInstruction::BLT(inst) => inst.canonical(xlen),
            DecodedInstruction::BGE(inst) => inst.canonical(xlen),
            DecodedInstruction::BLTU(inst) => inst.canonical(xlen),
            DecodedInstruction::BGEU(inst) => inst.canonical(xlen),
            DecodedInstruction::LB(inst) => inst.canonical(xlen),
            DecodedInstruction::ADDI(inst) => inst.canonical(xlen),
            DecodedInstruction::SLTI(inst) => inst.canonical(xlen),
            DecodedInstruction::SLTIU(inst) => inst.canonical(xlen),
            DecodedInstruction::XORI(inst) => inst.canonical(xlen),
            DecodedInstruction::ORI(inst) => inst.canonical(xlen),
            DecodedInstruction::ANDI(inst) => inst.canonical(xlen),
            DecodedInstruction::C_ADDI4SPN(inst) => inst.canonical(xlen),
            DecodedInstruction::C_FLD(inst) => inst.canonical(xlen),
            DecodedInstruction::C_LQ(inst) => inst.canonical(xlen),
            DecodedInstruction::C_LW(inst) => inst.canonical(xlen),
            DecodedInstruction::C_LD(inst) => inst.canonical(xlen),
            DecodedInstruction::C_FSD(inst) => inst.canonical(xlen),
            DecodedInstruction::C_SQ(inst) => inst.canonical(xlen),
            DecodedInstruction::C_SW(inst) => inst.canonical(xlen),
            DecodedInstruction::C_SD(inst) => inst.canonical(xlen),
            DecodedInstruction::C_NOP(inst) => inst.canonical(xlen),
            DecodedInstruction::C_ADDI(inst) => inst.canonical(xlen),
            DecodedInstruction::C_JAL(inst) => inst.canonical(xlen),
            DecodedInstruction::C_LI(inst) => inst.canonical(xlen),
            DecodedInstruction::C_SRLI(inst) => inst.canonical(xlen),
            DecodedInstruction::C_SRLI64(inst) => inst.canonical(xlen),
            DecodedInstruction::C_SRAI(inst) => inst.canonical(xlen),
            DecodedInstruction::C_SRAI64(inst) => inst.canonical(xlen),
            DecodedInstruction::C_ANDI(inst) => inst.canonical(xlen),
            DecodedInstruction::C_SUB(inst) => inst.canonical(xlen),
            DecodedInstruction::C_XOR(inst) => inst.canonical(xlen),
            DecodedInstruction::C_OR(inst) => inst.canonical(xlen),
            DecodedInstruction::C_AND(inst) => inst.canonical(xlen),
            DecodedInstruction::C_SUBW(inst) => inst.canonical(xlen),
            DecodedInstruction::C_ADDW(inst) => inst.canonical(xlen),
            DecodedInstruction::C_J(inst) => inst.canonical(xlen),
            DecodedInstruction::C_BEQZ(inst) => inst.canonical(xlen),
            DecodedInstruction::C_BNEZ(inst) => inst.canonical(xlen),
            DecodedInstruction::C_SLLI(inst) => inst.canonical(xlen),
            DecodedInstruction::C_SLLI64(inst) => inst.canonical(xlen),
            DecodedInstruction::C_FLDSP(inst) => inst.canonical(xlen),
            DecodedInstruction::C_LQSP(inst) => inst.canonical(xlen),
            DecodedInstruction::C_LWSP(inst) => inst.canonical(xlen),
            DecodedInstruction::C_FLWSP(inst) => inst.canonical(xlen),
            DecodedInstruction::C_LDSP(inst) => inst.canonical(xlen),
            DecodedInstruction::C_JR(inst) => inst.canonical(xlen),
            DecodedInstruction::C_MV(inst) => inst.canonical(xlen),
            DecodedInstruction::C_EBREAK(inst) => inst.canonical(xlen),
            DecodedInstruction::C_JALR(inst) => inst.canonical(xlen),
            DecodedInstruction::C_ADD(inst) => inst.canonical(xlen),
            DecodedInstruction::C_FSDSP(inst) => inst.canonical(xlen),
            DecodedInstruction::C_SQSP(inst) => inst.canonical(xlen),
            DecodedInstruction::C_SWSP(inst) => inst.canonical(xlen),
            DecodedInstruction::C_FSWSP(inst) => inst.canonical(xlen),
            DecodedInstruction::C_SDSP(inst) => inst.canonical(xlen),
        }
    }

    /// The raw instruction that encodes the instruction.
    pub open spec fn encode(self) -> InstructionRaw {
        match self {
            DecodedInstruction::LUI(inst) => InstructionRaw::B32(inst.encode()),
            DecodedInstruction::AUIPC(inst) => InstructionRaw::B32(inst.encode()),
            DecodedInstruction::JAL(inst) => InstructionRaw::B32(inst.encode()),
            DecodedInstruction::JALR(inst) => InstructionRaw::B32(inst.encode()),
            DecodedInstruction::BEQ(inst) => InstructionRaw::B32(inst.encode()),
            DecodedInstruction::BNE(inst) => InstructionRaw::B32(inst.encode()),
            DecodedInstruction::BLT(inst) => InstructionRaw::B32(inst.encode()),
            DecodedInstruction::BGE(inst) => InstructionRaw::B32(inst.encode()),
            DecodedInstruction::BLTU(inst) => InstructionRaw::B32(inst.encode()),
            DecodedInstruction::BGEU(inst) => InstructionRaw::B32(inst.encode()),
            DecodedInstruction::LB(inst) => InstructionRaw::B32(inst.encode()),
            DecodedInstruction::ADDI(inst) => InstructionRaw::B32(inst.encode()),
            DecodedInstruction::SLTI(inst) => InstructionRaw::B32(inst.encode()),
            DecodedInstruction::SLTIU(inst) => InstructionRaw::B32(inst.encode()),
            DecodedInstruction::XORI(inst) => InstructionRaw::B32(inst.encode()),
            DecodedInstruction::ORI(inst) => InstructionRaw::B32(inst.encode()),
            DecodedInstruction::ANDI(inst) => InstructionRaw::B32(inst.encode()),
            DecodedInstruction::C_ADDI4SPN(inst) => InstructionRaw::B16(inst.encode()),
            DecodedInstruction::C_FLD(inst) => InstructionRaw::B16(inst.encode()),
            DecodedInstruction::C_LQ(inst) => InstructionRaw::B16(inst.encode()),
            DecodedInstruction::C_LW(inst) => InstructionRaw::B16(inst.encode()),
            DecodedInstruction::C_LD(inst) => InstructionRaw::B16(inst.encode()),
            DecodedInstruction::C_FSD(inst) => InstructionRaw::B16(inst.encode()),
            DecodedInstruction::C_SQ(inst) => InstructionRaw::B16(inst.encode()),
            DecodedInstruction::C_SW(inst) => InstructionRaw::B16(inst.encode()),
            DecodedInstruction::C_SD(inst) => InstructionRaw::B16(inst.encode()),
            DecodedInstruction::C_NOP(inst) => InstructionRaw::B16(inst.encode()),
            DecodedInstruction::C_ADDI(inst) => InstructionRaw::B16(inst.encode()),
            DecodedInstruction::C_JAL(inst) => InstructionRaw::B16(inst.encode()),
            DecodedInstruction::C_LI(inst) => InstructionRaw::B16(inst.encode()),
            DecodedInstruction::C_SRLI(inst) => InstructionRaw::B16(inst.encode()),
            DecodedInstruction::C_SRLI64(inst) => InstructionRaw::B16(inst.encode()),
            DecodedInstruction::C_SRAI(inst) => InstructionRaw::B16(inst.encode()),
            DecodedInstruction::C_SRAI64(inst) => InstructionRaw::B16(inst.encode()),
            DecodedInstruction::C_ANDI(inst) => InstructionRaw::B16(inst.encode()),
            DecodedInstruction::C_SUB(inst) => InstructionRaw::B16(inst.encode()),
            DecodedInstruction::C_XOR(inst) => InstructionRaw::B16(inst.encode()),
            DecodedInstruction::C_OR(inst) => InstructionRaw::B16(inst.encode()),
            DecodedInstruction::C_AND(inst) => InstructionRaw::B16(inst.encode()),
            DecodedInstruction::C_SUBW(inst) => InstructionRaw::B16(inst.encode()),
            DecodedInstruction::C_ADDW(inst) => InstructionRaw::B16(inst.encode()),
            DecodedInstruction::C_J(inst) => InstructionRaw::B16(inst.encode()),
            DecodedInstruction::C_BEQZ(inst) => InstructionRaw::B16(inst.encode()),
            DecodedInstruction::C_BNEZ(inst) => InstructionRaw::B16(inst.encode()),
            DecodedInstruction::C_SLLI(inst) => InstructionRaw::B16(inst.encode()),
            DecodedInstruction::C_SLLI64(inst) => InstructionRaw::B16(inst.encode()),
            DecodedInstruction::C_FLDSP(inst) => InstructionRaw::B16(inst.encode()),
            DecodedInstruction::C_LQSP(inst) => InstructionRaw::B16(inst.encode()),
            DecodedInstruction::C_LWSP(inst) => InstructionRaw::B16(inst.encode()),
            DecodedInstruction::C_FLWSP(inst) => InstructionRaw::B16(inst.encode()),
            DecodedInstruction::C_LDSP(inst) => InstructionRaw::B16(inst.encode()),
            DecodedInstruction::C_JR(inst) => InstructionRaw::B16(inst.encode()),
            DecodedInstruction::C_MV(inst) => InstructionRaw::B16(inst.encode()),
            DecodedInstruction::C_EBREAK(inst) => InstructionRaw::B16(inst.encode()),
            DecodedInstruction::C_JALR(inst) => InstructionRaw::B16(inst.encode()),
            DecodedInstruction::C_ADD(inst) => InstructionRaw::B16(inst.encode()),
            DecodedInstruction::C_FSDSP(inst) => InstructionRaw::B16(inst.encode()),
            DecodedInstruction::C_SQSP(inst) => InstructionRaw::B16(inst.encode()),
            DecodedInstruction::C_SWSP(inst) => InstructionRaw::B16(inst.encode()),
            DecodedInstruction::C_FSWSP(inst) => InstructionRaw::B16(inst.encode()),
            DecodedInstruction::C_SDSP(inst) => InstructionRaw::B16(inst.encode()),
        }
    }
}

/// The word that encodes a base instruction decodes to it.
#[verifier::rlimit(100)]
proof fn lemma_decode_encode_base(inst: DecodedInstruction, xlen: XLEN)
    requires
        inst.canonical(xlen),
        inst is LUI || inst is AUIPC || inst is JAL || inst is JALR || inst is BEQ
            || inst is BNE || inst is BLT || inst is BGE || inst is BLTU || inst is BGEU
            || inst is LB || inst is ADDI || inst is SLTI || inst is SLTIU || inst is XORI
            || inst is ORI || inst is ANDI,
    ensures
        decode(inst.encode(), xlen) == Ok::<DecodedInstruction, SimError>(inst),
{
    match inst {
        DecodedInstruction::LUI(i) => i.lemma_decode_encode(xlen),
        DecodedInstruction::AUIPC(i) => i.lemma_decode_encode(xlen),
        DecodedInstruction::JAL(i) => i.lemma_decode_encode(xlen),
        DecodedInstruction::JALR(i) => i.lemma_decode_encode(xlen),
        DecodedInstruction::BEQ(i) => i.lemma_decode_encode(xlen),
        DecodedInstruction::BNE(i) => i.lemma_decode_encode(xlen),
        DecodedInstruction::BLT(i) => i.lemma_decode_encode(xlen),
        DecodedInstruction::BGE(i) => i.lemma_decode_encode(xlen),
        DecodedInstruction::BLTU(i) => i.lemma_decode_encode(xlen),
        DecodedInstruction::BGEU(i) => i.lemma_decode_encode(xlen),
        DecodedInstruction::LB(i) => i.lemma_decode_encode(xlen),
        DecodedInstruction::ADDI(i) => i.lemma_decode_encode(xlen),
        DecodedInstruction::SLTI(i) => i.lemma_decode_encode(xlen),
        DecodedInstruction::SLTIU(i) => i.lemma_decode_encode(xlen),
        DecodedInstruction::XORI(i) => i.lemma_decode_encode(xlen),
        DecodedInstruction::ORI(i) => i.lemma_decode_encode(xlen),
        DecodedInstruction::ANDI(i) => i.lemma_decode_encode(xlen),
        _ => {},
    }
}

/// The word that encodes a compressed instruction of the first quadrant decodes to it.
#[verifier::rlimit(100)]
proof fn lemma_decode_encode_first_quadrant(inst: DecodedInstruction, xlen: XLEN)
    requires
        inst.canonical(xlen),
        inst is C_ADDI4SPN || inst is C_FLD || inst is C_LQ || inst is C_LW || inst is C_LD
            || inst is C_FSD || inst is C_SQ || inst is C_SW || inst is C_SD,
    ensures
        decode(inst.encode(), xlen) == Ok::<DecodedInstruction, SimError>(inst),
{
    match inst {
        DecodedInstruction::C_ADDI4SPN(i) => i.lemma_decode_encode(xlen),
        DecodedInstruction::C_FLD(i) => i.lemma_decode_encode(xlen),
        DecodedInstruction::C_LQ(i) => i.lemma_decode_encode(xlen),
        DecodedInstruction::C_LW(i) => i.lemma_decode_encode(xlen),
        DecodedInstruction::C_LD(i) => i.lemma_decode_encode(xlen),
        DecodedInstruction::C_FSD(i) => i.lemma_decode_encode(xlen),
        DecodedInstruction::C_SQ(i) => i.lemma_decode_encode(xlen),
        DecodedInstruction::C_SW(i) => i.lemma_decode_encode(xlen),
        DecodedInstruction::C_SD(i) => i.lemma_decode_encode(xlen),
        _ => {},
    }
}

/// The word that encodes a compressed instruction of the second quadrant decodes to it.
#[verifier::rlimit(100)]
proof fn lemma_decode_encode_second_quadrant(inst: DecodedInstruction, xlen: XLEN)
    requires
        inst.canonical(xlen),
        inst is C_NOP || inst is C_ADDI || inst is C_JAL || inst is C_LI || inst is C_SRLI
            || inst is C_SRLI64 || inst is C_SRAI || inst is C_SRAI64 || inst is C_ANDI
            || inst is C_SUB || inst is C_XOR || inst is C_OR || inst is C_AND || inst is C_SUBW
            || inst is C_ADDW || inst is C_J || inst is C_BEQZ || inst is C_BNEZ,
    ensures
        decode(inst.encode(), xlen) == Ok::<DecodedInstruction, SimError>(inst),
{
    match inst {
        DecodedInstruction::C_NOP(i) => i.lemma_decode_encode(xlen),
        DecodedInstruction::C_ADDI(i) => i.lemma_decode_encode(xlen),
        DecodedInstruction::C_JAL(i) => i.lemma_decode_encode(xlen),
        DecodedInstruction::C_LI(i) => i.lemma_decode_encode(xlen),
        DecodedInstruction::C_SRLI(i) => i.lemma_decode_encode(xlen),
        DecodedInstruction::C_SRLI64(i) => i.lemma_decode_encode(xlen),
        DecodedInstruction::C_SRAI(i) => i.lemma_decode_encode(xlen),
        DecodedInstruction::C_SRAI64(i) => i.lemma_decode_encode(xlen),
        DecodedInstruction::C_ANDI(i) => i.lemma_decode_encode(xlen),
        DecodedInstruction::C_SUB(i) => i.lemma_decode_encode(xlen),
        DecodedInstruction::C_XOR(i) => i.lemma_decode_encode(xlen),
        DecodedInstruction::C_OR(i) => i.lemma_decode_encode(xlen),
        DecodedInstruction::C_AND(i) => i.lemma_decode_encode(xlen),
        DecodedInstruction::C_SUBW(i) => i.lemma_decode_encode(xlen),
        DecodedInstruction::C_ADDW(i) => i.lemma_decode_encode(xlen),
        DecodedInstruction::C_J(i) => i.lemma_decode_encode(xlen),
        DecodedInstruction::C_BEQZ(i) => i.lemma_decode_encode(xlen),
        DecodedInstruction::C_BNEZ(i) => i.lemma_decode_encode(xlen),
        _ => {},
    }
}

/// The word that encodes a compressed instruction of the third quadrant decodes to it.
#[verifier::rlimit(100)]
proof fn lemma_decode_encode_third_quadrant(inst: DecodedInstruction, xlen: XLEN)
    requires
        inst.canonical(xlen),
        inst is C_SLLI || inst is C_SLLI64 || inst is C_FLDSP || inst is C_LQSP
            || inst is C_LWSP || inst is C_FLWSP || inst is C_LDSP || inst is C_JR
            || inst is C_MV || inst is C_EBREAK || inst is C_JALR || inst is C_ADD
            || inst is C_FSDSP || inst is C_SQSP || inst is C_SWSP || inst is C_FSWSP
            || inst is C_SDSP,
    ensures
        decode(inst.encode(), xlen) == Ok::<DecodedInstruction, SimError>(inst),
{
    match inst {
        DecodedInstruction::C_SLLI(i) => i.lemma_decode_encode(xlen),
        DecodedInstruction::C_SLLI64(i) => i.lemma_decode_encode(xlen),
        DecodedInstruction::C_FLDSP(i) => i.lemma_decode_encode(xlen),
        DecodedInstruction::C_LQSP(i) => i.lemma_decode_encode(xlen),
        DecodedInstruction::C_LWSP(i) => i.lemma_decode_encode(xlen),
        DecodedInstruction::C_FLWSP(i) => i.lemma_decode_encode(xlen),
        DecodedInstruction::C_LDSP(i) => i.lemma_decode_encode(xlen),
        DecodedInstruction::C_JR(i) => i.lemma_decode_encode(xlen),
        DecodedInstruction::C_MV(i) => i.lemma_decode_encode(xlen),
        DecodedInstruction::C_EBREAK(i) => i.lemma_decode_encode(xlen),
        DecodedInstruction::C_JALR(i) => i.lemma_decode_encode(xlen),
        DecodedInstruction::C_ADD(i) => i.lemma_decode_encode(xlen),
        DecodedInstruction::C_FSDSP(i) => i.lemma_decode_encode(xlen),
        DecodedInstruction::C_SQSP(i) => i.lemma_decode_encode(xlen),
        DecodedInstruction::C_SWSP(i) => i.lemma_decode_encode(xlen),
        DecodedInstruction::C_FSWSP(i) => i.lemma_decode_encode(xlen),
        DecodedInstruction::C_SDSP(i) => i.lemma_decode_encode(xlen),
        _ => {},
    }
}

/// Decoding is the inverse of encoding: the word that encodes an
/// instruction decodes to that instruction, for every instruction whose
/// operands can be encoded and in every width mode in which it exists.
pub proof fn lemma_decode_encode(inst: DecodedInstruction, xlen: XLEN)
    requires
        inst.canonical(xlen),
    ensures
        decode(inst.encode(), xlen) == Ok::<DecodedInstruction, SimError>(inst),
{
    if inst is LUI || inst is AUIPC || inst is JAL || inst is JALR || inst is BEQ || inst is BNE
        || inst is BLT || inst is BGE || inst is BLTU || inst is BGEU || inst is LB
        || inst is ADDI || inst is SLTI || inst is SLTIU || inst is XORI || inst is ORI
        || inst is ANDI {
        lemma_decode_encode_base(inst, xlen);
    } else if inst is C_ADDI4SPN || inst is C_FLD || inst is C_LQ || inst is C_LW || inst is C_LD
        || inst is C_FSD || inst is C_SQ || inst is C_SW || inst is C_SD {
        lemma_decode_encode_first_quadrant(inst, xlen);
    } else if inst is C_NOP || inst is C_ADDI || inst is C_JAL || inst is C_LI || inst is C_SRLI
        || inst is C_SRLI64 || inst is C_SRAI || inst is C_SRAI64 || inst is C_ANDI
        || inst is C_SUB || inst is C_XOR || inst is C_OR || inst is C_AND || inst is C_SUBW
        || inst is C_ADDW || inst is C_J || inst is C_BEQZ || inst is C_BNEZ {
        lemma_decode_encode_second_quadrant(inst, xlen);
    } else {
        lemma_decode_encode_third_quadrant(inst, xlen);
    }
}

/// A 16-bit word is made of its two low bits, the two five-bit fields
/// above them, bit 12 and its three high bits.
proof fn lemma_word_of_fields(inst: u16)
    ensures
        inst == bits(inst as int, 0, 2) + 4 * bits(inst as int, 2, 5) + 128 * bits(
            inst as int,
            7,
            5,
        ) + 4096 * bits(inst as int, 12, 1) + 8192 * bits(inst as int, 13, 3),
{
    lemma_bits_u16(inst, 0, 2);
    lemma_bits_u16(inst, 2, 5);
    lemma_bits_u16(inst, 7, 5);
    lemma_bits_u16(inst, 12, 1);
    lemma_bits_u16(inst, 13, 3);
    assert(inst == ((inst >> 0) & 0x3) + 4 * ((inst >> 2) & 0x1f) + 128 * ((inst >> 7) & 0x1f)
        + 4096 * ((inst >> 12) & 0x1) + 8192 * ((inst >> 13) & 0x7)) by (bit_vector);
}

/// The one word of the second quadrant with every other field zero is 1.
proof fn lemma_nop_word(inst: u16)
    requires
        bits(inst as int, 0, 2) == 0b01,
        bits(inst as int, 2, 5) == 0,
        bits(inst as int, 7, 5) == 0,
        bits(inst as int, 12, 1) == 0,
        bits(inst as int, 13, 3) == 0,
    ensures
        inst == 1,
{
    lemma_word_of_fields(inst);
}

/// The one word of the third quadrant with the function code `100`, bit 12
/// set and both register fields zero is `0x9002`.
proof fn lemma_ebreak_word(inst: u16)
    requires
        bits(inst as int, 0, 2) == 0b10,
        bits(inst as int, 2, 5) == 0,
        bits(inst as int, 7, 5) == 0,
        bits(inst as int, 12, 1) == 1,
        bits(inst as int, 13, 3) == 0b100,
    ensures
        inst == 0x9002,
{
    lemma_word_of_fields(inst);
}

/// A word of the first quadrant decodes to an instruction that can be
/// encoded.
#[verifier::rlimit(100)]
proof fn lemma_decode_c0_canonical(inst: u16, xlen: XLEN)
    ensures
        decode_c0(inst, xlen) matches Ok(decoded) ==> decoded.canonical(xlen),
{
    lemma_register_fields(inst as int);
}

/// A word of the second quadrant decodes to an instruction that can be
/// encoded.
#[verifier::rlimit(100)]
proof fn lemma_decode_c1_canonical(inst: u16, xlen: XLEN)
    requires
        bits(inst as int, 0, 2) == 0b01,
    ensures
        decode_c1(inst, xlen) matches Ok(decoded) ==> decoded.canonical(xlen),
{
    lemma_register_fields(inst as int);
    if bits(inst as int, 13, 3) == 0 && bits(inst as int, 2, 5) == 0 && bits(inst as int, 7, 5)
        == 0 && bits(inst as int, 12, 1) == 0 {
        lemma_nop_word(inst);
    }
}

/// A word of the third quadrant decodes to an instruction that can be
/// encoded.
#[verifier::rlimit(100)]
proof fn lemma_decode_c2_canonical(inst: u16, xlen: XLEN)
    requires
        bits(inst as int, 0, 2) == 0b10,
    ensures
        decode_c2(inst, xlen) matches Ok(decoded) ==> decoded.canonical(xlen),
{
    lemma_register_fields(inst as int);
    if bits(inst as int, 13, 3) == 0b100 && bits(inst as int, 2, 5) == 0 && bits(
        inst as int,
        7,
        5,
    ) == 0 && bits(inst as int, 12, 1) == 1 {
        lemma_ebreak_word(inst);
    }
}

/// A 32-bit word decodes to an instruction that can be encoded.
#[verifier::rlimit(100)]
proof fn lemma_decode32_canonical(inst: u32, xlen: XLEN)
    ensures
        decode32(inst, xlen) matches Ok(decoded) ==> decoded.canonical(xlen),
{
    lemma_register_fields(inst as int);
}

/// The decoder gives only instructions whose operands can be encoded and
/// that exist in the width mode: immediates and offsets are within the range
/// of their format and multiples of its unit, and three-bit register fields
/// name the registers 8 to 15.
pub proof fn lemma_decode_canonical(inst: InstructionRaw, xlen: XLEN)
    ensures
        decode(inst, xlen) matches Ok(decoded) ==> decoded.canonical(xlen),
{
    match inst {
        InstructionRaw::B16(code) => {
            if bits(code as int, 0, 2) == 0b00 {
                lemma_decode_c0_canonical(code, xlen);
            } else if bits(code as int, 0, 2) == 0b01 {
                lemma_decode_c1_canonical(code, xlen);
            } else if bits(code as int, 0, 2) == 0b10 {
                lemma_decode_c2_canonical(code, xlen);
            }
        },
        InstructionRaw::B32(code) => lemma_decode32_canonical(code, xlen),
    }
}

/// A 32-bit word that decodes
/// is the word that encodes what it decodes to.
#[verifier::rlimit(100)]
proof fn lemma_encode_decode_base(word: u32, xlen: XLEN)
    ensures
        decode32(word, xlen) matches Ok(inst) ==> (
            (inst is LUI || inst is AUIPC || inst is JAL || inst is JALR || inst is BEQ
                || inst is BNE || inst is BLT || inst is BGE || inst is BLTU
                || inst is BGEU || inst is LB || inst is ADDI || inst is SLTI
                || inst is SLTIU || inst is XORI || inst is ORI || inst is ANDI)
                ==> inst.encode() == InstructionRaw::B32(word)
        ),
{
    match decode32(word, xlen) {
        Ok(DecodedInstruction::LUI(i)) => i.lemma_encode_decode(word, xlen),
        Ok(DecodedInstruction::AUIPC(i)) => i.lemma_encode_decode(word, xlen),
        Ok(DecodedInstruction::JAL(i)) => i.lemma_encode_decode(word, xlen),
        Ok(DecodedInstruction::JALR(i)) => i.lemma_encode_decode(word, xlen),
        Ok(DecodedInstruction::BEQ(i)) => i.lemma_encode_decode(word, xlen),
        Ok(DecodedInstruction::BNE(i)) => i.lemma_encode_decode(word, xlen),
        Ok(DecodedInstruction::BLT(i)) => i.lemma_encode_decode(word, xlen),
        Ok(DecodedInstruction::BGE(i)) => i.lemma_encode_decode(word, xlen),
        Ok(DecodedInstruction::BLTU(i)) => i.lemma_encode_decode(word, xlen),
        Ok(DecodedInstruction::BGEU(i)) => i.lemma_encode_decode(word, xlen),
        Ok(DecodedInstruction::LB(i)) => i.lemma_encode_decode(word, xlen),
        Ok(DecodedInstruction::ADDI(i)) => i.lemma_encode_decode(word, xlen),
        Ok(DecodedInstruction::SLTI(i)) => i.lemma_encode_decode(word, xlen),
        Ok(DecodedInstruction::SLTIU(i)) => i.lemma_encode_decode(word, xlen),
        Ok(DecodedInstruction::XORI(i)) => i.lemma_encode_decode(word, xlen),
        Ok(DecodedInstruction::ORI(i)) => i.lemma_encode_decode(word, xlen),
        Ok(DecodedInstruction::ANDI(i)) => i.lemma_encode_decode(word, xlen),
        _ => {},
    }
}

/// A word of the first quadrant that decodes
/// is the word that encodes what it decodes to.
#[verifier::rlimit(100)]
proof fn lemma_encode_decode_first_quadrant(word: u16, xlen: XLEN)
    ensures
        decode16(word, xlen) matches Ok(inst) ==> (
            (inst is C_ADDI4SPN || inst is C_FLD || inst is C_LQ || inst is C_LW
                || inst is C_LD || inst is C_FSD || inst is C_SQ || inst is C_SW
                || inst is C_SD)
                ==> inst.encode() == InstructionRaw::B16(word)
        ),
{
    match decode16(word, xlen) {
        Ok(DecodedInstruction::C_ADDI4SPN(i)) => i.lemma_encode_decode(word, xlen),
        Ok(DecodedInstruction::C_FLD(i)) => i.lemma_encode_decode(word, xlen),
        Ok(DecodedInstruction::C_LQ(i)) => i.lemma_encode_decode(word, xlen),
        Ok(DecodedInstruction::C_LW(i)) => i.lemma_encode_decode(word, xlen),
        Ok(DecodedInstruction::C_LD(i)) => i.lemma_encode_decode(word, xlen),
        Ok(DecodedInstruction::C_FSD(i)) => i.lemma_encode_decode(word, xlen),
        Ok(DecodedInstruction::C_SQ(i)) => i.lemma_encode_decode(word, xlen),
        Ok(DecodedInstruction::C_SW(i)) => i.lemma_encode_decode(word, xlen),
        Ok(DecodedInstruction::C_SD(i)) => i.lemma_encode_decode(word, xlen),
        _ => {},
    }
}

/// A word of the second quadrant with a function code below `100` that decodes
/// is the word that encodes what it decodes to.
#[verifier::rlimit(100)]
proof fn lemma_encode_decode_second_quadrant_low(word: u16, xlen: XLEN)
    ensures
        decode16(word, xlen) matches Ok(inst) ==> (
            (inst is C_NOP || inst is C_ADDI || inst is C_JAL || inst is C_LI)
                ==> inst.encode() == InstructionRaw::B16(word)
        ),
{
    match decode16(word, xlen) {
        Ok(DecodedInstruction::C_NOP(i)) => i.lemma_encode_decode(word, xlen),
        Ok(DecodedInstruction::C_ADDI(i)) => i.lemma_encode_decode(word, xlen),
        Ok(DecodedInstruction::C_JAL(i)) => i.lemma_encode_decode(word, xlen),
        Ok(DecodedInstruction::C_LI(i)) => i.lemma_encode_decode(word, xlen),
        _ => {},
    }
}

/// A word of the second quadrant with the function code `100` that decodes
/// is the word that encodes what it decodes to.
#[verifier::rlimit(100)]
proof fn lemma_encode_decode_second_quadrant_alu(word: u16, xlen: XLEN)
    ensures
        decode16(word, xlen) matches Ok(inst) ==> (
            (inst is C_SRLI || inst is C_SRLI64 || inst is C_SRAI || inst is C_SRAI64
                || inst is C_ANDI || inst is C_SUB || inst is C_XOR || inst is C_OR
                || inst is C_AND || inst is C_SUBW || inst is C_ADDW)
                ==> inst.encode() == InstructionRaw::B16(word)
        ),
{
    match decode16(word, xlen) {
        Ok(DecodedInstruction::C_SRLI(i)) => i.lemma_encode_decode(word, xlen),
        Ok(DecodedInstruction::C_SRLI64(i)) => i.lemma_encode_decode(word, xlen),
        Ok(DecodedInstruction::C_SRAI(i)) => i.lemma_encode_decode(word, xlen),
        Ok(DecodedInstruction::C_SRAI64(i)) => i.lemma_encode_decode(word, xlen),
        Ok(DecodedInstruction::C_ANDI(i)) => i.lemma_encode_decode(word, xlen),
        Ok(DecodedInstruction::C_SUB(i)) => i.lemma_encode_decode(word, xlen),
        Ok(DecodedInstruction::C_XOR(i)) => i.lemma_encode_decode(word, xlen),
        Ok(DecodedInstruction::C_OR(i)) => i.lemma_encode_decode(word, xlen),
        Ok(DecodedInstruction::C_AND(i)) => i.lemma_encode_decode(word, xlen),
        Ok(DecodedInstruction::C_SUBW(i)) => i.lemma_encode_decode(word, xlen),
        Ok(DecodedInstruction::C_ADDW(i)) => i.lemma_encode_decode(word, xlen),
        _ => {},
    }
}

/// A word of the second quadrant with a function code above `100` that decodes
/// is the word that encodes what it decodes to.
#[verifier::rlimit(100)]
proof fn lemma_encode_decode_second_quadrant_high(word: u16, xlen: XLEN)
    ensures
        decode16(word, xlen) matches Ok(inst) ==> (
            (inst is C_J || inst is C_BEQZ || inst is C_BNEZ)
                ==> inst.encode() == InstructionRaw::B16(word)
        ),
{
    match decode16(word, xlen) {
        Ok(DecodedInstruction::C_J(i)) => i.lemma_encode_decode(word, xlen),
        Ok(DecodedInstruction::C_BEQZ(i)) => i.lemma_encode_decode(word, xlen),
        Ok(DecodedInstruction::C_BNEZ(i)) => i.lemma_encode_decode(word, xlen),
        _ => {},
    }
}

/// A word of the third quadrant with a function code below `100` that decodes
/// is the word that encodes what it decodes to.
#[verifier::rlimit(100)]
proof fn lemma_encode_decode_third_quadrant_low(word: u16, xlen: XLEN)
    ensures
        decode16(word, xlen) matches Ok(inst) ==> (
            (inst is C_SLLI || inst is C_SLLI64 || inst is C_FLDSP || inst is C_LQSP
                || inst is C_LWSP || inst is C_FLWSP || inst is C_LDSP)
                ==> inst.encode() == InstructionRaw::B16(word)
        ),
{
    match decode16(word, xlen) {
        Ok(DecodedInstruction::C_SLLI(i)) => i.lemma_encode_decode(word, xlen),
        Ok(DecodedInstruction::C_SLLI64(i)) => i.lemma_encode_decode(word, xlen),
        Ok(DecodedInstruction::C_FLDSP(i)) => i.lemma_encode_decode(word, xlen),
        Ok(DecodedInstruction::C_LQSP(i)) => i.lemma_encode_decode(word, xlen),
        Ok(DecodedInstruction::C_LWSP(i)) => i.lemma_encode_decode(word, xlen),
        Ok(DecodedInstruction::C_FLWSP(i)) => i.lemma_encode_decode(word, xlen),
        Ok(DecodedInstruction::C_LDSP(i)) => i.lemma_encode_decode(word, xlen),
        _ => {},
    }
}

/// A word of the third quadrant with the function code `100` that decodes
/// is the word that encodes what it decodes to.
#[verifier::rlimit(100)]
proof fn lemma_encode_decode_third_quadrant_jump(word: u16, xlen: XLEN)
    ensures
        decode16(word, xlen) matches Ok(inst) ==> (
            (inst is C_JR || inst is C_MV || inst is C_EBREAK || inst is C_JALR
                || inst is C_ADD)
                ==> inst.encode() == InstructionRaw::B16(word)
        ),
{
    match decode16(word, xlen) {
        Ok(DecodedInstruction::C_JR(i)) => i.lemma_encode_decode(word, xlen),
        Ok(DecodedInstruction::C_MV(i)) => i.lemma_encode_decode(word, xlen),
        Ok(DecodedInstruction::C_EBREAK(i)) => i.lemma_encode_decode(word, xlen),
        Ok(DecodedInstruction::C_JALR(i)) => i.lemma_encode_decode(word, xlen),
        Ok(DecodedInstruction::C_ADD(i)) => i.lemma_encode_decode(word, xlen),
        _ => {},
    }
}

/// A word of the third quadrant with a function code above `100` that decodes
/// is the word that encodes what it decodes to.
#[verifier::rlimit(100)]
proof fn lemma_encode_decode_third_quadrant_high(word: u16, xlen: XLEN)
    ensures
        decode16(word, xlen) matches Ok(inst) ==> (
            (inst is C_FSDSP || inst is C_SQSP || inst is C_SWSP || inst is C_FSWSP
                || inst is C_SDSP)
                ==> inst.encode() == InstructionRaw::B16(word)
        ),
{
    match decode16(word, xlen) {
        Ok(DecodedInstruction::C_FSDSP(i)) => i.lemma_encode_decode(word, xlen),
        Ok(DecodedInstruction::C_SQSP(i)) => i.lemma_encode_decode(word, xlen),
        Ok(DecodedInstruction::C_SWSP(i)) => i.lemma_encode_decode(word, xlen),
        Ok(DecodedInstruction::C_FSWSP(i)) => i.lemma_encode_decode(word, xlen),
        Ok(DecodedInstruction::C_SDSP(i)) => i.lemma_encode_decode(word, xlen),
        _ => {},
    }
}

/// Encoding is the inverse of decoding: a word that decodes to an
/// instruction is the word that encodes that instruction. With the law
/// above, the decoder and the encoder are one-to-one between the words that
/// decode and the instructions that can be encoded.
pub proof fn lemma_encode_decode(raw: InstructionRaw, xlen: XLEN)
    ensures
        decode(raw, xlen) matches Ok(inst) ==> inst.encode() == raw,
{
    match raw {
        InstructionRaw::B16(code) => {
            lemma_encode_decode_first_quadrant(code, xlen);
            lemma_encode_decode_second_quadrant_low(code, xlen);
            lemma_encode_decode_second_quadrant_alu(code, xlen);
            lemma_encode_decode_second_quadrant_high(code, xlen);
            lemma_encode_decode_third_quadrant_low(code, xlen);
            lemma_encode_decode_third_quadrant_jump(code, xlen);
            lemma_encode_decode_third_quadrant_high(code, xlen);
        },
        InstructionRaw::B32(code) => lemma_encode_decode_base(code, xlen),
    }
}

} // verus!
