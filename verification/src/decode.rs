//! From raw bytes to instructions: the length of an encoding, the fetch of
//! a raw instruction from a byte image, and the decode trees of the 16-bit
//! and 32-bit encodings.

use vstd::prelude::*;
use crate::error::SimError;
use crate::instructions::DecodedInstruction;
use crate::instructions::rv32i::{
    ADDI, ANDI, AUIPC, BEQ, BGE, BGEU, BLT, BLTU, BNE, JAL, JALR, LB, LUI, ORI, SLTI, SLTIU, XORI,
};
use crate::instructions::rvc::{
    ci_shamt, ciw_imm, C_ADD, C_ADDI, C_ADDI4SPN, C_ADDW, C_AND, C_ANDI, C_BEQZ, C_BNEZ, C_EBREAK,
    C_FLD, C_FLDSP, C_FLWSP, C_FSD, C_FSDSP, C_FSWSP, C_J, C_JAL, C_JALR, C_JR, C_LD, C_LDSP, C_LI,
    C_LQ, C_LQSP, C_LW, C_LWSP, C_MV, C_NOP, C_OR, C_SD, C_SDSP, C_SLLI, C_SLLI64, C_SQ, C_SQSP,
    C_SRAI, C_SRAI64, C_SRLI, C_SRLI64, C_SUB, C_SUBW, C_SW, C_SWSP, C_XOR,
};
use crate::processor::{State, XLEN};
use crate::utils::{bits, x};

verus! {

/// A raw instruction as it was fetched: a 16-bit or a 32-bit word.
#[derive(Clone, Copy, Debug, PartialEq, Eq, Structural)]
pub enum InstructionRaw {
    B16(u16),
    B32(u32),
}

/// The length in bytes of the instruction whose first 16 bits are `base`.
/// The first rule that applies gives the length:
/// the two low bits are not `11`: 2;
/// bits 2 to 4 are not `111`: 4;
/// bit 5 is clear: 6;
/// bit 6 is clear: 8;
/// bits 12 to 14 are not `111`: 10 plus twice their value;
/// otherwise 26.
pub open spec fn length_of(base: u16) -> int {
    if bits(base as int, 0, 2) != 0b11 {
        2
    } else if bits(base as int, 2, 3) != 0b111 {
        4
    } else if bits(base as int, 5, 1) == 0 {
        6
    } else if bits(base as int, 6, 1) == 0 {
        8
    } else if bits(base as int, 12, 3) != 0b111 {
        10 + 2 * bits(base as int, 12, 3)
    } else {
        26
    }
}

/// The 16-bit word whose low byte is `low`.
pub open spec fn halfword(low: u8, high: u8) -> u16 {
    (low + 0x100 * high) as u16
}

/// The 32-bit word of four bytes, lowest first.
pub open spec fn word(b0: u8, b1: u8, b2: u8, b3: u8) -> u32 {
    (b0 + 0x100 * b1 + 0x1_0000 * b2 + 0x100_0000 * b3) as u32
}

/// The raw instruction that starts at index `pos` of the byte image `code`,
/// read in little-endian order. The two bytes at `pos` give the length. A
/// length of 2 or 4 gives the word of that many bytes; a greater length is
/// not supported; bytes beyond the end of the image are not mapped.
pub open spec fn raw_at(code: Seq<u8>, pos: int) -> Result<InstructionRaw, SimError> {
    if pos + 2 > code.len() {
        Err(SimError::UnmappedMemory)
    } else {
        let base = halfword(code[pos], code[pos + 1]);
        if length_of(base) == 2 {
            Ok(InstructionRaw::B16(base))
        } else if length_of(base) == 4 {
            if pos + 4 > code.len() {
                Err(SimError::UnmappedMemory)
            } else {
                Ok(
                    InstructionRaw::B32(
                        word(code[pos], code[pos + 1], code[pos + 2], code[pos + 3]),
                    ),
                )
            }
        } else {
            Err(SimError::UnsupportedLength)
        }
    }
}

impl InstructionRaw {
    /// Whether the word announces the length of its own container: 2 bytes
    /// for a 16-bit word and 4 bytes for a 32-bit word.
    pub open spec fn well_formed(self) -> bool {
        match self {
            InstructionRaw::B16(code) => length_of(code) == 2,
            InstructionRaw::B32(code) => length_of((code % 0x1_0000) as u16) == 4,
        }
    }

    /// Fetches the raw instruction that starts at index `pos` of `code`.
    pub fn get_inst(code: &[u8], pos: usize) -> (r: Result<InstructionRaw, SimError>)
        ensures
            r == raw_at(code@, pos as int),
    {
        let n = code.len();
        if n < 2 || pos > n - 2 {
            return Err(SimError::UnmappedMemory);
        }
        let base: u16 = code[pos] as u16 + code[pos + 1] as u16 * 256;
        let length = Self::inst_length(base);
        if length == 2 {
            Ok(InstructionRaw::B16(base))
        } else if length == 4 {
            if n < 4 || pos > n - 4 {
                return Err(SimError::UnmappedMemory);
            }
            let high: u32 = code[pos + 2] as u32 + code[pos + 3] as u32 * 256;
            Ok(InstructionRaw::B32(base as u32 + high * 65536))
        } else {
            Err(SimError::UnsupportedLength)
        }
    }

    /// The length in bytes of the instruction whose first 16 bits are `base`.
    pub fn inst_length(base: u16) -> (r: usize)
        ensures
            r == length_of(base),
            r == 2 || r == 4 || r == 6 || r == 8 || (10 <= r <= 22 && r % 2 == 0) || r == 26,
            bits(base as int, 0, 2) != 0b11 ==> r == 2,
            bits(base as int, 0, 2) == 0b11 && bits(base as int, 2, 3) != 0b111 ==> r == 4,
    {
        if x(base, 0, 2) != 0b11 {
            2
        } else if x(base, 2, 3) != 0b111 {
            4
        } else if x(base, 5, 1) == 0 {
            6
        } else if x(base, 6, 1) == 0 {
            8
        } else if x(base, 12, 3) != 0b111 {
            10 + x(base, 12, 3) as usize * 2
        } else {
            26
        }
    }
}

/// What a 16-bit word of the first quadrant (low bits `00`) decodes to.
pub open spec fn decode_c0(inst: u16, xlen: XLEN) -> Result<DecodedInstruction, SimError> {
    let funct3 = bits(inst as int, 13, 3);
    if funct3 == 0b000 {
        if inst == 0 {
            Err(SimError::IllegalInstruction)
        } else if ciw_imm(inst) == 0 {
            Err(SimError::ReservedEncoding)
        } else {
            Ok(DecodedInstruction::C_ADDI4SPN(C_ADDI4SPN::from_word(inst)))
        }
    } else if funct3 == 0b001 {
        if xlen == XLEN::RV128 {
            Ok(DecodedInstruction::C_LQ(C_LQ::from_word(inst)))
        } else {
            Ok(DecodedInstruction::C_FLD(C_FLD::from_word(inst)))
        }
    } else if funct3 == 0b010 {
        Ok(DecodedInstruction::C_LW(C_LW::from_word(inst)))
    } else if funct3 == 0b011 {
        if xlen == XLEN::RV32 {
            Err(SimError::UnimplementedInstruction)
        } else {
            Ok(DecodedInstruction::C_LD(C_LD::from_word(inst)))
        }
    } else if funct3 == 0b100 {
        Err(SimError::ReservedEncoding)
    } else if funct3 == 0b101 {
        if xlen == XLEN::RV128 {
            Ok(DecodedInstruction::C_SQ(C_SQ::from_word(inst)))
        } else {
            Ok(DecodedInstruction::C_FSD(C_FSD::from_word(inst)))
        }
    } else if funct3 == 0b110 {
        Ok(DecodedInstruction::C_SW(C_SW::from_word(inst)))
    } else {
        if xlen == XLEN::RV32 {
            Err(SimError::UnimplementedInstruction)
        } else {
            Ok(DecodedInstruction::C_SD(C_SD::from_word(inst)))
        }
    }
}

/// What a 16-bit word of the second quadrant (low bits `01`) decodes to.
pub open spec fn decode_c1(inst: u16, xlen: XLEN) -> Result<DecodedInstruction, SimError> {
    let funct3 = bits(inst as int, 13, 3);
    if funct3 == 0b000 {
        if inst == 1 {
            Ok(DecodedInstruction::C_NOP(C_NOP::from_word(inst)))
        } else {
            Ok(DecodedInstruction::C_ADDI(C_ADDI::from_word(inst)))
        }
    } else if funct3 == 0b001 {
        if xlen == XLEN::RV32 {
            Ok(DecodedInstruction::C_JAL(C_JAL::from_word(inst)))
        } else {
            Err(SimError::UnimplementedInstruction)
        }
    } else if funct3 == 0b010 {
        Ok(DecodedInstruction::C_LI(C_LI::from_word(inst)))
    } else if funct3 == 0b011 {
        Err(SimError::UnimplementedInstruction)
    } else if funct3 == 0b100 {
        decode_c1_alu(inst, xlen)
    } else if funct3 == 0b101 {
        Ok(DecodedInstruction::C_J(C_J::from_word(inst)))
    } else if funct3 == 0b110 {
        Ok(DecodedInstruction::C_BEQZ(C_BEQZ::from_word(inst)))
    } else {
        Ok(DecodedInstruction::C_BNEZ(C_BNEZ::from_word(inst)))
    }
}

/// What a word of the second quadrant with the function code `100` decodes
/// to: bits 10 to 11 select a shift, the and with an immediate, or the
/// register operations, which bits 5 to 6 and bit 12 tell apart.
pub open spec fn decode_c1_alu(inst: u16, xlen: XLEN) -> Result<DecodedInstruction, SimError> {
    let kind = bits(inst as int, 10, 2);
    let op = bits(inst as int, 5, 2);
    let wide = bits(inst as int, 12, 1);
    if kind == 0b00 || kind == 0b01 {
        if xlen == XLEN::RV32 && wide == 1 {
            Err(SimError::ReservedEncoding)
        } else if kind == 0b00 {
            if ci_shamt(inst) == 0 {
                Ok(DecodedInstruction::C_SRLI64(C_SRLI64::from_word(inst)))
            } else {
                Ok(DecodedInstruction::C_SRLI(C_SRLI::from_word(inst)))
            }
        } else {
            if ci_shamt(inst) == 0 {
                Ok(DecodedInstruction::C_SRAI64(C_SRAI64::from_word(inst)))
            } else {
                Ok(DecodedInstruction::C_SRAI(C_SRAI::from_word(inst)))
            }
        }
    } else if kind == 0b10 {
        Ok(DecodedInstruction::C_ANDI(C_ANDI::from_word(inst)))
    } else if wide == 0 {
        if op == 0b00 {
            Ok(DecodedInstruction::C_SUB(C_SUB::from_word(inst)))
        } else if op == 0b01 {
            Ok(DecodedInstruction::C_XOR(C_XOR::from_word(inst)))
        } else if op == 0b10 {
            Ok(DecodedInstruction::C_OR(C_OR::from_word(inst)))
        } else {
            Ok(DecodedInstruction::C_AND(C_AND::from_word(inst)))
        }
    } else {
        if xlen == XLEN::RV32 || op == 0b10 || op == 0b11 {
            Err(SimError::ReservedEncoding)
        } else if op == 0b00 {
            Ok(DecodedInstruction::C_SUBW(C_SUBW::from_word(inst)))
        } else {
            Ok(DecodedInstruction::C_ADDW(C_ADDW::from_word(inst)))
        }
    }
}

/// What a 16-bit word of the third quadrant (low bits `10`) decodes to.
pub open spec fn decode_c2(inst: u16, xlen: XLEN) -> Result<DecodedInstruction, SimError> {
    let funct3 = bits(inst as int, 13, 3);
    let rs2 = bits(inst as int, 2, 5);
    let rd = bits(inst as int, 7, 5);
    let flag = bits(inst as int, 12, 1);
    if funct3 == 0b000 {
        if xlen == XLEN::RV32 && flag == 1 {
            Err(SimError::ReservedEncoding)
        } else if ci_shamt(inst) == 0 {
            Ok(DecodedInstruction::C_SLLI64(C_SLLI64::from_word(inst)))
        } else {
            Ok(DecodedInstruction::C_SLLI(C_SLLI::from_word(inst)))
        }
    } else if funct3 == 0b001 {
        if xlen != XLEN::RV128 {
            Ok(DecodedInstruction::C_FLDSP(C_FLDSP::from_word(inst)))
        } else if rd == 0 {
            Err(SimError::ReservedEncoding)
        } else {
            Ok(DecodedInstruction::C_LQSP(C_LQSP::from_word(inst)))
        }
    } else if funct3 == 0b010 {
        if rd == 0 {
            Err(SimError::ReservedEncoding)
        } else {
            Ok(DecodedInstruction::C_LWSP(C_LWSP::from_word(inst)))
        }
    } else if funct3 == 0b011 {
        if xlen == XLEN::RV32 {
            Ok(DecodedInstruction::C_FLWSP(C_FLWSP::from_word(inst)))
        } else if rd == 0 {
            Err(SimError::ReservedEncoding)
        } else {
            Ok(DecodedInstruction::C_LDSP(C_LDSP::from_word(inst)))
        }
    } else if funct3 == 0b100 {
        if flag == 0 {
            if rs2 != 0 {
                Ok(DecodedInstruction::C_MV(C_MV::from_word(inst)))
            } else if rd == 0 {
                Err(SimError::ReservedEncoding)
            } else {
                Ok(DecodedInstruction::C_JR(C_JR::from_word(inst)))
            }
        } else {
            if rs2 != 0 {
                Ok(DecodedInstruction::C_ADD(C_ADD::from_word(inst)))
            } else if rd == 0 {
                Ok(DecodedInstruction::C_EBREAK(C_EBREAK::from_word(inst)))
            } else {
                Ok(DecodedInstruction::C_JALR(C_JALR::from_word(inst)))
            }
        }
    } else if funct3 == 0b101 {
        if xlen == XLEN::RV128 {
            Ok(DecodedInstruction::C_SQSP(C_SQSP::from_word(inst)))
        } else {
            Ok(DecodedInstruction::C_FSDSP(C_FSDSP::from_word(inst)))
        }
    } else if funct3 == 0b110 {
        Ok(DecodedInstruction::C_SWSP(C_SWSP::from_word(inst)))
    } else {
        if xlen == XLEN::RV32 {
            Ok(DecodedInstruction::C_FSWSP(C_FSWSP::from_word(inst)))
        } else {
            Ok(DecodedInstruction::C_SDSP(C_SDSP::from_word(inst)))
        }
    }
}

/// What a 16-bit word decodes to: the two low bits select the quadrant. A
/// word with the low bits `11` is the start of a longer instruction.
pub open spec fn decode16(inst: u16, xlen: XLEN) -> Result<DecodedInstruction, SimError> {
    let quadrant = bits(inst as int, 0, 2);
    if quadrant == 0b00 {
        decode_c0(inst, xlen)
    } else if quadrant == 0b01 {
        decode_c1(inst, xlen)
    } else if quadrant == 0b10 {
        decode_c2(inst, xlen)
    } else {
        Err(SimError::UnsupportedLength)
    }
}

/// What a word of the load group decodes to, by bits 12 to 14.
pub open spec fn decode_load(inst: u32) -> Result<DecodedInstruction, SimError> {
    if bits(inst as int, 12, 3) == 0b000 {
        Ok(DecodedInstruction::LB(LB::from_word(inst)))
    } else {
        Err(SimError::UnimplementedInstruction)
    }
}

/// What a word of the group of operations with an immediate decodes to, by
/// bits 12 to 14.
pub open spec fn decode_op_imm(inst: u32) -> Result<DecodedInstruction, SimError> {
    let funct3 = bits(inst as int, 12, 3);
    if funct3 == 0b000 {
        Ok(DecodedInstruction::ADDI(ADDI::from_word(inst)))
    } else if funct3 == 0b010 {
        Ok(DecodedInstruction::SLTI(SLTI::from_word(inst)))
    } else if funct3 == 0b011 {
        Ok(DecodedInstruction::SLTIU(SLTIU::from_word(inst)))
    } else if funct3 == 0b100 {
        Ok(DecodedInstruction::XORI(XORI::from_word(inst)))
    } else if funct3 == 0b110 {
        Ok(DecodedInstruction::ORI(ORI::from_word(inst)))
    } else if funct3 == 0b111 {
        Ok(DecodedInstruction::ANDI(ANDI::from_word(inst)))
    } else {
        Err(SimError::UnimplementedInstruction)
    }
}

/// What a word of the branch group decodes to, by bits 12 to 14.
pub open spec fn decode_branch(inst: u32) -> Result<DecodedInstruction, SimError> {
    let funct3 = bits(inst as int, 12, 3);
    if funct3 == 0b000 {
        Ok(DecodedInstruction::BEQ(BEQ::from_word(inst)))
    } else if funct3 == 0b001 {
        Ok(DecodedInstruction::BNE(BNE::from_word(inst)))
    } else if funct3 == 0b100 {
        Ok(DecodedInstruction::BLT(BLT::from_word(inst)))
    } else if funct3 == 0b101 {
        Ok(DecodedInstruction::BGE(BGE::from_word(inst)))
    } else if funct3 == 0b110 {
        Ok(DecodedInstruction::BLTU(BLTU::from_word(inst)))
    } else if funct3 == 0b111 {
        Ok(DecodedInstruction::BGEU(BGEU::from_word(inst)))
    } else {
        Err(SimError::UnimplementedInstruction)
    }
}

/// What a 32-bit word decodes to. The low 16 bits must announce a length of
/// four bytes; then bits 2 to 6 select the group.
pub open spec fn decode32(inst: u32, xlen: XLEN) -> Result<DecodedInstruction, SimError> {
    let opcode = bits(inst as int, 2, 5);
    if bits(inst as int, 0, 2) != 0b11 || bits(inst as int, 2, 3) == 0b111 {
        Err(SimError::UnsupportedLength)
    } else if opcode == 0x00 {
        decode_load(inst)
    } else if opcode == 0x04 {
        decode_op_imm(inst)
    } else if opcode == 0x05 {
        Ok(DecodedInstruction::AUIPC(AUIPC::from_word(inst)))
    } else if opcode == 0x0d {
        Ok(DecodedInstruction::LUI(LUI::from_word(inst)))
    } else if opcode == 0x18 {
        decode_branch(inst)
    } else if opcode == 0x19 {
        if bits(inst as int, 12, 3) == 0b000 {
            Ok(DecodedInstruction::JALR(JALR::from_word(inst)))
        } else {
            Err(SimError::UnimplementedInstruction)
        }
    } else if opcode == 0x1b {
        Ok(DecodedInstruction::JAL(JAL::from_word(inst)))
    } else {
        Err(SimError::UnimplementedInstruction)
    }
}

/// What a raw instruction decodes to in the width mode `xlen`.
pub open spec fn decode(inst: InstructionRaw, xlen: XLEN) -> Result<DecodedInstruction, SimError> {
    match inst {
        InstructionRaw::B16(code) => decode16(code, xlen),
        InstructionRaw::B32(code) => decode32(code, xlen),
    }
}

/// The raw instruction that is fetched from a byte image is well-formed.
pub proof fn lemma_raw_at_well_formed(code: Seq<u8>, pos: int)
    requires
        0 <= pos,
    ensures
        raw_at(code, pos) matches Ok(raw) ==> raw.well_formed(),
{
}

/// Whether `r` is an instruction of `length` bytes or one of the three
/// failures that say what is wrong with a word of the right length.
pub open spec fn decoded_or_refused(r: Result<DecodedInstruction, SimError>, length: int) -> bool {
    match r {
        Ok(decoded) => decoded.encoded_length() == length,
        Err(e) => e == SimError::IllegalInstruction || e == SimError::ReservedEncoding || e
            == SimError::UnimplementedInstruction,
    }
}

proof fn lemma_decode_c0_total(inst: u16, xlen: XLEN)
    ensures
        decoded_or_refused(decode_c0(inst, xlen), 2),
{
}

proof fn lemma_decode_c1_total(inst: u16, xlen: XLEN)
    ensures
        decoded_or_refused(decode_c1(inst, xlen), 2),
{
}

proof fn lemma_decode_c2_total(inst: u16, xlen: XLEN)
    ensures
        decoded_or_refused(decode_c2(inst, xlen), 2),
{
}

/// A 16-bit word that announces a length of two bytes decodes to a
/// compressed instruction, or it is illegal, reserved or unimplemented. Any
/// other 16-bit word is of an unsupported length.
pub proof fn lemma_decode16_total(inst: u16, xlen: XLEN)
    ensures
        length_of(inst) == 2 ==> decoded_or_refused(decode16(inst, xlen), 2),
        length_of(inst) != 2 ==> decode16(inst, xlen) == Err::<DecodedInstruction, SimError>(
            SimError::UnsupportedLength,
        ),
{
    lemma_decode_c0_total(inst, xlen);
    lemma_decode_c1_total(inst, xlen);
    lemma_decode_c2_total(inst, xlen);
}

/// A 32-bit word whose low half announces a length of four bytes decodes
/// to an instruction of four bytes, or it is illegal, reserved or
/// unimplemented. Any other 32-bit word is of an unsupported length.
pub proof fn lemma_decode32_total(inst: u32, xlen: XLEN)
    ensures
        length_of((inst % 0x1_0000) as u16) == 4 ==> decoded_or_refused(decode32(inst, xlen), 4),
        length_of((inst % 0x1_0000) as u16) != 4 ==> decode32(inst, xlen) == Err::<
            DecodedInstruction,
            SimError,
        >(SimError::UnsupportedLength),
{
    let low: u32 = inst % 0x1_0000;
    assert(low % 4 == inst % 4 && (low / 4) % 8 == (inst / 4) % 8) by (bit_vector)
        requires
            low == inst % 0x1_0000,
    ;
    assert(decoded_or_refused(decode_load(inst), 4));
    assert(decoded_or_refused(decode_op_imm(inst), 4));
    assert(decoded_or_refused(decode_branch(inst), 4));
}

/// Decoding is total: a well-formed word decodes to an instruction as long
/// as the word, or it is illegal, reserved or unimplemented; a word that
/// is not well-formed is of an unsupported length. No word fails for want
/// of memory or with a message.
pub proof fn lemma_decode_total(inst: InstructionRaw, xlen: XLEN)
    ensures
        inst.well_formed() ==> decoded_or_refused(
            decode(inst, xlen),
            match inst {
                InstructionRaw::B16(_) => 2,
                InstructionRaw::B32(_) => 4,
            },
        ),
        !inst.well_formed() ==> decode(inst, xlen) == Err::<DecodedInstruction, SimError>(
            SimError::UnsupportedLength,
        ),
{
    match inst {
        InstructionRaw::B16(code) => lemma_decode16_total(code, xlen),
        InstructionRaw::B32(code) => lemma_decode32_total(code, xlen),
    }
}

/// Decodes a 16-bit word of the first quadrant (low bits `00`).
pub fn decode_inst_c0(inst: u16, xlen: XLEN) -> (r: Result<DecodedInstruction, SimError>)
    ensures
        r == decode_c0(inst, xlen),
{
    let funct3 = x(inst, 13, 3);
    match funct3 {
        0b000 => {
            if inst == 0 {
                Err(SimError::IllegalInstruction)
            } else if x(inst, 5, 8) == 0 {
                Err(SimError::ReservedEncoding)
            } else {
                Ok(DecodedInstruction::C_ADDI4SPN(C_ADDI4SPN::new(inst)))
            }
        },
        0b001 => match xlen {
            XLEN::RV32 | XLEN::RV64 => Ok(DecodedInstruction::C_FLD(C_FLD::new(inst))),
            XLEN::RV128 => Ok(DecodedInstruction::C_LQ(C_LQ::new(inst))),
        },
        0b010 => Ok(DecodedInstruction::C_LW(C_LW::new(inst))),
        0b011 => match xlen {
            XLEN::RV32 => Err(SimError::UnimplementedInstruction),
            XLEN::RV64 | XLEN::RV128 => Ok(DecodedInstruction::C_LD(C_LD::new(inst))),
        },
        0b100 => Err(SimError::ReservedEncoding),
        0b101 => match xlen {
            XLEN::RV32 | XLEN::RV64 => Ok(DecodedInstruction::C_FSD(C_FSD::new(inst))),
            XLEN::RV128 => Ok(DecodedInstruction::C_SQ(C_SQ::new(inst))),
        },
        0b110 => Ok(DecodedInstruction::C_SW(C_SW::new(inst))),
        _ => match xlen {
            XLEN::RV32 => Err(SimError::UnimplementedInstruction),
            XLEN::RV64 | XLEN::RV128 => Ok(DecodedInstruction::C_SD(C_SD::new(inst))),
        },
    }
}

/// Decodes a word of the second quadrant with the function code `100`.
pub fn decode_inst_c1_alu(inst: u16, xlen: XLEN) -> (r: Result<DecodedInstruction, SimError>)
    ensures
        r == decode_c1_alu(inst, xlen),
{
    let flag1 = x(inst, 5, 2);
    let flag2 = x(inst, 10, 2);
    let flag3 = x(inst, 12, 1);
    match flag2 {
        0b00 | 0b01 => {
            let by_64 = x(inst, 2, 5) == 0 && flag3 == 0;
            match (xlen, flag3) {
                (XLEN::RV32, 1) => Err(SimError::ReservedEncoding),
                _ => match (flag2, by_64) {
                    (0b00, true) => Ok(DecodedInstruction::C_SRLI64(C_SRLI64::new(inst))),
                    (0b00, false) => Ok(DecodedInstruction::C_SRLI(C_SRLI::new(inst))),
                    (_, true) => Ok(DecodedInstruction::C_SRAI64(C_SRAI64::new(inst))),
                    (_, false) => Ok(DecodedInstruction::C_SRAI(C_SRAI::new(inst))),
                },
            }
        },
        0b10 => Ok(DecodedInstruction::C_ANDI(C_ANDI::new(inst))),
        _ => match (flag1, flag3) {
            (0b00, 0) => Ok(DecodedInstruction::C_SUB(C_SUB::new(inst))),
            (0b01, 0) => Ok(DecodedInstruction::C_XOR(C_XOR::new(inst))),
            (0b10, 0) => Ok(DecodedInstruction::C_OR(C_OR::new(inst))),
            (_, 0) => Ok(DecodedInstruction::C_AND(C_AND::new(inst))),
            (0b00, _) => match xlen {
                XLEN::RV32 => Err(SimError::ReservedEncoding),
                XLEN::RV64 | XLEN::RV128 => Ok(DecodedInstruction::C_SUBW(C_SUBW::new(inst))),
            },
            (0b01, _) => match xlen {
                XLEN::RV32 => Err(SimError::ReservedEncoding),
                XLEN::RV64 | XLEN::RV128 => Ok(DecodedInstruction::C_ADDW(C_ADDW::new(inst))),
            },
            (_, _) => Err(SimError::ReservedEncoding),
        },
    }
}

/// Decodes a 16-bit word of the second quadrant (low bits `01`).
pub fn decode_inst_c1(inst: u16, xlen: XLEN) -> (r: Result<DecodedInstruction, SimError>)
    ensures
        r == decode_c1(inst, xlen),
{
    let funct3 = x(inst, 13, 3);
    match funct3 {
        0b000 => {
            if inst == 1 {
                Ok(DecodedInstruction::C_NOP(C_NOP::new(inst)))
            } else {
                Ok(DecodedInstruction::C_ADDI(C_ADDI::new(inst)))
            }
        },
        0b001 => match xlen {
            XLEN::RV32 => Ok(DecodedInstruction::C_JAL(C_JAL::new(inst))),
            XLEN::RV64 | XLEN::RV128 => Err(SimError::UnimplementedInstruction),
        },
        0b010 => Ok(DecodedInstruction::C_LI(C_LI::new(inst))),
        0b011 => Err(SimError::UnimplementedInstruction),
        0b100 => decode_inst_c1_alu(inst, xlen),
        0b101 => Ok(DecodedInstruction::C_J(C_J::new(inst))),
        0b110 => Ok(DecodedInstruction::C_BEQZ(C_BEQZ::new(inst))),
        _ => Ok(DecodedInstruction::C_BNEZ(C_BNEZ::new(inst))),
    }
}

/// Decodes a 16-bit word of the third quadrant (low bits `10`).
pub fn decode_inst_c2(inst: u16, xlen: XLEN) -> (r: Result<DecodedInstruction, SimError>)
    ensures
        r == decode_c2(inst, xlen),
{
    let flag1 = x(inst, 2, 5);
    let rd = x(inst, 7, 5);
    let flag2 = x(inst, 12, 1);
    let funct3 = x(inst, 13, 3);
    match funct3 {
        0b000 => match (xlen, flag1, flag2) {
            (XLEN::RV32, _, 1) => Err(SimError::ReservedEncoding),
            (_, 0, 0) => Ok(DecodedInstruction::C_SLLI64(C_SLLI64::new(inst))),
            (_, _, _) => Ok(DecodedInstruction::C_SLLI(C_SLLI::new(inst))),
        },
        0b001 => match (xlen, rd) {
            (XLEN::RV32, _) | (XLEN::RV64, _) => Ok(
                DecodedInstruction::C_FLDSP(C_FLDSP::new(inst)),
            ),
            (XLEN::RV128, 0) => Err(SimError::ReservedEncoding),
            (XLEN::RV128, _) => Ok(DecodedInstruction::C_LQSP(C_LQSP::new(inst))),
        },
        0b010 => match rd {
            0 => Err(SimError::ReservedEncoding),
            _ => Ok(DecodedInstruction::C_LWSP(C_LWSP::new(inst))),
        },
        0b011 => match (xlen, rd) {
            (XLEN::RV32, _) => Ok(DecodedInstruction::C_FLWSP(C_FLWSP::new(inst))),
            (_, 0) => Err(SimError::ReservedEncoding),
            (_, _) => Ok(DecodedInstruction::C_LDSP(C_LDSP::new(inst))),
        },
        0b100 => match (flag2, flag1, rd) {
            (0, 0, 0) => Err(SimError::ReservedEncoding),
            (0, 0, _) => Ok(DecodedInstruction::C_JR(C_JR::new(inst))),
            (0, _, _) => Ok(DecodedInstruction::C_MV(C_MV::new(inst))),
            (_, 0, 0) => Ok(DecodedInstruction::C_EBREAK(C_EBREAK::new(inst))),
            (_, 0, _) => Ok(DecodedInstruction::C_JALR(C_JALR::new(inst))),
            (_, _, _) => Ok(DecodedInstruction::C_ADD(C_ADD::new(inst))),
        },
        0b101 => match xlen {
            XLEN::RV32 | XLEN::RV64 => Ok(DecodedInstruction::C_FSDSP(C_FSDSP::new(inst))),
            XLEN::RV128 => Ok(DecodedInstruction::C_SQSP(C_SQSP::new(inst))),
        },
        0b110 => Ok(DecodedInstruction::C_SWSP(C_SWSP::new(inst))),
        _ => match xlen {
            XLEN::RV32 => Ok(DecodedInstruction::C_FSWSP(C_FSWSP::new(inst))),
            XLEN::RV64 | XLEN::RV128 => Ok(DecodedInstruction::C_SDSP(C_SDSP::new(inst))),
        },
    }
}

/// Decodes a 16-bit word in the width mode `xlen`.
pub fn decode_inst16(inst: u16, xlen: XLEN) -> (r: Result<DecodedInstruction, SimError>)
    ensures
        r == decode16(inst, xlen),
{
    let opcode = x(inst, 0, 2);
    match opcode {
        0b00 => decode_inst_c0(inst, xlen),
        0b01 => decode_inst_c1(inst, xlen),
        0b10 => decode_inst_c2(inst, xlen),
        _ => Err(SimError::UnsupportedLength),
    }
}

/// Decodes a 32-bit word of the load group (opcode bits `00000`).
pub fn decode_inst_op_00000(inst: u32) -> (r: Result<DecodedInstruction, SimError>)
    ensures
        r == decode_load(inst),
{
    let funct = x(inst, 12, 3);
    match funct {
        0b000 => Ok(DecodedInstruction::LB(LB::new(inst))),
        _ => Err(SimError::UnimplementedInstruction),
    }
}

/// Decodes a 32-bit word of the group of operations with an immediate
/// (opcode bits `00100`).
pub fn decode_inst_op_00100(inst: u32) -> (r: Result<DecodedInstruction, SimError>)
    ensures
        r == decode_op_imm(inst),
{
    let funct = x(inst, 12, 3);
    match funct {
        0b000 => Ok(DecodedInstruction::ADDI(ADDI::new(inst))),
        0b010 => Ok(DecodedInstruction::SLTI(SLTI::new(inst))),
        0b011 => Ok(DecodedInstruction::SLTIU(SLTIU::new(inst))),
        0b100 => Ok(DecodedInstruction::XORI(XORI::new(inst))),
        0b110 => Ok(DecodedInstruction::ORI(ORI::new(inst))),
        0b111 => Ok(DecodedInstruction::ANDI(ANDI::new(inst))),
        _ => Err(SimError::UnimplementedInstruction),
    }
}

/// Decodes a 32-bit word of the branch group (opcode bits `11000`).
pub fn decode_inst_op_11000(inst: u32) -> (r: Result<DecodedInstruction, SimError>)
    ensures
        r == decode_branch(inst),
{
    let funct = x(inst, 12, 3);
    match funct {
        0b000 => Ok(DecodedInstruction::BEQ(BEQ::new(inst))),
        0b001 => Ok(DecodedInstruction::BNE(BNE::new(inst))),
        0b100 => Ok(DecodedInstruction::BLT(BLT::new(inst))),
        0b101 => Ok(DecodedInstruction::BGE(BGE::new(inst))),
        0b110 => Ok(DecodedInstruction::BLTU(BLTU::new(inst))),
        0b111 => Ok(DecodedInstruction::BGEU(BGEU::new(inst))),
        _ => Err(SimError::UnimplementedInstruction),
    }
}

/// Decodes a 32-bit word in the width mode `xlen`.
pub fn decode_inst32(inst: u32, xlen: XLEN) -> (r: Result<DecodedInstruction, SimError>)
    ensures
        r == decode32(inst, xlen),
{
    if x(inst, 0, 2) != 0b11 || x(inst, 2, 3) == 0b111 {
        return Err(SimError::UnsupportedLength);
    }
    let opcode = x(inst, 2, 5);
    match opcode {
        0x00 => decode_inst_op_00000(inst),
        0x04 => decode_inst_op_00100(inst),
        0x05 => Ok(DecodedInstruction::AUIPC(AUIPC::new(inst))),
        0x0d => Ok(DecodedInstruction::LUI(LUI::new(inst))),
        0x18 => decode_inst_op_11000(inst),
        0x19 => match x(inst, 12, 3) {
            0b000 => Ok(DecodedInstruction::JALR(JALR::new(inst))),
            _ => Err(SimError::UnimplementedInstruction),
        },
        0x1b => Ok(DecodedInstruction::JAL(JAL::new(inst))),
        _ => Err(SimError::UnimplementedInstruction),
    }
}

/// Decodes a raw instruction in the width mode `xlen`. Every word decodes
/// to an instruction or to the reason why it does not.
pub fn decode_inst(inst: InstructionRaw, xlen: XLEN) -> (r: Result<DecodedInstruction, SimError>)
    ensures
        r == decode(inst, xlen),
{
    match inst {
        InstructionRaw::B16(code) => decode_inst16(code, xlen),
        InstructionRaw::B32(code) => decode_inst32(code, xlen),
    }
}

impl State {
    /// Decodes a raw instruction in the width mode of this state.
    pub fn decode_inst(&self, inst: InstructionRaw) -> (r: Result<DecodedInstruction, SimError>)
        ensures
            r == decode(inst, self@.xlen),
    {
        decode_inst(inst, self.xlen)
    }
}

} // verus!
