//! The instructions that the simulator models, and what executing one does
//! to the processor state.

#![allow(non_camel_case_types)]

pub mod encode;
pub mod rv32i;
pub mod rvc;

use vstd::prelude::*;
use crate::error::SimError;
use crate::instructions::rv32i::{
    LUI, AUIPC, JAL, JALR, BEQ, BNE, BLT, BGE, BLTU, BGEU, LB, ADDI, SLTI, SLTIU, XORI, ORI,
    ANDI,
};
use crate::instructions::rvc::{
    C_ADDI4SPN, C_FLD, C_LQ, C_LW, C_LD, C_FSD, C_SQ, C_SW, C_SD, C_NOP, C_ADDI, C_JAL, C_LI,
    C_SRLI, C_SRLI64, C_SRAI, C_SRAI64, C_ANDI, C_SUB, C_XOR, C_OR, C_AND, C_SUBW, C_ADDW, C_J,
    C_BEQZ, C_BNEZ, C_SLLI, C_SLLI64, C_FLDSP, C_LQSP, C_LWSP, C_FLWSP, C_LDSP, C_JR, C_MV,
    C_EBREAK, C_JALR, C_ADD, C_FSDSP, C_SQSP, C_SWSP, C_FSWSP, C_SDSP,
};
use crate::processor::{State, StateView};

verus! {

/// A decoded instruction that can be executed on the processor state.
pub trait Instruction {
    /// The state that follows `s` when the instruction executes, or the
    /// failure that stops it.
    spec fn effect(&self, s: StateView) -> Result<StateView, SimError>;

    /// Executing the instruction keeps the state well-formed and leaves the
    /// width mode, the control and status registers and the set of mapped
    /// addresses as they were. It fails only when an address is not mapped.
    proof fn lemma_effect_keeps_shape(&self, s: StateView)
        requires
            s.wf(),
        ensures
            match self.effect(s) {
                Ok(next) => s.keeps_shape(next),
                Err(e) => e == SimError::UnmappedMemory,
            },
    ;

    /// Executes the instruction. On failure the state is left as it was.
    fn execute(&self, state: &mut State) -> (r: Result<(), SimError>)
        ensures
            match self.effect(old(state)@) {
                Ok(next) => r is Ok && final(state)@ == next,
                Err(e) => r == Err::<(), SimError>(e) && final(state)@ == old(state)@,
            },
    ;
}

/// Any one of the instructions that the decoder produces, with its operands.
#[derive(Clone, Copy, Debug, PartialEq, Eq, Structural)]
pub enum DecodedInstruction {
    LUI(LUI),
    AUIPC(AUIPC),
    JAL(JAL),
    JALR(JALR),
    BEQ(BEQ),
    BNE(BNE),
    BLT(BLT),
    BGE(BGE),
    BLTU(BLTU),
    BGEU(BGEU),
    LB(LB),
    ADDI(ADDI),
    SLTI(SLTI),
    SLTIU(SLTIU),
    XORI(XORI),
    ORI(ORI),
    ANDI(ANDI),
    C_ADDI4SPN(C_ADDI4SPN),
    C_FLD(C_FLD),
    C_LQ(C_LQ),
    C_LW(C_LW),
    C_LD(C_LD),
    C_FSD(C_FSD),
    C_SQ(C_SQ),
    C_SW(C_SW),
    C_SD(C_SD),
    C_NOP(C_NOP),
    C_ADDI(C_ADDI),
    C_JAL(C_JAL),
    C_LI(C_LI),
    C_SRLI(C_SRLI),
    C_SRLI64(C_SRLI64),
    C_SRAI(C_SRAI),
    C_SRAI64(C_SRAI64),
    C_ANDI(C_ANDI),
    C_SUB(C_SUB),
    C_XOR(C_XOR),
    C_OR(C_OR),
    C_AND(C_AND),
    C_SUBW(C_SUBW),
    C_ADDW(C_ADDW),
    C_J(C_J),
    C_BEQZ(C_BEQZ),
    C_BNEZ(C_BNEZ),
    C_SLLI(C_SLLI),
    C_SLLI64(C_SLLI64),
    C_FLDSP(C_FLDSP),
    C_LQSP(C_LQSP),
    C_LWSP(C_LWSP),
    C_FLWSP(C_FLWSP),
    C_LDSP(C_LDSP),
    C_JR(C_JR),
    C_MV(C_MV),
    C_EBREAK(C_EBREAK),
    C_JALR(C_JALR),
    C_ADD(C_ADD),
    C_FSDSP(C_FSDSP),
    C_SQSP(C_SQSP),
    C_SWSP(C_SWSP),
    C_FSWSP(C_FSWSP),
    C_SDSP(C_SDSP),
}

impl DecodedInstruction {
    /// The length of the instruction's encoding in bytes: 2 for a compressed
    /// instruction and 4 for any other.
    pub open spec fn encoded_length(&self) -> int {
        match self {
            DecodedInstruction::LUI(_) => 4,
            DecodedInstruction::AUIPC(_) => 4,
            DecodedInstruction::JAL(_) => 4,
            DecodedInstruction::JALR(_) => 4,
            DecodedInstruction::BEQ(_) => 4,
            DecodedInstruction::BNE(_) => 4,
            DecodedInstruction::BLT(_) => 4,
            DecodedInstruction::BGE(_) => 4,
            DecodedInstruction::BLTU(_) => 4,
            DecodedInstruction::BGEU(_) => 4,
            DecodedInstruction::LB(_) => 4,
            DecodedInstruction::ADDI(_) => 4,
            DecodedInstruction::SLTI(_) => 4,
            DecodedInstruction::SLTIU(_) => 4,
            DecodedInstruction::XORI(_) => 4,
            DecodedInstruction::ORI(_) => 4,
            DecodedInstruction::ANDI(_) => 4,
            _ => 2,
        }
    }

    /// The length of the instruction's encoding in bytes.
    pub fn length(&self) -> (r: usize)
        ensures
            r == self.encoded_length(),
    {
        match self {
            DecodedInstruction::LUI(_) => 4,
            DecodedInstruction::AUIPC(_) => 4,
            DecodedInstruction::JAL(_) => 4,
            DecodedInstruction::JALR(_) => 4,
            DecodedInstruction::BEQ(_) => 4,
            DecodedInstruction::BNE(_) => 4,
            DecodedInstruction::BLT(_) => 4,
            DecodedInstruction::BGE(_) => 4,
            DecodedInstruction::BLTU(_) => 4,
            DecodedInstruction::BGEU(_) => 4,
            DecodedInstruction::LB(_) => 4,
            DecodedInstruction::ADDI(_) => 4,
            DecodedInstruction::SLTI(_) => 4,
            DecodedInstruction::SLTIU(_) => 4,
            DecodedInstruction::XORI(_) => 4,
            DecodedInstruction::ORI(_) => 4,
            DecodedInstruction::ANDI(_) => 4,
            _ => 2,
        }
    }
}

impl DecodedInstruction {
    /// Whether the instruction is a jump or a branch, which sets the program
    /// counter itself.
    pub open spec fn is_control_transfer(&self) -> bool {
        match self {
            DecodedInstruction::JAL(_)
            | DecodedInstruction::JALR(_)
            | DecodedInstruction::BEQ(_)
            | DecodedInstruction::BNE(_)
            | DecodedInstruction::BLT(_)
            | DecodedInstruction::BGE(_)
            | DecodedInstruction::BLTU(_)
            | DecodedInstruction::BGEU(_)
            | DecodedInstruction::C_JAL(_)
            | DecodedInstruction::C_J(_)
            | DecodedInstruction::C_BEQZ(_)
            | DecodedInstruction::C_BNEZ(_)
            | DecodedInstruction::C_JR(_)
            | DecodedInstruction::C_JALR(_) => true,
            _ => false,
        }
    }

    /// The offset of a conditional branch, if the instruction is one.
    pub open spec fn branch_offset(&self) -> Option<i64> {
        match self {
            DecodedInstruction::BEQ(inst) => Some(inst.offset),
            DecodedInstruction::BNE(inst) => Some(inst.offset),
            DecodedInstruction::BLT(inst) => Some(inst.offset),
            DecodedInstruction::BGE(inst) => Some(inst.offset),
            DecodedInstruction::BLTU(inst) => Some(inst.offset),
            DecodedInstruction::BGEU(inst) => Some(inst.offset),
            DecodedInstruction::C_BEQZ(inst) => Some(inst.offset),
            DecodedInstruction::C_BNEZ(inst) => Some(inst.offset),
            _ => None,
        }
    }
}

/// An instruction that is no jump and no branch moves the program counter
/// on by its own length. A conditional branch moves it by its offset or, if
/// the branch is not taken, by the length of the branch. The sums wrap at
/// 64 bits.
#[verifier::rlimit(100)]
pub proof fn lemma_effect_moves_pc(inst: DecodedInstruction, s: StateView)
    ensures
        inst.effect(s) matches Ok(next) ==> {
            &&& !inst.is_control_transfer() ==> next.pc == s.pc.wrapping_add(
                inst.encoded_length() as i64,
            )
            &&& inst.branch_offset() matches Some(offset) ==> {
                ||| next == s.set_pc(s.pc.wrapping_add(offset))
                ||| next == s.set_pc(s.pc.wrapping_add(inst.encoded_length() as i64))
            }
        },
{
}

impl Instruction for DecodedInstruction {
    open spec fn effect(&self, s: StateView) -> Result<StateView, SimError> {
        match self {
            DecodedInstruction::LUI(inst) => inst.effect(s),
            DecodedInstruction::AUIPC(inst) => inst.effect(s),
            DecodedInstruction::JAL(inst) => inst.effect(s),
            DecodedInstruction::JALR(inst) => inst.effect(s),
            DecodedInstruction::BEQ(inst) => inst.effect(s),
            DecodedInstruction::BNE(inst) => inst.effect(s),
            DecodedInstruction::BLT(inst) => inst.effect(s),
            DecodedInstruction::BGE(inst) => inst.effect(s),
            DecodedInstruction::BLTU(inst) => inst.effect(s),
            DecodedInstruction::BGEU(inst) => inst.effect(s),
            DecodedInstruction::LB(inst) => inst.effect(s),
            DecodedInstruction::ADDI(inst) => inst.effect(s),
            DecodedInstruction::SLTI(inst) => inst.effect(s),
            DecodedInstruction::SLTIU(inst) => inst.effect(s),
            DecodedInstruction::XORI(inst) => inst.effect(s),
            DecodedInstruction::ORI(inst) => inst.effect(s),
            DecodedInstruction::ANDI(inst) => inst.effect(s),
            DecodedInstruction::C_ADDI4SPN(inst) => inst.effect(s),
            DecodedInstruction::C_FLD(inst) => inst.effect(s),
            DecodedInstruction::C_LQ(inst) => inst.effect(s),
            DecodedInstruction::C_LW(inst) => inst.effect(s),
            DecodedInstruction::C_LD(inst) => inst.effect(s),
            DecodedInstruction::C_FSD(inst) => inst.effect(s),
            DecodedInstruction::C_SQ(inst) => inst.effect(s),
            DecodedInstruction::C_SW(inst) => inst.effect(s),
            DecodedInstruction::C_SD(inst) => inst.effect(s),
            DecodedInstruction::C_NOP(inst) => inst.effect(s),
            DecodedInstruction::C_ADDI(inst) => inst.effect(s),
            DecodedInstruction::C_JAL(inst) => inst.effect(s),
            DecodedInstruction::C_LI(inst) => inst.effect(s),
            DecodedInstruction::C_SRLI(inst) => inst.effect(s),
            DecodedInstruction::C_SRLI64(inst) => inst.effect(s),
            DecodedInstruction::C_SRAI(inst) => inst.effect(s),
            DecodedInstruction::C_SRAI64(inst) => inst.effect(s),
            DecodedInstruction::C_ANDI(inst) => inst.effect(s),
            DecodedInstruction::C_SUB(inst) => inst.effect(s),
            DecodedInstruction::C_XOR(inst) => inst.effect(s),
            DecodedInstruction::C_OR(inst) => inst.effect(s),
            DecodedInstruction::C_AND(inst) => inst.effect(s),
            DecodedInstruction::C_SUBW(inst) => inst.effect(s),
            DecodedInstruction::C_ADDW(inst) => inst.effect(s),
            DecodedInstruction::C_J(inst) => inst.effect(s),
            DecodedInstruction::C_BEQZ(inst) => inst.effect(s),
            DecodedInstruction::C_BNEZ(inst) => inst.effect(s),
            DecodedInstruction::C_SLLI(inst) => inst.effect(s),
            DecodedInstruction::C_SLLI64(inst) => inst.effect(s),
            DecodedInstruction::C_FLDSP(inst) => inst.effect(s),
            DecodedInstruction::C_LQSP(inst) => inst.effect(s),
            DecodedInstruction::C_LWSP(inst) => inst.effect(s),
            DecodedInstruction::C_FLWSP(inst) => inst.effect(s),
            DecodedInstruction::C_LDSP(inst) => inst.effect(s),
            DecodedInstruction::C_JR(inst) => inst.effect(s),
            DecodedInstruction::C_MV(inst) => inst.effect(s),
            DecodedInstruction::C_EBREAK(inst) => inst.effect(s),
            DecodedInstruction::C_JALR(inst) => inst.effect(s),
            DecodedInstruction::C_ADD(inst) => inst.effect(s),
            DecodedInstruction::C_FSDSP(inst) => inst.effect(s),
            DecodedInstruction::C_SQSP(inst) => inst.effect(s),
            DecodedInstruction::C_SWSP(inst) => inst.effect(s),
            DecodedInstruction::C_FSWSP(inst) => inst.effect(s),
            DecodedInstruction::C_SDSP(inst) => inst.effect(s),
        }
    }

    #[verifier::rlimit(100)]
    proof fn lemma_effect_keeps_shape(&self, s: StateView) {
        match self {
            DecodedInstruction::LUI(inst) => inst.lemma_effect_keeps_shape(s),
            DecodedInstruction::AUIPC(inst) => inst.lemma_effect_keeps_shape(s),
            DecodedInstruction::JAL(inst) => inst.lemma_effect_keeps_shape(s),
            DecodedInstruction::JALR(inst) => inst.lemma_effect_keeps_shape(s),
            DecodedInstruction::BEQ(inst) => inst.lemma_effect_keeps_shape(s),
            DecodedInstruction::BNE(inst) => inst.lemma_effect_keeps_shape(s),
            DecodedInstruction::BLT(inst) => inst.lemma_effect_keeps_shape(s),
            DecodedInstruction::BGE(inst) => inst.lemma_effect_keeps_shape(s),
            DecodedInstruction::BLTU(inst) => inst.lemma_effect_keeps_shape(s),
            DecodedInstruction::BGEU(inst) => inst.lemma_effect_keeps_shape(s),
            DecodedInstruction::LB(inst) => inst.lemma_effect_keeps_shape(s),
            DecodedInstruction::ADDI(inst) => inst.lemma_effect_keeps_shape(s),
            DecodedInstruction::SLTI(inst) => inst.lemma_effect_keeps_shape(s),
            DecodedInstruction::SLTIU(inst) => inst.lemma_effect_keeps_shape(s),
            DecodedInstruction::XORI(inst) => inst.lemma_effect_keeps_shape(s),
            DecodedInstruction::ORI(inst) => inst.lemma_effect_keeps_shape(s),
            DecodedInstruction::ANDI(inst) => inst.lemma_effect_keeps_shape(s),
            DecodedInstruction::C_ADDI4SPN(inst) => inst.lemma_effect_keeps_shape(s),
            DecodedInstruction::C_FLD(inst) => inst.lemma_effect_keeps_shape(s),
            DecodedInstruction::C_LQ(inst) => inst.lemma_effect_keeps_shape(s),
            DecodedInstruction::C_LW(inst) => inst.lemma_effect_keeps_shape(s),
            DecodedInstruction::C_LD(inst) => inst.lemma_effect_keeps_shape(s),
            DecodedInstruction::C_FSD(inst) => inst.lemma_effect_keeps_shape(s),
            DecodedInstruction::C_SQ(inst) => inst.lemma_effect_keeps_shape(s),
            DecodedInstruction::C_SW(inst) => inst.lemma_effect_keeps_shape(s),
            DecodedInstruction::C_SD(inst) => inst.lemma_effect_keeps_shape(s),
            DecodedInstruction::C_NOP(inst) => inst.lemma_effect_keeps_shape(s),
            DecodedInstruction::C_ADDI(inst) => inst.lemma_effect_keeps_shape(s),
            DecodedInstruction::C_JAL(inst) => inst.lemma_effect_keeps_shape(s),
            DecodedInstruction::C_LI(inst) => inst.lemma_effect_keeps_shape(s),
            DecodedInstruction::C_SRLI(inst) => inst.lemma_effect_keeps_shape(s),
            DecodedInstruction::C_SRLI64(inst) => inst.lemma_effect_keeps_shape(s),
            DecodedInstruction::C_SRAI(inst) => inst.lemma_effect_keeps_shape(s),
            DecodedInstruction::C_SRAI64(inst) => inst.lemma_effect_keeps_shape(s),
            DecodedInstruction::C_ANDI(inst) => inst.lemma_effect_keeps_shape(s),
            DecodedInstruction::C_SUB(inst) => inst.lemma_effect_keeps_shape(s),
            DecodedInstruction::C_XOR(inst) => inst.lemma_effect_keeps_shape(s),
            DecodedInstruction::C_OR(inst) => inst.lemma_effect_keeps_shape(s),
            DecodedInstruction::C_AND(inst) => inst.lemma_effect_keeps_shape(s),
            DecodedInstruction::C_SUBW(inst) => inst.lemma_effect_keeps_shape(s),
            DecodedInstruction::C_ADDW(inst) => inst.lemma_effect_keeps_shape(s),
            DecodedInstruction::C_J(inst) => inst.lemma_effect_keeps_shape(s),
            DecodedInstruction::C_BEQZ(inst) => inst.lemma_effect_keeps_shape(s),
            DecodedInstruction::C_BNEZ(inst) => inst.lemma_effect_keeps_shape(s),
            DecodedInstruction::C_SLLI(inst) => inst.lemma_effect_keeps_shape(s),
            DecodedInstruction::C_SLLI64(inst) => inst.lemma_effect_keeps_shape(s),
            DecodedInstruction::C_FLDSP(inst) => inst.lemma_effect_keeps_shape(s),
            DecodedInstruction::C_LQSP(inst) => inst.lemma_effect_keeps_shape(s),
            DecodedInstruction::C_LWSP(inst) => inst.lemma_effect_keeps_shape(s),
            DecodedInstruction::C_FLWSP(inst) => inst.lemma_effect_keeps_shape(s),
            DecodedInstruction::C_LDSP(inst) => inst.lemma_effect_keeps_shape(s),
            DecodedInstruction::C_JR(inst) => inst.lemma_effect_keeps_shape(s),
            DecodedInstruction::C_MV(inst) => inst.lemma_effect_keeps_shape(s),
            DecodedInstruction::C_EBREAK(inst) => inst.lemma_effect_keeps_shape(s),
            DecodedInstruction::C_JALR(inst) => inst.lemma_effect_keeps_shape(s),
            DecodedInstruction::C_ADD(inst) => inst.lemma_effect_keeps_shape(s),
            DecodedInstruction::C_FSDSP(inst) => inst.lemma_effect_keeps_shape(s),
            DecodedInstruction::C_SQSP(inst) => inst.lemma_effect_keeps_shape(s),
            DecodedInstruction::C_SWSP(inst) => inst.lemma_effect_keeps_shape(s),
            DecodedInstruction::C_FSWSP(inst) => inst.lemma_effect_keeps_shape(s),
            DecodedInstruction::C_SDSP(inst) => inst.lemma_effect_keeps_shape(s),
        }
    }

    #[verifier::rlimit(100)]
    fn execute(&self, state: &mut State) -> (r: Result<(), SimError>) {
        match self {
            DecodedInstruction::LUI(inst) => inst.execute(state),
            DecodedInstruction::AUIPC(inst) => inst.execute(state),
            DecodedInstruction::JAL(inst) => inst.execute(state),
            DecodedInstruction::JALR(inst) => inst.execute(state),
            DecodedInstruction::BEQ(inst) => inst.execute(state),
            DecodedInstruction::BNE(inst) => inst.execute(state),
            DecodedInstruction::BLT(inst) => inst.execute(state),
            DecodedInstruction::BGE(inst) => inst.execute(state),
            DecodedInstruction::BLTU(inst) => inst.execute(state),
            DecodedInstruction::BGEU(inst) => inst.execute(state),
            DecodedInstruction::LB(inst) => inst.execute(state),
            DecodedInstruction::ADDI(inst) => inst.execute(state),
            DecodedInstruction::SLTI(inst) => inst.execute(state),
            DecodedInstruction::SLTIU(inst) => inst.execute(state),
            DecodedInstruction::XORI(inst) => inst.execute(state),
            DecodedInstruction::ORI(inst) => inst.execute(state),
            DecodedInstruction::ANDI(inst) => inst.execute(state),
            DecodedInstruction::C_ADDI4SPN(inst) => inst.execute(state),
            DecodedInstruction::C_FLD(inst) => inst.execute(state),
            DecodedInstruction::C_LQ(inst) => inst.execute(state),
            DecodedInstruction::C_LW(inst) => inst.execute(state),
            DecodedInstruction::C_LD(inst) => inst.execute(state),
            DecodedInstruction::C_FSD(inst) => inst.execute(state),
            DecodedInstruction::C_SQ(inst) => inst.execute(state),
            DecodedInstruction::C_SW(inst) => inst.execute(state),
            DecodedInstruction::C_SD(inst) => inst.execute(state),
            DecodedInstruction::C_NOP(inst) => inst.execute(state),
            DecodedInstruction::C_ADDI(inst) => inst.execute(state),
            DecodedInstruction::C_JAL(inst) => inst.execute(state),
            DecodedInstruction::C_LI(inst) => inst.execute(state),
            DecodedInstruction::C_SRLI(inst) => inst.execute(state),
            DecodedInstruction::C_SRLI64(inst) => inst.execute(state),
            DecodedInstruction::C_SRAI(inst) => inst.execute(state),
            DecodedInstruction::C_SRAI64(inst) => inst.execute(state),
            DecodedInstruction::C_ANDI(inst) => inst.execute(state),
            DecodedInstruction::C_SUB(inst) => inst.execute(state),
            DecodedInstruction::C_XOR(inst) => inst.execute(state),
            DecodedInstruction::C_OR(inst) => inst.execute(state),
            DecodedInstruction::C_AND(inst) => inst.execute(state),
            DecodedInstruction::C_SUBW(inst) => inst.execute(state),
            DecodedInstruction::C_ADDW(inst) => inst.execute(state),
            DecodedInstruction::C_J(inst) => inst.execute(state),
            DecodedInstruction::C_BEQZ(inst) => inst.execute(state),
            DecodedInstruction::C_BNEZ(inst) => inst.execute(state),
            DecodedInstruction::C_SLLI(inst) => inst.execute(state),
            DecodedInstruction::C_SLLI64(inst) => inst.execute(state),
            DecodedInstruction::C_FLDSP(inst) => inst.execute(state),
            DecodedInstruction::C_LQSP(inst) => inst.execute(state),
            DecodedInstruction::C_LWSP(inst) => inst.execute(state),
            DecodedInstruction::C_FLWSP(inst) => inst.execute(state),
            DecodedInstruction::C_LDSP(inst) => inst.execute(state),
            DecodedInstruction::C_JR(inst) => inst.execute(state),
            DecodedInstruction::C_MV(inst) => inst.execute(state),
            DecodedInstruction::C_EBREAK(inst) => inst.execute(state),
            DecodedInstruction::C_JALR(inst) => inst.execute(state),
            DecodedInstruction::C_ADD(inst) => inst.execute(state),
            DecodedInstruction::C_FSDSP(inst) => inst.execute(state),
            DecodedInstruction::C_SQSP(inst) => inst.execute(state),
            DecodedInstruction::C_SWSP(inst) => inst.execute(state),
            DecodedInstruction::C_FSWSP(inst) => inst.execute(state),
            DecodedInstruction::C_SDSP(inst) => inst.execute(state),
        }
    }
}

} // verus!
