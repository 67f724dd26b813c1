//! The compressed instructions in their 16-bit encodings: the operand
//! formatters of the eight compressed formats, and the instructions
//! themselves.
//!
//! Compressed register fields of three bits name the registers 8 to 15.
//! Floating-point instructions, the 128-bit stores and the 128-bit load from
//! the stack are decoded with their operands but execute as placeholders:
//! they only move the program counter on. The 128-bit load `C_LQ` loads the
//! low double word.

#![allow(non_camel_case_types)]

use vstd::prelude::*;
use crate::error::SimError;
use crate::instructions::Instruction;
use crate::mmu::lemma_store_keeps_shape;
use crate::processor::{lemma_write_then_read, FprName, State, StateView, XprName};
use crate::utils::{bits, sign_extend, signed, to_signed, to_unsigned, unsigned, x};

verus! {

/// The register in bits 7 to 11: the destination or first source.
pub open spec fn c_rd(inst: u16) -> XprName {
    XprName::from_index(bits(inst as int, 7, 5))
}

/// The register in bits 2 to 6: the second source.
pub open spec fn c_rs2(inst: u16) -> XprName {
    XprName::from_index(bits(inst as int, 2, 5))
}

/// The register that the three bits 2 to 4 name, one of the registers 8 to 15.
pub open spec fn c_rd_short(inst: u16) -> XprName {
    XprName::from_index(bits(inst as int, 2, 3) + 8)
}

/// The register that the three bits 7 to 9 name, one of the registers 8 to 15.
pub open spec fn c_rs1_short(inst: u16) -> XprName {
    XprName::from_index(bits(inst as int, 7, 3) + 8)
}

/// The floating-point register in bits 7 to 11.
pub open spec fn c_frd(inst: u16) -> FprName {
    FprName::from_index(bits(inst as int, 7, 5))
}

/// The floating-point register in bits 2 to 6.
pub open spec fn c_frs2(inst: u16) -> FprName {
    FprName::from_index(bits(inst as int, 2, 5))
}

/// The floating-point register that the three bits 2 to 4 name, one of the
/// registers 8 to 15.
pub open spec fn c_frd_short(inst: u16) -> FprName {
    FprName::from_index(bits(inst as int, 2, 3) + 8)
}

/// The 6-bit signed immediate of the CI format: bits 2 to 6 are its bits 0
/// to 4 and bit 12 is its sign.
pub open spec fn ci_imm(inst: u16) -> int {
    sign_extend(bits(inst as int, 2, 5) + 32 * bits(inst as int, 12, 1), 6)
}

/// The 6-bit shift amount: bits 2 to 6 are its bits 0 to 4 and bit 12 its bit 5.
pub open spec fn ci_shamt(inst: u16) -> int {
    bits(inst as int, 2, 5) + 32 * bits(inst as int, 12, 1)
}

/// The stack-pointer offset of a word load: bits 4 to 6 are its bits 2 to
/// 4, bit 12 its bit 5 and bits 2 to 3 its bits 6 to 7.
pub open spec fn ci_offset_w(inst: u16) -> int {
    4 * bits(inst as int, 4, 3) + 32 * bits(inst as int, 12, 1) + 64 * bits(inst as int, 2, 2)
}

/// The stack-pointer offset of a double-word load: bits 5 to 6 are its bits
/// 3 to 4, bit 12 its bit 5 and bits 2 to 4 its bits 6 to 8.
pub open spec fn ci_offset_d(inst: u16) -> int {
    8 * bits(inst as int, 5, 2) + 32 * bits(inst as int, 12, 1) + 64 * bits(inst as int, 2, 3)
}

/// The stack-pointer offset of a quad-word load: bit 6 is its bit 4, bit 12
/// its bit 5 and bits 2 to 5 its bits 6 to 9.
pub open spec fn ci_offset_q(inst: u16) -> int {
    16 * bits(inst as int, 6, 1) + 32 * bits(inst as int, 12, 1) + 64 * bits(inst as int, 2, 4)
}

/// The six immediate bits of the CSS format, bits 7 to 12, as they stand.
pub open spec fn css_imm(inst: u16) -> int {
    bits(inst as int, 7, 6)
}

/// The stack-pointer offset of a word store: bits 9 to 12 are its bits 2 to
/// 5 and bits 7 to 8 its bits 6 to 7.
pub open spec fn css_offset_w(inst: u16) -> int {
    4 * bits(inst as int, 9, 4) + 64 * bits(inst as int, 7, 2)
}

/// The stack-pointer offset of a double-word store: bits 10 to 12 are its
/// bits 3 to 5 and bits 7 to 9 its bits 6 to 8.
pub open spec fn css_offset_d(inst: u16) -> int {
    8 * bits(inst as int, 10, 3) + 64 * bits(inst as int, 7, 3)
}

/// The stack-pointer offset of a quad-word store: bits 11 to 12 are its
/// bits 4 to 5 and bits 7 to 10 its bits 6 to 9.
pub open spec fn css_offset_q(inst: u16) -> int {
    16 * bits(inst as int, 11, 2) + 64 * bits(inst as int, 7, 4)
}

/// The immediate of the CIW format, a multiple of four: bit 6 is its bit 2,
/// bit 5 its bit 3, bits 11 to 12 its bits 4 to 5 and bits 7 to 10 its bits
/// 6 to 9.
pub open spec fn ciw_imm(inst: u16) -> int {
    4 * bits(inst as int, 6, 1) + 8 * bits(inst as int, 5, 1) + 16 * bits(inst as int, 11, 2) + 64
        * bits(inst as int, 7, 4)
}

/// The offset of a word load or store: bit 6 is its bit 2, bits 10 to 12
/// its bits 3 to 5 and bit 5 its bit 6.
pub open spec fn cl_offset_w(inst: u16) -> int {
    4 * bits(inst as int, 6, 1) + 8 * bits(inst as int, 10, 3) + 64 * bits(inst as int, 5, 1)
}

/// The offset of a double-word load or store: bits 10 to 12 are its bits 3
/// to 5 and bits 5 to 6 its bits 6 to 7.
pub open spec fn cl_offset_d(inst: u16) -> int {
    8 * bits(inst as int, 10, 3) + 64 * bits(inst as int, 5, 2)
}

/// The offset of a quad-word load or store: bits 11 to 12 are its bits 4 to
/// 5, bits 5 to 6 its bits 6 to 7 and bit 10 its bit 8.
pub open spec fn cl_offset_q(inst: u16) -> int {
    16 * bits(inst as int, 11, 2) + 64 * bits(inst as int, 5, 2) + 256 * bits(inst as int, 10, 1)
}

/// The branch offset of the CB format: bits 3 to 4 are its bits 1 to 2,
/// bits 10 to 11 its bits 3 to 4, bit 2 its bit 5, bits 5 to 6 its bits 6
/// to 7 and bit 12 its bit 8; bit 0 is zero; 9 bits, sign-extended.
pub open spec fn cb_offset(inst: u16) -> int {
    sign_extend(
        2 * bits(inst as int, 3, 2) + 8 * bits(inst as int, 10, 2) + 32 * bits(inst as int, 2, 1)
            + 64 * bits(inst as int, 5, 2) + 256 * bits(inst as int, 12, 1),
        9,
    )
}

/// The jump offset of the CJ format: bits 3 to 5 are its bits 1 to 3, bit
/// 11 its bit 4, bit 2 its bit 5, bit 7 its bit 6, bit 6 its bit 7, bits 9
/// to 10 its bits 8 to 9, bit 8 its bit 10 and bit 12 its bit 11; bit 0 is
/// zero; 12 bits, sign-extended.
pub open spec fn cj_offset(inst: u16) -> int {
    sign_extend(
        2 * bits(inst as int, 3, 3) + 16 * bits(inst as int, 11, 1) + 32 * bits(inst as int, 2, 1)
            + 64 * bits(inst as int, 7, 1) + 128 * bits(inst as int, 6, 1) + 256 * bits(
            inst as int,
            9,
            2,
        ) + 1024 * bits(inst as int, 8, 1) + 2048 * bits(inst as int, 12, 1),
        12,
    )
}

/// The operands of the CR format: the destination, which is also the first
/// source, and the second source.
pub fn rvc_cr_type(inst: u16) -> (r: (XprName, XprName))
    ensures
        r.0 == c_rd(inst),
        r.1 == c_rs2(inst),
{
    let rs1 = x(inst, 7, 5);
    let rs2 = x(inst, 2, 5);
    (XprName::from_num(rs1), XprName::from_num(rs2))
}

/// The register operand of the CI format.
pub fn rvc_ci_type(inst: u16) -> (r: XprName)
    ensures
        r == c_rd(inst),
{
    let rs1 = x(inst, 7, 5);
    XprName::from_num(rs1)
}

/// The operands of the CSS format: the source and the six immediate bits
/// as they stand.
pub fn rvc_css_type(inst: u16) -> (r: (XprName, i64))
    ensures
        r.0 == c_rs2(inst),
        r.1 == css_imm(inst),
        0 <= r.1 < 64,
{
    let rs2 = x(inst, 2, 5);
    let imm = x(inst, 7, 6);
    (XprName::from_num(rs2), imm)
}

/// The register operand of the CIW format, one of the registers 8 to 15.
pub fn rvc_ciw_type(inst: u16) -> (r: XprName)
    ensures
        r == c_rd_short(inst),
{
    let rd = x(inst, 2, 3);
    XprName::from_num(rd + 0x8)
}

/// The operands of the CL format: destination and base, each one of the
/// registers 8 to 15.
pub fn rvc_cl_type(inst: u16) -> (r: (XprName, XprName))
    ensures
        r.0 == c_rd_short(inst),
        r.1 == c_rs1_short(inst),
{
    let rd = x(inst, 2, 3);
    let rs1 = x(inst, 7, 3);
    (XprName::from_num(rd + 0x8), XprName::from_num(rs1 + 0x8))
}

/// The operands of the CS format: source and base, each one of the
/// registers 8 to 15.
pub fn rvc_cs_type(inst: u16) -> (r: (XprName, XprName))
    ensures
        r.0 == c_rd_short(inst),
        r.1 == c_rs1_short(inst),
{
    let rs2 = x(inst, 2, 3);
    let rs1 = x(inst, 7, 3);
    (XprName::from_num(rs2 + 0x8), XprName::from_num(rs1 + 0x8))
}

/// The register operand of the CB format, one of the registers 8 to 15.
pub fn rvc_cb_type(inst: u16) -> (r: XprName)
    ensures
        r == c_rs1_short(inst),
{
    let rs1 = x(inst, 7, 3);
    XprName::from_num(rs1 + 0x8)
}

/// The operand of the CJ format: a 12-bit signed even offset.
pub fn rvc_cj_type(inst: u16) -> (r: i64)
    ensures
        r == cj_offset(inst),
        -2048 <= r < 2048,
        r % 2 == 0,
{
    let imm = x(inst, 2, 1) * 32 + x(inst, 3, 3) * 2 + x(inst, 6, 1) * 128 + x(inst, 7, 1) * 64 + x(
        inst,
        8,
        1,
    ) * 1024 + x(inst, 9, 2) * 256 + x(inst, 11, 1) * 16 - x(inst, 12, 1) * 2048;
    imm
}

/// Add a scaled immediate to the stack pointer and write the sum to `rd`.
#[derive(Clone, Copy, Debug, PartialEq, Eq, Structural)]
pub struct C_ADDI4SPN {
    pub rd: XprName,
    pub imm: u64,
}

impl C_ADDI4SPN {
    /// The instruction that the word `inst` encodes, field by field.
    pub open spec fn from_word(inst: u16) -> Self {
        C_ADDI4SPN {
            rd: c_rd_short(inst),
            imm: ciw_imm(inst) as u64,
        }
    }

    /// Takes the operands out of the encoded instruction.
    pub fn new(inst: u16) -> (r: Self)
        ensures
            r == Self::from_word(inst),
    {
        let rd = rvc_ciw_type(inst);
        let imm = (x(inst, 5, 1) * 8 + x(inst, 6, 1) * 4 + x(inst, 7, 4) * 64 + x(inst, 11, 2)
            * 16) as u64;
        C_ADDI4SPN { rd, imm }
    }
}

impl Instruction for C_ADDI4SPN {
    open spec fn effect(&self, s: StateView) -> Result<StateView, SimError> {
        Ok(s.set_reg(self.rd, s.reg(XprName::sp).wrapping_add_unsigned(self.imm)).advance(2))
    }

    proof fn lemma_effect_keeps_shape(&self, s: StateView) {
    }

    fn execute(&self, state: &mut State) -> (r: Result<(), SimError>) {
        let value = state.get_reg(XprName::sp).wrapping_add_unsigned(self.imm);
        state.set_reg(self.rd, value);
        state.advance(2);
        Ok(())
    }
}

/// Load a double-precision floating-point value. A placeholder: it only
/// moves the program counter on.
#[derive(Clone, Copy, Debug, PartialEq, Eq, Structural)]
pub struct C_FLD {
    pub rd: FprName,
    pub rs1: XprName,
    pub offset: u64,
}

impl C_FLD {
    /// The instruction that the word `inst` encodes, field by field.
    pub open spec fn from_word(inst: u16) -> Self {
        C_FLD {
            rd: c_frd_short(inst),
            rs1: c_rs1_short(inst),
            offset: cl_offset_d(inst) as u64,
        }
    }

    /// Takes the operands out of the encoded instruction.
    pub fn new(inst: u16) -> (r: Self)
        ensures
            r == Self::from_word(inst),
    {
        let rd = FprName::from_num(x(inst, 2, 3) + 0x8);
        let rs1 = rvc_cb_type(inst);
        let offset = (x(inst, 5, 2) * 64 + x(inst, 10, 3) * 8) as u64;
        C_FLD { rd, rs1, offset }
    }
}

impl Instruction for C_FLD {
    open spec fn effect(&self, s: StateView) -> Result<StateView, SimError> {
        Ok(s.advance(2))
    }

    proof fn lemma_effect_keeps_shape(&self, s: StateView) {
    }

    fn execute(&self, state: &mut State) -> (r: Result<(), SimError>) {
        state.advance(2);
        Ok(())
    }
}

/// Load a quad word. The registers hold 64 bits, so the low double word of
/// the quad word, the eight bytes at `rs1` plus the offset, is written to
/// `rd`.
#[derive(Clone, Copy, Debug, PartialEq, Eq, Structural)]
pub struct C_LQ {
    pub rd: XprName,
    pub rs1: XprName,
    pub offset: u64,
}

impl C_LQ {
    /// The instruction that the word `inst` encodes, field by field.
    pub open spec fn from_word(inst: u16) -> Self {
        C_LQ {
            rd: c_rd_short(inst),
            rs1: c_rs1_short(inst),
            offset: cl_offset_q(inst) as u64,
        }
    }

    /// Takes the operands out of the encoded instruction.
    pub fn new(inst: u16) -> (r: Self)
        ensures
            r == Self::from_word(inst),
    {
        let (rd, rs1) = rvc_cl_type(inst);
        let offset = (x(inst, 5, 2) * 64 + x(inst, 10, 1) * 256 + x(inst, 11, 2) * 16) as u64;
        C_LQ { rd, rs1, offset }
    }
}

impl Instruction for C_LQ {
    open spec fn effect(&self, s: StateView) -> Result<StateView, SimError> {
        match s.load_signed(unsigned(s.reg(self.rs1).wrapping_add_unsigned(self.offset)), 8) {
            Ok(value) => Ok(s.set_reg(self.rd, value).advance(2)),
            Err(e) => Err(e),
        }
    }

    proof fn lemma_effect_keeps_shape(&self, s: StateView) {
    }

    fn execute(&self, state: &mut State) -> (r: Result<(), SimError>) {
        let addr = state.get_reg(self.rs1).wrapping_add_unsigned(self.offset);
        match state.load_signed(addr, 8) {
            Ok(value) => {
                state.set_reg(self.rd, value);
                state.advance(2);
                Ok(())
            },
            Err(e) => Err(e),
        }
    }
}

/// Load the word at `rs1` plus the offset and write it, sign-extended, to `rd`.
#[derive(Clone, Copy, Debug, PartialEq, Eq, Structural)]
pub struct C_LW {
    pub rd: XprName,
    pub rs1: XprName,
    pub offset: u64,
}

impl C_LW {
    /// The instruction that the word `inst` encodes, field by field.
    pub open spec fn from_word(inst: u16) -> Self {
        C_LW {
            rd: c_rd_short(inst),
            rs1: c_rs1_short(inst),
            offset: cl_offset_w(inst) as u64,
        }
    }

    /// Takes the operands out of the encoded instruction.
    pub fn new(inst: u16) -> (r: Self)
        ensures
            r == Self::from_word(inst),
    {
        let (rd, rs1) = rvc_cl_type(inst);
        let offset = (x(inst, 5, 1) * 64 + x(inst, 6, 1) * 4 + x(inst, 10, 3) * 8) as u64;
        C_LW { rd, rs1, offset }
    }
}

impl Instruction for C_LW {
    open spec fn effect(&self, s: StateView) -> Result<StateView, SimError> {
        match s.load_signed(unsigned(s.reg(self.rs1).wrapping_add_unsigned(self.offset)), 4) {
            Ok(value) => Ok(s.set_reg(self.rd, value).advance(2)),
            Err(e) => Err(e),
        }
    }

    proof fn lemma_effect_keeps_shape(&self, s: StateView) {
    }

    fn execute(&self, state: &mut State) -> (r: Result<(), SimError>) {
        let addr = state.get_reg(self.rs1).wrapping_add_unsigned(self.offset);
        match state.load_signed(addr, 4) {
            Ok(value) => {
                state.set_reg(self.rd, value);
                state.advance(2);
                Ok(())
            },
            Err(e) => Err(e),
        }
    }
}

/// Load the double word at `rs1` plus the offset and write it to `rd`.
#[derive(Clone, Copy, Debug, PartialEq, Eq, Structural)]
pub struct C_LD {
    pub rd: XprName,
    pub rs1: XprName,
    pub offset: u64,
}

impl C_LD {
    /// The instruction that the word `inst` encodes, field by field.
    pub open spec fn from_word(inst: u16) -> Self {
        C_LD {
            rd: c_rd_short(inst),
            rs1: c_rs1_short(inst),
            offset: cl_offset_d(inst) as u64,
        }
    }

    /// Takes the operands out of the encoded instruction.
    pub fn new(inst: u16) -> (r: Self)
        ensures
            r == Self::from_word(inst),
    {
        let (rd, rs1) = rvc_cl_type(inst);
        let offset = (x(inst, 5, 2) * 64 + x(inst, 10, 3) * 8) as u64;
        C_LD { rd, rs1, offset }
    }
}

impl Instruction for C_LD {
    open spec fn effect(&self, s: StateView) -> Result<StateView, SimError> {
        match s.load_signed(unsigned(s.reg(self.rs1).wrapping_add_unsigned(self.offset)), 8) {
            Ok(value) => Ok(s.set_reg(self.rd, value).advance(2)),
            Err(e) => Err(e),
        }
    }

    proof fn lemma_effect_keeps_shape(&self, s: StateView) {
    }

    fn execute(&self, state: &mut State) -> (r: Result<(), SimError>) {
        let addr = state.get_reg(self.rs1).wrapping_add_unsigned(self.offset);
        match state.load_signed(addr, 8) {
            Ok(value) => {
                state.set_reg(self.rd, value);
                state.advance(2);
                Ok(())
            },
            Err(e) => Err(e),
        }
    }
}

/// Store a double-precision floating-point value. A placeholder: it only
/// moves the program counter on.
#[derive(Clone, Copy, Debug, PartialEq, Eq, Structural)]
pub struct C_FSD {
    pub rs1: XprName,
    pub rs2: FprName,
    pub offset: u64,
}

impl C_FSD {
    /// The instruction that the word `inst` encodes, field by field.
    pub open spec fn from_word(inst: u16) -> Self {
        C_FSD {
            rs1: c_rs1_short(inst),
            rs2: c_frd_short(inst),
            offset: cl_offset_d(inst) as u64,
        }
    }

    /// Takes the operands out of the encoded instruction.
    pub fn new(inst: u16) -> (r: Self)
        ensures
            r == Self::from_word(inst),
    {
        let rs1 = rvc_cb_type(inst);
        let rs2 = FprName::from_num(x(inst, 2, 3) + 0x8);
        let offset = (x(inst, 5, 2) * 64 + x(inst, 10, 3) * 8) as u64;
        C_FSD { rs1, rs2, offset }
    }
}

impl Instruction for C_FSD {
    open spec fn effect(&self, s: StateView) -> Result<StateView, SimError> {
        Ok(s.advance(2))
    }

    proof fn lemma_effect_keeps_shape(&self, s: StateView) {
    }

    fn execute(&self, state: &mut State) -> (r: Result<(), SimError>) {
        state.advance(2);
        Ok(())
    }
}

/// Store a quad word. A placeholder: it only moves the program counter on.
#[derive(Clone, Copy, Debug, PartialEq, Eq, Structural)]
pub struct C_SQ {
    pub rs1: XprName,
    pub rs2: XprName,
    pub offset: u64,
}

impl C_SQ {
    /// The instruction that the word `inst` encodes, field by field.
    pub open spec fn from_word(inst: u16) -> Self {
        C_SQ {
            rs1: c_rs1_short(inst),
            rs2: c_rd_short(inst),
            offset: cl_offset_q(inst) as u64,
        }
    }

    /// Takes the operands out of the encoded instruction.
    pub fn new(inst: u16) -> (r: Self)
        ensures
            r == Self::from_word(inst),
    {
        let (rs2, rs1) = rvc_cs_type(inst);
        let offset = (x(inst, 5, 2) * 64 + x(inst, 10, 1) * 256 + x(inst, 11, 2) * 16) as u64;
        C_SQ { rs1, rs2, offset }
    }
}

impl Instruction for C_SQ {
    open spec fn effect(&self, s: StateView) -> Result<StateView, SimError> {
        Ok(s.advance(2))
    }

    proof fn lemma_effect_keeps_shape(&self, s: StateView) {
    }

    fn execute(&self, state: &mut State) -> (r: Result<(), SimError>) {
        state.advance(2);
        Ok(())
    }
}

/// Store the low word of `rs2` at `rs1` plus the offset.
#[derive(Clone, Copy, Debug, PartialEq, Eq, Structural)]
pub struct C_SW {
    pub rs1: XprName,
    pub rs2: XprName,
    pub offset: u64,
}

impl C_SW {
    /// The instruction that the word `inst` encodes, field by field.
    pub open spec fn from_word(inst: u16) -> Self {
        C_SW {
            rs1: c_rs1_short(inst),
            rs2: c_rd_short(inst),
            offset: cl_offset_w(inst) as u64,
        }
    }

    /// Takes the operands out of the encoded instruction.
    pub fn new(inst: u16) -> (r: Self)
        ensures
            r == Self::from_word(inst),
    {
        let (rs2, rs1) = rvc_cs_type(inst);
        let offset = (x(inst, 5, 1) * 64 + x(inst, 6, 1) * 4 + x(inst, 10, 3) * 8) as u64;
        C_SW { rs1, rs2, offset }
    }
}

impl Instruction for C_SW {
    open spec fn effect(&self, s: StateView) -> Result<StateView, SimError> {
        match s.store(
            unsigned(s.reg(self.rs1).wrapping_add_unsigned(self.offset)),
            4,
            unsigned(s.reg(self.rs2)) as nat,
        ) {
            Ok(next) => Ok(next.advance(2)),
            Err(e) => Err(e),
        }
    }

    proof fn lemma_effect_keeps_shape(&self, s: StateView) {
        lemma_store_keeps_shape(
            s,
            unsigned(s.reg(self.rs1).wrapping_add_unsigned(self.offset)),
            4,
            unsigned(s.reg(self.rs2)) as nat,
        );
    }

    fn execute(&self, state: &mut State) -> (r: Result<(), SimError>) {
        let addr = state.get_reg(self.rs1).wrapping_add_unsigned(self.offset);
        let value = to_unsigned(state.get_reg(self.rs2));
        match state.store_le(to_unsigned(addr), 4, value) {
            Ok(()) => {
                state.advance(2);
                Ok(())
            },
            Err(e) => Err(e),
        }
    }
}

/// Store `rs2` as a double word at `rs1` plus the offset.
#[derive(Clone, Copy, Debug, PartialEq, Eq, Structural)]
pub struct C_SD {
    pub rs1: XprName,
    pub rs2: XprName,
    pub offset: u64,
}

impl C_SD {
    /// The instruction that the word `inst` encodes, field by field.
    pub open spec fn from_word(inst: u16) -> Self {
        C_SD {
            rs1: c_rs1_short(inst),
            rs2: c_rd_short(inst),
            offset: cl_offset_d(inst) as u64,
        }
    }

    /// Takes the operands out of the encoded instruction.
    pub fn new(inst: u16) -> (r: Self)
        ensures
            r == Self::from_word(inst),
    {
        let (rs2, rs1) = rvc_cs_type(inst);
        let offset = (x(inst, 5, 2) * 64 + x(inst, 10, 3) * 8) as u64;
        C_SD { rs1, rs2, offset }
    }
}

impl Instruction for C_SD {
    open spec fn effect(&self, s: StateView) -> Result<StateView, SimError> {
        match s.store(
            unsigned(s.reg(self.rs1).wrapping_add_unsigned(self.offset)),
            8,
            unsigned(s.reg(self.rs2)) as nat,
        ) {
            Ok(next) => Ok(next.advance(2)),
            Err(e) => Err(e),
        }
    }

    proof fn lemma_effect_keeps_shape(&self, s: StateView) {
        lemma_store_keeps_shape(
            s,
            unsigned(s.reg(self.rs1).wrapping_add_unsigned(self.offset)),
            8,
            unsigned(s.reg(self.rs2)) as nat,
        );
    }

    fn execute(&self, state: &mut State) -> (r: Result<(), SimError>) {
        let addr = state.get_reg(self.rs1).wrapping_add_unsigned(self.offset);
        let value = to_unsigned(state.get_reg(self.rs2));
        match state.store_le(to_unsigned(addr), 8, value) {
            Ok(()) => {
                state.advance(2);
                Ok(())
            },
            Err(e) => Err(e),
        }
    }
}

/// No operation. It holds the encoded word.
#[derive(Clone, Copy, Debug, PartialEq, Eq, Structural)]
pub struct C_NOP(pub u16);

impl C_NOP {
    /// The instruction that the word `inst` encodes.
    pub open spec fn from_word(inst: u16) -> Self {
        C_NOP(inst)
    }

    /// Wraps the encoded instruction.
    pub fn new(inst: u16) -> (r: Self)
        ensures
            r == Self::from_word(inst),
    {
        C_NOP(inst)
    }
}

impl Instruction for C_NOP {
    open spec fn effect(&self, s: StateView) -> Result<StateView, SimError> {
        Ok(s.advance(2))
    }

    proof fn lemma_effect_keeps_shape(&self, s: StateView) {
    }

    fn execute(&self, state: &mut State) -> (r: Result<(), SimError>) {
        state.advance(2);
        Ok(())
    }
}

/// Add a 6-bit signed immediate to `rd`.
#[derive(Clone, Copy, Debug, PartialEq, Eq, Structural)]
pub struct C_ADDI {
    pub imm: i64,
    pub rd: XprName,
}

impl C_ADDI {
    /// The instruction that the word `inst` encodes, field by field.
    pub open spec fn from_word(inst: u16) -> Self {
        C_ADDI {
            imm: ci_imm(inst) as i64,
            rd: c_rd(inst),
        }
    }

    /// Takes the operands out of the encoded instruction.
    pub fn new(inst: u16) -> (r: Self)
        ensures
            r == Self::from_word(inst),
    {
        let imm = x(inst, 2, 5) - x(inst, 12, 1) * 32;
        let rd = rvc_ci_type(inst);
        C_ADDI { imm, rd }
    }
}

impl Instruction for C_ADDI {
    open spec fn effect(&self, s: StateView) -> Result<StateView, SimError> {
        Ok(s.set_reg(self.rd, s.reg(self.rd).wrapping_add(self.imm)).advance(2))
    }

    proof fn lemma_effect_keeps_shape(&self, s: StateView) {
    }

    fn execute(&self, state: &mut State) -> (r: Result<(), SimError>) {
        let value = state.get_reg(self.rd).wrapping_add(self.imm);
        state.set_reg(self.rd, value);
        state.advance(2);
        Ok(())
    }
}

/// Jump and link: writes the address of the next instruction to `ra` and
/// jumps by the offset.
#[derive(Clone, Copy, Debug, PartialEq, Eq, Structural)]
pub struct C_JAL {
    pub offset: i64,
}

impl C_JAL {
    /// The instruction that the word `inst` encodes, field by field.
    pub open spec fn from_word(inst: u16) -> Self {
        C_JAL {
            offset: cj_offset(inst) as i64,
        }
    }

    /// Takes the operands out of the encoded instruction.
    pub fn new(inst: u16) -> (r: Self)
        ensures
            r == Self::from_word(inst),
    {
        let offset = rvc_cj_type(inst);
        C_JAL { offset }
    }
}

impl Instruction for C_JAL {
    open spec fn effect(&self, s: StateView) -> Result<StateView, SimError> {
        Ok(s.set_reg(XprName::ra, s.pc.wrapping_add(2)).advance(self.offset))
    }

    proof fn lemma_effect_keeps_shape(&self, s: StateView) {
    }

    fn execute(&self, state: &mut State) -> (r: Result<(), SimError>) {
        let link = state.pc.wrapping_add(2);
        state.set_reg(XprName::ra, link);
        state.advance(self.offset);
        Ok(())
    }
}

/// Load a 6-bit signed immediate into `rd`.
#[derive(Clone, Copy, Debug, PartialEq, Eq, Structural)]
pub struct C_LI {
    pub rd: XprName,
    pub imm: i64,
}

impl C_LI {
    /// The instruction that the word `inst` encodes, field by field.
    pub open spec fn from_word(inst: u16) -> Self {
        C_LI {
            rd: c_rd(inst),
            imm: ci_imm(inst) as i64,
        }
    }

    /// Takes the operands out of the encoded instruction.
    pub fn new(inst: u16) -> (r: Self)
        ensures
            r == Self::from_word(inst),
    {
        let rd = rvc_ci_type(inst);
        let imm = x(inst, 2, 5) - x(inst, 12, 1) * 32;
        C_LI { rd, imm }
    }
}

impl Instruction for C_LI {
    open spec fn effect(&self, s: StateView) -> Result<StateView, SimError> {
        Ok(s.set_reg(self.rd, self.imm).advance(2))
    }

    proof fn lemma_effect_keeps_shape(&self, s: StateView) {
    }

    fn execute(&self, state: &mut State) -> (r: Result<(), SimError>) {
        let value = self.imm;
        state.set_reg(self.rd, value);
        state.advance(2);
        Ok(())
    }
}

/// Shift `rd` right by the shift amount, filling with zeros. Only the low
/// six bits of the shift amount count.
#[derive(Clone, Copy, Debug, PartialEq, Eq, Structural)]
pub struct C_SRLI {
    pub rd: XprName,
    pub shamt: u32,
}

impl C_SRLI {
    /// The instruction that the word `inst` encodes, field by field.
    pub open spec fn from_word(inst: u16) -> Self {
        C_SRLI {
            rd: c_rs1_short(inst),
            shamt: ci_shamt(inst) as u32,
        }
    }

    /// Takes the operands out of the encoded instruction.
    pub fn new(inst: u16) -> (r: Self)
        ensures
            r == Self::from_word(inst),
    {
        let rd = rvc_cb_type(inst);
        let shamt = (x(inst, 2, 5) + x(inst, 12, 1) * 32) as u32;
        C_SRLI { rd, shamt }
    }
}

impl Instruction for C_SRLI {
    open spec fn effect(&self, s: StateView) -> Result<StateView, SimError> {
        Ok(s.set_reg(self.rd, signed(unsigned(s.reg(self.rd)).wrapping_shr(self.shamt))).advance(2))
    }

    proof fn lemma_effect_keeps_shape(&self, s: StateView) {
    }

    fn execute(&self, state: &mut State) -> (r: Result<(), SimError>) {
        let value = to_signed(to_unsigned(state.get_reg(self.rd)).wrapping_shr(self.shamt));
        state.set_reg(self.rd, value);
        state.advance(2);
        Ok(())
    }
}

/// Shift right by 64, the form that a shift amount of zero encodes. A
/// placeholder: it only moves the program counter on.
#[derive(Clone, Copy, Debug, PartialEq, Eq, Structural)]
pub struct C_SRLI64 {
    pub rd: XprName,
    pub shamt: u32,
}

impl C_SRLI64 {
    /// The instruction that the word `inst` encodes, field by field.
    pub open spec fn from_word(inst: u16) -> Self {
        C_SRLI64 {
            rd: c_rs1_short(inst),
            shamt: 64u32,
        }
    }

    /// Takes the operands out of the encoded instruction.
    pub fn new(inst: u16) -> (r: Self)
        ensures
            r == Self::from_word(inst),
    {
        let rd = rvc_cb_type(inst);
        let shamt: u32 = 64;
        C_SRLI64 { rd, shamt }
    }
}

impl Instruction for C_SRLI64 {
    open spec fn effect(&self, s: StateView) -> Result<StateView, SimError> {
        Ok(s.advance(2))
    }

    proof fn lemma_effect_keeps_shape(&self, s: StateView) {
    }

    fn execute(&self, state: &mut State) -> (r: Result<(), SimError>) {
        state.advance(2);
        Ok(())
    }
}

/// Shift `rd` right by the shift amount, filling with the sign. Only the
/// low six bits of the shift amount count.
#[derive(Clone, Copy, Debug, PartialEq, Eq, Structural)]
pub struct C_SRAI {
    pub rd: XprName,
    pub shamt: u32,
}

impl C_SRAI {
    /// The instruction that the word `inst` encodes, field by field.
    pub open spec fn from_word(inst: u16) -> Self {
        C_SRAI {
            rd: c_rs1_short(inst),
            shamt: ci_shamt(inst) as u32,
        }
    }

    /// Takes the operands out of the encoded instruction.
    pub fn new(inst: u16) -> (r: Self)
        ensures
            r == Self::from_word(inst),
    {
        let rd = rvc_cb_type(inst);
        let shamt = (x(inst, 2, 5) + x(inst, 12, 1) * 32) as u32;
        C_SRAI { rd, shamt }
    }
}

impl Instruction for C_SRAI {
    open spec fn effect(&self, s: StateView) -> Result<StateView, SimError> {
        Ok(s.set_reg(self.rd, s.reg(self.rd).wrapping_shr(self.shamt)).advance(2))
    }

    proof fn lemma_effect_keeps_shape(&self, s: StateView) {
    }

    fn execute(&self, state: &mut State) -> (r: Result<(), SimError>) {
        let value = state.get_reg(self.rd).wrapping_shr(self.shamt);
        state.set_reg(self.rd, value);
        state.advance(2);
        Ok(())
    }
}

/// Arithmetic shift right by 64, the form that a shift amount of zero
/// encodes. A placeholder: it only moves the program counter on.
#[derive(Clone, Copy, Debug, PartialEq, Eq, Structural)]
pub struct C_SRAI64 {
    pub rd: XprName,
    pub shamt: u32,
}

impl C_SRAI64 {
    /// The instruction that the word `inst` encodes, field by field.
    pub open spec fn from_word(inst: u16) -> Self {
        C_SRAI64 {
            rd: c_rs1_short(inst),
            shamt: 64u32,
        }
    }

    /// Takes the operands out of the encoded instruction.
    pub fn new(inst: u16) -> (r: Self)
        ensures
            r == Self::from_word(inst),
    {
        let rd = rvc_cb_type(inst);
        let shamt: u32 = 64;
        C_SRAI64 { rd, shamt }
    }
}

impl Instruction for C_SRAI64 {
    open spec fn effect(&self, s: StateView) -> Result<StateView, SimError> {
        Ok(s.advance(2))
    }

    proof fn lemma_effect_keeps_shape(&self, s: StateView) {
    }

    fn execute(&self, state: &mut State) -> (r: Result<(), SimError>) {
        state.advance(2);
        Ok(())
    }
}

/// And `rd` with a 6-bit signed immediate.
#[derive(Clone, Copy, Debug, PartialEq, Eq, Structural)]
pub struct C_ANDI {
    pub rd: XprName,
    pub imm: i64,
}

impl C_ANDI {
    /// The instruction that the word `inst` encodes, field by field.
    pub open spec fn from_word(inst: u16) -> Self {
        C_ANDI {
            rd: c_rs1_short(inst),
            imm: ci_imm(inst) as i64,
        }
    }

    /// Takes the operands out of the encoded instruction.
    pub fn new(inst: u16) -> (r: Self)
        ensures
            r == Self::from_word(inst),
    {
        let rd = rvc_cb_type(inst);
        let imm = x(inst, 2, 5) - x(inst, 12, 1) * 32;
        C_ANDI { rd, imm }
    }
}

impl Instruction for C_ANDI {
    open spec fn effect(&self, s: StateView) -> Result<StateView, SimError> {
        Ok(s.set_reg(self.rd, s.reg(self.rd) & self.imm).advance(2))
    }

    proof fn lemma_effect_keeps_shape(&self, s: StateView) {
    }

    fn execute(&self, state: &mut State) -> (r: Result<(), SimError>) {
        let value = state.get_reg(self.rd) & self.imm;
        state.set_reg(self.rd, value);
        state.advance(2);
        Ok(())
    }
}

/// Subtract `rs2` from `rd`.
#[derive(Clone, Copy, Debug, PartialEq, Eq, Structural)]
pub struct C_SUB {
    pub rd: XprName,
    pub rs2: XprName,
}

impl C_SUB {
    /// The instruction that the word `inst` encodes, field by field.
    pub open spec fn from_word(inst: u16) -> Self {
        C_SUB {
            rd: c_rs1_short(inst),
            rs2: c_rd_short(inst),
        }
    }

    /// Takes the operands out of the encoded instruction.
    pub fn new(inst: u16) -> (r: Self)
        ensures
            r == Self::from_word(inst),
    {
        let (rs2, rd) = rvc_cs_type(inst);
        C_SUB { rd, rs2 }
    }
}

impl Instruction for C_SUB {
    open spec fn effect(&self, s: StateView) -> Result<StateView, SimError> {
        Ok(s.set_reg(self.rd, s.reg(self.rd).wrapping_sub(s.reg(self.rs2))).advance(2))
    }

    proof fn lemma_effect_keeps_shape(&self, s: StateView) {
    }

    fn execute(&self, state: &mut State) -> (r: Result<(), SimError>) {
        let value = state.get_reg(self.rd).wrapping_sub(state.get_reg(self.rs2));
        state.set_reg(self.rd, value);
        state.advance(2);
        Ok(())
    }
}

/// Exclusive or of `rd` and `rs2`.
#[derive(Clone, Copy, Debug, PartialEq, Eq, Structural)]
pub struct C_XOR {
    pub rd: XprName,
    pub rs2: XprName,
}

impl C_XOR {
    /// The instruction that the word `inst` encodes, field by field.
    pub open spec fn from_word(inst: u16) -> Self {
        C_XOR {
            rd: c_rs1_short(inst),
            rs2: c_rd_short(inst),
        }
    }

    /// Takes the operands out of the encoded instruction.
    pub fn new(inst: u16) -> (r: Self)
        ensures
            r == Self::from_word(inst),
    {
        let (rs2, rd) = rvc_cs_type(inst);
        C_XOR { rd, rs2 }
    }
}

impl Instruction for C_XOR {
    open spec fn effect(&self, s: StateView) -> Result<StateView, SimError> {
        Ok(s.set_reg(self.rd, s.reg(self.rd) ^ s.reg(self.rs2)).advance(2))
    }

    proof fn lemma_effect_keeps_shape(&self, s: StateView) {
    }

    fn execute(&self, state: &mut State) -> (r: Result<(), SimError>) {
        let value = state.get_reg(self.rd) ^ state.get_reg(self.rs2);
        state.set_reg(self.rd, value);
        state.advance(2);
        Ok(())
    }
}

/// Or of `rd` and `rs2`.
#[derive(Clone, Copy, Debug, PartialEq, Eq, Structural)]
pub struct C_OR {
    pub rd: XprName,
    pub rs2: XprName,
}

impl C_OR {
    /// The instruction that the word `inst` encodes, field by field.
    pub open spec fn from_word(inst: u16) -> Self {
        C_OR {
            rd: c_rs1_short(inst),
            rs2: c_rd_short(inst),
        }
    }

    /// Takes the operands out of the encoded instruction.
    pub fn new(inst: u16) -> (r: Self)
        ensures
            r == Self::from_word(inst),
    {
        let (rs2, rd) = rvc_cs_type(inst);
        C_OR { rd, rs2 }
    }
}

impl Instruction for C_OR {
    open spec fn effect(&self, s: StateView) -> Result<StateView, SimError> {
        Ok(s.set_reg(self.rd, s.reg(self.rd) | s.reg(self.rs2)).advance(2))
    }

    proof fn lemma_effect_keeps_shape(&self, s: StateView) {
    }

    fn execute(&self, state: &mut State) -> (r: Result<(), SimError>) {
        let value = state.get_reg(self.rd) | state.get_reg(self.rs2);
        state.set_reg(self.rd, value);
        state.advance(2);
        Ok(())
    }
}

/// And of `rd` and `rs2`.
#[derive(Clone, Copy, Debug, PartialEq, Eq, Structural)]
pub struct C_AND {
    pub rd: XprName,
    pub rs2: XprName,
}

impl C_AND {
    /// The instruction that the word `inst` encodes, field by field.
    pub open spec fn from_word(inst: u16) -> Self {
        C_AND {
            rd: c_rs1_short(inst),
            rs2: c_rd_short(inst),
        }
    }

    /// Takes the operands out of the encoded instruction.
    pub fn new(inst: u16) -> (r: Self)
        ensures
            r == Self::from_word(inst),
    {
        let (rs2, rd) = rvc_cs_type(inst);
        C_AND { rd, rs2 }
    }
}

impl Instruction for C_AND {
    open spec fn effect(&self, s: StateView) -> Result<StateView, SimError> {
        Ok(s.set_reg(self.rd, s.reg(self.rd) & s.reg(self.rs2)).advance(2))
    }

    proof fn lemma_effect_keeps_shape(&self, s: StateView) {
    }

    fn execute(&self, state: &mut State) -> (r: Result<(), SimError>) {
        let value = state.get_reg(self.rd) & state.get_reg(self.rs2);
        state.set_reg(self.rd, value);
        state.advance(2);
        Ok(())
    }
}

/// Subtract the low word of `rs2` from the low word of `rd` and write the
/// 32-bit difference, sign-extended, to `rd`.
#[derive(Clone, Copy, Debug, PartialEq, Eq, Structural)]
pub struct C_SUBW {
    pub rd: XprName,
    pub rs2: XprName,
}

impl C_SUBW {
    /// The instruction that the word `inst` encodes, field by field.
    pub open spec fn from_word(inst: u16) -> Self {
        C_SUBW {
            rd: c_rs1_short(inst),
            rs2: c_rd_short(inst),
        }
    }

    /// Takes the operands out of the encoded instruction.
    pub fn new(inst: u16) -> (r: Self)
        ensures
            r == Self::from_word(inst),
    {
        let (rs2, rd) = rvc_cs_type(inst);
        C_SUBW { rd, rs2 }
    }
}

impl Instruction for C_SUBW {
    open spec fn effect(&self, s: StateView) -> Result<StateView, SimError> {
        Ok(
            s.set_reg(
                self.rd,
                sign_extend((s.reg(self.rd) - s.reg(self.rs2)) % 0x1_0000_0000, 32) as i64,
            ).advance(2),
        )
    }

    proof fn lemma_effect_keeps_shape(&self, s: StateView) {
    }

    fn execute(&self, state: &mut State) -> (r: Result<(), SimError>) {
        let full = state.get_reg(self.rd).wrapping_sub(state.get_reg(self.rs2));
        let low = to_unsigned(full) % 0x1_0000_0000;
        let value: i64 = if low >= 0x8000_0000 {
            low as i64 - 0x1_0000_0000
        } else {
            low as i64
        };
        state.set_reg(self.rd, value);
        state.advance(2);
        Ok(())
    }
}

/// Add the low words of `rd` and `rs2` and write the 32-bit sum,
/// sign-extended, to `rd`.
#[derive(Clone, Copy, Debug, PartialEq, Eq, Structural)]
pub struct C_ADDW {
    pub rd: XprName,
    pub rs2: XprName,
}

impl C_ADDW {
    /// The instruction that the word `inst` encodes, field by field.
    pub open spec fn from_word(inst: u16) -> Self {
        C_ADDW {
            rd: c_rs1_short(inst),
            rs2: c_rd_short(inst),
        }
    }

    /// Takes the operands out of the encoded instruction.
    pub fn new(inst: u16) -> (r: Self)
        ensures
            r == Self::from_word(inst),
    {
        let (rs2, rd) = rvc_cs_type(inst);
        C_ADDW { rd, rs2 }
    }
}

impl Instruction for C_ADDW {
    open spec fn effect(&self, s: StateView) -> Result<StateView, SimError> {
        Ok(
            s.set_reg(
                self.rd,
                sign_extend((s.reg(self.rd) + s.reg(self.rs2)) % 0x1_0000_0000, 32) as i64,
            ).advance(2),
        )
    }

    proof fn lemma_effect_keeps_shape(&self, s: StateView) {
    }

    fn execute(&self, state: &mut State) -> (r: Result<(), SimError>) {
        let full = state.get_reg(self.rd).wrapping_add(state.get_reg(self.rs2));
        let low = to_unsigned(full) % 0x1_0000_0000;
        let value: i64 = if low >= 0x8000_0000 {
            low as i64 - 0x1_0000_0000
        } else {
            low as i64
        };
        state.set_reg(self.rd, value);
        state.advance(2);
        Ok(())
    }
}

/// Jump by the offset.
#[derive(Clone, Copy, Debug, PartialEq, Eq, Structural)]
pub struct C_J {
    pub offset: i64,
}

impl C_J {
    /// The instruction that the word `inst` encodes, field by field.
    pub open spec fn from_word(inst: u16) -> Self {
        C_J {
            offset: cj_offset(inst) as i64,
        }
    }

    /// Takes the operands out of the encoded instruction.
    pub fn new(inst: u16) -> (r: Self)
        ensures
            r == Self::from_word(inst),
    {
        let offset = rvc_cj_type(inst);
        C_J { offset }
    }
}

impl Instruction for C_J {
    open spec fn effect(&self, s: StateView) -> Result<StateView, SimError> {
        Ok(s.advance(self.offset))
    }

    proof fn lemma_effect_keeps_shape(&self, s: StateView) {
    }

    fn execute(&self, state: &mut State) -> (r: Result<(), SimError>) {
        state.advance(self.offset);
        Ok(())
    }
}

/// Branch if `rs1` is zero.
#[derive(Clone, Copy, Debug, PartialEq, Eq, Structural)]
pub struct C_BEQZ {
    pub rs1: XprName,
    pub offset: i64,
}

impl C_BEQZ {
    /// The instruction that the word `inst` encodes, field by field.
    pub open spec fn from_word(inst: u16) -> Self {
        C_BEQZ {
            rs1: c_rs1_short(inst),
            offset: cb_offset(inst) as i64,
        }
    }

    /// Takes the operands out of the encoded instruction.
    pub fn new(inst: u16) -> (r: Self)
        ensures
            r == Self::from_word(inst),
    {
        let rs1 = rvc_cb_type(inst);
        let offset = x(inst, 2, 1) * 32 + x(inst, 3, 2) * 2 + x(inst, 5, 2) * 64 + x(inst, 10, 2)
            * 8 - x(inst, 12, 1) * 256;
        C_BEQZ { rs1, offset }
    }
}

impl Instruction for C_BEQZ {
    open spec fn effect(&self, s: StateView) -> Result<StateView, SimError> {
        if s.reg(self.rs1) == 0 {
            Ok(s.advance(self.offset))
        } else {
            Ok(s.advance(2))
        }
    }

    proof fn lemma_effect_keeps_shape(&self, s: StateView) {
    }

    fn execute(&self, state: &mut State) -> (r: Result<(), SimError>) {
        if state.get_reg(self.rs1) == 0 {
            state.advance(self.offset);
        } else {
            state.advance(2);
        }
        Ok(())
    }
}

/// Branch if `rs1` is not zero.
#[derive(Clone, Copy, Debug, PartialEq, Eq, Structural)]
pub struct C_BNEZ {
    pub rs1: XprName,
    pub offset: i64,
}

impl C_BNEZ {
    /// The instruction that the word `inst` encodes, field by field.
    pub open spec fn from_word(inst: u16) -> Self {
        C_BNEZ {
            rs1: c_rs1_short(inst),
            offset: cb_offset(inst) as i64,
        }
    }

    /// Takes the operands out of the encoded instruction.
    pub fn new(inst: u16) -> (r: Self)
        ensures
            r == Self::from_word(inst),
    {
        let rs1 = rvc_cb_type(inst);
        let offset = x(inst, 2, 1) * 32 + x(inst, 3, 2) * 2 + x(inst, 5, 2) * 64 + x(inst, 10, 2)
            * 8 - x(inst, 12, 1) * 256;
        C_BNEZ { rs1, offset }
    }
}

impl Instruction for C_BNEZ {
    open spec fn effect(&self, s: StateView) -> Result<StateView, SimError> {
        if s.reg(self.rs1) != 0 {
            Ok(s.advance(self.offset))
        } else {
            Ok(s.advance(2))
        }
    }

    proof fn lemma_effect_keeps_shape(&self, s: StateView) {
    }

    fn execute(&self, state: &mut State) -> (r: Result<(), SimError>) {
        if state.get_reg(self.rs1) != 0 {
            state.advance(self.offset);
        } else {
            state.advance(2);
        }
        Ok(())
    }
}

/// Shift `rd` left by the shift amount. Only the low six bits of the shift
/// amount count.
#[derive(Clone, Copy, Debug, PartialEq, Eq, Structural)]
pub struct C_SLLI {
    pub rd: XprName,
    pub shamt: u32,
}

impl C_SLLI {
    /// The instruction that the word `inst` encodes, field by field.
    pub open spec fn from_word(inst: u16) -> Self {
        C_SLLI {
            rd: c_rd(inst),
            shamt: ci_shamt(inst) as u32,
        }
    }

    /// Takes the operands out of the encoded instruction.
    pub fn new(inst: u16) -> (r: Self)
        ensures
            r == Self::from_word(inst),
    {
        let rd = rvc_ci_type(inst);
        let shamt = (x(inst, 2, 5) + x(inst, 12, 1) * 32) as u32;
        C_SLLI { rd, shamt }
    }
}

impl Instruction for C_SLLI {
    open spec fn effect(&self, s: StateView) -> Result<StateView, SimError> {
        Ok(s.set_reg(self.rd, signed(unsigned(s.reg(self.rd)).wrapping_shl(self.shamt))).advance(2))
    }

    proof fn lemma_effect_keeps_shape(&self, s: StateView) {
    }

    fn execute(&self, state: &mut State) -> (r: Result<(), SimError>) {
        let value = to_signed(to_unsigned(state.get_reg(self.rd)).wrapping_shl(self.shamt));
        state.set_reg(self.rd, value);
        state.advance(2);
        Ok(())
    }
}

/// Shift left by 64, the form that a shift amount of zero encodes. A
/// placeholder: it only moves the program counter on.
#[derive(Clone, Copy, Debug, PartialEq, Eq, Structural)]
pub struct C_SLLI64 {
    pub rd: XprName,
    pub shamt: u32,
}

impl C_SLLI64 {
    /// The instruction that the word `inst` encodes, field by field.
    pub open spec fn from_word(inst: u16) -> Self {
        C_SLLI64 {
            rd: c_rd(inst),
            shamt: 64u32,
        }
    }

    /// Takes the operands out of the encoded instruction.
    pub fn new(inst: u16) -> (r: Self)
        ensures
            r == Self::from_word(inst),
    {
        let rd = rvc_ci_type(inst);
        let shamt: u32 = 64;
        C_SLLI64 { rd, shamt }
    }
}

impl Instruction for C_SLLI64 {
    open spec fn effect(&self, s: StateView) -> Result<StateView, SimError> {
        Ok(s.advance(2))
    }

    proof fn lemma_effect_keeps_shape(&self, s: StateView) {
    }

    fn execute(&self, state: &mut State) -> (r: Result<(), SimError>) {
        state.advance(2);
        Ok(())
    }
}

/// Load a double-precision floating-point value from the stack. A
/// placeholder: it only moves the program counter on.
#[derive(Clone, Copy, Debug, PartialEq, Eq, Structural)]
pub struct C_FLDSP {
    pub rd: FprName,
    pub offset: u64,
}

impl C_FLDSP {
    /// The instruction that the word `inst` encodes, field by field.
    pub open spec fn from_word(inst: u16) -> Self {
        C_FLDSP {
            rd: c_frd(inst),
            offset: ci_offset_d(inst) as u64,
        }
    }

    /// Takes the operands out of the encoded instruction.
    pub fn new(inst: u16) -> (r: Self)
        ensures
            r == Self::from_word(inst),
    {
        let rd = FprName::from_num(x(inst, 7, 5));
        let offset = (x(inst, 2, 3) * 64 + x(inst, 5, 2) * 8 + x(inst, 12, 1) * 32) as u64;
        C_FLDSP { rd, offset }
    }
}

impl Instruction for C_FLDSP {
    open spec fn effect(&self, s: StateView) -> Result<StateView, SimError> {
        Ok(s.advance(2))
    }

    proof fn lemma_effect_keeps_shape(&self, s: StateView) {
    }

    fn execute(&self, state: &mut State) -> (r: Result<(), SimError>) {
        state.advance(2);
        Ok(())
    }
}

/// Load a quad word from the stack. A placeholder: it only moves the
/// program counter on.
#[derive(Clone, Copy, Debug, PartialEq, Eq, Structural)]
pub struct C_LQSP {
    pub rd: XprName,
    pub offset: u64,
}

impl C_LQSP {
    /// The instruction that the word `inst` encodes, field by field.
    pub open spec fn from_word(inst: u16) -> Self {
        C_LQSP {
            rd: c_rd(inst),
            offset: ci_offset_q(inst) as u64,
        }
    }

    /// Takes the operands out of the encoded instruction.
    pub fn new(inst: u16) -> (r: Self)
        ensures
            r == Self::from_word(inst),
    {
        let rd = rvc_ci_type(inst);
        let offset = (x(inst, 2, 4) * 64 + x(inst, 6, 1) * 16 + x(inst, 12, 1) * 32) as u64;
        C_LQSP { rd, offset }
    }
}

impl Instruction for C_LQSP {
    open spec fn effect(&self, s: StateView) -> Result<StateView, SimError> {
        Ok(s.advance(2))
    }

    proof fn lemma_effect_keeps_shape(&self, s: StateView) {
    }

    fn execute(&self, state: &mut State) -> (r: Result<(), SimError>) {
        state.advance(2);
        Ok(())
    }
}

/// Load the word at the stack pointer plus the offset and write it,
/// sign-extended, to `rd`.
#[derive(Clone, Copy, Debug, PartialEq, Eq, Structural)]
pub struct C_LWSP {
    pub rd: XprName,
    pub offset: u64,
}

impl C_LWSP {
    /// The instruction that the word `inst` encodes, field by field.
    pub open spec fn from_word(inst: u16) -> Self {
        C_LWSP {
            rd: c_rd(inst),
            offset: ci_offset_w(inst) as u64,
        }
    }

    /// Takes the operands out of the encoded instruction.
    pub fn new(inst: u16) -> (r: Self)
        ensures
            r == Self::from_word(inst),
    {
        let rd = rvc_ci_type(inst);
        let offset = (x(inst, 2, 2) * 64 + x(inst, 4, 3) * 4 + x(inst, 12, 1) * 32) as u64;
        C_LWSP { rd, offset }
    }
}

impl Instruction for C_LWSP {
    open spec fn effect(&self, s: StateView) -> Result<StateView, SimError> {
        match s.load_signed(unsigned(s.reg(XprName::sp).wrapping_add_unsigned(self.offset)), 4) {
            Ok(value) => Ok(s.set_reg(self.rd, value).advance(2)),
            Err(e) => Err(e),
        }
    }

    proof fn lemma_effect_keeps_shape(&self, s: StateView) {
    }

    fn execute(&self, state: &mut State) -> (r: Result<(), SimError>) {
        let addr = state.get_reg(XprName::sp).wrapping_add_unsigned(self.offset);
        match state.load_signed(addr, 4) {
            Ok(value) => {
                state.set_reg(self.rd, value);
                state.advance(2);
                Ok(())
            },
            Err(e) => Err(e),
        }
    }
}

/// Load a single-precision floating-point value from the stack. A
/// placeholder: it only moves the program counter on.
#[derive(Clone, Copy, Debug, PartialEq, Eq, Structural)]
pub struct C_FLWSP {
    pub rd: FprName,
    pub offset: u64,
}

impl C_FLWSP {
    /// The instruction that the word `inst` encodes, field by field.
    pub open spec fn from_word(inst: u16) -> Self {
        C_FLWSP {
            rd: c_frd(inst),
            offset: ci_offset_w(inst) as u64,
        }
    }

    /// Takes the operands out of the encoded instruction.
    pub fn new(inst: u16) -> (r: Self)
        ensures
            r == Self::from_word(inst),
    {
        let rd = FprName::from_num(x(inst, 7, 5));
        let offset = (x(inst, 2, 2) * 64 + x(inst, 4, 3) * 4 + x(inst, 12, 1) * 32) as u64;
        C_FLWSP { rd, offset }
    }
}

impl Instruction for C_FLWSP {
    open spec fn effect(&self, s: StateView) -> Result<StateView, SimError> {
        Ok(s.advance(2))
    }

    proof fn lemma_effect_keeps_shape(&self, s: StateView) {
    }

    fn execute(&self, state: &mut State) -> (r: Result<(), SimError>) {
        state.advance(2);
        Ok(())
    }
}

/// Load the double word at the stack pointer plus the offset and write it
/// to `rd`.
#[derive(Clone, Copy, Debug, PartialEq, Eq, Structural)]
pub struct C_LDSP {
    pub rd: XprName,
    pub offset: u64,
}

impl C_LDSP {
    /// The instruction that the word `inst` encodes, field by field.
    pub open spec fn from_word(inst: u16) -> Self {
        C_LDSP {
            rd: c_rd(inst),
            offset: ci_offset_d(inst) as u64,
        }
    }

    /// Takes the operands out of the encoded instruction.
    pub fn new(inst: u16) -> (r: Self)
        ensures
            r == Self::from_word(inst),
    {
        let rd = rvc_ci_type(inst);
        let offset = (x(inst, 2, 3) * 64 + x(inst, 5, 2) * 8 + x(inst, 12, 1) * 32) as u64;
        C_LDSP { rd, offset }
    }
}

impl Instruction for C_LDSP {
    open spec fn effect(&self, s: StateView) -> Result<StateView, SimError> {
        match s.load_signed(unsigned(s.reg(XprName::sp).wrapping_add_unsigned(self.offset)), 8) {
            Ok(value) => Ok(s.set_reg(self.rd, value).advance(2)),
            Err(e) => Err(e),
        }
    }

    proof fn lemma_effect_keeps_shape(&self, s: StateView) {
    }

    fn execute(&self, state: &mut State) -> (r: Result<(), SimError>) {
        let addr = state.get_reg(XprName::sp).wrapping_add_unsigned(self.offset);
        match state.load_signed(addr, 8) {
            Ok(value) => {
                state.set_reg(self.rd, value);
                state.advance(2);
                Ok(())
            },
            Err(e) => Err(e),
        }
    }
}

/// Jump to the address in `rs1`, with the lowest bit cleared.
#[derive(Clone, Copy, Debug, PartialEq, Eq, Structural)]
pub struct C_JR {
    pub rs1: XprName,
}

impl C_JR {
    /// The instruction that the word `inst` encodes, field by field.
    pub open spec fn from_word(inst: u16) -> Self {
        C_JR {
            rs1: c_rd(inst),
        }
    }

    /// Takes the operands out of the encoded instruction.
    pub fn new(inst: u16) -> (r: Self)
        ensures
            r == Self::from_word(inst),
    {
        let rs1 = rvc_ci_type(inst);
        C_JR { rs1 }
    }
}

impl Instruction for C_JR {
    open spec fn effect(&self, s: StateView) -> Result<StateView, SimError> {
        Ok(s.set_pc(s.reg(self.rs1) & !1i64))
    }

    proof fn lemma_effect_keeps_shape(&self, s: StateView) {
    }

    fn execute(&self, state: &mut State) -> (r: Result<(), SimError>) {
        state.pc = state.get_reg(self.rs1) & !1i64;
        Ok(())
    }
}

/// Copy `rs2` to `rd`.
#[derive(Clone, Copy, Debug, PartialEq, Eq, Structural)]
pub struct C_MV {
    pub rd: XprName,
    pub rs2: XprName,
}

impl C_MV {
    /// The instruction that the word `inst` encodes, field by field.
    pub open spec fn from_word(inst: u16) -> Self {
        C_MV {
            rd: c_rd(inst),
            rs2: c_rs2(inst),
        }
    }

    /// Takes the operands out of the encoded instruction.
    pub fn new(inst: u16) -> (r: Self)
        ensures
            r == Self::from_word(inst),
    {
        let (rd, rs2) = rvc_cr_type(inst);
        C_MV { rd, rs2 }
    }
}

impl Instruction for C_MV {
    open spec fn effect(&self, s: StateView) -> Result<StateView, SimError> {
        Ok(s.set_reg(self.rd, s.reg(self.rs2)).advance(2))
    }

    proof fn lemma_effect_keeps_shape(&self, s: StateView) {
    }

    fn execute(&self, state: &mut State) -> (r: Result<(), SimError>) {
        let value = state.get_reg(self.rs2);
        state.set_reg(self.rd, value);
        state.advance(2);
        Ok(())
    }
}

/// Breakpoint. A placeholder: it only moves the program counter on. It
/// holds the encoded word.
#[derive(Clone, Copy, Debug, PartialEq, Eq, Structural)]
pub struct C_EBREAK(pub u16);

impl C_EBREAK {
    /// The instruction that the word `inst` encodes.
    pub open spec fn from_word(inst: u16) -> Self {
        C_EBREAK(inst)
    }

    /// Wraps the encoded instruction.
    pub fn new(inst: u16) -> (r: Self)
        ensures
            r == Self::from_word(inst),
    {
        C_EBREAK(inst)
    }
}

impl Instruction for C_EBREAK {
    open spec fn effect(&self, s: StateView) -> Result<StateView, SimError> {
        Ok(s.advance(2))
    }

    proof fn lemma_effect_keeps_shape(&self, s: StateView) {
    }

    fn execute(&self, state: &mut State) -> (r: Result<(), SimError>) {
        state.advance(2);
        Ok(())
    }
}

/// Jump and link register: writes the address of the next instruction to
/// `ra` and jumps to the address in `rs1`, with the lowest bit cleared. The
/// target is taken from `rs1` as it was before the link is written.
#[derive(Clone, Copy, Debug, PartialEq, Eq, Structural)]
pub struct C_JALR {
    pub rs1: XprName,
}

impl C_JALR {
    /// The instruction that the word `inst` encodes, field by field.
    pub open spec fn from_word(inst: u16) -> Self {
        C_JALR {
            rs1: c_rd(inst),
        }
    }

    /// Takes the operands out of the encoded instruction.
    pub fn new(inst: u16) -> (r: Self)
        ensures
            r == Self::from_word(inst),
    {
        let rs1 = rvc_ci_type(inst);
        C_JALR { rs1 }
    }
}

impl Instruction for C_JALR {
    open spec fn effect(&self, s: StateView) -> Result<StateView, SimError> {
        Ok(s.set_reg(XprName::ra, s.pc.wrapping_add(2)).set_pc(s.reg(self.rs1) & !1i64))
    }

    proof fn lemma_effect_keeps_shape(&self, s: StateView) {
    }

    fn execute(&self, state: &mut State) -> (r: Result<(), SimError>) {
        let target = state.get_reg(self.rs1) & !1i64;
        let link = state.pc.wrapping_add(2);
        state.set_reg(XprName::ra, link);
        state.pc = target;
        Ok(())
    }
}

/// Add `rs2` to `rs1`.
#[derive(Clone, Copy, Debug, PartialEq, Eq, Structural)]
pub struct C_ADD {
    pub rs1: XprName,
    pub rs2: XprName,
}

impl C_ADD {
    /// The instruction that the word `inst` encodes, field by field.
    pub open spec fn from_word(inst: u16) -> Self {
        C_ADD {
            rs1: c_rd(inst),
            rs2: c_rs2(inst),
        }
    }

    /// Takes the operands out of the encoded instruction.
    pub fn new(inst: u16) -> (r: Self)
        ensures
            r == Self::from_word(inst),
    {
        let (rs1, rs2) = rvc_cr_type(inst);
        C_ADD { rs1, rs2 }
    }
}

impl Instruction for C_ADD {
    open spec fn effect(&self, s: StateView) -> Result<StateView, SimError> {
        Ok(s.set_reg(self.rs1, s.reg(self.rs1).wrapping_add(s.reg(self.rs2))).advance(2))
    }

    proof fn lemma_effect_keeps_shape(&self, s: StateView) {
    }

    fn execute(&self, state: &mut State) -> (r: Result<(), SimError>) {
        let value = state.get_reg(self.rs1).wrapping_add(state.get_reg(self.rs2));
        state.set_reg(self.rs1, value);
        state.advance(2);
        Ok(())
    }
}

/// Store a double-precision floating-point value on the stack. A
/// placeholder: it only moves the program counter on.
#[derive(Clone, Copy, Debug, PartialEq, Eq, Structural)]
pub struct C_FSDSP {
    pub rs2: FprName,
    pub offset: u64,
}

impl C_FSDSP {
    /// The instruction that the word `inst` encodes, field by field.
    pub open spec fn from_word(inst: u16) -> Self {
        C_FSDSP {
            rs2: c_frs2(inst),
            offset: css_offset_d(inst) as u64,
        }
    }

    /// Takes the operands out of the encoded instruction.
    pub fn new(inst: u16) -> (r: Self)
        ensures
            r == Self::from_word(inst),
    {
        let rs2 = FprName::from_num(x(inst, 2, 5));
        let offset = (x(inst, 7, 3) * 64 + x(inst, 10, 3) * 8) as u64;
        C_FSDSP { rs2, offset }
    }
}

impl Instruction for C_FSDSP {
    open spec fn effect(&self, s: StateView) -> Result<StateView, SimError> {
        Ok(s.advance(2))
    }

    proof fn lemma_effect_keeps_shape(&self, s: StateView) {
    }

    fn execute(&self, state: &mut State) -> (r: Result<(), SimError>) {
        state.advance(2);
        Ok(())
    }
}

/// Store a quad word on the stack. A placeholder: it only moves the
/// program counter on.
#[derive(Clone, Copy, Debug, PartialEq, Eq, Structural)]
pub struct C_SQSP {
    pub rs2: XprName,
    pub offset: u64,
}

impl C_SQSP {
    /// The instruction that the word `inst` encodes, field by field.
    pub open spec fn from_word(inst: u16) -> Self {
        C_SQSP {
            rs2: c_rs2(inst),
            offset: css_offset_q(inst) as u64,
        }
    }

    /// Takes the operands out of the encoded instruction.
    pub fn new(inst: u16) -> (r: Self)
        ensures
            r == Self::from_word(inst),
    {
        let (rs2, _) = rvc_css_type(inst);
        let offset = (x(inst, 7, 4) * 64 + x(inst, 11, 2) * 16) as u64;
        C_SQSP { rs2, offset }
    }
}

impl Instruction for C_SQSP {
    open spec fn effect(&self, s: StateView) -> Result<StateView, SimError> {
        Ok(s.advance(2))
    }

    proof fn lemma_effect_keeps_shape(&self, s: StateView) {
    }

    fn execute(&self, state: &mut State) -> (r: Result<(), SimError>) {
        state.advance(2);
        Ok(())
    }
}

/// Store the low word of `rs2` at the stack pointer plus the offset.
#[derive(Clone, Copy, Debug, PartialEq, Eq, Structural)]
pub struct C_SWSP {
    pub rs2: XprName,
    pub offset: u64,
}

impl C_SWSP {
    /// The instruction that the word `inst` encodes, field by field.
    pub open spec fn from_word(inst: u16) -> Self {
        C_SWSP {
            rs2: c_rs2(inst),
            offset: css_offset_w(inst) as u64,
        }
    }

    /// Takes the operands out of the encoded instruction.
    pub fn new(inst: u16) -> (r: Self)
        ensures
            r == Self::from_word(inst),
    {
        let (rs2, _) = rvc_css_type(inst);
        let offset = (x(inst, 7, 2) * 64 + x(inst, 9, 4) * 4) as u64;
        C_SWSP { rs2, offset }
    }
}

impl Instruction for C_SWSP {
    open spec fn effect(&self, s: StateView) -> Result<StateView, SimError> {
        match s.store(
            unsigned(s.reg(XprName::sp).wrapping_add_unsigned(self.offset)),
            4,
            unsigned(s.reg(self.rs2)) as nat,
        ) {
            Ok(next) => Ok(next.advance(2)),
            Err(e) => Err(e),
        }
    }

    proof fn lemma_effect_keeps_shape(&self, s: StateView) {
        lemma_store_keeps_shape(
            s,
            unsigned(s.reg(XprName::sp).wrapping_add_unsigned(self.offset)),
            4,
            unsigned(s.reg(self.rs2)) as nat,
        );
    }

    fn execute(&self, state: &mut State) -> (r: Result<(), SimError>) {
        let addr = state.get_reg(XprName::sp).wrapping_add_unsigned(self.offset);
        let value = to_unsigned(state.get_reg(self.rs2));
        match state.store_le(to_unsigned(addr), 4, value) {
            Ok(()) => {
                state.advance(2);
                Ok(())
            },
            Err(e) => Err(e),
        }
    }
}

/// Store a single-precision floating-point value on the stack. A
/// placeholder: it only moves the program counter on.
#[derive(Clone, Copy, Debug, PartialEq, Eq, Structural)]
pub struct C_FSWSP {
    pub rs2: FprName,
    pub offset: u64,
}

impl C_FSWSP {
    /// The instruction that the word `inst` encodes, field by field.
    pub open spec fn from_word(inst: u16) -> Self {
        C_FSWSP {
            rs2: c_frs2(inst),
            offset: css_offset_w(inst) as u64,
        }
    }

    /// Takes the operands out of the encoded instruction.
    pub fn new(inst: u16) -> (r: Self)
        ensures
            r == Self::from_word(inst),
    {
        let rs2 = FprName::from_num(x(inst, 2, 5));
        let offset = (x(inst, 7, 2) * 64 + x(inst, 9, 4) * 4) as u64;
        C_FSWSP { rs2, offset }
    }
}

impl Instruction for C_FSWSP {
    open spec fn effect(&self, s: StateView) -> Result<StateView, SimError> {
        Ok(s.advance(2))
    }

    proof fn lemma_effect_keeps_shape(&self, s: StateView) {
    }

    fn execute(&self, state: &mut State) -> (r: Result<(), SimError>) {
        state.advance(2);
        Ok(())
    }
}

/// Store `rs2` as a double word at the stack pointer plus the offset.
#[derive(Clone, Copy, Debug, PartialEq, Eq, Structural)]
pub struct C_SDSP {
    pub rs2: XprName,
    pub offset: u64,
}

impl C_SDSP {
    /// The instruction that the word `inst` encodes, field by field.
    pub open spec fn from_word(inst: u16) -> Self {
        C_SDSP {
            rs2: c_rs2(inst),
            offset: css_offset_d(inst) as u64,
        }
    }

    /// Takes the operands out of the encoded instruction.
    pub fn new(inst: u16) -> (r: Self)
        ensures
            r == Self::from_word(inst),
    {
        let (rs2, _) = rvc_css_type(inst);
        let offset = (x(inst, 7, 3) * 64 + x(inst, 10, 3) * 8) as u64;
        C_SDSP { rs2, offset }
    }
}

impl Instruction for C_SDSP {
    open spec fn effect(&self, s: StateView) -> Result<StateView, SimError> {
        match s.store(
            unsigned(s.reg(XprName::sp).wrapping_add_unsigned(self.offset)),
            8,
            unsigned(s.reg(self.rs2)) as nat,
        ) {
            Ok(next) => Ok(next.advance(2)),
            Err(e) => Err(e),
        }
    }

    proof fn lemma_effect_keeps_shape(&self, s: StateView) {
        lemma_store_keeps_shape(
            s,
            unsigned(s.reg(XprName::sp).wrapping_add_unsigned(self.offset)),
            8,
            unsigned(s.reg(self.rs2)) as nat,
        );
    }

    fn execute(&self, state: &mut State) -> (r: Result<(), SimError>) {
        let addr = state.get_reg(XprName::sp).wrapping_add_unsigned(self.offset);
        let value = to_unsigned(state.get_reg(self.rs2));
        match state.store_le(to_unsigned(addr), 8, value) {
            Ok(()) => {
                state.advance(2);
                Ok(())
            },
            Err(e) => Err(e),
        }
    }
}

/// A compressed jump-and-link at address `pc` leaves `pc + 2` in `ra` and
/// continues at `pc` plus the offset. No other register and no byte of
/// memory changes. The sums wrap at 64 bits; where they do not overflow
/// they are the plain sums.
pub proof fn lemma_c_jal_links_and_jumps(inst: C_JAL, s: StateView)
    requires
        s.wf(),
    ensures
        inst.effect(s) matches Ok(next) && {
            &&& next.pc == s.pc.wrapping_add(inst.offset)
            &&& next.reg(XprName::ra) == s.pc.wrapping_add(2)
            &&& forall|other: XprName| other != XprName::ra ==> next.reg(other) == s.reg(other)
            &&& next.memory == s.memory
            &&& i64::MIN <= s.pc + inst.offset <= i64::MAX ==> next.pc == s.pc + inst.offset
            &&& s.pc + 2 <= i64::MAX ==> next.reg(XprName::ra) == s.pc + 2
        },
{
    let next = inst.effect(s).unwrap();
    assert forall|other: XprName| other != XprName::ra implies next.reg(other) == s.reg(other) by {
        lemma_write_then_read(s.regs, XprName::ra, s.pc.wrapping_add(2), other);
    }
}

/// A compressed jump continues at `pc` plus the offset and changes nothing
/// else. The sum wraps at 64 bits; where it does not overflow it is the
/// plain sum.
pub proof fn lemma_c_j_jumps(inst: C_J, s: StateView)
    ensures
        inst.effect(s) matches Ok(next) && {
            &&& next == s.set_pc(s.pc.wrapping_add(inst.offset))
            &&& i64::MIN <= s.pc + inst.offset <= i64::MAX ==> next.pc == s.pc + inst.offset
        },
{
}

} // verus!
