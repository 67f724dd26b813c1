//! The base integer instructions in their 32-bit encodings: the operand
//! formatters of the six encoding formats, and the instructions themselves.

use vstd::prelude::*;
use crate::error::SimError;
use crate::instructions::Instruction;
use crate::processor::{lemma_write_then_read, State, StateView, XprName};
use crate::utils::{bits, sign_extend, to_unsigned, unsigned, x};

verus! {

/// The destination register, in bits 7 to 11.
pub open spec fn rd_field(inst: u32) -> XprName {
    XprName::from_index(bits(inst as int, 7, 5))
}

/// The first source register, in bits 15 to 19.
pub open spec fn rs1_field(inst: u32) -> XprName {
    XprName::from_index(bits(inst as int, 15, 5))
}

/// The second source register, in bits 20 to 24.
pub open spec fn rs2_field(inst: u32) -> XprName {
    XprName::from_index(bits(inst as int, 20, 5))
}

/// The immediate of the I format: the 12 bits from bit 20 on, sign-extended.
pub open spec fn imm_i(inst: u32) -> int {
    sign_extend(bits(inst as int, 20, 12), 12)
}

/// The immediate of the S format: bits 7 to 11 are its bits 0 to 4 and bits
/// 25 to 31 its bits 5 to 11; 12 bits, sign-extended.
pub open spec fn imm_s(inst: u32) -> int {
    sign_extend(bits(inst as int, 7, 5) + 32 * bits(inst as int, 25, 7), 12)
}

/// The offset of the B format: bits 8 to 11 are its bits 1 to 4, bits 25 to
/// 30 its bits 5 to 10, bit 7 its bit 11 and bit 31 its bit 12; bit 0 is
/// zero; 13 bits, sign-extended.
pub open spec fn imm_b(inst: u32) -> int {
    sign_extend(
        2 * bits(inst as int, 8, 4) + 32 * bits(inst as int, 25, 6) + 2048 * bits(
            inst as int,
            7,
            1,
        ) + 4096 * bits(inst as int, 31, 1),
        13,
    )
}

/// The immediate of the U format: the 20 bits from bit 12 on, sign-extended.
pub open spec fn imm_u(inst: u32) -> int {
    sign_extend(bits(inst as int, 12, 20), 20)
}

/// The offset of the J format: bits 21 to 30 are its bits 1 to 10, bit 20
/// its bit 11, bits 12 to 19 its bits 12 to 19 and bit 31 its bit 20; bit 0
/// is zero; 21 bits, sign-extended.
pub open spec fn imm_j(inst: u32) -> int {
    sign_extend(
        2 * bits(inst as int, 21, 10) + 2048 * bits(inst as int, 20, 1) + 4096 * bits(
            inst as int,
            12,
            8,
        ) + 0x10_0000 * bits(inst as int, 31, 1),
        21,
    )
}

/// The operands of the R format: destination and two sources.
pub fn rv32i_r_type(inst: u32) -> (r: (XprName, XprName, XprName))
    ensures
        r.0 == rd_field(inst),
        r.1 == rs1_field(inst),
        r.2 == rs2_field(inst),
{
    let rd = x(inst, 7, 5);
    let rs1 = x(inst, 15, 5);
    let rs2 = x(inst, 20, 5);
    (XprName::from_num(rd), XprName::from_num(rs1), XprName::from_num(rs2))
}

/// The operands of the I format: destination, source and a 12-bit signed immediate.
pub fn rv32i_i_type(inst: u32) -> (r: (XprName, XprName, i64))
    ensures
        r.0 == rd_field(inst),
        r.1 == rs1_field(inst),
        r.2 == imm_i(inst),
        -2048 <= r.2 < 2048,
{
    let rd = x(inst, 7, 5);
    let rs1 = x(inst, 15, 5);
    let imm = x(inst, 20, 11) - x(inst, 31, 1) * 2048;
    (XprName::from_num(rd), XprName::from_num(rs1), imm)
}

/// The operands of the S format: base, source and a 12-bit signed immediate.
pub fn rv32i_s_type(inst: u32) -> (r: (XprName, XprName, i64))
    ensures
        r.0 == rs1_field(inst),
        r.1 == rs2_field(inst),
        r.2 == imm_s(inst),
        -2048 <= r.2 < 2048,
{
    let imm = x(inst, 7, 5) + x(inst, 25, 6) * 32 - x(inst, 31, 1) * 2048;
    let rs1 = x(inst, 15, 5);
    let rs2 = x(inst, 20, 5);
    (XprName::from_num(rs1), XprName::from_num(rs2), imm)
}

/// The operands of the B format: two sources and a 13-bit signed even offset.
pub fn rv32i_b_type(inst: u32) -> (r: (XprName, XprName, i64))
    ensures
        r.0 == rs1_field(inst),
        r.1 == rs2_field(inst),
        r.2 == imm_b(inst),
        -4096 <= r.2 < 4096,
        r.2 % 2 == 0,
{
    let imm = x(inst, 7, 1) * 2048 + x(inst, 8, 4) * 2 + x(inst, 25, 6) * 32 - x(inst, 31, 1)
        * 4096;
    let rs1 = x(inst, 15, 5);
    let rs2 = x(inst, 20, 5);
    (XprName::from_num(rs1), XprName::from_num(rs2), imm)
}

/// The operands of the U format: destination and a 20-bit signed immediate.
pub fn rv32i_u_type(inst: u32) -> (r: (XprName, i64))
    ensures
        r.0 == rd_field(inst),
        r.1 == imm_u(inst),
        -0x8_0000 <= r.1 < 0x8_0000,
{
    let rd = x(inst, 7, 5);
    let imm = x(inst, 12, 19) - x(inst, 31, 1) * 0x8_0000;
    (XprName::from_num(rd), imm)
}

/// The operands of the J format: destination and a 21-bit signed even offset.
pub fn rv32i_j_type(inst: u32) -> (r: (XprName, i64))
    ensures
        r.0 == rd_field(inst),
        r.1 == imm_j(inst),
        -0x10_0000 <= r.1 < 0x10_0000,
        r.1 % 2 == 0,
{
    let rd = x(inst, 7, 5);
    let imm = x(inst, 12, 8) * 4096 + x(inst, 20, 1) * 2048 + x(inst, 21, 10) * 2 - x(inst, 31, 1)
        * 0x10_0000;
    (XprName::from_num(rd), imm)
}



/// Load upper immediate: writes the immediate, shifted left by 12 bits, to `rd`.
#[derive(Clone, Copy, Debug, PartialEq, Eq, Structural)]
pub struct LUI {
    pub rd: XprName,
    pub imm: i64,
}

impl LUI {
    /// The instruction that the word `inst` encodes, field by field.
    pub open spec fn from_word(inst: u32) -> Self {
        LUI {
            rd: rd_field(inst),
            imm: imm_u(inst) as i64,
        }
    }

    /// Takes the operands out of the encoded instruction.
    pub fn new(inst: u32) -> (r: Self)
        ensures
            r == Self::from_word(inst),
    {
        let (rd, imm) = rv32i_u_type(inst);
        LUI { rd, imm }
    }
}

impl Instruction for LUI {
    open spec fn effect(&self, s: StateView) -> Result<StateView, SimError> {
        Ok(s.set_reg(self.rd, self.imm.wrapping_mul(4096)).advance(4))
    }

    proof fn lemma_effect_keeps_shape(&self, s: StateView) {
    }

    fn execute(&self, state: &mut State) -> (r: Result<(), SimError>) {
        let value = self.imm.wrapping_mul(4096);
        state.set_reg(self.rd, value);
        state.advance(4);
        Ok(())
    }
}

/// Add upper immediate to pc: writes the address of this instruction plus the
/// immediate shifted left by 12 bits to `rd`.
#[derive(Clone, Copy, Debug, PartialEq, Eq, Structural)]
pub struct AUIPC {
    pub rd: XprName,
    pub imm: i64,
}

impl AUIPC {
    /// The instruction that the word `inst` encodes, field by field.
    pub open spec fn from_word(inst: u32) -> Self {
        AUIPC {
            rd: rd_field(inst),
            imm: imm_u(inst) as i64,
        }
    }

    /// Takes the operands out of the encoded instruction.
    pub fn new(inst: u32) -> (r: Self)
        ensures
            r == Self::from_word(inst),
    {
        let (rd, imm) = rv32i_u_type(inst);
        AUIPC { rd, imm }
    }
}

impl Instruction for AUIPC {
    open spec fn effect(&self, s: StateView) -> Result<StateView, SimError> {
        Ok(s.set_reg(self.rd, s.pc.wrapping_add(self.imm.wrapping_mul(4096))).advance(4))
    }

    proof fn lemma_effect_keeps_shape(&self, s: StateView) {
    }

    fn execute(&self, state: &mut State) -> (r: Result<(), SimError>) {
        let value = state.pc.wrapping_add(self.imm.wrapping_mul(4096));
        state.set_reg(self.rd, value);
        state.advance(4);
        Ok(())
    }
}

/// Jump and link: writes the address of the next instruction to `rd` and
/// jumps by the offset.
#[derive(Clone, Copy, Debug, PartialEq, Eq, Structural)]
pub struct JAL {
    pub rd: XprName,
    pub imm: i64,
}

impl JAL {
    /// The instruction that the word `inst` encodes, field by field.
    pub open spec fn from_word(inst: u32) -> Self {
        JAL {
            rd: rd_field(inst),
            imm: imm_j(inst) as i64,
        }
    }

    /// Takes the operands out of the encoded instruction.
    pub fn new(inst: u32) -> (r: Self)
        ensures
            r == Self::from_word(inst),
    {
        let (rd, imm) = rv32i_j_type(inst);
        JAL { rd, imm }
    }
}

impl Instruction for JAL {
    open spec fn effect(&self, s: StateView) -> Result<StateView, SimError> {
        Ok(s.set_reg(self.rd, s.pc.wrapping_add(4)).advance(self.imm))
    }

    proof fn lemma_effect_keeps_shape(&self, s: StateView) {
    }

    fn execute(&self, state: &mut State) -> (r: Result<(), SimError>) {
        let link = state.pc.wrapping_add(4);
        state.set_reg(self.rd, link);
        state.advance(self.imm);
        Ok(())
    }
}

/// Jump and link register: writes the address of the next instruction to
/// `rd` and jumps to `rs1` plus the immediate, with the lowest bit cleared.
/// The target is taken from `rs1` as it was before the link is written.
#[derive(Clone, Copy, Debug, PartialEq, Eq, Structural)]
pub struct JALR {
    pub rd: XprName,
    pub rs1: XprName,
    pub imm: i64,
}

impl JALR {
    /// The instruction that the word `inst` encodes, field by field.
    pub open spec fn from_word(inst: u32) -> Self {
        JALR {
            rd: rd_field(inst),
            rs1: rs1_field(inst),
            imm: imm_i(inst) as i64,
        }
    }

    /// Takes the operands out of the encoded instruction.
    pub fn new(inst: u32) -> (r: Self)
        ensures
            r == Self::from_word(inst),
    {
        let (rd, rs1, imm) = rv32i_i_type(inst);
        JALR { rd, rs1, imm }
    }
}

impl Instruction for JALR {
    open spec fn effect(&self, s: StateView) -> Result<StateView, SimError> {
        Ok(
            s.set_reg(self.rd, s.pc.wrapping_add(4)).set_pc(
                s.reg(self.rs1).wrapping_add(self.imm) & !1i64,
            ),
        )
    }

    proof fn lemma_effect_keeps_shape(&self, s: StateView) {
    }

    fn execute(&self, state: &mut State) -> (r: Result<(), SimError>) {
        let target = state.get_reg(self.rs1).wrapping_add(self.imm) & !1i64;
        let link = state.pc.wrapping_add(4);
        state.set_reg(self.rd, link);
        state.pc = target;
        Ok(())
    }
}

/// Branch if equal.
#[derive(Clone, Copy, Debug, PartialEq, Eq, Structural)]
pub struct BEQ {
    pub rs1: XprName,
    pub rs2: XprName,
    pub offset: i64,
}

impl BEQ {
    /// The instruction that the word `inst` encodes, field by field.
    pub open spec fn from_word(inst: u32) -> Self {
        BEQ {
            rs1: rs1_field(inst),
            rs2: rs2_field(inst),
            offset: imm_b(inst) as i64,
        }
    }

    /// Takes the operands out of the encoded instruction.
    pub fn new(inst: u32) -> (r: Self)
        ensures
            r == Self::from_word(inst),
    {
        let (rs1, rs2, offset) = rv32i_b_type(inst);
        BEQ { rs1, rs2, offset }
    }
}

impl Instruction for BEQ {
    open spec fn effect(&self, s: StateView) -> Result<StateView, SimError> {
        if s.reg(self.rs1) == s.reg(self.rs2) {
            Ok(s.advance(self.offset))
        } else {
            Ok(s.advance(4))
        }
    }

    proof fn lemma_effect_keeps_shape(&self, s: StateView) {
    }

    fn execute(&self, state: &mut State) -> (r: Result<(), SimError>) {
        if state.get_reg(self.rs1) == state.get_reg(self.rs2) {
            state.advance(self.offset);
        } else {
            state.advance(4);
        }
        Ok(())
    }
}

/// Branch if not equal.
#[derive(Clone, Copy, Debug, PartialEq, Eq, Structural)]
pub struct BNE {
    pub rs1: XprName,
    pub rs2: XprName,
    pub offset: i64,
}

impl BNE {
    /// The instruction that the word `inst` encodes, field by field.
    pub open spec fn from_word(inst: u32) -> Self {
        BNE {
            rs1: rs1_field(inst),
            rs2: rs2_field(inst),
            offset: imm_b(inst) as i64,
        }
    }

    /// Takes the operands out of the encoded instruction.
    pub fn new(inst: u32) -> (r: Self)
        ensures
            r == Self::from_word(inst),
    {
        let (rs1, rs2, offset) = rv32i_b_type(inst);
        BNE { rs1, rs2, offset }
    }
}

impl Instruction for BNE {
    open spec fn effect(&self, s: StateView) -> Result<StateView, SimError> {
        if s.reg(self.rs1) != s.reg(self.rs2) {
            Ok(s.advance(self.offset))
        } else {
            Ok(s.advance(4))
        }
    }

    proof fn lemma_effect_keeps_shape(&self, s: StateView) {
    }

    fn execute(&self, state: &mut State) -> (r: Result<(), SimError>) {
        if state.get_reg(self.rs1) != state.get_reg(self.rs2) {
            state.advance(self.offset);
        } else {
            state.advance(4);
        }
        Ok(())
    }
}

/// Branch if less than, comparing as signed numbers.
#[derive(Clone, Copy, Debug, PartialEq, Eq, Structural)]
pub struct BLT {
    pub rs1: XprName,
    pub rs2: XprName,
    pub offset: i64,
}

impl BLT {
    /// The instruction that the word `inst` encodes, field by field.
    pub open spec fn from_word(inst: u32) -> Self {
        BLT {
            rs1: rs1_field(inst),
            rs2: rs2_field(inst),
            offset: imm_b(inst) as i64,
        }
    }

    /// Takes the operands out of the encoded instruction.
    pub fn new(inst: u32) -> (r: Self)
        ensures
            r == Self::from_word(inst),
    {
        let (rs1, rs2, offset) = rv32i_b_type(inst);
        BLT { rs1, rs2, offset }
    }
}

impl Instruction for BLT {
    open spec fn effect(&self, s: StateView) -> Result<StateView, SimError> {
        if s.reg(self.rs1) < s.reg(self.rs2) {
            Ok(s.advance(self.offset))
        } else {
            Ok(s.advance(4))
        }
    }

    proof fn lemma_effect_keeps_shape(&self, s: StateView) {
    }

    fn execute(&self, state: &mut State) -> (r: Result<(), SimError>) {
        if state.get_reg(self.rs1) < state.get_reg(self.rs2) {
            state.advance(self.offset);
        } else {
            state.advance(4);
        }
        Ok(())
    }
}

/// Branch if greater than or equal, comparing as signed numbers.
#[derive(Clone, Copy, Debug, PartialEq, Eq, Structural)]
pub struct BGE {
    pub rs1: XprName,
    pub rs2: XprName,
    pub offset: i64,
}

impl BGE {
    /// The instruction that the word `inst` encodes, field by field.
    pub open spec fn from_word(inst: u32) -> Self {
        BGE {
            rs1: rs1_field(inst),
            rs2: rs2_field(inst),
            offset: imm_b(inst) as i64,
        }
    }

    /// Takes the operands out of the encoded instruction.
    pub fn new(inst: u32) -> (r: Self)
        ensures
            r == Self::from_word(inst),
    {
        let (rs1, rs2, offset) = rv32i_b_type(inst);
        BGE { rs1, rs2, offset }
    }
}

impl Instruction for BGE {
    open spec fn effect(&self, s: StateView) -> Result<StateView, SimError> {
        if s.reg(self.rs1) >= s.reg(self.rs2) {
            Ok(s.advance(self.offset))
        } else {
            Ok(s.advance(4))
        }
    }

    proof fn lemma_effect_keeps_shape(&self, s: StateView) {
    }

    fn execute(&self, state: &mut State) -> (r: Result<(), SimError>) {
        if state.get_reg(self.rs1) >= state.get_reg(self.rs2) {
            state.advance(self.offset);
        } else {
            state.advance(4);
        }
        Ok(())
    }
}

/// Branch if less than, comparing as unsigned numbers.
#[derive(Clone, Copy, Debug, PartialEq, Eq, Structural)]
pub struct BLTU {
    pub rs1: XprName,
    pub rs2: XprName,
    pub offset: i64,
}

impl BLTU {
    /// The instruction that the word `inst` encodes, field by field.
    pub open spec fn from_word(inst: u32) -> Self {
        BLTU {
            rs1: rs1_field(inst),
            rs2: rs2_field(inst),
            offset: imm_b(inst) as i64,
        }
    }

    /// Takes the operands out of the encoded instruction.
    pub fn new(inst: u32) -> (r: Self)
        ensures
            r == Self::from_word(inst),
    {
        let (rs1, rs2, offset) = rv32i_b_type(inst);
        BLTU { rs1, rs2, offset }
    }
}

impl Instruction for BLTU {
    open spec fn effect(&self, s: StateView) -> Result<StateView, SimError> {
        if unsigned(s.reg(self.rs1)) < unsigned(s.reg(self.rs2)) {
            Ok(s.advance(self.offset))
        } else {
            Ok(s.advance(4))
        }
    }

    proof fn lemma_effect_keeps_shape(&self, s: StateView) {
    }

    fn execute(&self, state: &mut State) -> (r: Result<(), SimError>) {
        if to_unsigned(state.get_reg(self.rs1)) < to_unsigned(state.get_reg(self.rs2)) {
            state.advance(self.offset);
        } else {
            state.advance(4);
        }
        Ok(())
    }
}

/// Branch if greater than or equal, comparing as unsigned numbers.
#[derive(Clone, Copy, Debug, PartialEq, Eq, Structural)]
pub struct BGEU {
    pub rs1: XprName,
    pub rs2: XprName,
    pub offset: i64,
}

impl BGEU {
    /// The instruction that the word `inst` encodes, field by field.
    pub open spec fn from_word(inst: u32) -> Self {
        BGEU {
            rs1: rs1_field(inst),
            rs2: rs2_field(inst),
            offset: imm_b(inst) as i64,
        }
    }

    /// Takes the operands out of the encoded instruction.
    pub fn new(inst: u32) -> (r: Self)
        ensures
            r == Self::from_word(inst),
    {
        let (rs1, rs2, offset) = rv32i_b_type(inst);
        BGEU { rs1, rs2, offset }
    }
}

impl Instruction for BGEU {
    open spec fn effect(&self, s: StateView) -> Result<StateView, SimError> {
        if unsigned(s.reg(self.rs1)) >= unsigned(s.reg(self.rs2)) {
            Ok(s.advance(self.offset))
        } else {
            Ok(s.advance(4))
        }
    }

    proof fn lemma_effect_keeps_shape(&self, s: StateView) {
    }

    fn execute(&self, state: &mut State) -> (r: Result<(), SimError>) {
        if to_unsigned(state.get_reg(self.rs1)) >= to_unsigned(state.get_reg(self.rs2)) {
            state.advance(self.offset);
        } else {
            state.advance(4);
        }
        Ok(())
    }
}

/// Load byte: reads the byte at `rs1` plus the immediate and writes it,
/// sign-extended, to `rd`.
#[derive(Clone, Copy, Debug, PartialEq, Eq, Structural)]
pub struct LB {
    pub rd: XprName,
    pub rs1: XprName,
    pub imm: i64,
}

impl LB {
    /// The instruction that the word `inst` encodes, field by field.
    pub open spec fn from_word(inst: u32) -> Self {
        LB {
            rd: rd_field(inst),
            rs1: rs1_field(inst),
            imm: imm_i(inst) as i64,
        }
    }

    /// Takes the operands out of the encoded instruction.
    pub fn new(inst: u32) -> (r: Self)
        ensures
            r == Self::from_word(inst),
    {
        let (rd, rs1, imm) = rv32i_i_type(inst);
        LB { rd, rs1, imm }
    }
}

impl Instruction for LB {
    open spec fn effect(&self, s: StateView) -> Result<StateView, SimError> {
        match s.load_signed(unsigned(s.reg(self.rs1).wrapping_add(self.imm)), 1) {
            Ok(value) => Ok(s.set_reg(self.rd, value).advance(4)),
            Err(e) => Err(e),
        }
    }

    proof fn lemma_effect_keeps_shape(&self, s: StateView) {
    }

    fn execute(&self, state: &mut State) -> (r: Result<(), SimError>) {
        let addr = state.get_reg(self.rs1).wrapping_add(self.imm);
        match state.load_signed(addr, 1) {
            Ok(value) => {
                state.set_reg(self.rd, value);
                state.advance(4);
                Ok(())
            },
            Err(e) => Err(e),
        }
    }
}

/// Add immediate.
#[derive(Clone, Copy, Debug, PartialEq, Eq, Structural)]
pub struct ADDI {
    pub rd: XprName,
    pub rs1: XprName,
    pub imm: i64,
}

impl ADDI {
    /// The instruction that the word `inst` encodes, field by field.
    pub open spec fn from_word(inst: u32) -> Self {
        ADDI {
            rd: rd_field(inst),
            rs1: rs1_field(inst),
            imm: imm_i(inst) as i64,
        }
    }

    /// Takes the operands out of the encoded instruction.
    pub fn new(inst: u32) -> (r: Self)
        ensures
            r == Self::from_word(inst),
    {
        let (rd, rs1, imm) = rv32i_i_type(inst);
        ADDI { rd, rs1, imm }
    }
}

impl Instruction for ADDI {
    open spec fn effect(&self, s: StateView) -> Result<StateView, SimError> {
        Ok(s.set_reg(self.rd, s.reg(self.rs1).wrapping_add(self.imm)).advance(4))
    }

    proof fn lemma_effect_keeps_shape(&self, s: StateView) {
    }

    fn execute(&self, state: &mut State) -> (r: Result<(), SimError>) {
        let value = state.get_reg(self.rs1).wrapping_add(self.imm);
        state.set_reg(self.rd, value);
        state.advance(4);
        Ok(())
    }
}

/// Set if less than immediate, comparing as signed numbers: writes 1 to
/// `rd` if `rs1` is less than the immediate, and 0 otherwise.
#[derive(Clone, Copy, Debug, PartialEq, Eq, Structural)]
pub struct SLTI {
    pub rd: XprName,
    pub rs1: XprName,
    pub imm: i64,
}

impl SLTI {
    /// The instruction that the word `inst` encodes, field by field.
    pub open spec fn from_word(inst: u32) -> Self {
        SLTI {
            rd: rd_field(inst),
            rs1: rs1_field(inst),
            imm: imm_i(inst) as i64,
        }
    }

    /// Takes the operands out of the encoded instruction.
    pub fn new(inst: u32) -> (r: Self)
        ensures
            r == Self::from_word(inst),
    {
        let (rd, rs1, imm) = rv32i_i_type(inst);
        SLTI { rd, rs1, imm }
    }
}

impl Instruction for SLTI {
    open spec fn effect(&self, s: StateView) -> Result<StateView, SimError> {
        Ok(s.set_reg(self.rd, if s.reg(self.rs1) < self.imm { 1i64 } else { 0i64 }).advance(4))
    }

    proof fn lemma_effect_keeps_shape(&self, s: StateView) {
    }

    fn execute(&self, state: &mut State) -> (r: Result<(), SimError>) {
        let value = if state.get_reg(self.rs1) < self.imm { 1i64 } else { 0i64 };
        state.set_reg(self.rd, value);
        state.advance(4);
        Ok(())
    }
}

/// Set if less than immediate, comparing as unsigned numbers: the
/// sign-extended immediate and `rs1` are both read as unsigned 64-bit words.
#[derive(Clone, Copy, Debug, PartialEq, Eq, Structural)]
pub struct SLTIU {
    pub rd: XprName,
    pub rs1: XprName,
    pub imm: i64,
}

impl SLTIU {
    /// The instruction that the word `inst` encodes, field by field.
    pub open spec fn from_word(inst: u32) -> Self {
        SLTIU {
            rd: rd_field(inst),
            rs1: rs1_field(inst),
            imm: imm_i(inst) as i64,
        }
    }

    /// Takes the operands out of the encoded instruction.
    pub fn new(inst: u32) -> (r: Self)
        ensures
            r == Self::from_word(inst),
    {
        let (rd, rs1, imm) = rv32i_i_type(inst);
        SLTIU { rd, rs1, imm }
    }
}

impl Instruction for SLTIU {
    open spec fn effect(&self, s: StateView) -> Result<StateView, SimError> {
        Ok(
            s.set_reg(
                self.rd,
                if unsigned(s.reg(self.rs1)) < unsigned(self.imm) { 1i64 } else { 0i64 },
            ).advance(4),
        )
    }

    proof fn lemma_effect_keeps_shape(&self, s: StateView) {
    }

    fn execute(&self, state: &mut State) -> (r: Result<(), SimError>) {
        let value = if to_unsigned(state.get_reg(self.rs1)) < to_unsigned(self.imm) {
            1i64
        } else {
            0i64
        };
        state.set_reg(self.rd, value);
        state.advance(4);
        Ok(())
    }
}

/// Exclusive or with immediate.
#[derive(Clone, Copy, Debug, PartialEq, Eq, Structural)]
pub struct XORI {
    pub rd: XprName,
    pub rs1: XprName,
    pub imm: i64,
}

impl XORI {
    /// The instruction that the word `inst` encodes, field by field.
    pub open spec fn from_word(inst: u32) -> Self {
        XORI {
            rd: rd_field(inst),
            rs1: rs1_field(inst),
            imm: imm_i(inst) as i64,
        }
    }

    /// Takes the operands out of the encoded instruction.
    pub fn new(inst: u32) -> (r: Self)
        ensures
            r == Self::from_word(inst),
    {
        let (rd, rs1, imm) = rv32i_i_type(inst);
        XORI { rd, rs1, imm }
    }
}

impl Instruction for XORI {
    open spec fn effect(&self, s: StateView) -> Result<StateView, SimError> {
        Ok(s.set_reg(self.rd, s.reg(self.rs1) ^ self.imm).advance(4))
    }

    proof fn lemma_effect_keeps_shape(&self, s: StateView) {
    }

    fn execute(&self, state: &mut State) -> (r: Result<(), SimError>) {
        let value = state.get_reg(self.rs1) ^ self.imm;
        state.set_reg(self.rd, value);
        state.advance(4);
        Ok(())
    }
}

/// Or with immediate.
#[derive(Clone, Copy, Debug, PartialEq, Eq, Structural)]
pub struct ORI {
    pub rd: XprName,
    pub rs1: XprName,
    pub imm: i64,
}

impl ORI {
    /// The instruction that the word `inst` encodes, field by field.
    pub open spec fn from_word(inst: u32) -> Self {
        ORI {
            rd: rd_field(inst),
            rs1: rs1_field(inst),
            imm: imm_i(inst) as i64,
        }
    }

    /// Takes the operands out of the encoded instruction.
    pub fn new(inst: u32) -> (r: Self)
        ensures
            r == Self::from_word(inst),
    {
        let (rd, rs1, imm) = rv32i_i_type(inst);
        ORI { rd, rs1, imm }
    }
}

impl Instruction for ORI {
    open spec fn effect(&self, s: StateView) -> Result<StateView, SimError> {
        Ok(s.set_reg(self.rd, s.reg(self.rs1) | self.imm).advance(4))
    }

    proof fn lemma_effect_keeps_shape(&self, s: StateView) {
    }

    fn execute(&self, state: &mut State) -> (r: Result<(), SimError>) {
        let value = state.get_reg(self.rs1) | self.imm;
        state.set_reg(self.rd, value);
        state.advance(4);
        Ok(())
    }
}

/// And with immediate.
#[derive(Clone, Copy, Debug, PartialEq, Eq, Structural)]
pub struct ANDI {
    pub rd: XprName,
    pub rs1: XprName,
    pub imm: i64,
}

impl ANDI {
    /// The instruction that the word `inst` encodes, field by field.
    pub open spec fn from_word(inst: u32) -> Self {
        ANDI {
            rd: rd_field(inst),
            rs1: rs1_field(inst),
            imm: imm_i(inst) as i64,
        }
    }

    /// Takes the operands out of the encoded instruction.
    pub fn new(inst: u32) -> (r: Self)
        ensures
            r == Self::from_word(inst),
    {
        let (rd, rs1, imm) = rv32i_i_type(inst);
        ANDI { rd, rs1, imm }
    }
}

impl Instruction for ANDI {
    open spec fn effect(&self, s: StateView) -> Result<StateView, SimError> {
        Ok(s.set_reg(self.rd, s.reg(self.rs1) & self.imm).advance(4))
    }

    proof fn lemma_effect_keeps_shape(&self, s: StateView) {
    }

    fn execute(&self, state: &mut State) -> (r: Result<(), SimError>) {
        let value = state.get_reg(self.rs1) & self.imm;
        state.set_reg(self.rd, value);
        state.advance(4);
        Ok(())
    }
}

/// A jump-and-link at address `pc` leaves `pc + 4` in its destination, or
/// nothing if the destination is `zero`, and continues at `pc` plus the
/// offset. No other register and no byte of memory changes. The sums wrap
/// at 64 bits; where they do not overflow they are the plain sums.
pub proof fn lemma_jal_links_and_jumps(inst: JAL, s: StateView)
    requires
        s.wf(),
    ensures
        inst.effect(s) matches Ok(next) && {
            &&& next.pc == s.pc.wrapping_add(inst.imm)
            &&& next.reg(inst.rd) == (if inst.rd == XprName::zero {
                0
            } else {
                s.pc.wrapping_add(4)
            })
            &&& forall|other: XprName| other != inst.rd ==> next.reg(other) == s.reg(other)
            &&& next.memory == s.memory
            &&& i64::MIN <= s.pc + inst.imm <= i64::MAX ==> next.pc == s.pc + inst.imm
            &&& s.pc + 4 <= i64::MAX && inst.rd != XprName::zero ==> next.reg(inst.rd) == s.pc + 4
        },
{
    let next = inst.effect(s).unwrap();
    assert forall|other: XprName| other != inst.rd implies next.reg(other) == s.reg(other) by {
        lemma_write_then_read(s.regs, inst.rd, s.pc.wrapping_add(4), other);
    }
}

} // verus!
