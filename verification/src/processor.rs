//! The architectural state: register names, the integer register file, the
//! width mode and the processor state that instructions act on.

use std::collections::HashMap;
use vstd::prelude::*;
use crate::decode::{decode, decode_inst, lemma_decode_total, length_of, InstructionRaw};
use crate::error::SimError;
use crate::instructions::{DecodedInstruction, Instruction};
use crate::mmu::{bytes_at, lemma_le_value_unfold, mapped};
use crate::utils::unsigned;

verus! {

/// The width of the integer registers that the simulated processor runs in.
/// It selects among instructions that share an encoding.
#[derive(Clone, Copy, Debug, PartialEq, Eq, Structural)]
pub enum XLEN {
    RV32,
    RV64,
    RV128,
}

/// The 32 integer registers, in the order of their numeric encoding.
#[allow(non_camel_case_types)]
#[derive(Clone, Copy, Debug, PartialEq, Eq, Hash, Structural)]
pub enum XprName {
    zero,
    ra,
    sp,
    gp,
    tp,
    t0,
    t1,
    t2,
    s0,
    s1,
    a0,
    a1,
    a2,
    a3,
    a4,
    a5,
    a6,
    a7,
    s2,
    s3,
    s4,
    s5,
    s6,
    s7,
    s8,
    s9,
    s10,
    s11,
    t3,
    t4,
    t5,
    t6,
}

impl XprName {
    /// The numeric encoding of the register, from 0 to 31.
    pub open spec fn index(self) -> int {
        match self {
            XprName::zero => 0,
            XprName::ra => 1,
            XprName::sp => 2,
            XprName::gp => 3,
            XprName::tp => 4,
            XprName::t0 => 5,
            XprName::t1 => 6,
            XprName::t2 => 7,
            XprName::s0 => 8,
            XprName::s1 => 9,
            XprName::a0 => 10,
            XprName::a1 => 11,
            XprName::a2 => 12,
            XprName::a3 => 13,
            XprName::a4 => 14,
            XprName::a5 => 15,
            XprName::a6 => 16,
            XprName::a7 => 17,
            XprName::s2 => 18,
            XprName::s3 => 19,
            XprName::s4 => 20,
            XprName::s5 => 21,
            XprName::s6 => 22,
            XprName::s7 => 23,
            XprName::s8 => 24,
            XprName::s9 => 25,
            XprName::s10 => 26,
            XprName::s11 => 27,
            XprName::t3 => 28,
            XprName::t4 => 29,
            XprName::t5 => 30,
            XprName::t6 => 31,
        }
    }

    /// The register with the numeric encoding `value`; encodings outside
    /// 0..32 have no register and stand for the first one.
    pub open spec fn from_index(value: int) -> XprName {
        if value == 1 {
            XprName::ra
        } else if value == 2 {
            XprName::sp
        } else if value == 3 {
            XprName::gp
        } else if value == 4 {
            XprName::tp
        } else if value == 5 {
            XprName::t0
        } else if value == 6 {
            XprName::t1
        } else if value == 7 {
            XprName::t2
        } else if value == 8 {
            XprName::s0
        } else if value == 9 {
            XprName::s1
        } else if value == 10 {
            XprName::a0
        } else if value == 11 {
            XprName::a1
        } else if value == 12 {
            XprName::a2
        } else if value == 13 {
            XprName::a3
        } else if value == 14 {
            XprName::a4
        } else if value == 15 {
            XprName::a5
        } else if value == 16 {
            XprName::a6
        } else if value == 17 {
            XprName::a7
        } else if value == 18 {
            XprName::s2
        } else if value == 19 {
            XprName::s3
        } else if value == 20 {
            XprName::s4
        } else if value == 21 {
            XprName::s5
        } else if value == 22 {
            XprName::s6
        } else if value == 23 {
            XprName::s7
        } else if value == 24 {
            XprName::s8
        } else if value == 25 {
            XprName::s9
        } else if value == 26 {
            XprName::s10
        } else if value == 27 {
            XprName::s11
        } else if value == 28 {
            XprName::t3
        } else if value == 29 {
            XprName::t4
        } else if value == 30 {
            XprName::t5
        } else if value == 31 {
            XprName::t6
        } else {
            XprName::zero
        }
    }

    /// The numeric encoding of the register.
    pub fn num(self) -> (r: usize)
        ensures
            r == self.index(),
            r < 32,
    {
        match self {
            XprName::zero => 0,
            XprName::ra => 1,
            XprName::sp => 2,
            XprName::gp => 3,
            XprName::tp => 4,
            XprName::t0 => 5,
            XprName::t1 => 6,
            XprName::t2 => 7,
            XprName::s0 => 8,
            XprName::s1 => 9,
            XprName::a0 => 10,
            XprName::a1 => 11,
            XprName::a2 => 12,
            XprName::a3 => 13,
            XprName::a4 => 14,
            XprName::a5 => 15,
            XprName::a6 => 16,
            XprName::a7 => 17,
            XprName::s2 => 18,
            XprName::s3 => 19,
            XprName::s4 => 20,
            XprName::s5 => 21,
            XprName::s6 => 22,
            XprName::s7 => 23,
            XprName::s8 => 24,
            XprName::s9 => 25,
            XprName::s10 => 26,
            XprName::s11 => 27,
            XprName::t3 => 28,
            XprName::t4 => 29,
            XprName::t5 => 30,
            XprName::t6 => 31,
        }
    }

    /// The integer register with the numeric encoding `value`.
    pub fn from_num(value: i64) -> (r: Self)
        requires
            0 <= value < 32,
        ensures
            r == Self::from_index(value as int),
            r.index() == value,
    {
        if value == 1 {
            XprName::ra
        } else if value == 2 {
            XprName::sp
        } else if value == 3 {
            XprName::gp
        } else if value == 4 {
            XprName::tp
        } else if value == 5 {
            XprName::t0
        } else if value == 6 {
            XprName::t1
        } else if value == 7 {
            XprName::t2
        } else if value == 8 {
            XprName::s0
        } else if value == 9 {
            XprName::s1
        } else if value == 10 {
            XprName::a0
        } else if value == 11 {
            XprName::a1
        } else if value == 12 {
            XprName::a2
        } else if value == 13 {
            XprName::a3
        } else if value == 14 {
            XprName::a4
        } else if value == 15 {
            XprName::a5
        } else if value == 16 {
            XprName::a6
        } else if value == 17 {
            XprName::a7
        } else if value == 18 {
            XprName::s2
        } else if value == 19 {
            XprName::s3
        } else if value == 20 {
            XprName::s4
        } else if value == 21 {
            XprName::s5
        } else if value == 22 {
            XprName::s6
        } else if value == 23 {
            XprName::s7
        } else if value == 24 {
            XprName::s8
        } else if value == 25 {
            XprName::s9
        } else if value == 26 {
            XprName::s10
        } else if value == 27 {
            XprName::s11
        } else if value == 28 {
            XprName::t3
        } else if value == 29 {
            XprName::t4
        } else if value == 30 {
            XprName::t5
        } else if value == 31 {
            XprName::t6
        } else {
            XprName::zero
        }
    }

    /// Encoding a register and decoding the number gives the register back.
    pub proof fn lemma_index_round_trip(self)
        ensures
            0 <= self.index() < 32,
            Self::from_index(self.index()) == self,
    {
    }

    /// Decoding a number below 32 and encoding the register gives the number back.
    pub proof fn lemma_from_index_round_trip(value: int)
        requires
            0 <= value < 32,
        ensures
            Self::from_index(value).index() == value,
    {
    }
}

/// The 32 floating-point registers, in the order of their numeric encoding.
#[allow(non_camel_case_types)]
#[derive(Clone, Copy, Debug, PartialEq, Eq, Hash, Structural)]
pub enum FprName {
    ft0,
    ft1,
    ft2,
    ft3,
    ft4,
    ft5,
    ft6,
    ft7,
    fs0,
    fs1,
    fa0,
    fa1,
    fa2,
    fa3,
    fa4,
    fa5,
    fa6,
    fa7,
    fs2,
    fs3,
    fs4,
    fs5,
    fs6,
    fs7,
    fs8,
    fs9,
    fs10,
    fs11,
    ft8,
    ft9,
    ft10,
    ft11,
}

impl FprName {
    /// The numeric encoding of the register, from 0 to 31.
    pub open spec fn index(self) -> int {
        match self {
            FprName::ft0 => 0,
            FprName::ft1 => 1,
            FprName::ft2 => 2,
            FprName::ft3 => 3,
            FprName::ft4 => 4,
            FprName::ft5 => 5,
            FprName::ft6 => 6,
            FprName::ft7 => 7,
            FprName::fs0 => 8,
            FprName::fs1 => 9,
            FprName::fa0 => 10,
            FprName::fa1 => 11,
            FprName::fa2 => 12,
            FprName::fa3 => 13,
            FprName::fa4 => 14,
            FprName::fa5 => 15,
            FprName::fa6 => 16,
            FprName::fa7 => 17,
            FprName::fs2 => 18,
            FprName::fs3 => 19,
            FprName::fs4 => 20,
            FprName::fs5 => 21,
            FprName::fs6 => 22,
            FprName::fs7 => 23,
            FprName::fs8 => 24,
            FprName::fs9 => 25,
            FprName::fs10 => 26,
            FprName::fs11 => 27,
            FprName::ft8 => 28,
            FprName::ft9 => 29,
            FprName::ft10 => 30,
            FprName::ft11 => 31,
        }
    }

    /// The register with the numeric encoding `value`; encodings outside
    /// 0..32 have no register and stand for the first one.
    pub open spec fn from_index(value: int) -> FprName {
        if value == 1 {
            FprName::ft1
        } else if value == 2 {
            FprName::ft2
        } else if value == 3 {
            FprName::ft3
        } else if value == 4 {
            FprName::ft4
        } else if value == 5 {
            FprName::ft5
        } else if value == 6 {
            FprName::ft6
        } else if value == 7 {
            FprName::ft7
        } else if value == 8 {
            FprName::fs0
        } else if value == 9 {
            FprName::fs1
        } else if value == 10 {
            FprName::fa0
        } else if value == 11 {
            FprName::fa1
        } else if value == 12 {
            FprName::fa2
        } else if value == 13 {
            FprName::fa3
        } else if value == 14 {
            FprName::fa4
        } else if value == 15 {
            FprName::fa5
        } else if value == 16 {
            FprName::fa6
        } else if value == 17 {
            FprName::fa7
        } else if value == 18 {
            FprName::fs2
        } else if value == 19 {
            FprName::fs3
        } else if value == 20 {
            FprName::fs4
        } else if value == 21 {
            FprName::fs5
        } else if value == 22 {
            FprName::fs6
        } else if value == 23 {
            FprName::fs7
        } else if value == 24 {
            FprName::fs8
        } else if value == 25 {
            FprName::fs9
        } else if value == 26 {
            FprName::fs10
        } else if value == 27 {
            FprName::fs11
        } else if value == 28 {
            FprName::ft8
        } else if value == 29 {
            FprName::ft9
        } else if value == 30 {
            FprName::ft10
        } else if value == 31 {
            FprName::ft11
        } else {
            FprName::ft0
        }
    }

    /// The numeric encoding of the register.
    pub fn num(self) -> (r: usize)
        ensures
            r == self.index(),
            r < 32,
    {
        match self {
            FprName::ft0 => 0,
            FprName::ft1 => 1,
            FprName::ft2 => 2,
            FprName::ft3 => 3,
            FprName::ft4 => 4,
            FprName::ft5 => 5,
            FprName::ft6 => 6,
            FprName::ft7 => 7,
            FprName::fs0 => 8,
            FprName::fs1 => 9,
            FprName::fa0 => 10,
            FprName::fa1 => 11,
            FprName::fa2 => 12,
            FprName::fa3 => 13,
            FprName::fa4 => 14,
            FprName::fa5 => 15,
            FprName::fa6 => 16,
            FprName::fa7 => 17,
            FprName::fs2 => 18,
            FprName::fs3 => 19,
            FprName::fs4 => 20,
            FprName::fs5 => 21,
            FprName::fs6 => 22,
            FprName::fs7 => 23,
            FprName::fs8 => 24,
            FprName::fs9 => 25,
            FprName::fs10 => 26,
            FprName::fs11 => 27,
            FprName::ft8 => 28,
            FprName::ft9 => 29,
            FprName::ft10 => 30,
            FprName::ft11 => 31,
        }
    }

    /// The floating-point register with the numeric encoding `value`.
    pub fn from_num(value: i64) -> (r: Self)
        requires
            0 <= value < 32,
        ensures
            r == Self::from_index(value as int),
            r.index() == value,
    {
        if value == 1 {
            FprName::ft1
        } else if value == 2 {
            FprName::ft2
        } else if value == 3 {
            FprName::ft3
        } else if value == 4 {
            FprName::ft4
        } else if value == 5 {
            FprName::ft5
        } else if value == 6 {
            FprName::ft6
        } else if value == 7 {
            FprName::ft7
        } else if value == 8 {
            FprName::fs0
        } else if value == 9 {
            FprName::fs1
        } else if value == 10 {
            FprName::fa0
        } else if value == 11 {
            FprName::fa1
        } else if value == 12 {
            FprName::fa2
        } else if value == 13 {
            FprName::fa3
        } else if value == 14 {
            FprName::fa4
        } else if value == 15 {
            FprName::fa5
        } else if value == 16 {
            FprName::fa6
        } else if value == 17 {
            FprName::fa7
        } else if value == 18 {
            FprName::fs2
        } else if value == 19 {
            FprName::fs3
        } else if value == 20 {
            FprName::fs4
        } else if value == 21 {
            FprName::fs5
        } else if value == 22 {
            FprName::fs6
        } else if value == 23 {
            FprName::fs7
        } else if value == 24 {
            FprName::fs8
        } else if value == 25 {
            FprName::fs9
        } else if value == 26 {
            FprName::fs10
        } else if value == 27 {
            FprName::fs11
        } else if value == 28 {
            FprName::ft8
        } else if value == 29 {
            FprName::ft9
        } else if value == 30 {
            FprName::ft10
        } else if value == 31 {
            FprName::ft11
        } else {
            FprName::ft0
        }
    }

    /// Encoding a register and decoding the number gives the register back.
    pub proof fn lemma_index_round_trip(self)
        ensures
            0 <= self.index() < 32,
            Self::from_index(self.index()) == self,
    {
    }

    /// Decoding a number below 32 and encoding the register gives the number back.
    pub proof fn lemma_from_index_round_trip(value: int)
        requires
            0 <= value < 32,
        ensures
            Self::from_index(value).index() == value,
    {
    }
}

/// The 32 vector registers, in the order of their numeric encoding.
#[allow(non_camel_case_types)]
#[derive(Clone, Copy, Debug, PartialEq, Eq, Hash, Structural)]
pub enum VR {
    v0,
    v1,
    v2,
    v3,
    v4,
    v5,
    v6,
    v7,
    v8,
    v9,
    v10,
    v11,
    v12,
    v13,
    v14,
    v15,
    v16,
    v17,
    v18,
    v19,
    v20,
    v21,
    v22,
    v23,
    v24,
    v25,
    v26,
    v27,
    v28,
    v29,
    v30,
    v31,
}


/// The integer register file: 32 signed 64-bit words, of which the first
/// always reads as zero.
pub struct XPR {
    data: [i64; 32],
}

impl View for XPR {
    type V = Seq<i64>;

    /// The 32 register values as they read, in the order of their encoding.
    closed spec fn view(&self) -> Seq<i64> {
        Seq::new(32, |i: int| if i == 0 { 0i64 } else { self.data[i] })
    }
}

impl XPR {
    /// A register file in which every register holds zero.
    pub fn new() -> (r: Self)
        ensures
            r@ == Seq::new(32, |i: int| 0i64),
    {
        let r = XPR { data: [0; 32] };
        assert(r@ =~= Seq::new(32, |i: int| 0i64));
        r
    }

    /// The register file always has 32 entries and its first entry is zero.
    pub proof fn lemma_zero_register(&self)
        ensures
            self@.len() == 32,
            self@[0] == 0,
    {
    }

    /// Reads a register; `zero` always reads as 0.
    pub fn get(&self, reg: XprName) -> (r: i64)
        ensures
            r == self@[reg.index()],
            reg == XprName::zero ==> r == 0,
    {
        let i = reg.num();
        if i == 0 {
            0
        } else {
            self.data[i]
        }
    }

    /// Writes a register; a write to `zero` is discarded.
    pub fn set(&mut self, reg: XprName, value: i64)
        ensures
            final(self)@ == write_reg(old(self)@, reg, value),
    {
        let i = reg.num();
        if i != 0 {
            self.data[i] = value;
        }
        assert(self@ =~= write_reg(old(self)@, reg, value));
    }
}

/// The register values after `value` is written to `reg`: unchanged for
/// `zero`, and changed in the one entry of `reg` otherwise.
pub open spec fn write_reg(regs: Seq<i64>, reg: XprName, value: i64) -> Seq<i64> {
    if reg == XprName::zero {
        regs
    } else {
        regs.update(reg.index(), value)
    }
}

/// A write to `zero` is discarded and `zero` reads as 0; a write to any
/// other register is read back from it; and a write changes no register but
/// the one written.
pub proof fn lemma_write_then_read(regs: Seq<i64>, reg: XprName, value: i64, other: XprName)
    requires
        regs.len() == 32,
        regs[0] == 0,
    ensures
        write_reg(regs, reg, value).len() == 32,
        write_reg(regs, reg, value)[XprName::zero.index()] == 0,
        reg != XprName::zero ==> write_reg(regs, reg, value)[reg.index()] == value,
        other != reg ==> write_reg(regs, reg, value)[other.index()] == regs[other.index()],
{
}

/// The mathematical model of the processor state.
pub struct StateView {
    pub xlen: XLEN,
    pub pc: i64,
    /// The 32 integer registers as they read; the first is zero.
    pub regs: Seq<i64>,
    /// The bytes that are mapped, by address.
    pub memory: Map<u64, u8>,
    /// The control and status registers, which no instruction modelled here touches.
    pub csr: Seq<i64>,
}

impl StateView {
    /// Whether the model has the shape of a processor state: 32 integer
    /// registers of which the first is zero, and 20 control and status
    /// registers.
    pub open spec fn wf(self) -> bool {
        &&& self.regs.len() == 32
        &&& self.regs[0] == 0
        &&& self.csr.len() == 20
    }

    /// Whether `next` is well-formed and has the width mode, the control and
    /// status registers and the set of mapped addresses of this state.
    pub open spec fn keeps_shape(self, next: StateView) -> bool {
        &&& next.wf()
        &&& next.xlen == self.xlen
        &&& next.csr == self.csr
        &&& next.memory.dom() == self.memory.dom()
    }

    /// The value that register `reg` reads as.
    pub open spec fn reg(self, reg: XprName) -> i64 {
        self.regs[reg.index()]
    }

    /// The state after `value` is written to `reg`; a write to `zero` changes nothing.
    pub open spec fn set_reg(self, reg: XprName, value: i64) -> StateView {
        StateView { regs: write_reg(self.regs, reg, value), ..self }
    }

    /// The state with the program counter at `pc`.
    pub open spec fn set_pc(self, pc: i64) -> StateView {
        StateView { pc, ..self }
    }

    /// The state with `memory` in place of the mapped bytes.
    pub open spec fn set_memory(self, memory: Map<u64, u8>) -> StateView {
        StateView { memory, ..self }
    }

    /// The state with the program counter moved by `offset`, wrapping at 64 bits.
    pub open spec fn advance(self, offset: i64) -> StateView {
        self.set_pc(self.pc.wrapping_add(offset))
    }

    /// The raw instruction at the program counter, read in little-endian
    /// order. The two bytes at the program counter give the length. A length
    /// of 2 or 4 gives the word of that many bytes; a greater length is not
    /// supported; a byte that is not mapped fails the fetch.
    pub open spec fn fetch(self) -> Result<InstructionRaw, SimError> {
        match self.load(unsigned(self.pc), 2) {
            Ok(base) => {
                if length_of(base as u16) == 2 {
                    Ok(InstructionRaw::B16(base as u16))
                } else if length_of(base as u16) == 4 {
                    match self.load(unsigned(self.pc), 4) {
                        Ok(word) => Ok(InstructionRaw::B32(word as u32)),
                        Err(e) => Err(e),
                    }
                } else {
                    Err(SimError::UnsupportedLength)
                }
            },
            Err(e) => Err(e),
        }
    }

    /// The instruction at the program counter, fetched and decoded.
    pub open spec fn fetch_decode(self) -> Result<DecodedInstruction, SimError> {
        match self.fetch() {
            Ok(raw) => decode(raw, self.xlen),
            Err(e) => Err(e),
        }
    }

    /// The state after one cycle: the instruction at the program counter is
    /// fetched, decoded and executed.
    pub open spec fn step(self) -> Result<StateView, SimError> {
        match self.fetch_decode() {
            Ok(inst) => inst.effect(self),
            Err(e) => Err(e),
        }
    }
}

/// The raw instruction that is fetched from memory is well-formed.
pub proof fn lemma_fetch_well_formed(s: StateView)
    ensures
        s.fetch() matches Ok(raw) ==> raw.well_formed(),
{
    let address = unsigned(s.pc);
    if mapped(s.memory, address, 4) {
        let two = bytes_at(s.memory, address, 2);
        let four = bytes_at(s.memory, address, 4);
        lemma_le_value_unfold(two);
        lemma_le_value_unfold(four);
        assert(two[0] == four[0] && two[1] == four[1]);
    }
}

/// One cycle keeps the state well-formed and leaves the width mode, the
/// control and status registers and the set of mapped addresses as they
/// were. It fails only in one of five ways: the instruction is illegal,
/// reserved, unimplemented or too long, or an address is not mapped.
pub proof fn lemma_step_outcome(s: StateView)
    requires
        s.wf(),
    ensures
        match s.step() {
            Ok(next) => s.keeps_shape(next),
            Err(e) => e == SimError::IllegalInstruction || e == SimError::ReservedEncoding || e
                == SimError::UnimplementedInstruction || e == SimError::UnsupportedLength || e
                == SimError::UnmappedMemory,
        },
{
    lemma_fetch_well_formed(s);
    match s.fetch() {
        Ok(raw) => {
            lemma_decode_total(raw, s.xlen);
            match decode(raw, s.xlen) {
                Ok(inst) => inst.lemma_effect_keeps_shape(s),
                Err(_) => {},
            }
        },
        Err(_) => {},
    }
}

/// The processor state that instructions act on: the width mode, the program
/// counter, the integer registers, the control and status registers, and a
/// sparse byte-addressed memory.
pub struct State {
    pub xlen: XLEN,
    pub pc: i64,
    pub regs: XPR,
    pub prv: i64,
    pub misa: i64,
    pub mstatus: i64,
    pub mepc: i64,
    pub mtval: i64,
    pub mscratch: i64,
    pub mtvec: i64,
    pub mcause: i64,
    pub minstret: i64,
    pub mie: i64,
    pub mip: i64,
    pub medeleg: i64,
    pub mideleg: i64,
    pub sepc: i64,
    pub stval: i64,
    pub sscratch: i64,
    pub stvec: i64,
    pub satp: i64,
    pub scause: i64,
    pub dpc: i64,
    pub memory: HashMap<u64, u8>,
}

impl View for State {
    type V = StateView;

    open spec fn view(&self) -> StateView {
        StateView {
            xlen: self.xlen,
            pc: self.pc,
            regs: self.regs@,
            memory: self.memory@,
            csr: seq![
                self.prv,
                self.misa,
                self.mstatus,
                self.mepc,
                self.mtval,
                self.mscratch,
                self.mtvec,
                self.mcause,
                self.minstret,
                self.mie,
                self.mip,
                self.medeleg,
                self.mideleg,
                self.sepc,
                self.stval,
                self.sscratch,
                self.stvec,
                self.satp,
                self.scause,
                self.dpc,
            ],
        }
    }
}

impl State {
    /// The state at reset: 64-bit mode, every register zero and no byte mapped.
    pub fn new() -> (r: Self)
        ensures
            r@ == (StateView {
                xlen: XLEN::RV64,
                pc: 0,
                regs: Seq::new(32, |i: int| 0i64),
                memory: Map::empty(),
                csr: Seq::new(20, |i: int| 0i64),
            }),
    {
        let r = State {
            pc: 0,
            xlen: XLEN::RV64,
            regs: XPR::new(),
            prv: 0,
            misa: 0,
            mstatus: 0,
            mepc: 0,
            mtval: 0,
            mscratch: 0,
            mtvec: 0,
            mcause: 0,
            minstret: 0,
            mie: 0,
            mip: 0,
            medeleg: 0,
            mideleg: 0,
            sepc: 0,
            stval: 0,
            sscratch: 0,
            stvec: 0,
            satp: 0,
            scause: 0,
            dpc: 0,
            memory: HashMap::new(),
        };
        assert(r@.csr =~= Seq::new(20, |i: int| 0i64));
        r
    }

    /// The model of every state is well-formed.
    pub proof fn lemma_view_wf(&self)
        ensures
            self@.wf(),
    {
        self.regs.lemma_zero_register();
    }

    /// Reads an integer register; `zero` always reads as 0.
    pub fn get_reg(&self, xpr: XprName) -> (r: i64)
        ensures
            r == self@.reg(xpr),
            xpr == XprName::zero ==> r == 0,
    {
        self.regs.get(xpr)
    }

    /// Writes an integer register and leaves everything else as it was; a
    /// write to `zero` is discarded.
    pub fn set_reg(&mut self, xpr: XprName, value: i64)
        ensures
            final(self)@ == old(self)@.set_reg(xpr, value),
    {
        self.regs.set(xpr, value);
    }

    /// Moves the program counter by `offset`, wrapping at 64 bits.
    pub fn advance(&mut self, offset: i64)
        ensures
            final(self)@ == old(self)@.advance(offset),
    {
        self.pc = self.pc.wrapping_add(offset);
    }

    /// Fetches the raw instruction at the program counter.
    pub fn fetch_next(&self) -> (r: Result<InstructionRaw, SimError>)
        ensures
            r == self@.fetch(),
    {
        match self.access_u16(self.pc) {
            Ok(base) => {
                let length = InstructionRaw::inst_length(base);
                if length == 2 {
                    Ok(InstructionRaw::B16(base))
                } else if length == 4 {
                    match self.access_u32(self.pc) {
                        Ok(word) => Ok(InstructionRaw::B32(word)),
                        Err(e) => Err(e),
                    }
                } else {
                    Err(SimError::UnsupportedLength)
                }
            },
            Err(e) => Err(e),
        }
    }

    /// Fetches and decodes the instruction at the program counter.
    pub fn get_inst(&self) -> (r: Result<DecodedInstruction, SimError>)
        ensures
            r == self@.fetch_decode(),
    {
        match self.fetch_next() {
            Ok(raw) => decode_inst(raw, self.xlen),
            Err(e) => Err(e),
        }
    }

    /// Runs one cycle: fetches, decodes and executes the instruction at the
    /// program counter. On failure the state is left as it was.
    pub fn step(&mut self) -> (r: Result<(), SimError>)
        ensures
            match old(self)@.step() {
                Ok(next) => r is Ok && final(self)@ == next,
                Err(e) => r == Err::<(), SimError>(e) && final(self)@ == old(self)@,
            },
    {
        match self.get_inst() {
            Ok(inst) => inst.execute(self),
            Err(e) => Err(e),
        }
    }
}

} // verus!
