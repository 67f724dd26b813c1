use riscv_iss::decode::{decode_inst, InstructionRaw};
use riscv_iss::error::SimError;
use riscv_iss::instructions::rv32i::{
    ADDI, ANDI, AUIPC, BEQ, BGE, BGEU, BLT, BLTU, BNE, JAL, JALR, LB, LUI, ORI, SLTI, SLTIU, XORI,
};
use riscv_iss::instructions::rvc::{
    C_ADD, C_ADDI, C_ADDI4SPN, C_ADDW, C_AND, C_ANDI, C_BEQZ, C_BNEZ, C_EBREAK, C_FLD, C_FLDSP,
    C_FLWSP, C_FSD, C_FSDSP, C_FSWSP, C_J, C_JAL, C_JALR, C_JR, C_LD, C_LDSP, C_LI, C_LQ, C_LQSP,
    C_LW, C_LWSP, C_MV, C_NOP, C_OR, C_SD, C_SDSP, C_SLLI, C_SLLI64, C_SQ, C_SQSP, C_SRAI,
    C_SRAI64, C_SRLI, C_SRLI64, C_SUB, C_SUBW, C_SW, C_SWSP, C_XOR,
};
use riscv_iss::instructions::{DecodedInstruction, Instruction};
use riscv_iss::processor::FprName::ft0;
use riscv_iss::processor::XprName::{a0, a1, a2, ra, sp, zero};
use riscv_iss::processor::{State, XprName, XLEN};

fn state_at(pc: i64) -> State {
    let mut state = State::new();
    state.pc = pc;
    state
}

fn map(state: &mut State, at: u64, bytes: &[u8]) {
    for (i, b) in bytes.iter().enumerate() {
        state.memory.insert(at.wrapping_add(i as u64), *b);
    }
}

fn regs(state: &State) -> Vec<i64> {
    (0..32).map(|i| state.get_reg(XprName::from_num(i))).collect()
}

#[test]
fn jal_links_and_jumps() {
    for (pc, offset) in [(0x1000i64, 294i64), (0x1000, -8), (0x7000_0000, 0xf_fffe), (64, -64)] {
        let mut state = state_at(pc);
        assert_eq!(JAL { rd: ra, imm: offset }.execute(&mut state), Ok(()));
        assert_eq!(state.get_reg(ra), pc + 4);
        assert_eq!(state.pc, pc + offset);
    }
}

#[test]
fn jal_to_zero_jumps_without_a_link() {
    let mut state = state_at(0x1000);
    let before = regs(&state);
    assert_eq!(JAL { rd: zero, imm: -8 }.execute(&mut state), Ok(()));
    assert_eq!(state.pc, 0x0ff8);
    assert_eq!(regs(&state), before);
}

#[test]
fn compressed_jal_links_to_the_next_halfword() {
    let mut state = state_at(0x2000);
    assert_eq!(C_JAL { offset: -32 }.execute(&mut state), Ok(()));
    assert_eq!(state.get_reg(ra), 0x2002);
    assert_eq!(state.pc, 0x2000 - 32);
}

#[test]
fn compressed_j_jumps_without_a_link() {
    let mut state = state_at(0x2000);
    let before = regs(&state);
    assert_eq!(C_J { offset: 2046 }.execute(&mut state), Ok(()));
    assert_eq!(state.pc, 0x2000 + 2046);
    assert_eq!(regs(&state), before);
}

#[test]
fn jalr_jumps_to_the_register_and_clears_the_low_bit() {
    let mut state = state_at(0x100);
    state.set_reg(a0, 0x4001);
    assert_eq!(JALR { rd: ra, rs1: a0, imm: 4 }.execute(&mut state), Ok(()));
    assert_eq!(state.pc, 0x4004);
    assert_eq!(state.get_reg(ra), 0x104);
    // the target is read before the link is written
    let mut state = state_at(0x100);
    state.set_reg(ra, 0x8000);
    assert_eq!(JALR { rd: ra, rs1: ra, imm: -2 }.execute(&mut state), Ok(()));
    assert_eq!(state.pc, 0x7ffe);
    assert_eq!(state.get_reg(ra), 0x104);
}

#[test]
fn compressed_register_jumps() {
    let mut state = state_at(0x100);
    state.set_reg(ra, 0x3003);
    assert_eq!(C_JR { rs1: ra }.execute(&mut state), Ok(()));
    assert_eq!(state.pc, 0x3002);
    assert_eq!(state.get_reg(ra), 0x3003);

    let mut state = state_at(0x100);
    state.set_reg(a0, 0x5000);
    assert_eq!(C_JALR { rs1: a0 }.execute(&mut state), Ok(()));
    assert_eq!(state.pc, 0x5000);
    assert_eq!(state.get_reg(ra), 0x102);

    let mut state = state_at(0x100);
    state.set_reg(ra, 0x6000);
    assert_eq!(C_JALR { rs1: ra }.execute(&mut state), Ok(()));
    assert_eq!(state.pc, 0x6000);
    assert_eq!(state.get_reg(ra), 0x102);
}

fn branch_goes(inst: DecodedInstruction, x: i64, y: i64) -> bool {
    let mut state = state_at(0x1000);
    state.set_reg(a0, x);
    state.set_reg(a1, y);
    assert_eq!(inst.execute(&mut state), Ok(()));
    assert_eq!(state.get_reg(a0), x);
    assert_eq!(state.get_reg(a1), y);
    if state.pc == 0x1000 + 40 {
        true
    } else {
        assert_eq!(state.pc, 0x1000 + inst.length() as i64);
        false
    }
}

#[test]
fn branches_compare_as_they_should() {
    let beq = DecodedInstruction::BEQ(BEQ { rs1: a0, rs2: a1, offset: 40 });
    let bne = DecodedInstruction::BNE(BNE { rs1: a0, rs2: a1, offset: 40 });
    let blt = DecodedInstruction::BLT(BLT { rs1: a0, rs2: a1, offset: 40 });
    let bge = DecodedInstruction::BGE(BGE { rs1: a0, rs2: a1, offset: 40 });
    let bltu = DecodedInstruction::BLTU(BLTU { rs1: a0, rs2: a1, offset: 40 });
    let bgeu = DecodedInstruction::BGEU(BGEU { rs1: a0, rs2: a1, offset: 40 });
    let values = [0i64, 1, -1, 5, -5, i64::MAX, i64::MIN];
    for x in values {
        for y in values {
            assert_eq!(branch_goes(beq, x, y), x == y);
            assert_eq!(branch_goes(bne, x, y), x != y);
            assert_eq!(branch_goes(blt, x, y), x < y);
            assert_eq!(branch_goes(bge, x, y), x >= y);
            assert_eq!(branch_goes(bltu, x, y), (x as u64) < (y as u64));
            assert_eq!(branch_goes(bgeu, x, y), (x as u64) >= (y as u64));
        }
    }
    // -1 is the largest unsigned value
    assert!(branch_goes(bltu, 1, -1));
    assert!(!branch_goes(blt, 1, -1));
    assert!(branch_goes(bgeu, -1, 1));
    assert!(!branch_goes(bge, -1, 1));
}

#[test]
fn compressed_branches_test_for_zero() {
    let beqz = DecodedInstruction::C_BEQZ(C_BEQZ { rs1: a0, offset: 40 });
    let bnez = DecodedInstruction::C_BNEZ(C_BNEZ { rs1: a0, offset: 40 });
    for x in [0i64, 1, -1, i64::MIN] {
        assert_eq!(branch_goes(beqz, x, 0), x == 0);
        assert_eq!(branch_goes(bnez, x, 0), x != 0);
    }
}

#[test]
fn upper_immediates() {
    let mut state = state_at(0x1000);
    assert_eq!(LUI { rd: a0, imm: 0x12345 }.execute(&mut state), Ok(()));
    assert_eq!(state.get_reg(a0), 0x1234_5000);
    assert_eq!(state.pc, 0x1004);
    assert_eq!(LUI { rd: a0, imm: -1 }.execute(&mut state), Ok(()));
    assert_eq!(state.get_reg(a0), -4096);
    assert_eq!(LUI { rd: a0, imm: -0x8_0000 }.execute(&mut state), Ok(()));
    assert_eq!(state.get_reg(a0), -0x8000_0000);
    assert_eq!(state.pc, 0x100c);

    // auipc adds to the address of the instruction itself
    let mut state = state_at(0x1000);
    assert_eq!(AUIPC { rd: a1, imm: 1 }.execute(&mut state), Ok(()));
    assert_eq!(state.get_reg(a1), 0x2000);
    assert_eq!(state.pc, 0x1004);
    assert_eq!(AUIPC { rd: a1, imm: -1 }.execute(&mut state), Ok(()));
    assert_eq!(state.get_reg(a1), 0x1004 - 4096);
    assert_eq!(state.pc, 0x1008);
}

#[test]
fn immediate_arithmetic() {
    let mut state = state_at(0);
    state.set_reg(a1, 1000);
    assert_eq!(ADDI { rd: a0, rs1: a1, imm: -2048 }.execute(&mut state), Ok(()));
    assert_eq!(state.get_reg(a0), -1048);
    assert_eq!(state.pc, 4);
    state.set_reg(a1, i64::MAX);
    assert_eq!(ADDI { rd: a0, rs1: a1, imm: 1 }.execute(&mut state), Ok(()));
    assert_eq!(state.get_reg(a0), i64::MIN);
    assert_eq!(ADDI { rd: zero, rs1: a1, imm: 1 }.execute(&mut state), Ok(()));
    assert_eq!(state.get_reg(zero), 0);
    assert_eq!(state.pc, 12);

    state.set_reg(a1, 0x0f0f);
    assert_eq!(XORI { rd: a0, rs1: a1, imm: -1 }.execute(&mut state), Ok(()));
    assert_eq!(state.get_reg(a0), !0x0f0f);
    assert_eq!(ORI { rd: a0, rs1: a1, imm: 0x7f }.execute(&mut state), Ok(()));
    assert_eq!(state.get_reg(a0), 0x0f7f);
    assert_eq!(ANDI { rd: a0, rs1: a1, imm: 0xf }.execute(&mut state), Ok(()));
    assert_eq!(state.get_reg(a0), 0xf);
    assert_eq!(ANDI { rd: a0, rs1: a1, imm: -16 }.execute(&mut state), Ok(()));
    assert_eq!(state.get_reg(a0), 0x0f00);
    assert_eq!(state.pc, 28);
}

#[test]
fn set_if_less_than() {
    let cases = [(0i64, 1i64), (1, 0), (-1, 0), (0, -1), (-5, -5), (-6, -5), (i64::MIN, -2048)];
    for (x, imm) in cases {
        let mut state = state_at(0);
        state.set_reg(a1, x);
        state.set_reg(a0, 99);
        assert_eq!(SLTI { rd: a0, rs1: a1, imm }.execute(&mut state), Ok(()));
        assert_eq!(state.get_reg(a0), (x < imm) as i64);
        assert_eq!(SLTIU { rd: a0, rs1: a1, imm }.execute(&mut state), Ok(()));
        assert_eq!(state.get_reg(a0), ((x as u64) < (imm as u64)) as i64);
        assert_eq!(state.pc, 8);
    }
    // the immediate -1 is the largest unsigned value
    let mut state = state_at(0);
    state.set_reg(a1, 5);
    assert_eq!(SLTIU { rd: a0, rs1: a1, imm: -1 }.execute(&mut state), Ok(()));
    assert_eq!(state.get_reg(a0), 1);
    assert_eq!(SLTI { rd: a0, rs1: a1, imm: -1 }.execute(&mut state), Ok(()));
    assert_eq!(state.get_reg(a0), 0);
}

#[test]
fn load_byte_sign_extends() {
    let mut state = state_at(0);
    map(&mut state, 0x2000, &[0x7f, 0x80, 0xff, 0x00]);
    state.set_reg(a1, 0x2001);
    assert_eq!(LB { rd: a0, rs1: a1, imm: -1 }.execute(&mut state), Ok(()));
    assert_eq!(state.get_reg(a0), 0x7f);
    assert_eq!(LB { rd: a0, rs1: a1, imm: 0 }.execute(&mut state), Ok(()));
    assert_eq!(state.get_reg(a0), -128);
    assert_eq!(LB { rd: a0, rs1: a1, imm: 1 }.execute(&mut state), Ok(()));
    assert_eq!(state.get_reg(a0), -1);
    assert_eq!(state.pc, 12);
    assert_eq!(LB { rd: a0, rs1: a1, imm: 3 }.execute(&mut state), Err(SimError::UnmappedMemory));
    assert_eq!(state.get_reg(a0), -1);
    assert_eq!(state.pc, 12);
}

#[test]
fn compressed_loads() {
    let mut state = state_at(0);
    map(&mut state, 0x3000, &[0x78, 0x56, 0x34, 0x12, 0xf0, 0xde, 0xbc, 0x9a]);
    state.set_reg(a1, 0x3000 - 4);
    state.set_reg(sp, 0x3000 - 8);
    assert_eq!(C_LW { rd: a0, rs1: a1, offset: 4 }.execute(&mut state), Ok(()));
    assert_eq!(state.get_reg(a0), 0x1234_5678);
    assert_eq!(C_LW { rd: a0, rs1: a1, offset: 8 }.execute(&mut state), Ok(()));
    assert_eq!(state.get_reg(a0), 0x9abc_def0_u32 as i32 as i64);
    assert_eq!(C_LD { rd: a0, rs1: a1, offset: 4 }.execute(&mut state), Ok(()));
    assert_eq!(state.get_reg(a0), 0x9abc_def0_1234_5678_u64 as i64);
    assert_eq!(C_LWSP { rd: a2, offset: 12 }.execute(&mut state), Ok(()));
    assert_eq!(state.get_reg(a2), 0x9abc_def0_u32 as i32 as i64);
    assert_eq!(C_LDSP { rd: a2, offset: 8 }.execute(&mut state), Ok(()));
    assert_eq!(state.get_reg(a2), 0x9abc_def0_1234_5678_u64 as i64);
    assert_eq!(state.pc, 10);
    // a misaligned load is permitted
    assert_eq!(C_LW { rd: a0, rs1: a1, offset: 5 }.execute(&mut state), Ok(()));
    assert_eq!(state.get_reg(a0), 0xf012_3456_u32 as i32 as i64);
    // one byte short
    let unmapped = Err(SimError::UnmappedMemory);
    assert_eq!(C_LD { rd: a0, rs1: a1, offset: 5 }.execute(&mut state), unmapped);
    assert_eq!(C_LDSP { rd: a0, offset: 16 }.execute(&mut state), unmapped);
    assert_eq!(C_LWSP { rd: a0, offset: 4 }.execute(&mut state), unmapped);
    assert_eq!(state.get_reg(a0), 0xf012_3456_u32 as i32 as i64);
    assert_eq!(state.pc, 12);
}

#[test]
fn quad_load_reads_the_low_double_word() {
    let mut state = state_at(0x10);
    map(&mut state, 0x3000, &[0x78, 0x56, 0x34, 0x12, 0xf0, 0xde, 0xbc, 0x9a, 1, 2, 3, 4]);
    state.set_reg(a1, 0x3000 - 16);
    assert_eq!(C_LQ { rd: a0, rs1: a1, offset: 16 }.execute(&mut state), Ok(()));
    assert_eq!(state.get_reg(a0), 0x9abc_def0_1234_5678_u64 as i64);
    assert_eq!(state.pc, 0x12);
    // the base register may be the destination
    state.set_reg(a1, 0x3000 - 12);
    assert_eq!(C_LQ { rd: a1, rs1: a1, offset: 16 }.execute(&mut state), Ok(()));
    assert_eq!(state.get_reg(a1), 0x0403_0201_9abc_def0);
    assert_eq!(state.pc, 0x14);
    // one byte short of eight
    state.set_reg(a1, 0x3000);
    let before = regs(&state);
    assert_eq!(
        C_LQ { rd: a0, rs1: a1, offset: 16 }.execute(&mut state),
        Err(SimError::UnmappedMemory)
    );
    state.set_reg(a1, 0x3005 - 16);
    assert_eq!(
        C_LQ { rd: a0, rs1: a1, offset: 16 }.execute(&mut state),
        Err(SimError::UnmappedMemory)
    );
    state.set_reg(a1, 0x3000);
    assert_eq!(regs(&state), before);
    assert_eq!(state.pc, 0x14);
}

#[test]
fn compressed_stores() {
    let mut state = state_at(0);
    map(&mut state, 0x3000, &[0xaa; 16]);
    state.set_reg(a1, 0x3000);
    state.set_reg(sp, 0x3008);
    state.set_reg(a0, 0x1122_3344_5566_7788);
    assert_eq!(C_SW { rs1: a1, rs2: a0, offset: 4 }.execute(&mut state), Ok(()));
    let bytes: Vec<u8> = (0..16).map(|i| state.memory[&(0x3000 + i)]).collect();
    assert_eq!(bytes[..8], [0xaa, 0xaa, 0xaa, 0xaa, 0x88, 0x77, 0x66, 0x55]);
    assert_eq!(bytes[8..], [0xaa; 8]);
    assert_eq!(C_SDSP { rs2: a0, offset: 0 }.execute(&mut state), Ok(()));
    let bytes: Vec<u8> = (0..16).map(|i| state.memory[&(0x3000 + i)]).collect();
    assert_eq!(bytes[..8], [0xaa, 0xaa, 0xaa, 0xaa, 0x88, 0x77, 0x66, 0x55]);
    assert_eq!(bytes[8..], [0x88, 0x77, 0x66, 0x55, 0x44, 0x33, 0x22, 0x11]);
    state.set_reg(a0, -2);
    assert_eq!(C_SD { rs1: a1, rs2: a0, offset: 0 }.execute(&mut state), Ok(()));
    assert_eq!(C_SWSP { rs2: zero, offset: 4 }.execute(&mut state), Ok(()));
    let bytes: Vec<u8> = (0..16).map(|i| state.memory[&(0x3000 + i)]).collect();
    assert_eq!(bytes[..8], [0xfe, 0xff, 0xff, 0xff, 0xff, 0xff, 0xff, 0xff]);
    assert_eq!(bytes[8..], [0x88, 0x77, 0x66, 0x55, 0, 0, 0, 0]);
    assert_eq!(state.pc, 8);
    assert_eq!(state.memory.len(), 16);
}

#[test]
fn a_store_that_reaches_an_unmapped_byte_writes_nothing() {
    let mut state = state_at(0x40);
    map(&mut state, 0x3000, &[0xaa; 8]);
    state.set_reg(a1, 0x3000);
    state.set_reg(sp, 0x3000);
    state.set_reg(a0, 0x1122_3344_5566_7788);
    let before = state.memory.clone();
    let unmapped = Err(SimError::UnmappedMemory);
    assert_eq!(C_SD { rs1: a1, rs2: a0, offset: 8 }.execute(&mut state), unmapped);
    assert_eq!(C_SD { rs1: a1, rs2: a0, offset: 1 }.execute(&mut state), unmapped);
    assert_eq!(C_SW { rs1: a1, rs2: a0, offset: 5 }.execute(&mut state), unmapped);
    assert_eq!(C_SWSP { rs2: a0, offset: 8 }.execute(&mut state), unmapped);
    assert_eq!(C_SDSP { rs2: a0, offset: 4 }.execute(&mut state), unmapped);
    assert_eq!(state.memory, before);
    assert_eq!(state.pc, 0x40);
}

#[test]
fn compressed_arithmetic() {
    let mut state = state_at(0);
    state.set_reg(sp, 0x8000);
    assert_eq!(C_ADDI4SPN { rd: a0, imm: 1020 }.execute(&mut state), Ok(()));
    assert_eq!(state.get_reg(a0), 0x8000 + 1020);
    assert_eq!(C_ADDI { imm: -32, rd: a0 }.execute(&mut state), Ok(()));
    assert_eq!(state.get_reg(a0), 0x8000 + 988);
    assert_eq!(C_LI { rd: a1, imm: -7 }.execute(&mut state), Ok(()));
    assert_eq!(state.get_reg(a1), -7);
    assert_eq!(C_MV { rd: a2, rs2: a1 }.execute(&mut state), Ok(()));
    assert_eq!(state.get_reg(a2), -7);
    assert_eq!(C_ADD { rs1: a2, rs2: a1 }.execute(&mut state), Ok(()));
    assert_eq!(state.get_reg(a2), -14);
    assert_eq!(C_SUB { rd: a2, rs2: a1 }.execute(&mut state), Ok(()));
    assert_eq!(state.get_reg(a2), -7);
    assert_eq!(C_ANDI { rd: a2, imm: 0x1f }.execute(&mut state), Ok(()));
    assert_eq!(state.get_reg(a2), 0x19);
    state.set_reg(a0, 0b1100);
    state.set_reg(a1, 0b1010);
    assert_eq!(C_XOR { rd: a0, rs2: a1 }.execute(&mut state), Ok(()));
    assert_eq!(state.get_reg(a0), 0b0110);
    assert_eq!(C_OR { rd: a0, rs2: a1 }.execute(&mut state), Ok(()));
    assert_eq!(state.get_reg(a0), 0b1110);
    assert_eq!(C_AND { rd: a0, rs2: a1 }.execute(&mut state), Ok(()));
    assert_eq!(state.get_reg(a0), 0b1010);
    assert_eq!(state.pc, 20);
    // sums and differences wrap
    state.set_reg(a0, i64::MAX);
    state.set_reg(a1, 1);
    assert_eq!(C_ADD { rs1: a0, rs2: a1 }.execute(&mut state), Ok(()));
    assert_eq!(state.get_reg(a0), i64::MIN);
    assert_eq!(C_SUB { rd: a0, rs2: a1 }.execute(&mut state), Ok(()));
    assert_eq!(state.get_reg(a0), i64::MAX);
}

#[test]
fn word_arithmetic_sign_extends_the_low_word() {
    let cases: [(i64, i64); 7] = [
        (1, 2),
        (0x7fff_ffff, 1),
        (0xffff_ffff, 1),
        (0x1_0000_0000, 0),
        (-1, -1),
        (i64::MIN, -1),
        (0x1234_5678_8000_0000, 0x8000_0000),
    ];
    for (x, y) in cases {
        let mut state = state_at(0);
        state.set_reg(a0, x);
        state.set_reg(a1, y);
        assert_eq!(C_ADDW { rd: a0, rs2: a1 }.execute(&mut state), Ok(()));
        assert_eq!(state.get_reg(a0), (x as i32).wrapping_add(y as i32) as i64);
        state.set_reg(a0, x);
        assert_eq!(C_SUBW { rd: a0, rs2: a1 }.execute(&mut state), Ok(()));
        assert_eq!(state.get_reg(a0), (x as i32).wrapping_sub(y as i32) as i64);
        assert_eq!(state.pc, 4);
    }
    let mut state = state_at(0);
    state.set_reg(a0, 0x7fff_ffff);
    state.set_reg(a1, 1);
    assert_eq!(C_ADDW { rd: a0, rs2: a1 }.execute(&mut state), Ok(()));
    assert_eq!(state.get_reg(a0), -0x8000_0000);
}

#[test]
fn compressed_shifts() {
    let mut state = state_at(0);
    state.set_reg(a0, -16);
    assert_eq!(C_SRAI { rd: a0, shamt: 2 }.execute(&mut state), Ok(()));
    assert_eq!(state.get_reg(a0), -4);
    assert_eq!(C_SRLI { rd: a0, shamt: 60 }.execute(&mut state), Ok(()));
    assert_eq!(state.get_reg(a0), 0xf);
    assert_eq!(C_SLLI { rd: a0, shamt: 60 }.execute(&mut state), Ok(()));
    assert_eq!(state.get_reg(a0), 0xf000_0000_0000_0000_u64 as i64);
    assert_eq!(C_SLLI { rd: a0, shamt: 3 }.execute(&mut state), Ok(()));
    assert_eq!(state.get_reg(a0), i64::MIN);
    assert_eq!(C_SRAI { rd: a0, shamt: 63 }.execute(&mut state), Ok(()));
    assert_eq!(state.get_reg(a0), -1);
    assert_eq!(C_SRLI { rd: a0, shamt: 63 }.execute(&mut state), Ok(()));
    assert_eq!(state.get_reg(a0), 1);
    assert_eq!(state.pc, 12);
    // only the low six bits of the shift amount count
    state.set_reg(a0, 0x100);
    assert_eq!(C_SRLI { rd: a0, shamt: 64 + 4 }.execute(&mut state), Ok(()));
    assert_eq!(state.get_reg(a0), 0x10);
    assert_eq!(C_SLLI { rd: a0, shamt: 64 + 4 }.execute(&mut state), Ok(()));
    assert_eq!(state.get_reg(a0), 0x100);
    assert_eq!(C_SRAI { rd: a0, shamt: 64 + 8 }.execute(&mut state), Ok(()));
    assert_eq!(state.get_reg(a0), 1);
}

#[test]
fn placeholders_only_move_the_program_counter() {
    let all = [
        DecodedInstruction::C_NOP(C_NOP(1)),
        DecodedInstruction::C_EBREAK(C_EBREAK(0x9002)),
        DecodedInstruction::C_FLD(C_FLD { rd: ft0, rs1: a1, offset: 8 }),
        DecodedInstruction::C_FSD(C_FSD { rs1: a1, rs2: ft0, offset: 8 }),
        DecodedInstruction::C_SQ(C_SQ { rs1: a1, rs2: a0, offset: 16 }),
        DecodedInstruction::C_SRLI64(C_SRLI64 { rd: a0, shamt: 64 }),
        DecodedInstruction::C_SRAI64(C_SRAI64 { rd: a0, shamt: 64 }),
        DecodedInstruction::C_SLLI64(C_SLLI64 { rd: a0, shamt: 64 }),
        DecodedInstruction::C_FLDSP(C_FLDSP { rd: ft0, offset: 8 }),
        DecodedInstruction::C_FLWSP(C_FLWSP { rd: ft0, offset: 8 }),
        DecodedInstruction::C_LQSP(C_LQSP { rd: a0, offset: 16 }),
        DecodedInstruction::C_FSDSP(C_FSDSP { rs2: ft0, offset: 8 }),
        DecodedInstruction::C_FSWSP(C_FSWSP { rs2: ft0, offset: 8 }),
        DecodedInstruction::C_SQSP(C_SQSP { rs2: a0, offset: 16 }),
    ];
    for inst in all {
        let mut state = state_at(0x500);
        state.set_reg(a0, 11);
        state.set_reg(a1, 0x3000);
        map(&mut state, 0x3000, &[1, 2, 3, 4]);
        let before_regs = regs(&state);
        let before_memory = state.memory.clone();
        assert_eq!(inst.execute(&mut state), Ok(()));
        assert_eq!(state.pc, 0x502);
        assert_eq!(regs(&state), before_regs);
        assert_eq!(state.memory, before_memory);
    }
}

#[test]
fn lengths_of_the_two_encodings() {
    assert_eq!(DecodedInstruction::ADDI(ADDI { rd: a0, rs1: a1, imm: 0 }).length(), 4);
    assert_eq!(DecodedInstruction::JAL(JAL { rd: a0, imm: 0 }).length(), 4);
    assert_eq!(DecodedInstruction::LB(LB { rd: a0, rs1: a1, imm: 0 }).length(), 4);
    assert_eq!(DecodedInstruction::C_ADDI(C_ADDI { rd: a0, imm: 0 }).length(), 2);
    assert_eq!(DecodedInstruction::C_SDSP(C_SDSP { rs2: a0, offset: 0 }).length(), 2);
}

#[test]
fn the_enum_executes_what_it_holds() {
    let mut one = state_at(0);
    let mut two = state_at(0);
    one.set_reg(a1, 5);
    two.set_reg(a1, 5);
    let addi = ADDI { rd: a0, rs1: a1, imm: 7 };
    assert_eq!(addi.execute(&mut one), Ok(()));
    assert_eq!(DecodedInstruction::ADDI(addi).execute(&mut two), Ok(()));
    assert_eq!(regs(&one), regs(&two));
    assert_eq!(one.pc, two.pc);
    assert_eq!(one.get_reg(a0), 12);
}

#[test]
fn every_compressed_instruction_executes_or_fails_for_want_of_memory() {
    for xlen in [XLEN::RV32, XLEN::RV64, XLEN::RV128] {
        for word in 0..=u16::MAX {
            if let Ok(inst) = decode_inst(InstructionRaw::B16(word), xlen) {
                let mut state = state_at(0x1000);
                map(&mut state, 0x4000, &[0x5a; 64]);
                for i in 1..32 {
                    state.set_reg(XprName::from_num(i), 0x4000 + i);
                }
                let before = regs(&state);
                let memory = state.memory.clone();
                match inst.execute(&mut state) {
                    Ok(()) => {
                        assert_eq!(state.get_reg(zero), 0);
                        assert_eq!(state.memory.len(), 64);
                    }
                    Err(e) => {
                        assert_eq!(e, SimError::UnmappedMemory);
                        assert_eq!(regs(&state), before);
                        assert_eq!(state.memory, memory);
                        assert_eq!(state.pc, 0x1000);
                    }
                }
            }
        }
    }
}

#[test]
fn every_base_instruction_executes_or_fails_for_want_of_memory() {
    let mut word: u32 = 0x0000_0003;
    for _ in 0..200_000 {
        // a fixed walk through the words whose low bits announce four bytes
        word = word.wrapping_mul(1_664_525).wrapping_add(1_013_904_223) | 3;
        if let Ok(inst) = decode_inst(InstructionRaw::B32(word), XLEN::RV64) {
            let mut state = state_at(0x1000);
            map(&mut state, 0x4000, &[0x5a; 64]);
            for i in 1..32 {
                state.set_reg(XprName::from_num(i), 0x4000 + i);
            }
            let before = regs(&state);
            match inst.execute(&mut state) {
                Ok(()) => assert_eq!(state.get_reg(zero), 0),
                Err(e) => {
                    assert_eq!(e, SimError::UnmappedMemory);
                    assert_eq!(regs(&state), before);
                    assert_eq!(state.pc, 0x1000);
                }
            }
            assert_eq!(state.memory.len(), 64);
        }
    }
}
