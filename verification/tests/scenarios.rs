use riscv_iss::decode::{decode_inst, InstructionRaw};
use riscv_iss::error::SimError;
use riscv_iss::instructions::rv32i::{ADDI, LB};
use riscv_iss::instructions::rvc::{C_LD, C_LQ, C_LW};
use riscv_iss::instructions::{DecodedInstruction, Instruction};
use riscv_iss::processor::{State, XprName, XLEN};

fn state_with(bytes: &[u8], at: u64) -> State {
    let mut state = State::new();
    for (i, b) in bytes.iter().enumerate() {
        state.memory.insert(at + i as u64, *b);
    }
    state.pc = at as i64;
    state
}

#[test]
fn compressed_li_loads_zero_and_advances_by_two() {
    let mut state = state_with(&[0x01, 0x45], 0);
    state.set_reg(XprName::a0, 77);
    assert_eq!(state.step(), Ok(()));
    assert_eq!(state.get_reg(XprName::a0), 0);
    assert_eq!(state.pc, 2);
}

#[test]
fn compressed_addi_lowers_the_stack_pointer() {
    let mut state = state_with(&[0x41, 0x11], 0);
    assert_eq!(state.get_reg(XprName::sp), 0);
    assert_eq!(state.step(), Ok(()));
    assert_eq!(state.get_reg(XprName::sp), -16);
    assert_eq!(state.pc, 2);
}

#[test]
fn addi_decodes_and_adds() {
    // addi a0, gp, 1896
    let inst = decode_inst(InstructionRaw::B32(0x7681_8513), XLEN::RV64).unwrap();
    assert_eq!(
        inst,
        DecodedInstruction::ADDI(ADDI { rd: XprName::a0, rs1: XprName::gp, imm: 1896 })
    );
    let mut state = State::new();
    state.pc = 0x100;
    state.set_reg(XprName::gp, 1000);
    assert_eq!(inst.execute(&mut state), Ok(()));
    assert_eq!(state.get_reg(XprName::a0), 2896);
    assert_eq!(state.pc, 0x104);
}

#[test]
fn all_zero_halfword_is_illegal() {
    for xlen in [XLEN::RV32, XLEN::RV64, XLEN::RV128] {
        assert_eq!(decode_inst(InstructionRaw::B16(0), xlen), Err(SimError::IllegalInstruction));
    }
}

#[test]
fn load_from_unmapped_address_fails_and_changes_nothing() {
    let mut state = State::new();
    state.pc = 0x40;
    state.set_reg(XprName::a1, 0x1000);
    state.set_reg(XprName::a0, 5);
    let before: Vec<i64> = (0..32).map(|i| state.get_reg(XprName::from_num(i))).collect();

    let lb = LB { rd: XprName::a0, rs1: XprName::a1, imm: 4 };
    assert_eq!(lb.execute(&mut state), Err(SimError::UnmappedMemory));
    let lw = C_LW { rd: XprName::a0, rs1: XprName::a1, offset: 8 };
    assert_eq!(lw.execute(&mut state), Err(SimError::UnmappedMemory));
    let ld = C_LD { rd: XprName::a0, rs1: XprName::a1, offset: 8 };
    assert_eq!(ld.execute(&mut state), Err(SimError::UnmappedMemory));
    let lq = C_LQ { rd: XprName::a0, rs1: XprName::a1, offset: 16 };
    assert_eq!(lq.execute(&mut state), Err(SimError::UnmappedMemory));

    let after: Vec<i64> = (0..32).map(|i| state.get_reg(XprName::from_num(i))).collect();
    assert_eq!(before, after);
    assert_eq!(state.pc, 0x40);
    assert!(state.memory.is_empty());
}

#[test]
fn partly_mapped_word_load_fails() {
    let mut state = state_with(&[1, 2, 3], 0x1000);
    state.set_reg(XprName::a1, 0x1000);
    let lw = C_LW { rd: XprName::a0, rs1: XprName::a1, offset: 0 };
    assert_eq!(lw.execute(&mut state), Err(SimError::UnmappedMemory));
    assert_eq!(state.get_reg(XprName::a0), 0);
    assert_eq!(state.pc, 0x1000);
}

#[test]
fn small_program_runs_to_its_return() {
    // addi sp,sp,-16; sd ra,8(sp); ld ra,8(sp); li a0,0; addi sp,sp,16; ret
    let code = [0x41, 0x11, 0x06, 0xe4, 0xa2, 0x60, 0x01, 0x45, 0x41, 0x01, 0x82, 0x80];
    let mut state = state_with(&code, 0x1_0000);
    for i in 0..16u64 {
        state.memory.insert(0x8000 - 16 + i, 0);
    }
    state.set_reg(XprName::sp, 0x8000);
    state.set_reg(XprName::ra, 0x2_0000);
    state.set_reg(XprName::a0, 9);
    for _ in 0..6 {
        assert_eq!(state.step(), Ok(()));
    }
    assert_eq!(state.pc, 0x2_0000);
    assert_eq!(state.get_reg(XprName::sp), 0x8000);
    assert_eq!(state.get_reg(XprName::ra), 0x2_0000);
    assert_eq!(state.get_reg(XprName::a0), 0);
    assert_eq!(state.memory[&(0x8000 - 8)], 0x00);
    assert_eq!(state.memory[&(0x8000 - 7)], 0x00);
    assert_eq!(state.memory[&(0x8000 - 6)], 0x02);
    // the next fetch finds nothing mapped
    assert_eq!(state.step(), Err(SimError::UnmappedMemory));
    assert_eq!(state.pc, 0x2_0000);
}
