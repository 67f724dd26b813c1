use riscv_iss::decode::InstructionRaw;
use riscv_iss::error::SimError;
use riscv_iss::instructions::rvc::C_LI;
use riscv_iss::instructions::DecodedInstruction;
use riscv_iss::processor::{State, XprName};
use riscv_iss::utils::{to_signed, to_unsigned};

fn state_with(bytes: &[u8], at: u64) -> State {
    let mut state = State::new();
    for (i, b) in bytes.iter().enumerate() {
        state.memory.insert(at.wrapping_add(i as u64), *b);
    }
    state
}

#[test]
fn signedness_conversions() {
    assert_eq!(to_unsigned(0), 0);
    assert_eq!(to_unsigned(-1), u64::MAX);
    assert_eq!(to_unsigned(i64::MIN), 1 << 63);
    assert_eq!(to_unsigned(i64::MAX), (1 << 63) - 1);
    assert_eq!(to_signed(u64::MAX), -1);
    assert_eq!(to_signed(1 << 63), i64::MIN);
    assert_eq!(to_signed(5), 5);
    for v in [0i64, 1, -1, 12345, -12345, i64::MIN, i64::MAX] {
        assert_eq!(to_signed(to_unsigned(v)), v);
    }
}

#[test]
fn single_bytes() {
    let state = state_with(&[0x11, 0x22], 0x100);
    assert_eq!(state.access(0x100), Ok(0x11));
    assert_eq!(state.access(0x101), Ok(0x22));
    assert_eq!(state.access(0x102), Err(SimError::UnmappedMemory));
    assert_eq!(state.access(0xff), Err(SimError::UnmappedMemory));
    assert_eq!(state.read_byte(0x101), Ok(0x22));
    assert_eq!(state.read_byte(0), Err(SimError::UnmappedMemory));
    // a negative address is the same bit pattern read as unsigned
    let high = state_with(&[0x33], u64::MAX);
    assert_eq!(high.access(-1), Ok(0x33));
    assert_eq!(high.read_byte(u64::MAX), Ok(0x33));
}

#[test]
fn reads_are_in_address_order() {
    let state = state_with(&[1, 2, 3, 4, 5], 0x100);
    assert_eq!(state.read(0x100, 0), Ok(vec![]));
    assert_eq!(state.read(0x999, 0), Ok(vec![]));
    assert_eq!(state.read(0x100, 1), Ok(vec![1]));
    assert_eq!(state.read(0x101, 4), Ok(vec![2, 3, 4, 5]));
    assert_eq!(state.read(0x100, 5), Ok(vec![1, 2, 3, 4, 5]));
    assert_eq!(state.read(0x100, 6), Err(SimError::UnmappedMemory));
    assert_eq!(state.read(0xff, 2), Err(SimError::UnmappedMemory));
}

#[test]
fn words_are_little_endian() {
    let state = state_with(&[0x78, 0x56, 0x34, 0x12, 0xf0, 0xde, 0xbc, 0x9a], 0x100);
    assert_eq!(state.access_u16(0x100), Ok(0x5678));
    assert_eq!(state.access_u16(0x103), Ok(0xf012));
    assert_eq!(state.access_u32(0x100), Ok(0x1234_5678));
    assert_eq!(state.access_u32(0x104), Ok(0x9abc_def0));
    assert_eq!(state.access_u64(0x100), Ok(0x9abc_def0_1234_5678));
    assert_eq!(state.load_le(0x100, 0), Ok(0));
    assert_eq!(state.load_le(0x100, 3), Ok(0x34_5678));
    assert_eq!(state.load_le(0x101, 7), Ok(0x9a_bcde_f012_3456));
    assert_eq!(state.access_u16(0x107), Err(SimError::UnmappedMemory));
    assert_eq!(state.access_u32(0x105), Err(SimError::UnmappedMemory));
    assert_eq!(state.access_u64(0x101), Err(SimError::UnmappedMemory));
    assert_eq!(state.load_le(0xff, 1), Err(SimError::UnmappedMemory));
}

#[test]
fn signed_loads_extend_the_sign() {
    let state = state_with(&[0xff, 0x7f, 0x00, 0x80, 0xff, 0xff, 0xff, 0xff], 0x100);
    assert_eq!(state.load_signed(0x100, 1), Ok(-1));
    assert_eq!(state.load_signed(0x101, 1), Ok(0x7f));
    assert_eq!(state.load_signed(0x100, 2), Ok(0x7fff));
    assert_eq!(state.load_signed(0x102, 2), Ok(-0x8000));
    assert_eq!(state.load_signed(0x100, 4), Ok(-0x7fff_8001));
    assert_eq!(state.load_signed(0x101, 4), Ok(0xff80_007f_u32 as i32 as i64));
    assert_eq!(state.load_signed(0x100, 8), Ok(0xffff_ffff_8000_7fff_u64 as i64));
    assert_eq!(state.load_signed(0x101, 8), Err(SimError::UnmappedMemory));
}

#[test]
fn writes_change_only_the_bytes_written() {
    let mut state = state_with(&[0; 8], 0x100);
    assert_eq!(state.write(0x102, &[0xaa, 0xbb, 0xcc]), Ok(()));
    assert_eq!(state.read(0x100, 8), Ok(vec![0, 0, 0xaa, 0xbb, 0xcc, 0, 0, 0]));
    assert_eq!(state.write(0x100, &[]), Ok(()));
    assert_eq!(state.write(0x999, &[]), Ok(()));
    assert_eq!(state.memory.len(), 8);
    assert_eq!(state.store_u32(0x104, 0x1122_3344), Ok(()));
    assert_eq!(state.read(0x100, 8), Ok(vec![0, 0, 0xaa, 0xbb, 0x44, 0x33, 0x22, 0x11]));
    assert_eq!(state.store_u64(0x100, 0x0102_0304_0506_0708), Ok(()));
    assert_eq!(state.read(0x100, 8), Ok(vec![8, 7, 6, 5, 4, 3, 2, 1]));
    assert_eq!(state.store_le(0x101, 2, 0xffff_ffff_ffff_abcd), Ok(()));
    assert_eq!(state.read(0x100, 8), Ok(vec![8, 0xcd, 0xab, 5, 4, 3, 2, 1]));
    assert_eq!(state.store_le(0x100, 0, 0xff), Ok(()));
    assert_eq!(state.read(0x100, 8), Ok(vec![8, 0xcd, 0xab, 5, 4, 3, 2, 1]));
}

#[test]
fn a_write_to_an_unmapped_byte_writes_nothing() {
    let mut state = state_with(&[9; 4], 0x100);
    let before = state.memory.clone();
    assert_eq!(state.write(0x102, &[1, 2, 3]), Err(SimError::UnmappedMemory));
    assert_eq!(state.write(0xff, &[1]), Err(SimError::UnmappedMemory));
    assert_eq!(state.store_u32(0x101, 0), Err(SimError::UnmappedMemory));
    assert_eq!(state.store_u64(0x100, 0), Err(SimError::UnmappedMemory));
    assert_eq!(state.store_le(0x103, 2, 0), Err(SimError::UnmappedMemory));
    assert_eq!(state.memory, before);
}

#[test]
fn a_stored_word_is_loaded_again() {
    let mut state = state_with(&[0; 16], 0x100);
    for v in [0u64, 1, 0xff, 0x1234_5678_9abc_def0, u64::MAX] {
        assert_eq!(state.store_u64(0x103, v), Ok(()));
        assert_eq!(state.access_u64(0x103), Ok(v));
        assert_eq!(state.store_u32(0x101, v as u32), Ok(()));
        assert_eq!(state.access_u32(0x101), Ok(v as u32));
        for width in 0..=8usize {
            assert_eq!(state.store_le(0x104, width, v), Ok(()));
            let kept = if width == 8 { v } else { v & ((1u64 << (8 * width)) - 1) };
            assert_eq!(state.load_le(0x104, width), Ok(kept));
        }
    }
}

#[test]
fn addresses_wrap_at_64_bits() {
    let mut state = State::new();
    state.map_bytes(u64::MAX - 1, &[1, 2, 3, 4]);
    assert_eq!(state.memory.len(), 4);
    assert_eq!(state.memory[&(u64::MAX - 1)], 1);
    assert_eq!(state.memory[&u64::MAX], 2);
    assert_eq!(state.memory[&0], 3);
    assert_eq!(state.memory[&1], 4);
    assert_eq!(state.access_u32(-2), Ok(0x0403_0201));
    assert_eq!(state.read(u64::MAX, 3), Ok(vec![2, 3, 4]));
    assert_eq!(state.store_u32(-2, 0xa1b2_c3d4), Ok(()));
    assert_eq!(state.memory[&0], 0xb2);
}

#[test]
fn mapping_bytes_maps_new_addresses_and_overwrites_old_ones() {
    let mut state = state_with(&[7, 7], 0x10);
    state.map_bytes(0x11, &[1, 2, 3]);
    assert_eq!(state.read(0x10, 4), Ok(vec![7, 1, 2, 3]));
    assert_eq!(state.memory.len(), 4);
    state.map_bytes(0x50, &[]);
    assert_eq!(state.memory.len(), 4);
}

#[test]
fn raw_instructions_from_a_byte_image() {
    let code = [0x41, 0x11, 0x13, 0x85, 0x81, 0x76, 0x01, 0x45, 0x1f, 0x00, 0x13];
    assert_eq!(InstructionRaw::get_inst(&code, 0), Ok(InstructionRaw::B16(0x1141)));
    assert_eq!(InstructionRaw::get_inst(&code, 2), Ok(InstructionRaw::B32(0x7681_8513)));
    assert_eq!(InstructionRaw::get_inst(&code, 6), Ok(InstructionRaw::B16(0x4501)));
    // a prefix that announces six bytes
    assert_eq!(InstructionRaw::get_inst(&code, 8), Err(SimError::UnsupportedLength));
    assert_eq!(InstructionRaw::get_inst(&code, 9), Ok(InstructionRaw::B16(0x1300)));
    // a 32-bit instruction cut short by the end of the image
    assert_eq!(InstructionRaw::get_inst(&[0x13, 0x85, 0x81], 0), Err(SimError::UnmappedMemory));
    assert_eq!(
        InstructionRaw::get_inst(&[0x00, 0x00, 0x13, 0x85], 2),
        Err(SimError::UnmappedMemory)
    );
    assert_eq!(InstructionRaw::get_inst(&code, 10), Err(SimError::UnmappedMemory));
    assert_eq!(InstructionRaw::get_inst(&code, 11), Err(SimError::UnmappedMemory));
    assert_eq!(InstructionRaw::get_inst(&code, usize::MAX), Err(SimError::UnmappedMemory));
    assert_eq!(InstructionRaw::get_inst(&[], 0), Err(SimError::UnmappedMemory));
    assert_eq!(InstructionRaw::get_inst(&[0x01], 0), Err(SimError::UnmappedMemory));
    // the probe is little-endian: the first byte holds the low bits
    assert_eq!(InstructionRaw::get_inst(&[0x03, 0x00, 0x00, 0x00], 0), Ok(InstructionRaw::B32(3)));
    assert_eq!(InstructionRaw::get_inst(&[0x00, 0x03], 0), Ok(InstructionRaw::B16(0x0300)));
}

#[test]
fn fetch_reads_at_the_program_counter() {
    let mut state = state_with(&[0x41, 0x11, 0x13, 0x85, 0x81, 0x76, 0x1f, 0x00, 0x13], 0x1000);
    state.pc = 0x1000;
    assert_eq!(state.fetch_next(), Ok(InstructionRaw::B16(0x1141)));
    state.pc = 0x1002;
    assert_eq!(state.fetch_next(), Ok(InstructionRaw::B32(0x7681_8513)));
    state.pc = 0x1006;
    assert_eq!(state.fetch_next(), Err(SimError::UnsupportedLength));
    assert_eq!(state.get_inst(), Err(SimError::UnsupportedLength));
    assert_eq!(state.step(), Err(SimError::UnsupportedLength));
    state.pc = 0x1008;
    assert_eq!(state.fetch_next(), Err(SimError::UnmappedMemory));
    state.pc = 0x1009;
    assert_eq!(state.fetch_next(), Err(SimError::UnmappedMemory));
    state.pc = 0x0fff;
    assert_eq!(state.fetch_next(), Err(SimError::UnmappedMemory));
    state.pc = 0x1006;
    state.memory.insert(0x1006, 0x01);
    state.memory.insert(0x1007, 0x45);
    assert_eq!(
        state.get_inst(),
        Ok(DecodedInstruction::C_LI(C_LI { rd: XprName::a0, imm: 0 }))
    );
}

#[test]
fn a_cycle_that_fails_changes_nothing() {
    // the all-zero halfword is illegal; c.lui is not modelled; 0x8000 is reserved
    for (bytes, error) in [
        ([0x00u8, 0x00], SimError::IllegalInstruction),
        ([0x05, 0x65], SimError::UnimplementedInstruction),
        ([0x00, 0x80], SimError::ReservedEncoding),
        ([0x1f, 0x00], SimError::UnsupportedLength),
    ] {
        let mut state = state_with(&bytes, 0x200);
        state.pc = 0x200;
        state.set_reg(XprName::a0, 3);
        let before = state.memory.clone();
        assert_eq!(state.step(), Err(error));
        assert_eq!(state.pc, 0x200);
        assert_eq!(state.get_reg(XprName::a0), 3);
        assert_eq!(state.memory, before);
    }
}
