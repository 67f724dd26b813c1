use riscv_iss::decode::{
    decode_inst, decode_inst16, decode_inst32, decode_inst_c0, decode_inst_c1, decode_inst_c2,
    InstructionRaw,
};
use riscv_iss::error::SimError;
use riscv_iss::instructions::rv32i::{
    ADDI, ANDI, AUIPC, BEQ, BGE, BGEU, BLT, BLTU, BNE, JAL, JALR, LB, LUI, ORI, SLTI, SLTIU, XORI,
};
use riscv_iss::instructions::rvc::{
    C_ADD, C_ADDI, C_ADDI4SPN, C_ADDW, C_AND, C_ANDI, C_BEQZ, C_BNEZ, C_EBREAK, C_FLD, C_FLDSP,
    C_FLWSP, C_FSD, C_FSDSP, C_FSWSP, C_J, C_JAL, C_JALR, C_JR, C_LD, C_LDSP, C_LI, C_LQ, C_LQSP,
    C_LW, C_LWSP, C_MV, C_NOP, C_OR, C_SD, C_SDSP, C_SLLI, C_SLLI64, C_SQ, C_SQSP, C_SRAI,
    C_SRAI64, C_SRLI, C_SRLI64, C_SUB, C_SUBW, C_SW, C_SWSP, C_XOR,
};
use riscv_iss::instructions::DecodedInstruction as D;
use riscv_iss::processor::XprName::{a0, a1, gp, ra, sp, zero};
use riscv_iss::processor::{FprName, State, XprName, XLEN};

const MODES: [XLEN; 3] = [XLEN::RV32, XLEN::RV64, XLEN::RV128];

fn d16(inst: u16, xlen: XLEN) -> Result<D, SimError> {
    decode_inst(InstructionRaw::B16(inst), xlen)
}

fn d32(inst: u32) -> Result<D, SimError> {
    decode_inst(InstructionRaw::B32(inst), XLEN::RV64)
}

#[test]
fn every_16_bit_word_decodes_or_is_refused() {
    for xlen in MODES {
        for inst in 0..=u16::MAX {
            let r = d16(inst, xlen);
            assert_eq!(r, decode_inst16(inst, xlen));
            if inst & 3 == 3 {
                assert_eq!(r, Err(SimError::UnsupportedLength));
            } else {
                match r {
                    Ok(decoded) => assert_eq!(decoded.length(), 2),
                    Err(e) => assert!(matches!(
                        e,
                        SimError::IllegalInstruction
                            | SimError::ReservedEncoding
                            | SimError::UnimplementedInstruction
                    )),
                }
            }
        }
    }
}

#[test]
fn every_quadrant_is_decoded_by_its_own_tree() {
    for xlen in MODES {
        for inst in 0..=u16::MAX {
            match inst & 3 {
                0 => assert_eq!(decode_inst16(inst, xlen), decode_inst_c0(inst, xlen)),
                1 => assert_eq!(decode_inst16(inst, xlen), decode_inst_c1(inst, xlen)),
                2 => assert_eq!(decode_inst16(inst, xlen), decode_inst_c2(inst, xlen)),
                _ => {}
            }
        }
    }
}

#[test]
fn words_of_32_bits_of_every_group_decode_or_are_refused() {
    let fills = [0u32, 0xffff_ffff, 0x1234_5678, 0xa5a5_a5a5, 0x8000_0000, 0x7fff_ffff];
    for xlen in MODES {
        for low in 0..0x8000u32 {
            for fill in fills {
                let inst = (fill & 0xffff_8000) | low;
                let r = decode_inst(InstructionRaw::B32(inst), xlen);
                assert_eq!(r, decode_inst32(inst, xlen));
                if inst & 3 != 3 || (inst >> 2) & 7 == 7 {
                    assert_eq!(r, Err(SimError::UnsupportedLength));
                } else {
                    match r {
                        Ok(decoded) => assert_eq!(decoded.length(), 4),
                        Err(e) => assert_eq!(e, SimError::UnimplementedInstruction),
                    }
                }
            }
        }
    }
}

#[test]
fn base_instructions_decode_to_their_operands() {
    assert_eq!(d32(0x1234_5537), Ok(D::LUI(LUI { rd: a0, imm: 0x12345 })));
    assert_eq!(d32(0x0000_1597), Ok(D::AUIPC(AUIPC { rd: a1, imm: 1 })));
    assert_eq!(d32(0x1260_00ef), Ok(D::JAL(JAL { rd: ra, imm: 294 })));
    assert_eq!(d32(0xff9f_f06f), Ok(D::JAL(JAL { rd: zero, imm: -8 })));
    assert_eq!(d32(0x0045_00e7), Ok(D::JALR(JALR { rd: ra, rs1: a0, imm: 4 })));
    assert_eq!(d32(0x00b5_0863), Ok(D::BEQ(BEQ { rs1: a0, rs2: a1, offset: 16 })));
    assert_eq!(d32(0xfeb5_1ee3), Ok(D::BNE(BNE { rs1: a0, rs2: a1, offset: -4 })));
    assert_eq!(d32(0x00b5_4863), Ok(D::BLT(BLT { rs1: a0, rs2: a1, offset: 16 })));
    assert_eq!(d32(0x00b5_5863), Ok(D::BGE(BGE { rs1: a0, rs2: a1, offset: 16 })));
    assert_eq!(d32(0x00b5_6863), Ok(D::BLTU(BLTU { rs1: a0, rs2: a1, offset: 16 })));
    assert_eq!(d32(0x00b5_7863), Ok(D::BGEU(BGEU { rs1: a0, rs2: a1, offset: 16 })));
    assert_eq!(d32(0xfff5_8503), Ok(D::LB(LB { rd: a0, rs1: a1, imm: -1 })));
    assert_eq!(d32(0x7681_8513), Ok(D::ADDI(ADDI { rd: a0, rs1: gp, imm: 1896 })));
    assert_eq!(d32(0xffb5_a513), Ok(D::SLTI(SLTI { rd: a0, rs1: a1, imm: -5 })));
    assert_eq!(d32(0xffb5_b513), Ok(D::SLTIU(SLTIU { rd: a0, rs1: a1, imm: -5 })));
    assert_eq!(d32(0xfff5_c513), Ok(D::XORI(XORI { rd: a0, rs1: a1, imm: -1 })));
    assert_eq!(d32(0x07f5_e513), Ok(D::ORI(ORI { rd: a0, rs1: a1, imm: 0x7f })));
    assert_eq!(d32(0x00f5_f513), Ok(D::ANDI(ANDI { rd: a0, rs1: a1, imm: 0xf })));
}

#[test]
fn base_groups_that_are_not_modelled_are_unimplemented() {
    // add a0, a1, a2
    assert_eq!(d32(0x00c5_8533), Err(SimError::UnimplementedInstruction));
    // sd ra, 8(sp)
    assert_eq!(d32(0x0011_3423), Err(SimError::UnimplementedInstruction));
    // lw a0, 0(a1)
    assert_eq!(d32(0x0005_a503), Err(SimError::UnimplementedInstruction));
    // slli a0, a1, 3
    assert_eq!(d32(0x0035_9513), Err(SimError::UnimplementedInstruction));
    // ecall
    assert_eq!(d32(0x0000_0073), Err(SimError::UnimplementedInstruction));
    // fence
    assert_eq!(d32(0x0ff0_000f), Err(SimError::UnimplementedInstruction));
    // addiw a0, a0, 1
    assert_eq!(d32(0x0015_051b), Err(SimError::UnimplementedInstruction));
    // a branch with function code 010
    assert_eq!(d32(0x00b5_2863), Err(SimError::UnimplementedInstruction));
    // a jalr with function code 001
    assert_eq!(d32(0x0045_10e7), Err(SimError::UnimplementedInstruction));
}

#[test]
fn words_of_another_length_are_refused() {
    assert_eq!(d32(0x0000_0000), Err(SimError::UnsupportedLength));
    assert_eq!(d32(0x0000_4501), Err(SimError::UnsupportedLength));
    assert_eq!(d32(0x0000_001f), Err(SimError::UnsupportedLength));
    assert_eq!(d32(0xffff_ffff), Err(SimError::UnsupportedLength));
    assert_eq!(d16(0x8513, XLEN::RV64), Err(SimError::UnsupportedLength));
    assert_eq!(d16(0xffff, XLEN::RV64), Err(SimError::UnsupportedLength));
}

#[test]
fn first_quadrant() {
    for xlen in MODES {
        assert_eq!(d16(0x0000, xlen), Err(SimError::IllegalInstruction));
        assert_eq!(d16(0x0808, xlen), Ok(D::C_ADDI4SPN(C_ADDI4SPN { rd: a0, imm: 16 })));
        // an immediate of zero with a register is reserved
        assert_eq!(d16(0x0008, xlen), Err(SimError::ReservedEncoding));
        assert_eq!(d16(0x41c8, xlen), Ok(D::C_LW(C_LW { rd: a0, rs1: a1, offset: 4 })));
        assert_eq!(d16(0xc1c8, xlen), Ok(D::C_SW(C_SW { rs1: a1, rs2: a0, offset: 4 })));
        assert_eq!(d16(0x8000, xlen), Err(SimError::ReservedEncoding));
        assert_eq!(d16(0x9ffc, xlen), Err(SimError::ReservedEncoding));
    }
    assert_eq!(d16(0x6588, XLEN::RV32), Err(SimError::UnimplementedInstruction));
    assert_eq!(d16(0x6588, XLEN::RV64), Ok(D::C_LD(C_LD { rd: a0, rs1: a1, offset: 8 })));
    assert_eq!(d16(0x6588, XLEN::RV128), Ok(D::C_LD(C_LD { rd: a0, rs1: a1, offset: 8 })));
    assert_eq!(d16(0xe588, XLEN::RV32), Err(SimError::UnimplementedInstruction));
    assert_eq!(d16(0xe588, XLEN::RV64), Ok(D::C_SD(C_SD { rs1: a1, rs2: a0, offset: 8 })));
    // function code 001: a floating-point load, or a quad load in 128-bit mode
    let fld = C_FLD { rd: FprName::fa0, rs1: a1, offset: 8 };
    assert_eq!(d16(0x2588, XLEN::RV32), Ok(D::C_FLD(fld)));
    assert_eq!(d16(0x2588, XLEN::RV64), Ok(D::C_FLD(fld)));
    assert_eq!(d16(0x2588, XLEN::RV128), Ok(D::C_LQ(C_LQ { rd: a0, rs1: a1, offset: 256 })));
    // function code 101: a floating-point store, or a quad store in 128-bit mode
    let fsd = C_FSD { rs1: a1, rs2: FprName::fa0, offset: 8 };
    assert_eq!(d16(0xa588, XLEN::RV32), Ok(D::C_FSD(fsd)));
    assert_eq!(d16(0xa588, XLEN::RV64), Ok(D::C_FSD(fsd)));
    assert_eq!(d16(0xa588, XLEN::RV128), Ok(D::C_SQ(C_SQ { rs1: a1, rs2: a0, offset: 256 })));
}

#[test]
fn second_quadrant() {
    for xlen in MODES {
        assert_eq!(d16(0x0001, xlen), Ok(D::C_NOP(C_NOP(1))));
        assert_eq!(d16(0x1141, xlen), Ok(D::C_ADDI(C_ADDI { imm: -16, rd: sp })));
        assert_eq!(d16(0x4501, xlen), Ok(D::C_LI(C_LI { rd: a0, imm: 0 })));
        assert_eq!(d16(0x557d, xlen), Ok(D::C_LI(C_LI { rd: a0, imm: -1 })));
        // c.lui and c.addi16sp are not modelled
        assert_eq!(d16(0x6505, xlen), Err(SimError::UnimplementedInstruction));
        assert_eq!(d16(0x7179, xlen), Err(SimError::UnimplementedInstruction));
        assert_eq!(d16(0x810d, xlen), Ok(D::C_SRLI(C_SRLI { rd: a0, shamt: 3 })));
        assert_eq!(d16(0x850d, xlen), Ok(D::C_SRAI(C_SRAI { rd: a0, shamt: 3 })));
        assert_eq!(d16(0x8101, xlen), Ok(D::C_SRLI64(C_SRLI64 { rd: a0, shamt: 64 })));
        assert_eq!(d16(0x8501, xlen), Ok(D::C_SRAI64(C_SRAI64 { rd: a0, shamt: 64 })));
        assert_eq!(d16(0x997d, xlen), Ok(D::C_ANDI(C_ANDI { rd: a0, imm: -1 })));
        assert_eq!(d16(0x8d0d, xlen), Ok(D::C_SUB(C_SUB { rd: a0, rs2: a1 })));
        assert_eq!(d16(0x8d2d, xlen), Ok(D::C_XOR(C_XOR { rd: a0, rs2: a1 })));
        assert_eq!(d16(0x8d4d, xlen), Ok(D::C_OR(C_OR { rd: a0, rs2: a1 })));
        assert_eq!(d16(0x8d6d, xlen), Ok(D::C_AND(C_AND { rd: a0, rs2: a1 })));
        assert_eq!(d16(0x9d4d, xlen), Err(SimError::ReservedEncoding));
        assert_eq!(d16(0x9d6d, xlen), Err(SimError::ReservedEncoding));
        assert_eq!(d16(0xa001, xlen), Ok(D::C_J(C_J { offset: 0 })));
        assert_eq!(d16(0xc101, xlen), Ok(D::C_BEQZ(C_BEQZ { rs1: a0, offset: 0 })));
        assert_eq!(d16(0xe101, xlen), Ok(D::C_BNEZ(C_BNEZ { rs1: a0, offset: 0 })));
    }
    assert_eq!(d16(0x2001, XLEN::RV32), Ok(D::C_JAL(C_JAL { offset: 0 })));
    assert_eq!(d16(0x2001, XLEN::RV64), Err(SimError::UnimplementedInstruction));
    assert_eq!(d16(0x2001, XLEN::RV128), Err(SimError::UnimplementedInstruction));
    assert_eq!(d16(0x9d0d, XLEN::RV32), Err(SimError::ReservedEncoding));
    assert_eq!(d16(0x9d0d, XLEN::RV64), Ok(D::C_SUBW(C_SUBW { rd: a0, rs2: a1 })));
    assert_eq!(d16(0x9d2d, XLEN::RV32), Err(SimError::ReservedEncoding));
    assert_eq!(d16(0x9d2d, XLEN::RV128), Ok(D::C_ADDW(C_ADDW { rd: a0, rs2: a1 })));
    // a shift by 32 or more is reserved in 32-bit mode
    assert_eq!(d16(0x910d, XLEN::RV32), Err(SimError::ReservedEncoding));
    assert_eq!(d16(0x910d, XLEN::RV64), Ok(D::C_SRLI(C_SRLI { rd: a0, shamt: 35 })));
    assert_eq!(d16(0x950d, XLEN::RV32), Err(SimError::ReservedEncoding));
    assert_eq!(d16(0x950d, XLEN::RV64), Ok(D::C_SRAI(C_SRAI { rd: a0, shamt: 35 })));
}

#[test]
fn third_quadrant() {
    for xlen in MODES {
        assert_eq!(d16(0x050e, xlen), Ok(D::C_SLLI(C_SLLI { rd: a0, shamt: 3 })));
        assert_eq!(d16(0x0502, xlen), Ok(D::C_SLLI64(C_SLLI64 { rd: a0, shamt: 64 })));
        assert_eq!(d16(0x4512, xlen), Ok(D::C_LWSP(C_LWSP { rd: a0, offset: 4 })));
        assert_eq!(d16(0x4012, xlen), Err(SimError::ReservedEncoding));
        assert_eq!(d16(0x8082, xlen), Ok(D::C_JR(C_JR { rs1: ra })));
        assert_eq!(d16(0x8002, xlen), Err(SimError::ReservedEncoding));
        assert_eq!(d16(0x852e, xlen), Ok(D::C_MV(C_MV { rd: a0, rs2: a1 })));
        assert_eq!(d16(0x802e, xlen), Ok(D::C_MV(C_MV { rd: zero, rs2: a1 })));
        assert_eq!(d16(0x9002, xlen), Ok(D::C_EBREAK(C_EBREAK(0x9002))));
        assert_eq!(d16(0x9502, xlen), Ok(D::C_JALR(C_JALR { rs1: a0 })));
        assert_eq!(d16(0x952e, xlen), Ok(D::C_ADD(C_ADD { rs1: a0, rs2: a1 })));
        assert_eq!(d16(0xc22a, xlen), Ok(D::C_SWSP(C_SWSP { rs2: a0, offset: 4 })));
    }
    assert_eq!(d16(0x150e, XLEN::RV32), Err(SimError::ReservedEncoding));
    assert_eq!(d16(0x150e, XLEN::RV64), Ok(D::C_SLLI(C_SLLI { rd: a0, shamt: 35 })));
    // function code 001
    let fldsp = C_FLDSP { rd: FprName::ft1, offset: 8 };
    assert_eq!(d16(0x20a2, XLEN::RV32), Ok(D::C_FLDSP(fldsp)));
    assert_eq!(d16(0x20a2, XLEN::RV64), Ok(D::C_FLDSP(fldsp)));
    assert_eq!(d16(0x20a2, XLEN::RV128), Ok(D::C_LQSP(C_LQSP { rd: ra, offset: 512 })));
    assert_eq!(d16(0x2022, XLEN::RV128), Err(SimError::ReservedEncoding));
    assert_eq!(d16(0x2022, XLEN::RV64), Ok(D::C_FLDSP(C_FLDSP { rd: FprName::ft0, offset: 8 })));
    // function code 011
    assert_eq!(d16(0x60a2, XLEN::RV32), Ok(D::C_FLWSP(C_FLWSP { rd: FprName::ft1, offset: 8 })));
    assert_eq!(d16(0x60a2, XLEN::RV64), Ok(D::C_LDSP(C_LDSP { rd: ra, offset: 8 })));
    assert_eq!(d16(0x60a2, XLEN::RV128), Ok(D::C_LDSP(C_LDSP { rd: ra, offset: 8 })));
    assert_eq!(d16(0x6022, XLEN::RV64), Err(SimError::ReservedEncoding));
    // function code 101
    let fsdsp = C_FSDSP { rs2: FprName::ft1, offset: 8 };
    assert_eq!(d16(0xa406, XLEN::RV32), Ok(D::C_FSDSP(fsdsp)));
    assert_eq!(d16(0xa406, XLEN::RV64), Ok(D::C_FSDSP(fsdsp)));
    assert_eq!(d16(0xa406, XLEN::RV128), Ok(D::C_SQSP(C_SQSP { rs2: ra, offset: 512 })));
    // function code 111
    assert_eq!(d16(0xe406, XLEN::RV32), Ok(D::C_FSWSP(C_FSWSP { rs2: FprName::ft1, offset: 8 })));
    assert_eq!(d16(0xe406, XLEN::RV64), Ok(D::C_SDSP(C_SDSP { rs2: ra, offset: 8 })));
    assert_eq!(d16(0xe406, XLEN::RV128), Ok(D::C_SDSP(C_SDSP { rs2: ra, offset: 8 })));
}

#[test]
fn state_decodes_in_its_own_mode() {
    let mut state = State::new();
    assert_eq!(
        state.decode_inst(InstructionRaw::B16(0x2001)),
        Err(SimError::UnimplementedInstruction)
    );
    state.xlen = XLEN::RV32;
    assert_eq!(state.decode_inst(InstructionRaw::B16(0x2001)), Ok(D::C_JAL(C_JAL { offset: 0 })));
    state.xlen = XLEN::RV128;
    assert_eq!(
        state.decode_inst(InstructionRaw::B16(0x2588)),
        Ok(D::C_LQ(C_LQ { rd: XprName::a0, rs1: XprName::a1, offset: 256 }))
    );
}

#[test]
fn message_errors_keep_their_message() {
    let e = SimError::from("halt".to_string());
    assert_eq!(e, SimError::SimError("halt".to_string()));
    assert_ne!(e, SimError::ParseError("halt".to_string()));
}
