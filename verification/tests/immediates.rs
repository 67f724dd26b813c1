use riscv_iss::instructions::rv32i::{
    rv32i_b_type, rv32i_i_type, rv32i_j_type, rv32i_r_type, rv32i_s_type, rv32i_u_type,
};
use riscv_iss::instructions::rvc::{
    rvc_cb_type, rvc_ci_type, rvc_ciw_type, rvc_cj_type, rvc_cl_type, rvc_cr_type, rvc_cs_type,
    rvc_css_type, C_ADDI, C_ADDI4SPN, C_ANDI, C_BEQZ, C_BNEZ, C_J, C_JAL, C_LD, C_LDSP, C_LI,
    C_LQ, C_LQSP, C_LW, C_LWSP, C_SD, C_SDSP, C_SLLI, C_SQ, C_SQSP, C_SRAI, C_SRLI, C_SW, C_SWSP,
};
use riscv_iss::processor::XprName;

// Places bit `from` of `imm` at bit `to` of the word.
fn bit(imm: i64, from: u32, to: u32) -> u32 {
    (((imm >> from) & 1) as u32) << to
}

fn enc_i(imm: i64) -> u32 {
    (0..12).map(|k| bit(imm, k, 20 + k)).sum()
}

fn enc_s(imm: i64) -> u32 {
    (0..5).map(|k| bit(imm, k, 7 + k)).sum::<u32>()
        + (5..12).map(|k| bit(imm, k, 20 + k)).sum::<u32>()
}

fn enc_b(imm: i64) -> u32 {
    (1..5).map(|k| bit(imm, k, 7 + k)).sum::<u32>()
        + (5..11).map(|k| bit(imm, k, 20 + k)).sum::<u32>()
        + bit(imm, 11, 7)
        + bit(imm, 12, 31)
}

fn enc_u(imm: i64) -> u32 {
    (0..20).map(|k| bit(imm, k, 12 + k)).sum()
}

fn enc_j(imm: i64) -> u32 {
    (1..11).map(|k| bit(imm, k, 20 + k)).sum::<u32>()
        + bit(imm, 11, 20)
        + (12..20).map(|k| bit(imm, k, k)).sum::<u32>()
        + bit(imm, 20, 31)
}

fn place(imm: i64, map: &[(u32, u32)]) -> u16 {
    map.iter().map(|(from, to)| bit(imm, *from, *to)).sum::<u32>() as u16
}

const CI: [(u32, u32); 6] = [(0, 2), (1, 3), (2, 4), (3, 5), (4, 6), (5, 12)];
const CJ: [(u32, u32); 11] =
    [(1, 3), (2, 4), (3, 5), (4, 11), (5, 2), (6, 7), (7, 6), (8, 9), (9, 10), (10, 8), (11, 12)];
const CB: [(u32, u32); 8] = [(1, 3), (2, 4), (3, 10), (4, 11), (5, 2), (6, 5), (7, 6), (8, 12)];
const CIW: [(u32, u32); 8] = [(2, 6), (3, 5), (4, 11), (5, 12), (6, 7), (7, 8), (8, 9), (9, 10)];
const CL_W: [(u32, u32); 5] = [(2, 6), (3, 10), (4, 11), (5, 12), (6, 5)];
const CL_D: [(u32, u32); 5] = [(3, 10), (4, 11), (5, 12), (6, 5), (7, 6)];
const CL_Q: [(u32, u32); 5] = [(4, 11), (5, 12), (6, 5), (7, 6), (8, 10)];
const CI_W: [(u32, u32); 6] = [(2, 4), (3, 5), (4, 6), (5, 12), (6, 2), (7, 3)];
const CI_D: [(u32, u32); 6] = [(3, 5), (4, 6), (5, 12), (6, 2), (7, 3), (8, 4)];
const CI_Q: [(u32, u32); 6] = [(4, 6), (5, 12), (6, 2), (7, 3), (8, 4), (9, 5)];
const CSS_W: [(u32, u32); 6] = [(2, 9), (3, 10), (4, 11), (5, 12), (6, 7), (7, 8)];
const CSS_D: [(u32, u32); 6] = [(3, 10), (4, 11), (5, 12), (6, 7), (7, 8), (8, 9)];
const CSS_Q: [(u32, u32); 6] = [(4, 11), (5, 12), (6, 7), (7, 8), (8, 9), (9, 10)];

#[test]
fn i_format_known_words() {
    // addi a0, gp, 1896
    assert_eq!(rv32i_i_type(0x7681_8513), (XprName::a0, XprName::gp, 1896));
    // lb a0, -1(a1)
    assert_eq!(rv32i_i_type(0xfff5_8503), (XprName::a0, XprName::a1, -1));
    // slti a0, a1, -5
    assert_eq!(rv32i_i_type(0xffb5_a513), (XprName::a0, XprName::a1, -5));
    // jalr ra, 4(a0)
    assert_eq!(rv32i_i_type(0x0045_00e7), (XprName::ra, XprName::a0, 4));
    assert_eq!(rv32i_i_type(0x8000_0000).2, -2048);
    assert_eq!(rv32i_i_type(0x7ff0_0000).2, 2047);
}

#[test]
fn i_format_round_trip_over_the_whole_range() {
    for imm in -2048..2048i64 {
        for rest in [0u32, 0x000f_ffff, 0x0005_8513] {
            assert_eq!(rv32i_i_type(enc_i(imm) | rest).2, imm);
        }
    }
}

#[test]
fn s_format_known_words() {
    // sd ra, 8(sp)
    assert_eq!(rv32i_s_type(0x0011_3423), (XprName::sp, XprName::ra, 8));
    // sw a0, -4(s0)
    assert_eq!(rv32i_s_type(0xfea4_2e23), (XprName::s0, XprName::a0, -4));
}

#[test]
fn s_format_round_trip_over_the_whole_range() {
    for imm in -2048..2048i64 {
        for rest in [0u32, 0x01ff_f07f] {
            assert_eq!(rv32i_s_type(enc_s(imm) | rest).2, imm);
        }
    }
}

#[test]
fn b_format_known_words() {
    // beq a0, a1, 16
    assert_eq!(rv32i_b_type(0x00b5_0863), (XprName::a0, XprName::a1, 16));
    // bne a0, a1, -4
    assert_eq!(rv32i_b_type(0xfeb5_1ee3), (XprName::a0, XprName::a1, -4));
    assert_eq!(rv32i_b_type(0x8000_0000).2, -4096);
    assert_eq!(rv32i_b_type(0x7e00_0f80).2, 4094);
}

#[test]
fn b_format_round_trip_over_the_whole_range() {
    for half in -2048..2048i64 {
        let imm = 2 * half;
        for rest in [0u32, 0x01ff_f07f] {
            assert_eq!(rv32i_b_type(enc_b(imm) | rest).2, imm);
        }
    }
}

#[test]
fn u_format_known_words() {
    // lui a0, 0x12345
    assert_eq!(rv32i_u_type(0x1234_5537), (XprName::a0, 0x12345));
    // lui a0, 0xfffff
    assert_eq!(rv32i_u_type(0xffff_f537), (XprName::a0, -1));
    // auipc a1, 1
    assert_eq!(rv32i_u_type(0x0000_1597), (XprName::a1, 1));
    assert_eq!(rv32i_u_type(0x8000_0000).1, -0x8_0000);
    assert_eq!(rv32i_u_type(0x7fff_f000).1, 0x7_ffff);
}

#[test]
fn u_format_round_trip_over_the_whole_range() {
    for imm in -0x8_0000..0x8_0000i64 {
        assert_eq!(rv32i_u_type(enc_u(imm) | 0xfff).1, imm);
    }
}

#[test]
fn j_format_known_words() {
    // jal ra, 294
    assert_eq!(rv32i_j_type(0x1260_00ef), (XprName::ra, 294));
    // jal zero, -8
    assert_eq!(rv32i_j_type(0xff9f_f06f), (XprName::zero, -8));
    assert_eq!(rv32i_j_type(0x8000_0000).1, -0x10_0000);
    assert_eq!(rv32i_j_type(0x7fff_f000).1, 0xf_fffe);
}

#[test]
fn j_format_round_trip_over_the_whole_range() {
    for half in -0x8_0000..0x8_0000i64 {
        let imm = 2 * half;
        assert_eq!(rv32i_j_type(enc_j(imm) | 0xfff).1, imm);
    }
}

#[test]
fn r_format_known_words() {
    // add a0, a1, a2
    assert_eq!(rv32i_r_type(0x00c5_8533), (XprName::a0, XprName::a1, XprName::a2));
    // sub t6, t5, t4
    assert_eq!(rv32i_r_type(0x41df_0fb3), (XprName::t6, XprName::t5, XprName::t4));
}

#[test]
fn compressed_register_fields() {
    // c.mv a0, a1
    assert_eq!(rvc_cr_type(0x852e), (XprName::a0, XprName::a1));
    // c.li a0, 0
    assert_eq!(rvc_ci_type(0x4501), XprName::a0);
    // c.sdsp ra, 8(sp)
    assert_eq!(rvc_css_type(0xe406), (XprName::ra, 0b001000));
    // c.addi4spn a0, sp, 16
    assert_eq!(rvc_ciw_type(0x0808), XprName::a0);
    // c.lw a0, 4(a1)
    assert_eq!(rvc_cl_type(0x41c8), (XprName::a0, XprName::a1));
    // c.sw a0, 4(a1)
    assert_eq!(rvc_cs_type(0xc1c8), (XprName::a0, XprName::a1));
    // c.beqz a0, 0
    assert_eq!(rvc_cb_type(0xc101), XprName::a0);
}

#[test]
fn short_register_fields_select_x8_to_x15() {
    for field in 0..8u16 {
        let expected = XprName::from_num(8 + field as i64);
        assert_eq!(rvc_ciw_type(field << 2), expected);
        assert_eq!(rvc_cl_type(field << 2).0, expected);
        assert_eq!(rvc_cl_type(field << 7).1, expected);
        assert_eq!(rvc_cs_type(field << 2).0, expected);
        assert_eq!(rvc_cs_type(field << 7).1, expected);
        assert_eq!(rvc_cb_type(field << 7), expected);
    }
    assert_eq!(rvc_cb_type(0), XprName::s0);
    assert_eq!(rvc_cb_type(7 << 7), XprName::a5);
}

#[test]
fn compressed_signed_immediate_round_trip() {
    // c.addi sp, -16 and c.addi sp, 16
    assert_eq!(C_ADDI::new(0x1141), C_ADDI { imm: -16, rd: XprName::sp });
    assert_eq!(C_ADDI::new(0x0141), C_ADDI { imm: 16, rd: XprName::sp });
    // c.andi a0, -1
    assert_eq!(C_ANDI::new(0x997d), C_ANDI { rd: XprName::a0, imm: -1 });
    for imm in -32..32i64 {
        for rest in [0u16, 0xef83] {
            let inst = place(imm, &CI) | rest;
            assert_eq!(C_ADDI::new(inst).imm, imm);
            assert_eq!(C_LI::new(inst).imm, imm);
            assert_eq!(C_ANDI::new(inst).imm, imm);
        }
    }
}

#[test]
fn compressed_shift_amount_round_trip() {
    // c.slli a0, 3; c.srli a0, 3; c.srai a0, 3
    assert_eq!(C_SLLI::new(0x050e), C_SLLI { rd: XprName::a0, shamt: 3 });
    assert_eq!(C_SRLI::new(0x810d), C_SRLI { rd: XprName::a0, shamt: 3 });
    assert_eq!(C_SRAI::new(0x850d), C_SRAI { rd: XprName::a0, shamt: 3 });
    for shamt in 0..64i64 {
        let inst = place(shamt, &CI);
        assert_eq!(C_SLLI::new(inst).shamt, shamt as u32);
        assert_eq!(C_SRLI::new(inst).shamt, shamt as u32);
        assert_eq!(C_SRAI::new(inst).shamt, shamt as u32);
    }
}

#[test]
fn compressed_jump_offset_round_trip() {
    assert_eq!(rvc_cj_type(0xa001), 0);
    assert_eq!(rvc_cj_type(0x1000), -2048);
    assert_eq!(rvc_cj_type(0x0ffc), 2046);
    for half in -1024..1024i64 {
        let imm = 2 * half;
        for rest in [0u16, 0xe003] {
            let inst = place(imm, &CJ) | rest;
            assert_eq!(rvc_cj_type(inst), imm);
            assert_eq!(C_J::new(inst).offset, imm);
            assert_eq!(C_JAL::new(inst).offset, imm);
        }
    }
}

#[test]
fn compressed_branch_offset_round_trip() {
    assert_eq!(C_BEQZ::new(0xc101), C_BEQZ { rs1: XprName::a0, offset: 0 });
    assert_eq!(C_BNEZ::new(0xe101), C_BNEZ { rs1: XprName::a0, offset: 0 });
    assert_eq!(C_BEQZ::new(0x1000).offset, -256);
    assert_eq!(C_BEQZ::new(0x0c7c).offset, 254);
    for half in -128..128i64 {
        let imm = 2 * half;
        for rest in [0u16, 0xe383] {
            let inst = place(imm, &CB) | rest;
            assert_eq!(C_BEQZ::new(inst).offset, imm);
            assert_eq!(C_BNEZ::new(inst).offset, imm);
        }
    }
}

#[test]
fn compressed_unsigned_offsets_round_trip() {
    // c.addi4spn a0, sp, 16
    assert_eq!(C_ADDI4SPN::new(0x0808), C_ADDI4SPN { rd: XprName::a0, imm: 16 });
    // c.lw a0, 4(a1); c.sw a0, 4(a1)
    assert_eq!(C_LW::new(0x41c8), C_LW { rd: XprName::a0, rs1: XprName::a1, offset: 4 });
    assert_eq!(C_SW::new(0xc1c8), C_SW { rs1: XprName::a1, rs2: XprName::a0, offset: 4 });
    // c.ld a0, 8(a1); c.sd a0, 8(a1)
    assert_eq!(C_LD::new(0x6588), C_LD { rd: XprName::a0, rs1: XprName::a1, offset: 8 });
    assert_eq!(C_SD::new(0xe588), C_SD { rs1: XprName::a1, rs2: XprName::a0, offset: 8 });
    // c.lwsp a0, 4(sp); c.swsp a0, 4(sp)
    assert_eq!(C_LWSP::new(0x4512), C_LWSP { rd: XprName::a0, offset: 4 });
    assert_eq!(C_SWSP::new(0xc22a), C_SWSP { rs2: XprName::a0, offset: 4 });
    // c.ldsp ra, 8(sp); c.sdsp ra, 8(sp)
    assert_eq!(C_LDSP::new(0x60a2), C_LDSP { rd: XprName::ra, offset: 8 });
    assert_eq!(C_SDSP::new(0xe406), C_SDSP { rs2: XprName::ra, offset: 8 });

    for k in 0..256i64 {
        let imm = 4 * k;
        assert_eq!(C_ADDI4SPN::new(place(imm, &CIW)).imm, imm as u64);
    }
    for k in 0..32i64 {
        assert_eq!(C_LW::new(place(4 * k, &CL_W)).offset, 4 * k as u64);
        assert_eq!(C_SW::new(place(4 * k, &CL_W)).offset, 4 * k as u64);
        assert_eq!(C_LD::new(place(8 * k, &CL_D)).offset, 8 * k as u64);
        assert_eq!(C_SD::new(place(8 * k, &CL_D)).offset, 8 * k as u64);
        assert_eq!(C_LQ::new(place(16 * k, &CL_Q)).offset, 16 * k as u64);
        assert_eq!(C_SQ::new(place(16 * k, &CL_Q)).offset, 16 * k as u64);
    }
    for k in 0..64i64 {
        assert_eq!(C_LWSP::new(place(4 * k, &CI_W)).offset, 4 * k as u64);
        assert_eq!(C_LDSP::new(place(8 * k, &CI_D)).offset, 8 * k as u64);
        assert_eq!(C_LQSP::new(place(16 * k, &CI_Q)).offset, 16 * k as u64);
        assert_eq!(C_SWSP::new(place(4 * k, &CSS_W)).offset, 4 * k as u64);
        assert_eq!(C_SDSP::new(place(8 * k, &CSS_D)).offset, 8 * k as u64);
        assert_eq!(C_SQSP::new(place(16 * k, &CSS_Q)).offset, 16 * k as u64);
    }
}
