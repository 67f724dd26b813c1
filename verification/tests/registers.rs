use riscv_iss::processor::{FprName, State, XprName, XLEN, XPR};

const NAMES: [XprName; 32] = [
    XprName::zero, XprName::ra, XprName::sp, XprName::gp, XprName::tp, XprName::t0, XprName::t1,
    XprName::t2, XprName::s0, XprName::s1, XprName::a0, XprName::a1, XprName::a2, XprName::a3,
    XprName::a4, XprName::a5, XprName::a6, XprName::a7, XprName::s2, XprName::s3, XprName::s4,
    XprName::s5, XprName::s6, XprName::s7, XprName::s8, XprName::s9, XprName::s10, XprName::s11,
    XprName::t3, XprName::t4, XprName::t5, XprName::t6,
];

#[test]
fn register_names_follow_their_numbers() {
    for (i, name) in NAMES.iter().enumerate() {
        assert_eq!(XprName::from_num(i as i64), *name);
        assert_eq!(name.num(), i);
    }
    assert_eq!(XprName::from_num(2), XprName::sp);
    assert_eq!(XprName::from_num(10), XprName::a0);
    assert_eq!(XprName::from_num(31), XprName::t6);
    assert_eq!(XprName::s0.num(), 8);
    assert_eq!(XprName::a5.num(), 15);
}

#[test]
fn float_register_names_follow_their_numbers() {
    for i in 0..32i64 {
        assert_eq!(FprName::from_num(i).num(), i as usize);
    }
    assert_eq!(FprName::from_num(0), FprName::ft0);
    assert_eq!(FprName::from_num(8), FprName::fs0);
    assert_eq!(FprName::from_num(10), FprName::fa0);
    assert_eq!(FprName::from_num(31), FprName::ft11);
}

#[test]
fn writes_to_zero_are_discarded() {
    let mut regs = XPR::new();
    for v in [1i64, -1, i64::MAX, i64::MIN, 42] {
        regs.set(XprName::zero, v);
        assert_eq!(regs.get(XprName::zero), 0);
    }
    for name in NAMES {
        assert_eq!(regs.get(name), 0);
    }
}

#[test]
fn every_other_register_reads_back_what_was_written() {
    for (i, name) in NAMES.iter().enumerate().skip(1) {
        for v in [1i64, -1, i64::MAX, i64::MIN, 0x1234_5678_9abc_def0] {
            let mut regs = XPR::new();
            regs.set(*name, v);
            assert_eq!(regs.get(*name), v);
            for (j, other) in NAMES.iter().enumerate() {
                if i != j {
                    assert_eq!(regs.get(*other), 0);
                }
            }
        }
    }
}

#[test]
fn registers_do_not_alias() {
    let mut regs = XPR::new();
    for (i, name) in NAMES.iter().enumerate() {
        regs.set(*name, 100 + i as i64);
    }
    assert_eq!(regs.get(XprName::zero), 0);
    for (i, name) in NAMES.iter().enumerate().skip(1) {
        assert_eq!(regs.get(*name), 100 + i as i64);
    }
}

#[test]
fn state_registers_behave_like_the_register_file() {
    let mut state = State::new();
    state.set_reg(XprName::zero, 7);
    state.set_reg(XprName::t6, -7);
    assert_eq!(state.get_reg(XprName::zero), 0);
    assert_eq!(state.get_reg(XprName::t6), -7);
    assert_eq!(state.regs.get(XprName::t6), -7);
    assert_eq!(state.pc, 0);
}

#[test]
fn fresh_state_is_all_zero_in_64_bit_mode() {
    let state = State::new();
    assert_eq!(state.xlen, XLEN::RV64);
    assert_eq!(state.pc, 0);
    for name in NAMES {
        assert_eq!(state.get_reg(name), 0);
    }
    assert!(state.memory.is_empty());
    assert_eq!(state.prv, 0);
    assert_eq!(state.mstatus, 0);
    assert_eq!(state.satp, 0);
    assert_eq!(state.dpc, 0);
}

#[test]
fn advance_wraps_at_64_bits() {
    let mut state = State::new();
    state.pc = i64::MAX;
    state.advance(2);
    assert_eq!(state.pc, i64::MIN + 1);
    state.advance(-2);
    assert_eq!(state.pc, i64::MAX);
}
