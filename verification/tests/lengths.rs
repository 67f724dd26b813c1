use riscv_iss::decode::InstructionRaw;
use riscv_iss::utils::x;

fn table(base: u16) -> usize {
    if base & 0b11 != 0b11 {
        2
    } else if (base >> 2) & 0b111 != 0b111 {
        4
    } else if (base >> 5) & 1 == 0 {
        6
    } else if (base >> 6) & 1 == 0 {
        8
    } else if (base >> 12) & 0b111 != 0b111 {
        10 + 2 * ((base >> 12) & 0b111) as usize
    } else {
        26
    }
}

#[test]
fn field_extraction_is_right_justified() {
    assert_eq!(x(0xabcd_u16, 0, 4), 0xd);
    assert_eq!(x(0xabcd_u16, 4, 8), 0xbc);
    assert_eq!(x(0xabcd_u16, 12, 4), 0xa);
    assert_eq!(x(0x7681_8513_u32, 20, 12), 1896);
    assert_eq!(x(0x7681_8513_u32, 15, 5), 3);
    assert_eq!(x(0x7681_8513_u32, 7, 5), 10);
    assert_eq!(x(0xffff_ffff_u32, 31, 1), 1);
    assert_eq!(x(0xffff_ffff_u32, 0, 0), 0);
    assert_eq!(x(u64::MAX, 1, 63), i64::MAX);
    assert_eq!(x(u64::MAX, 63, 1), 1);
    assert_eq!(x(0x8000_0000_0000_0000_u64, 0, 63), 0);
    assert_eq!(x(0xff_u8, 4, 4), 0xf);
}

#[test]
fn field_extraction_is_never_negative() {
    for from in 0..64usize {
        for size in 0..64usize {
            if from + size <= 64 {
                assert!(x(u64::MAX, from, size) >= 0);
                assert_eq!(x(u64::MAX, from, size) as u64, (1u64 << size) - 1);
                assert_eq!(x(0u64, from, size), 0);
            }
        }
    }
}

#[test]
fn low_bits_other_than_11_give_length_2() {
    for base in 0..=u16::MAX {
        if base & 0b11 != 0b11 {
            assert_eq!(InstructionRaw::inst_length(base), 2);
        }
    }
}

#[test]
fn low_bits_11_without_111_above_give_length_4() {
    for base in 0..=u16::MAX {
        if base & 0b11 == 0b11 && (base >> 2) & 0b111 != 0b111 {
            assert_eq!(InstructionRaw::inst_length(base), 4);
        }
    }
}

#[test]
fn every_prefix_has_the_length_of_the_table() {
    for base in 0..=u16::MAX {
        assert_eq!(InstructionRaw::inst_length(base), table(base));
    }
}

#[test]
fn one_prefix_for_each_length() {
    assert_eq!(InstructionRaw::inst_length(0x0000), 2);
    assert_eq!(InstructionRaw::inst_length(0x4501), 2);
    assert_eq!(InstructionRaw::inst_length(0x8082), 2);
    assert_eq!(InstructionRaw::inst_length(0x8513), 4);
    assert_eq!(InstructionRaw::inst_length(0x00ef), 4);
    assert_eq!(InstructionRaw::inst_length(0b0001_1111), 6);
    assert_eq!(InstructionRaw::inst_length(0b0011_1111), 8);
    assert_eq!(InstructionRaw::inst_length(0b0000_0000_0111_1111), 10);
    assert_eq!(InstructionRaw::inst_length(0b0001_0000_0111_1111), 12);
    assert_eq!(InstructionRaw::inst_length(0b0010_0000_0111_1111), 14);
    assert_eq!(InstructionRaw::inst_length(0b0011_0000_0111_1111), 16);
    assert_eq!(InstructionRaw::inst_length(0b0100_0000_0111_1111), 18);
    assert_eq!(InstructionRaw::inst_length(0b0101_0000_0111_1111), 20);
    assert_eq!(InstructionRaw::inst_length(0b0110_0000_0111_1111), 22);
    assert_eq!(InstructionRaw::inst_length(0b0111_0000_0111_1111), 26);
    assert_eq!(InstructionRaw::inst_length(0xffff), 26);
}
