use riscv_iss::error::SimError;
use riscv_iss::loader::{starts_with_elf_magic, ElfImage, Section};
use riscv_iss::processor::{State, XprName};

fn put(file: &mut Vec<u8>, at: usize, bytes: &[u8]) {
    file[at..at + bytes.len()].copy_from_slice(bytes);
}

fn section_header(name: u32, kind: u32, flags: u64, addr: u64, offset: u64, size: u64) -> Vec<u8> {
    let mut h = Vec::new();
    h.extend_from_slice(&name.to_le_bytes());
    h.extend_from_slice(&kind.to_le_bytes());
    h.extend_from_slice(&flags.to_le_bytes());
    h.extend_from_slice(&addr.to_le_bytes());
    h.extend_from_slice(&offset.to_le_bytes());
    h.extend_from_slice(&size.to_le_bytes());
    h.extend_from_slice(&0u32.to_le_bytes());
    h.extend_from_slice(&0u32.to_le_bytes());
    h.extend_from_slice(&1u64.to_le_bytes());
    h.extend_from_slice(&0u64.to_le_bytes());
    h
}

const CODE: [u8; 12] = [0x41, 0x11, 0x06, 0xe4, 0xa2, 0x60, 0x01, 0x45, 0x41, 0x01, 0x82, 0x80];
const NAMES: &[u8; 17] = b"\0.text\0.shstrtab\0";

// A 64-bit little-endian ELF file with a code section at 0x10000 and the
// table of section names.
fn small_elf() -> Vec<u8> {
    let mut file = vec![0u8; 96 + 3 * 64];
    put(&mut file, 0, &[0x7f, b'E', b'L', b'F', 2, 1, 1, 0]);
    put(&mut file, 16, &2u16.to_le_bytes());
    put(&mut file, 18, &243u16.to_le_bytes());
    put(&mut file, 20, &1u32.to_le_bytes());
    put(&mut file, 24, &0x1_0000u64.to_le_bytes());
    put(&mut file, 32, &0u64.to_le_bytes());
    put(&mut file, 40, &96u64.to_le_bytes());
    put(&mut file, 48, &0u32.to_le_bytes());
    put(&mut file, 52, &64u16.to_le_bytes());
    put(&mut file, 54, &56u16.to_le_bytes());
    put(&mut file, 56, &0u16.to_le_bytes());
    put(&mut file, 58, &64u16.to_le_bytes());
    put(&mut file, 60, &3u16.to_le_bytes());
    put(&mut file, 62, &2u16.to_le_bytes());
    put(&mut file, 64, &CODE);
    put(&mut file, 76, NAMES);
    put(&mut file, 96 + 64, &section_header(1, 1, 6, 0x1_0000, 64, 12));
    put(&mut file, 96 + 128, &section_header(7, 3, 0, 0, 76, 17));
    file
}

#[test]
fn an_elf_file_is_mapped_section_by_section() {
    let file = small_elf();
    let mut state = State::new();
    assert_eq!(state.load_elf(&file), Ok(()));
    assert_eq!(state.pc, 0x1_0000);
    assert_eq!(state.read(0x1_0000, 12), Ok(CODE.to_vec()));
    // the table of names has no address of its own and lands at address 0
    assert_eq!(state.read(0, 17), Ok(NAMES.to_vec()));
    assert_eq!(state.memory.len(), 12 + 17);
    for i in 0..32 {
        assert_eq!(state.get_reg(XprName::from_num(i)), 0);
    }
}

#[test]
fn a_loaded_program_runs() {
    let file = small_elf();
    let mut state = State::new();
    assert_eq!(state.load_elf(&file), Ok(()));
    state.map_bytes(0x8000 - 16, &[0; 16]);
    state.set_reg(XprName::sp, 0x8000);
    state.set_reg(XprName::ra, 0x1_0008);
    for _ in 0..6 {
        assert_eq!(state.step(), Ok(()));
    }
    // the return lands on the fifth instruction again
    assert_eq!(state.pc, 0x1_0008);
    assert_eq!(state.get_reg(XprName::sp), 0x8000);
    assert_eq!(state.get_reg(XprName::a0), 0);
}

#[test]
fn bytes_that_do_not_parse_are_refused() {
    let mut file = small_elf();
    // the section header table is said to start beyond the end of the file
    put(&mut file, 40, &0x10_0000u64.to_le_bytes());
    let mut state = State::new();
    state.pc = 0x44;
    state.memory.insert(5, 5);
    assert!(matches!(state.load_elf(&file), Err(SimError::ParseError(_))));
    assert!(matches!(state.load_elf(&[0x7f, b'E', b'L']), Err(SimError::ParseError(_))));
    assert!(matches!(state.load_elf(&[]), Err(SimError::ParseError(_))));
    assert_eq!(state.pc, 0x44);
    assert_eq!(state.memory.len(), 1);
}

#[test]
fn an_object_of_another_kind_loads_nothing() {
    let mut state = State::new();
    state.pc = 0x44;
    assert_eq!(state.load_elf(&[0x11; 32]), Ok(()));
    assert_eq!(state.load_elf(&[0x11; 16]), Ok(()));
    // three of the four bytes of the ELF mark
    let mut near = vec![0u8; 64];
    put(&mut near, 0, &[0x7f, b'E', b'L', b'G']);
    assert_eq!(state.load_elf(&near), Ok(()));
    assert_eq!(state.pc, 0x44);
    assert!(state.memory.is_empty());
}

#[test]
fn a_mach_object_is_accepted_unread() {
    // a 64-bit Mach-O header with one segment command whose file offset lies
    // above its address, and an entry point command
    let mut file = vec![0u8; 32 + 72 + 24];
    put(&mut file, 0, &0xfeed_facf_u32.to_le_bytes());
    put(&mut file, 4, &0x0100_0007_u32.to_le_bytes());
    put(&mut file, 12, &2u32.to_le_bytes());
    put(&mut file, 16, &2u32.to_le_bytes());
    put(&mut file, 20, &96u32.to_le_bytes());
    put(&mut file, 32, &0x19u32.to_le_bytes());
    put(&mut file, 36, &72u32.to_le_bytes());
    put(&mut file, 40, b"__TEXT");
    put(&mut file, 56, &0u64.to_le_bytes());
    put(&mut file, 72, &1u64.to_le_bytes());
    put(&mut file, 80, &0u64.to_le_bytes());
    put(&mut file, 104, &0x8000_0028_u32.to_le_bytes());
    put(&mut file, 108, &24u32.to_le_bytes());
    let mut state = State::new();
    state.pc = 0x44;
    state.memory.insert(5, 5);
    assert_eq!(state.load_elf(&file), Ok(()));
    assert_eq!(state.pc, 0x44);
    assert_eq!(state.memory.len(), 1);
}

#[test]
fn the_elf_mark_is_four_bytes() {
    assert!(starts_with_elf_magic(&[0x7f, b'E', b'L', b'F']));
    assert!(starts_with_elf_magic(&small_elf()));
    assert!(!starts_with_elf_magic(&[0x7f, b'E', b'L']));
    assert!(!starts_with_elf_magic(&[]));
    assert!(!starts_with_elf_magic(&[0x7f, b'E', b'L', b'G', b'F']));
    assert!(!starts_with_elf_magic(&[b'E', b'L', b'F', 0x7f]));
}

#[test]
fn bytes_with_the_elf_mark_that_are_no_elf_file_are_refused() {
    let mut file = vec![0u8; 64];
    put(&mut file, 0, &[0x7f, b'E', b'L', b'F']);
    let mut state = State::new();
    state.pc = 0x44;
    assert!(matches!(state.load_elf(&file), Err(SimError::ParseError(_))));
    // a header alone, cut before the section header table it announces
    assert!(matches!(state.load_elf(&small_elf()[..64]), Err(SimError::ParseError(_))));
    // the mark alone is too short to be read
    assert!(matches!(state.load_elf(&small_elf()[..15]), Err(SimError::ParseError(_))));
    assert_eq!(state.pc, 0x44);
    assert!(state.memory.is_empty());
}

#[test]
fn an_image_is_loaded_from_its_sections() {
    let buffer: Vec<u8> = (0..32).collect();
    let image = ElfImage {
        entry: 0x2000,
        sections: vec![
            Section { offset: 0, size: 0, addr: 0 },
            Section { offset: 4, size: 4, addr: 0x2000 },
            Section { offset: 28, size: 4, addr: 0x3000 },
            // overlaps the second section: the later one stays
            Section { offset: 16, size: 2, addr: 0x2002 },
        ],
    };
    let mut state = State::new();
    state.memory.insert(0x2001, 0xee);
    state.memory.insert(0x9000, 0xdd);
    assert_eq!(state.load_image(&buffer, &image), Ok(()));
    assert_eq!(state.pc, 0x2000);
    assert_eq!(state.read(0x2000, 4), Ok(vec![4, 5, 16, 17]));
    assert_eq!(state.read(0x3000, 4), Ok(vec![28, 29, 30, 31]));
    assert_eq!(state.read(0x9000, 1), Ok(vec![0xdd]));
    assert_eq!(state.memory.len(), 9);
}

#[test]
fn the_entry_point_is_the_program_counter_bit_for_bit() {
    let image = ElfImage { entry: u64::MAX - 1, sections: vec![] };
    let mut state = State::new();
    assert_eq!(state.load_image(&[], &image), Ok(()));
    assert_eq!(state.pc, -2);
    assert!(state.memory.is_empty());
}

#[test]
fn a_section_beyond_the_image_loads_nothing() {
    let buffer: Vec<u8> = (0..32).collect();
    for bad in [
        Section { offset: 30, size: 3, addr: 0x3000 },
        Section { offset: 33, size: 0, addr: 0x3000 },
        Section { offset: 0, size: 33, addr: 0x3000 },
        Section { offset: u64::MAX, size: 2, addr: 0x3000 },
        Section { offset: 2, size: u64::MAX, addr: 0x3000 },
    ] {
        let image = ElfImage {
            entry: 0x2000,
            sections: vec![Section { offset: 4, size: 4, addr: 0x2000 }, bad],
        };
        let mut state = State::new();
        state.pc = 0x44;
        assert!(matches!(state.load_image(&buffer, &image), Err(SimError::ParseError(_))));
        assert_eq!(state.pc, 0x44);
        assert!(state.memory.is_empty());
    }
    // a section that ends with the image fits
    let image = ElfImage { entry: 0, sections: vec![Section { offset: 30, size: 2, addr: 7 }] };
    let mut state = State::new();
    assert_eq!(state.load_image(&buffer, &image), Ok(()));
    assert_eq!(state.read(7, 2), Ok(vec![30, 31]));
}
