//! Loading an executable image: the sections of an ELF file are mapped
//! into memory and the program counter is set to the entry point. Only a
//! file that starts with the ELF mark is handed to the parser.

use vstd::prelude::*;
use vstd::slice::slice_subrange;
use crate::error::SimError;
use crate::mmu::with_bytes;
use crate::processor::{State, StateView};
use crate::utils::{signed, to_signed};

verus! {

/// The error type of the ELF parser.
#[verifier::external_type_specification]
#[verifier::external_body]
pub struct ExGoblinError(goblin::error::Error);

/// One section of an executable image: `size` bytes that stand at byte
/// `offset` of the image and belong at address `addr`.
#[derive(Clone, Copy, Debug, PartialEq, Eq, Structural)]
pub struct Section {
    pub offset: u64,
    pub size: u64,
    pub addr: u64,
}

/// What the loader takes from an ELF file: the entry point and the
/// sections, in the order of the section header table.
#[derive(Clone, Debug, PartialEq, Eq)]
pub struct ElfImage {
    pub entry: u64,
    pub sections: Vec<Section>,
}

/// Whether the bytes start with the four bytes that mark an ELF file.
pub open spec fn has_elf_magic(bytes: Seq<u8>) -> bool {
    &&& bytes.len() >= 4
    &&& bytes[0] == 0x7f
    &&& bytes[1] == 0x45
    &&& bytes[2] == 0x4c
    &&& bytes[3] == 0x46
}

/// What the ELF parser makes of the bytes of a file: the entry point and the
/// sections, or nothing if it rejects the bytes.
pub uninterp spec fn parsed_elf(bytes: Seq<u8>) -> Option<(u64, Seq<Section>)>;

/// Parses `buffer` with `goblin::elf::Elf::parse`. On success the result
/// holds the entry point of the file header and, for each entry of the
/// section header table in order, its file offset, size and address. The
/// contract claims only that the outcome is a function of the bytes. It
/// admits only bytes that start with the ELF mark, and only a host with
/// addresses of 64 bits: the parser casts 64-bit values of the file to the
/// width of an address and adds to them, which can overflow on a narrower
/// host.
#[verifier::external_body]
fn parse_elf(buffer: &[u8]) -> (r: Result<ElfImage, goblin::error::Error>)
    requires
        has_elf_magic(buffer@),
        usize::BITS == 64,
    ensures
        match r {
            Ok(image) => parsed_elf(buffer@) == Some((image.entry, image.sections@)),
            Err(_) => parsed_elf(buffer@) is None,
        },
{
    let elf = goblin::elf::Elf::parse(buffer)?;
    let sections = elf.section_headers.iter().map(
        |h| Section { offset: h.sh_offset, size: h.sh_size, addr: h.sh_addr },
    ).collect();
    Ok(ElfImage { entry: elf.header.e_entry, sections })
}

/// The text that `goblin::error::Error` displays for a parse error.
#[verifier::external_body]
fn describe(error: &goblin::error::Error) -> String {
    format!("{}", error)
}

/// Whether the bytes of `section` lie within an image of `length` bytes.
pub open spec fn section_fits(length: nat, section: Section) -> bool {
    section.offset + section.size <= length
}

/// Whether every section lies within an image of `length` bytes.
pub open spec fn sections_fit(length: nat, sections: Seq<Section>) -> bool {
    forall|i: int| 0 <= i < sections.len() ==> section_fits(length, #[trigger] sections[i])
}

/// The memory after the bytes of each section are mapped at the address of
/// the section, in order. Where sections overlap, the later one stays.
pub open spec fn with_sections(memory: Map<u64, u8>, image: Seq<u8>, sections: Seq<Section>) -> Map<
    u64,
    u8,
>
    decreases sections.len(),
{
    if sections.len() == 0 {
        memory
    } else {
        let section = sections.last();
        with_bytes(
            with_sections(memory, image, sections.drop_last()),
            section.addr,
            image.subrange(section.offset as int, section.offset + section.size),
        )
    }
}

impl StateView {
    /// The state after an object file is loaded, or nothing if loading
    /// fails. A file shorter than 16 bytes fails. A longer file without the
    /// ELF mark loads nothing and leaves the state as it is. A file with
    /// the mark is loaded as the ELF parser reads it, on a host with
    /// addresses of 64 bits.
    pub open spec fn load_elf(self, image: Seq<u8>) -> Option<StateView> {
        if image.len() < 16 {
            None
        } else if !has_elf_magic(image) {
            Some(self)
        } else if usize::BITS != 64 {
            None
        } else {
            match parsed_elf(image) {
                Some((entry, sections)) => self.load_image(image, entry, sections),
                None => None,
            }
        }
    }

    /// The state after an image is loaded: its sections are mapped and the
    /// program counter is at its entry point. Nothing is loaded if a
    /// section does not lie within the image.
    pub open spec fn load_image(self, image: Seq<u8>, entry: u64, sections: Seq<Section>) -> Option<
        StateView,
    > {
        if sections_fit(image.len(), sections) {
            Some(self.set_memory(with_sections(self.memory, image, sections)).set_pc(signed(entry)))
        } else {
            None
        }
    }
}

/// Whether `buffer` starts with the four bytes that mark an ELF file.
pub fn starts_with_elf_magic(buffer: &[u8]) -> (r: bool)
    ensures
        r == has_elf_magic(buffer@),
{
    buffer.len() >= 4 && buffer[0] == 0x7f && buffer[1] == 0x45 && buffer[2] == 0x4c && buffer[3]
        == 0x46
}

impl State {
    /// Loads an image: maps the bytes of each section at its address and
    /// sets the program counter to the entry point. Fails, and changes
    /// nothing, if a section does not lie within `buffer`.
    pub fn load_image(&mut self, buffer: &[u8], image: &ElfImage) -> (r: Result<(), SimError>)
        ensures
            match old(self)@.load_image(buffer@, image.entry, image.sections@) {
                Some(next) => r is Ok && final(self)@ == next,
                None => r matches Err(SimError::ParseError(_)) && final(self)@ == old(self)@,
            },
    {
        let length = buffer.len();
        let count = image.sections.len();
        let mut i: usize = 0;
        while i < count
            invariant
                i <= count,
                count == image.sections@.len(),
                length == buffer@.len(),
                sections_fit(length as nat, image.sections@.take(i as int)),
                *self == *old(self),
            decreases count - i,
        {
            let section = image.sections[i];
            if section.offset > length as u64 || section.size > length as u64 - section.offset {
                proof {
                    assert(!section_fits(length as nat, image.sections@[i as int]));
                }
                return Err(
                    SimError::ParseError("a section lies beyond the end of the image".to_string()),
                );
            }
            i = i + 1;
        }
        assert(image.sections@.take(count as int) =~= image.sections@);
        i = 0;
        while i < count
            invariant
                i <= count,
                count == image.sections@.len(),
                length == buffer@.len(),
                sections_fit(length as nat, image.sections@),
                self@ == old(self)@.set_memory(
                    with_sections(old(self)@.memory, buffer@, image.sections@.take(i as int)),
                ),
            decreases count - i,
        {
            let section = image.sections[i];
            assert(section_fits(length as nat, image.sections@[i as int]));
            let from = section.offset as usize;
            let to = (section.offset + section.size) as usize;
            self.map_bytes(section.addr, slice_subrange(buffer, from, to));
            assert(image.sections@.take(i + 1).drop_last() =~= image.sections@.take(i as int));
            i = i + 1;
        }
        assert(image.sections@.take(count as int) =~= image.sections@);
        self.pc = to_signed(image.entry);
        Ok(())
    }

    /// Loads `buffer` if it is an ELF file. A file of at least 16 bytes that
    /// does not start with the ELF mark is an object of another kind: it is
    /// accepted unread and loads nothing. Fails, and changes nothing, if the
    /// file is shorter than 16 bytes, if the ELF parser rejects it, if a
    /// section does not lie within it, or if the addresses of the host are
    /// not 64 bits wide.
    pub fn load_elf(&mut self, buffer: &[u8]) -> (r: Result<(), SimError>)
        ensures
            match old(self)@.load_elf(buffer@) {
                Some(next) => r is Ok && final(self)@ == next,
                None => r matches Err(SimError::ParseError(_)) && final(self)@ == old(self)@,
            },
    {
        if buffer.len() < 16 {
            return Err(SimError::ParseError("the image is shorter than 16 bytes".to_string()));
        }
        if !starts_with_elf_magic(buffer) {
            return Ok(());
        }
        if usize::BITS != 64 {
            return Err(
                SimError::ParseError("ELF files are parsed on 64-bit hosts only".to_string()),
            );
        }
        match parse_elf(buffer) {
            Ok(image) => self.load_image(buffer, &image),
            Err(e) => Err(SimError::ParseError(describe(&e))),
        }
    }
}

} // verus!
