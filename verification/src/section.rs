//! The section table, and the translation of relative virtual addresses
//! into file offsets that it allows.

use crate::bytes::{get_fixed_subslice, get_u16, get_u32, le_u16, le_u32, subslice};
use crate::error::PeError;
use crate::header::{COFF_HEADER_SIZE, OPTIONAL_HEADER_SIZE};
use vstd::prelude::*;
use vstd::std_specs::convert::FromSpecImpl;

verus! {

/// The size of one record of the section table.
pub const SECTION_HEADER_SIZE: usize = 40;

/// One record of the section table.
#[derive(Copy, Clone, Debug, PartialEq, Eq)]
pub struct SectionHeader {
    pub name: [u8; 8],
    pub virtual_size: u32,
    pub virtual_address: u32,
    pub size_of_raw_data: u32,
    pub pointer_to_raw_data: u32,
    pub pointer_to_relocations: u32,
    pub pointer_to_linenumbers: u32,
    pub number_of_relocations: u16,
    pub number_of_linenumbers: u16,
    pub characteristics: u32,
}

/// The section header that 40 bytes spell.
pub open spec fn section_header(raw: Seq<u8>) -> SectionHeader
    recommends
        raw.len() == 40,
{
    SectionHeader {
        name: [raw[0], raw[1], raw[2], raw[3], raw[4], raw[5], raw[6], raw[7]],
        virtual_size: le_u32(raw.subrange(0x08, 0x0C)) as u32,
        virtual_address: le_u32(raw.subrange(0x0C, 0x10)) as u32,
        size_of_raw_data: le_u32(raw.subrange(0x10, 0x14)) as u32,
        pointer_to_raw_data: le_u32(raw.subrange(0x14, 0x18)) as u32,
        pointer_to_relocations: le_u32(raw.subrange(0x18, 0x1C)) as u32,
        pointer_to_linenumbers: le_u32(raw.subrange(0x1C, 0x20)) as u32,
        number_of_relocations: le_u16(raw.subrange(0x20, 0x22)) as u16,
        number_of_linenumbers: le_u16(raw.subrange(0x22, 0x24)) as u16,
        characteristics: le_u32(raw.subrange(0x24, 0x28)) as u32,
    }
}

impl SectionHeader {
    /// Whether `rva` lies in the virtual range of this section.
    pub open spec fn contains(self, rva: u32) -> bool {
        self.virtual_address <= rva < self.virtual_address + self.virtual_size
    }

    /// The file offset of `rva`, taken as an address inside this section.
    pub open spec fn file_offset_of(self, rva: u32) -> int {
        self.pointer_to_raw_data + (rva - self.virtual_address)
    }
}

impl<'a> From<&'a [u8; 40]> for SectionHeader {
    fn from(raw: &'a [u8; 40]) -> (r: Self) {
        SectionHeader {
            name: [raw[0], raw[1], raw[2], raw[3], raw[4], raw[5], raw[6], raw[7]],
            virtual_size: get_u32(raw, 0x08).unwrap(),
            virtual_address: get_u32(raw, 0x0C).unwrap(),
            size_of_raw_data: get_u32(raw, 0x10).unwrap(),
            pointer_to_raw_data: get_u32(raw, 0x14).unwrap(),
            pointer_to_relocations: get_u32(raw, 0x18).unwrap(),
            pointer_to_linenumbers: get_u32(raw, 0x1C).unwrap(),
            number_of_relocations: get_u16(raw, 0x20).unwrap(),
            number_of_linenumbers: get_u16(raw, 0x22).unwrap(),
            characteristics: get_u32(raw, 0x24).unwrap(),
        }
    }
}

impl<'a> FromSpecImpl<&'a [u8; 40]> for SectionHeader {
    open spec fn obeys_from_spec() -> bool {
        true
    }

    open spec fn from_spec(raw: &'a [u8; 40]) -> Self {
        section_header(raw@)
    }
}

/// Where the section table starts in a PE part.
pub open spec fn section_table_offset(contains_optional_header: bool) -> int {
    if contains_optional_header {
        0x108
    } else {
        0x18
    }
}

/// How many whole section headers a PE part has room for.
pub open spec fn available_sections(pe: Seq<u8>, contains_optional_header: bool) -> int {
    let base = section_table_offset(contains_optional_header);
    if pe.len() >= base {
        (pe.len() - base) / 40
    } else {
        0
    }
}

/// What `get_section_headers` reads from a PE part.
pub open spec fn section_headers(
    pe: Seq<u8>,
    contains_optional_header: bool,
    count: int,
) -> Result<Seq<SectionHeader>, PeError> {
    let base = section_table_offset(contains_optional_header);
    let available = available_sections(pe, contains_optional_header);
    if count <= available {
        Ok(
            Seq::new(
                count as nat,
                |i: int| section_header(pe.subrange(base + 40 * i, base + 40 * i + 40)),
            ),
        )
    } else {
        Err(PeError::TruncatedSectionTable { expected: count as usize, available: available as usize })
    }
}

/// Whether section `i` is the first one whose virtual range holds `rva`.
pub open spec fn is_first_section_with(sections: Seq<SectionHeader>, rva: u32, i: int) -> bool {
    &&& 0 <= i < sections.len()
    &&& sections[i].contains(rva)
    &&& forall|j: int| 0 <= j < i ==> !(#[trigger] sections[j]).contains(rva)
}

/// The file offset of `rva`: that which the first section holding `rva`
/// gives it, if there is one.
pub open spec fn rva_to_file_offset(sections: Seq<SectionHeader>, rva: u32) -> Option<int> {
    if exists|i: int| is_first_section_with(sections, rva, i) {
        let i = choose|i: int| is_first_section_with(sections, rva, i);
        Some(sections[i].file_offset_of(rva))
    } else {
        None
    }
}

/// Reads the `number_of_sections` records of the section table, which
/// follows the COFF header and the optional header, if there is one.
pub fn get_section_headers(
    pe: &[u8],
    contains_optional_header: bool,
    number_of_sections: usize,
) -> (r: Result<Vec<SectionHeader>, PeError>)
    ensures
        match r {
            Ok(headers) => section_headers(pe@, contains_optional_header, number_of_sections as int)
                == Ok::<Seq<SectionHeader>, PeError>(headers@),
            Err(e) => section_headers(pe@, contains_optional_header, number_of_sections as int)
                == Err::<Seq<SectionHeader>, PeError>(e),
        },
{
    let base: usize = COFF_HEADER_SIZE + if contains_optional_header {
        OPTIONAL_HEADER_SIZE
    } else {
        0
    };
    let mut result: Vec<SectionHeader> = Vec::new();
    let mut section_number: usize = 0;
    let mut offset: u64 = base as u64;
    while section_number < number_of_sections
        invariant
            base == section_table_offset(contains_optional_header),
            section_number <= number_of_sections,
            offset == base + 40 * section_number,
            section_number > 0 ==> offset <= pe@.len(),
            result@.len() == section_number,
            forall|i: int|
                0 <= i < section_number ==> result@[i] == section_header(
                    pe@.subrange(base + 40 * i, base + 40 * i + 40),
                ),
        decreases number_of_sections - section_number,
    {
        match get_fixed_subslice::<SECTION_HEADER_SIZE>(pe, offset) {
            Some(raw) => {
                assert(offset + 40 <= pe.len()) by {
                    assert(subslice(pe@, offset as int, 40) is Some);
                }
                result.push(SectionHeader::from(raw));
                section_number += 1;
                offset += SECTION_HEADER_SIZE as u64;
            },
            None => {
                return Err(
                    PeError::TruncatedSectionTable {
                        expected: number_of_sections,
                        available: section_number,
                    },
                );
            },
        }
    }
    assert(result@ =~= section_headers(
        pe@,
        contains_optional_header,
        number_of_sections as int,
    ).unwrap());
    Ok(result)
}

/// Translates a relative virtual address into a file offset.
///
/// The sections are tried in table order and the first whose virtual range
/// holds `rva` decides. The offset is not held against the length of the
/// file: a section's raw data may be shorter than its virtual range, so
/// whoever reads at the offset checks it again.
pub fn rva_to_raw(section_headers: &[SectionHeader], rva: u32) -> (r: Result<u64, PeError>)
    ensures
        match r {
            Ok(raw) => rva_to_file_offset(section_headers@, rva) == Some(raw as int),
            Err(e) => rva_to_file_offset(section_headers@, rva) is None && e
                == (PeError::RvaNotInAnySection { rva }),
        },
{
    let mut i: usize = 0;
    while i < section_headers.len()
        invariant
            i <= section_headers@.len(),
            forall|j: int| 0 <= j < i ==> !(#[trigger] section_headers@[j]).contains(rva),
        decreases section_headers@.len() - i,
    {
        let section_header = &section_headers[i];
        if section_header.virtual_address <= rva && rva - section_header.virtual_address
            < section_header.virtual_size {
            assert(is_first_section_with(section_headers@, rva, i as int));
            return Ok(
                section_header.pointer_to_raw_data as u64 + (rva
                    - section_header.virtual_address) as u64,
            );
        }
        i += 1;
    }
    Err(PeError::RvaNotInAnySection { rva })
}

/// The first section that holds an address decides its file offset.
pub proof fn lemma_first_section_decides(sections: Seq<SectionHeader>, rva: u32, i: int)
    requires
        is_first_section_with(sections, rva, i),
    ensures
        rva_to_file_offset(sections, rva) == Some(sections[i].file_offset_of(rva)),
{
    let chosen = choose|j: int| is_first_section_with(sections, rva, j);
    assert(is_first_section_with(sections, rva, chosen));
    if chosen < i {
        assert(!sections[chosen].contains(rva));
    } else if i < chosen {
        assert(!sections[i].contains(rva));
    }
}

/// A file offset is the sum of two 32-bit numbers.
pub proof fn lemma_file_offset_bounds(sections: Seq<SectionHeader>, rva: u32)
    ensures
        match rva_to_file_offset(sections, rva) {
            Some(raw) => 0 <= raw <= 0x1_FFFF_FFFE,
            None => true,
        },
{
}

/// An address that no section holds has no file offset.
pub proof fn lemma_no_section_no_offset(sections: Seq<SectionHeader>, rva: u32)
    requires
        forall|j: int| 0 <= j < sections.len() ==> !(#[trigger] sections[j]).contains(rva),
    ensures
        rva_to_file_offset(sections, rva) is None,
{
}

/// The address at which a section starts translates to the offset at which
/// its raw data starts, if the section is not empty and no earlier section
/// holds that address.
pub proof fn lemma_section_start_maps_to_raw_start(sections: Seq<SectionHeader>, i: int)
    requires
        0 <= i < sections.len(),
        sections[i].virtual_size > 0,
        forall|j: int|
            0 <= j < i ==> !(#[trigger] sections[j]).contains(sections[i].virtual_address),
    ensures
        rva_to_file_offset(sections, sections[i].virtual_address) == Some(
            sections[i].pointer_to_raw_data as int,
        ),
{
    lemma_first_section_decides(sections, sections[i].virtual_address, i);
}

/// The address one past the last of a section is not translated by that
/// section: the first other section that holds it decides, and where there
/// is none the address has no file offset.
pub proof fn lemma_section_end_falls_through(sections: Seq<SectionHeader>, i: int, rva: u32)
    requires
        0 <= i < sections.len(),
        rva == sections[i].virtual_address + sections[i].virtual_size,
    ensures
        !sections[i].contains(rva),
        match rva_to_file_offset(sections, rva) {
            Some(offset) => exists|j: int|
                j != i && is_first_section_with(sections, rva, j) && offset
                    == sections[j].file_offset_of(rva),
            None => forall|j: int|
                0 <= j < sections.len() ==> !(#[trigger] sections[j]).contains(rva),
        },
{
    if exists|j: int| is_first_section_with(sections, rva, j) {
        let j = choose|j: int| is_first_section_with(sections, rva, j);
        assert(j != i && is_first_section_with(sections, rva, j));
    } else {
        assert forall|j: int| 0 <= j < sections.len() implies !(#[trigger] sections[j]).contains(
            rva,
        ) by {
            if sections[j].contains(rva) {
                lemma_some_section_is_first(sections, rva, j);
            }
        }
    }
}

/// Among the sections up to one that holds an address, one is the first to hold it.
proof fn lemma_some_section_is_first(sections: Seq<SectionHeader>, rva: u32, i: int)
    requires
        0 <= i < sections.len(),
        sections[i].contains(rva),
    ensures
        exists|j: int| is_first_section_with(sections, rva, j),
    decreases i,
{
    if exists|k: int| 0 <= k < i && (#[trigger] sections[k]).contains(rva) {
        let k = choose|k: int| 0 <= k < i && (#[trigger] sections[k]).contains(rva);
        lemma_some_section_is_first(sections, rva, k);
    } else {
        assert(is_first_section_with(sections, rva, i));
    }
}

} // verus!
