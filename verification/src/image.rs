//! The headers that every table walk starts from: the optional header, which
//! holds the data directories, and the section table, which translates the
//! addresses found in them.

use crate::bytes::get_u16;
use crate::error::{Context, PeError};
use crate::header::{
    get_optional_header, number_of_sections, optional_header, pe_part, strip_pe,
    NUMBER_OF_SECTIONS_OFFSET,
};
use crate::section::{get_section_headers, section_headers, SectionHeader};
use vstd::prelude::*;

verus! {

/// The optional header and the section headers of an image.
pub open spec fn image_headers(file: Seq<u8>) -> Result<(Seq<u8>, Seq<SectionHeader>), PeError> {
    match pe_part(file) {
        None => Err(PeError::TooShortForHeaderPointer { file_len: file.len() as usize }),
        Some(pe) => match optional_header(pe) {
            Err(e) => Err(e.wrapped(Context::OptionalHeader)),
            Ok(None) => Err(PeError::MissingOptionalHeader),
            Ok(Some(header)) => match section_headers(pe, true, number_of_sections(pe)) {
                Err(e) => Err(e.wrapped(Context::SectionHeaders)),
                Ok(sections) => Ok((header, sections)),
            },
        },
    }
}

/// Borrows the optional header of an image and reads its section table.
pub fn get_headers(file: &[u8]) -> (r: Result<(&[u8; 240], Vec<SectionHeader>), PeError>)
    ensures
        match r {
            Ok((header, sections)) => image_headers(file@) == Ok::<
                (Seq<u8>, Seq<SectionHeader>),
                PeError,
            >((header@, sections@)),
            Err(e) => image_headers(file@) == Err::<(Seq<u8>, Seq<SectionHeader>), PeError>(e),
        },
{
    let pe = match strip_pe(file) {
        Some(pe) => pe,
        None => {
            return Err(PeError::TooShortForHeaderPointer { file_len: file.len() });
        },
    };
    let optional_header = match get_optional_header(pe) {
        Ok(Some(optional_header)) => optional_header,
        Ok(None) => {
            return Err(PeError::MissingOptionalHeader);
        },
        Err(e) => {
            return Err(e.within(Context::OptionalHeader));
        },
    };
    let count = get_u16(pe, NUMBER_OF_SECTIONS_OFFSET).unwrap();
    match get_section_headers(pe, true, count as usize) {
        Ok(section_headers) => Ok((optional_header, section_headers)),
        Err(e) => Err(e.within(Context::SectionHeaders)),
    }
}

} // verus!
