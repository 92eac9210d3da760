//! Finding the PE signature, the COFF header and the optional header.

use crate::bytes::{get_fixed_subslice, get_subslice, get_u16, get_u32, le_u16, subslice, u32_at};
use crate::error::{PeError, Record};
use vstd::prelude::*;

verus! {

/// Where the file header keeps the offset of the PE part.
pub const PE_POINTER_OFFSET: u64 = 0x3C;

/// The size of the COFF header, signature included.
pub const COFF_HEADER_SIZE: usize = 0x18;

/// The size of the optional header of a PE32+ image.
pub const OPTIONAL_HEADER_SIZE: usize = 0xF0;

/// Where the COFF header keeps the number of sections.
pub const NUMBER_OF_SECTIONS_OFFSET: u64 = 0x06;

/// Where the COFF header keeps the size of the optional header.
pub const SIZE_OF_OPTIONAL_HEADER_OFFSET: u64 = 0x14;

/// The offset of the PE part: the `u32` at 0x3C, where the image has one and
/// it does not point past the image's end.
pub open spec fn pe_header_offset(image: Seq<u8>) -> Option<int> {
    match u32_at(image, 0x3C) {
        Some(pointer) => if pointer <= image.len() {
            Some(pointer as int)
        } else {
            None
        },
        None => None,
    }
}

/// The PE part of an image: everything from the offset that 0x3C points to.
pub open spec fn pe_part(image: Seq<u8>) -> Option<Seq<u8>> {
    match pe_header_offset(image) {
        Some(offset) => Some(image.subrange(offset, image.len() as int)),
        None => None,
    }
}

/// The bytes `P E 0 0`.
pub open spec fn pe_signature() -> Seq<u8> {
    seq![0x50u8, 0x45u8, 0u8, 0u8]
}

/// Whether an image has a PE part that starts with the PE signature.
pub open spec fn is_pe_image(image: Seq<u8>) -> bool {
    match pe_part(image) {
        Some(pe) => subslice(pe, 0, 4) == Some(pe_signature()),
        None => false,
    }
}

/// What `get_optional_header` finds in a PE part.
pub open spec fn optional_header(pe: Seq<u8>) -> Result<Option<Seq<u8>>, PeError> {
    if pe.len() < 0x18 {
        Err(PeError::UnexpectedEof { record: Record::CoffHeader, offset: 0, file_len: pe.len() as usize })
    } else {
        let size = le_u16(pe.subrange(0x14, 0x16));
        if size == 0 {
            Ok(None)
        } else if size == 0xF0 {
            if pe.len() < 0x108 {
                Err(PeError::OptionalHeaderTooShort { available: (pe.len() - 0x18) as usize })
            } else if pe[0x18] != 0x0B || pe[0x19] != 0x02 {
                Err(PeError::NotPe32Plus)
            } else {
                Ok(Some(pe.subrange(0x18, 0x108)))
            }
        } else {
            Err(PeError::UnexpectedOptionalHeaderSize { size: size as u16 })
        }
    }
}

/// The number of sections that the COFF header of a PE part announces.
pub open spec fn number_of_sections(pe: Seq<u8>) -> int
    recommends
        pe.len() >= 0x18,
{
    le_u16(pe.subrange(0x06, 0x08))
}

/// Borrows the PE part of an image, or nothing where the image is shorter
/// than 0x40 bytes or the pointer at 0x3C exceeds its length.
pub fn strip_pe(data: &[u8]) -> (r: Option<&[u8]>)
    ensures
        match r {
            Some(pe) => pe_part(data@) == Some(pe@),
            None => pe_part(data@) is None,
        },
{
    match get_u32(data, PE_POINTER_OFFSET) {
        Some(pe_start) => {
            if pe_start as u64 <= data.len() as u64 {
                get_subslice(data, pe_start as u64, data.len() - pe_start as usize)
            } else {
                None
            }
        },
        None => None,
    }
}

/// Tells whether the PE part of `file` starts with `P E 0 0`. Nothing else
/// is checked: such a file can still fail to parse.
pub fn is_pe(file: &[u8]) -> (r: bool)
    ensures
        r == is_pe_image(file@),
{
    match strip_pe(file) {
        Some(pe) => match get_subslice(pe, 0, 4) {
            Some(signature) => {
                let found = signature[0] == 0x50 && signature[1] == 0x45 && signature[2] == 0
                    && signature[3] == 0;
                proof {
                    if found {
                        assert(signature@ =~= pe_signature());
                    }
                }
                found
            },
            None => false,
        },
        None => false,
    }
}

/// Like `is_pe`, for callers that cannot go on with anything but a PE image:
/// the error says whether the pointer or the signature was missing.
pub fn require_pe(file: &[u8]) -> (r: Result<(), PeError>)
    ensures
        r is Ok <==> is_pe_image(file@),
        r is Err ==> r == Err::<(), PeError>(
            match pe_header_offset(file@) {
                Some(offset) => PeError::NotAPeImage { offset: offset as u64 },
                None => PeError::TooShortForHeaderPointer { file_len: file@.len() as usize },
            },
        ),
{
    match strip_pe(file) {
        Some(pe) => {
            if is_pe(file) {
                Ok(())
            } else {
                Err(PeError::NotAPeImage { offset: (file.len() - pe.len()) as u64 })
            }
        },
        None => Err(PeError::TooShortForHeaderPointer { file_len: file.len() }),
    }
}

/// Borrows the optional header of a PE part.
///
/// A COFF header that announces no optional header gives `Ok(None)`, as
/// object files do. One that announces 240 bytes gives those bytes, if they
/// are all there and start with the magic number of PE32+. Any other size is
/// an error: 32-bit images are refused, not misread.
pub fn get_optional_header(pe: &[u8]) -> (r: Result<Option<&[u8; 240]>, PeError>)
    ensures
        match r {
            Ok(Some(header)) => optional_header(pe@) == Ok::<Option<Seq<u8>>, PeError>(
                Some(header@),
            ),
            Ok(None) => optional_header(pe@) == Ok::<Option<Seq<u8>>, PeError>(None),
            Err(e) => optional_header(pe@) == Err::<Option<Seq<u8>>, PeError>(e),
        },
{
    let coff_header = match get_fixed_subslice::<COFF_HEADER_SIZE>(pe, 0) {
        Some(coff_header) => coff_header,
        None => {
            return Err(
                PeError::UnexpectedEof { record: Record::CoffHeader, offset: 0, file_len: pe.len() },
            );
        },
    };
    let size_of_optional_header = get_u16(coff_header, SIZE_OF_OPTIONAL_HEADER_OFFSET).unwrap();
    assert(coff_header@.subrange(0x14, 0x16) =~= pe@.subrange(0x14, 0x16));
    if size_of_optional_header == 0 {
        Ok(None)
    } else if size_of_optional_header == 0xF0 {
        match get_fixed_subslice::<OPTIONAL_HEADER_SIZE>(pe, COFF_HEADER_SIZE as u64) {
            Some(optional_header) => {
                if optional_header[0] == 0x0B && optional_header[1] == 0x02 {
                    Ok(Some(optional_header))
                } else {
                    Err(PeError::NotPe32Plus)
                }
            },
            None => Err(PeError::OptionalHeaderTooShort { available: pe.len() - COFF_HEADER_SIZE }),
        }
    } else {
        Err(PeError::UnexpectedOptionalHeaderSize { size: size_of_optional_header })
    }
}

/// An image shorter than 0x40 bytes is no PE image.
pub proof fn lemma_short_image_is_not_pe(image: Seq<u8>)
    requires
        image.len() < 0x40,
    ensures
        !is_pe_image(image),
{
}

/// An image whose four bytes at the offset that 0x3C points to are not
/// `P E 0 0`, or are not all there, is no PE image.
pub proof fn lemma_wrong_signature_is_not_pe(image: Seq<u8>, offset: int)
    requires
        pe_header_offset(image) == Some(offset),
        subslice(image, offset, 4) != Some(pe_signature()),
    ensures
        !is_pe_image(image),
{
    let pe = image.subrange(offset, image.len() as int);
    if subslice(pe, 0, 4) == Some(pe_signature()) {
        assert(pe.subrange(0, 4) =~= image.subrange(offset, offset + 4));
    }
}

} // verus!
