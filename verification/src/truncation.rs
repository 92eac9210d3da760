//! What cutting an image short can do to a parse.
//!
//! A parse of the first `cut` bytes of an image goes the way of the parse of
//! the whole image until a read reaches past the cut. So it ends as the parse
//! of the whole image ends, or with an error that says that the buffer ended
//! too early; it never ends with another result.

use crate::bytes::{is_zero_filled, le_u32, subslice, u16_at, u32_at, u64_at};
use crate::error::{Context, PeError};
use crate::exports::{exported_name, exported_names, exports};
use crate::imports::{
    hint_name_rva, import_directory, import_directory_location, import_of_entry, imported_name,
    imports, is_ordinal, lookup_table,
};
use crate::walk::followed_by;
use crate::header::{number_of_sections, optional_header, pe_header_offset, pe_part};
use crate::image::image_headers;
use crate::section::{
    lemma_file_offset_bounds, rva_to_file_offset, section_headers, SectionHeader,
};
use crate::strings::{
    is_terminator, lemma_terminator_is_unique, null_terminated_string, terminator,
};
use vstd::prelude::*;

verus! {

/// Whether the result on the shortened image is that on the whole image, or
/// an error of truncation.
pub open spec fn same_or_truncated<T>(short: Result<T, PeError>, whole: Result<T, PeError>) -> bool {
    short == whole || match short {
        Ok(_) => false,
        Err(e) => e.is_truncation(),
    }
}

/// A read of the shortened image gives what the read of the whole image
/// gives, or nothing where it reaches past the cut.
pub proof fn lemma_truncated_subslice(file: Seq<u8>, cut: int, offset: int, len: int)
    requires
        0 <= cut <= file.len(),
    ensures
        subslice(file.take(cut), offset, len) == if offset + len <= cut {
            subslice(file, offset, len)
        } else {
            None
        },
        u16_at(file.take(cut), offset) == if offset + 2 <= cut {
            u16_at(file, offset)
        } else {
            None
        },
        u32_at(file.take(cut), offset) == if offset + 4 <= cut {
            u32_at(file, offset)
        } else {
            None
        },
        u64_at(file.take(cut), offset) == if offset + 8 <= cut {
            u64_at(file, offset)
        } else {
            None
        },
{
    if 0 <= offset && 0 <= len && offset + len <= cut {
        assert(file.take(cut).subrange(offset, offset + len) =~= file.subrange(
            offset,
            offset + len,
        ));
    }
    if 0 <= offset && offset + 2 <= cut {
        assert(file.take(cut).subrange(offset, offset + 2) =~= file.subrange(offset, offset + 2));
    }
    if 0 <= offset && offset + 4 <= cut {
        assert(file.take(cut).subrange(offset, offset + 4) =~= file.subrange(offset, offset + 4));
    }
    if 0 <= offset && offset + 8 <= cut {
        assert(file.take(cut).subrange(offset, offset + 8) =~= file.subrange(offset, offset + 8));
    }
}

/// Wrapping an error in a step does not change whether it is one of truncation.
pub proof fn lemma_wrapped_truncation(e: PeError, context: Context)
    ensures
        e.wrapped(context).is_truncation() == e.is_truncation(),
{
    assert(e.wrapped(context).cause() == e.cause());
}

/// The string at `start` in the shortened image.
pub proof fn lemma_truncated_string(file: Seq<u8>, cut: int, start: int)
    requires
        0 <= cut <= file.len(),
        0 <= start,
    ensures
        same_or_truncated(
            null_terminated_string(file.take(cut), start),
            null_terminated_string(file, start),
        ),
{
    let short = file.take(cut);
    match terminator(short, start) {
        Some(end) => {
            assert(is_terminator(short, start, end));
            assert(is_terminator(file, start, end)) by {
                assert(file[end] == short[end]);
                assert forall|i: int| start <= i < end implies file[i] != 0 by {
                    assert(short[i] == file[i]);
                }
            }
            lemma_terminator_is_unique(file, start, end);
            assert(short.subrange(start, end) =~= file.subrange(start, end));
        },
        None => {},
    }
}

/// The optional header in a shortened PE part.
pub proof fn lemma_truncated_optional_header(pe: Seq<u8>, cut: int)
    requires
        0 <= cut <= pe.len(),
    ensures
        same_or_truncated(optional_header(pe.take(cut)), optional_header(pe)),
{
    let short = pe.take(cut);
    if cut >= 0x18 {
        assert(short.subrange(0x14, 0x16) =~= pe.subrange(0x14, 0x16));
        if cut >= 0x108 {
            assert(short.subrange(0x18, 0x108) =~= pe.subrange(0x18, 0x108));
            assert(short[0x18] == pe[0x18]);
            assert(short[0x19] == pe[0x19]);
        }
    }
}

/// The section table in a shortened PE part that still holds the COFF header.
pub proof fn lemma_truncated_section_headers(pe: Seq<u8>, cut: int)
    requires
        0x18 <= cut <= pe.len(),
    ensures
        number_of_sections(pe.take(cut)) == number_of_sections(pe),
        same_or_truncated(
            section_headers(pe.take(cut), true, number_of_sections(pe)),
            section_headers(pe, true, number_of_sections(pe)),
        ),
{
    let short = pe.take(cut);
    let count = number_of_sections(pe);
    assert(short.subrange(0x06, 0x08) =~= pe.subrange(0x06, 0x08));
    match section_headers(short, true, count) {
        Ok(headers) => {
            assert(section_headers(pe, true, count) is Ok);
            let whole = section_headers(pe, true, count).unwrap();
            assert forall|i: int| 0 <= i < count implies headers[i] == whole[i] by {
                assert(short.subrange(0x108 + 40 * i, 0x108 + 40 * i + 40) =~= pe.subrange(
                    0x108 + 40 * i,
                    0x108 + 40 * i + 40,
                ));
            }
            assert(headers =~= whole);
        },
        Err(_) => {},
    }
}

/// The headers of a shortened image.
pub proof fn lemma_truncated_headers(file: Seq<u8>, cut: int)
    requires
        0 <= cut <= file.len(),
    ensures
        same_or_truncated(image_headers(file.take(cut)), image_headers(file)),
{
    let short = file.take(cut);
    lemma_truncated_subslice(file, cut, 0x3C, 4);
    match pe_part(short) {
        None => {},
        Some(short_pe) => {
            let offset = pe_header_offset(file).unwrap();
            let pe = pe_part(file).unwrap();
            assert(short_pe =~= pe.take(cut - offset));
            lemma_truncated_optional_header(pe, cut - offset);
            match optional_header(short_pe) {
                Err(e) => {
                    lemma_wrapped_truncation(e, Context::OptionalHeader);
                },
                Ok(None) => {},
                Ok(Some(_)) => {
                    lemma_truncated_section_headers(pe, cut - offset);
                    match section_headers(short_pe, true, number_of_sections(pe)) {
                        Err(e) => {
                            lemma_wrapped_truncation(e, Context::SectionHeaders);
                        },
                        Ok(_) => {},
                    }
                },
            }
        },
    }
}

/// What follows the same items is the same, or cut short, as the rest is.
pub proof fn lemma_truncated_rest<T>(
    items: Seq<T>,
    short: Result<Seq<T>, PeError>,
    whole: Result<Seq<T>, PeError>,
)
    requires
        same_or_truncated(short, whole),
    ensures
        same_or_truncated(followed_by(items, short), followed_by(items, whole)),
{
}

/// The name that a lookup entry imports, in a shortened image.
pub proof fn lemma_truncated_imported_name(
    file: Seq<u8>,
    cut: int,
    sections: Seq<SectionHeader>,
    entry: u64,
    index: int,
)
    requires
        0 <= cut <= file.len(),
    ensures
        same_or_truncated(
            imported_name(file.take(cut), sections, entry, index),
            imported_name(file, sections, entry, index),
        ),
{
    match rva_to_file_offset(sections, hint_name_rva(entry)) {
        None => {},
        Some(raw) => {
            lemma_file_offset_bounds(sections, hint_name_rva(entry));
            lemma_truncated_string(file, cut, raw + 2);
            match null_terminated_string(file.take(cut), raw + 2) {
                Ok(_) => {},
                Err(e) => {
                    lemma_wrapped_truncation(e, Context::FunctionName { index: index as usize });
                },
            }
        },
    }
}

/// A lookup table in a shortened image.
pub proof fn lemma_truncated_lookup_table(
    file: Seq<u8>,
    cut: int,
    sections: Seq<SectionHeader>,
    ilt_raw: int,
    index: int,
)
    requires
        0 <= cut <= file.len(),
    ensures
        same_or_truncated(
            lookup_table(file.take(cut), sections, ilt_raw, index),
            lookup_table(file, sections, ilt_raw, index),
        ),
    decreases cut - (ilt_raw + 8 * index),
{
    let short = file.take(cut);
    let offset = ilt_raw + 8 * index;
    lemma_truncated_subslice(file, cut, offset, 8);
    match u64_at(short, offset) {
        None => {},
        Some(entry) => {
            if entry == 0 {
            } else if is_ordinal(entry) {
                lemma_truncated_lookup_table(file, cut, sections, ilt_raw, index + 1);
            } else {
                lemma_truncated_imported_name(file, cut, sections, entry, index);
                match imported_name(short, sections, entry, index) {
                    Err(_) => {},
                    Ok(name) => {
                        lemma_truncated_lookup_table(file, cut, sections, ilt_raw, index + 1);
                        lemma_truncated_rest(
                            seq![name],
                            lookup_table(short, sections, ilt_raw, index + 1),
                            lookup_table(file, sections, ilt_raw, index + 1),
                        );
                    },
                }
            }
        },
    }
}

/// The library of a directory entry, in a shortened image.
pub proof fn lemma_truncated_import_of_entry(
    file: Seq<u8>,
    cut: int,
    sections: Seq<SectionHeader>,
    entry: Seq<u8>,
    index: int,
)
    requires
        0 <= cut <= file.len(),
    ensures
        same_or_truncated(
            import_of_entry(file.take(cut), sections, entry, index),
            import_of_entry(file, sections, entry, index),
        ),
{
    let short = file.take(cut);
    let ilt_rva = le_u32(entry.subrange(0x00, 0x04)) as u32;
    let dll_name_rva = le_u32(entry.subrange(0x0C, 0x10)) as u32;
    let entry_number = index as usize;
    match rva_to_file_offset(sections, dll_name_rva) {
        None => {},
        Some(dll_name_raw) => {
            lemma_file_offset_bounds(sections, dll_name_rva);
            lemma_truncated_string(file, cut, dll_name_raw);
            match null_terminated_string(short, dll_name_raw) {
                Err(e) => {
                    lemma_wrapped_truncation(e, Context::DllName { entry: entry_number });
                },
                Ok(_) => {
                    match rva_to_file_offset(sections, ilt_rva) {
                        None => {},
                        Some(ilt_raw) => {
                            lemma_truncated_lookup_table(file, cut, sections, ilt_raw, 0);
                            match lookup_table(short, sections, ilt_raw, 0) {
                                Err(e) => {
                                    lemma_wrapped_truncation(
                                        e,
                                        Context::ImportLookup { entry: entry_number },
                                    );
                                },
                                Ok(_) => {},
                            }
                        },
                    }
                },
            }
        },
    }
}

/// An import directory table in a shortened image.
pub proof fn lemma_truncated_import_directory(
    file: Seq<u8>,
    cut: int,
    sections: Seq<SectionHeader>,
    idt_raw: int,
    idt_size: int,
    index: int,
)
    requires
        0 <= cut <= file.len(),
    ensures
        same_or_truncated(
            import_directory(file.take(cut), sections, idt_raw, idt_size, index),
            import_directory(file, sections, idt_raw, idt_size, index),
        ),
    decreases cut - (idt_raw + 20 * index),
{
    let short = file.take(cut);
    let offset = idt_raw + 20 * index;
    lemma_truncated_subslice(file, cut, offset, 20);
    if (index + 1) * 20 > idt_size {
    } else {
        match subslice(short, offset, 20) {
            None => {},
            Some(entry) => {
                if is_zero_filled(entry) {
                } else {
                    lemma_truncated_import_of_entry(file, cut, sections, entry, index);
                    match import_of_entry(short, sections, entry, index) {
                        Err(_) => {},
                        Ok(import) => {
                            lemma_truncated_import_directory(
                                file,
                                cut,
                                sections,
                                idt_raw,
                                idt_size,
                                index + 1,
                            );
                            lemma_truncated_rest(
                                seq![import],
                                import_directory(short, sections, idt_raw, idt_size, index + 1),
                                import_directory(file, sections, idt_raw, idt_size, index + 1),
                            );
                        },
                    }
                }
            },
        }
    }
}

/// The imports of the first `cut` bytes of an image are the imports of the
/// image, or an error of truncation.
pub proof fn lemma_truncated_imports(file: Seq<u8>, cut: int)
    requires
        0 <= cut <= file.len(),
    ensures
        same_or_truncated(imports(file.take(cut)), imports(file)),
{
    let short = file.take(cut);
    lemma_truncated_headers(file, cut);
    match import_directory_location(short) {
        Err(_) => {},
        Ok((sections, idt_raw, idt_size)) => {
            lemma_truncated_import_directory(file, cut, sections, idt_raw, idt_size, 0);
            match import_directory(short, sections, idt_raw, idt_size, 0) {
                Err(e) => {
                    lemma_wrapped_truncation(e, Context::ImportDirectory);
                },
                Ok(_) => {},
            }
        },
    }
}

/// The name that a name pointer points to, in a shortened image.
pub proof fn lemma_truncated_exported_name(
    file: Seq<u8>,
    cut: int,
    sections: Seq<SectionHeader>,
    npt_raw: int,
    count: int,
    index: int,
)
    requires
        0 <= cut <= file.len(),
    ensures
        same_or_truncated(
            exported_name(file.take(cut), sections, npt_raw, count, index),
            exported_name(file, sections, npt_raw, count, index),
        ),
{
    let short = file.take(cut);
    lemma_truncated_subslice(file, cut, npt_raw + 4 * index, 4);
    match u32_at(short, npt_raw + 4 * index) {
        None => {},
        Some(rva) => {
            match rva_to_file_offset(sections, rva) {
                None => {},
                Some(raw) => {
                    lemma_file_offset_bounds(sections, rva);
                    lemma_truncated_string(file, cut, raw);
                    match null_terminated_string(short, raw) {
                        Ok(_) => {},
                        Err(e) => {
                            lemma_wrapped_truncation(
                                e,
                                Context::ExportName { index: index as usize },
                            );
                        },
                    }
                },
            }
        },
    }
}

/// The names of a name pointer table in a shortened image.
pub proof fn lemma_truncated_exported_names(
    file: Seq<u8>,
    cut: int,
    sections: Seq<SectionHeader>,
    npt_raw: int,
    count: int,
    index: int,
)
    requires
        0 <= cut <= file.len(),
    ensures
        same_or_truncated(
            exported_names(file.take(cut), sections, npt_raw, count, index),
            exported_names(file, sections, npt_raw, count, index),
        ),
    decreases count - index,
{
    let short = file.take(cut);
    if index >= count {
    } else {
        lemma_truncated_exported_name(file, cut, sections, npt_raw, count, index);
        match exported_name(short, sections, npt_raw, count, index) {
            Err(_) => {},
            Ok(name) => {
                lemma_truncated_exported_names(file, cut, sections, npt_raw, count, index + 1);
                lemma_truncated_rest(
                    seq![name],
                    exported_names(short, sections, npt_raw, count, index + 1),
                    exported_names(file, sections, npt_raw, count, index + 1),
                );
            },
        }
    }
}

/// The exports of the first `cut` bytes of an image are the exports of the
/// image, or an error of truncation.
pub proof fn lemma_truncated_exports(file: Seq<u8>, cut: int)
    requires
        0 <= cut <= file.len(),
    ensures
        same_or_truncated(exports(file.take(cut)), exports(file)),
{
    let short = file.take(cut);
    lemma_truncated_headers(file, cut);
    match image_headers(short) {
        Err(_) => {},
        Ok((header, sections)) => {
            let edt_rva = le_u32(header.subrange(0x70, 0x74)) as u32;
            match rva_to_file_offset(sections, edt_rva) {
                None => {},
                Some(edt_raw) => {
                    lemma_truncated_subslice(file, cut, edt_raw, 40);
                    match subslice(short, edt_raw, 40) {
                        None => {},
                        Some(edt) => {
                            let count = le_u32(edt.subrange(24, 28));
                            let npt_rva = le_u32(edt.subrange(32, 36)) as u32;
                            match rva_to_file_offset(sections, npt_rva) {
                                None => {},
                                Some(npt_raw) => {
                                    lemma_truncated_exported_names(
                                        file,
                                        cut,
                                        sections,
                                        npt_raw,
                                        count,
                                        0,
                                    );
                                },
                            }
                        },
                    }
                },
            }
        },
    }
}

} // verus!
