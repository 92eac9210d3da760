//! The import tables: which functions an image takes from which libraries.
//!
//! The import directory table has one 20-byte entry per library and ends
//! with an entry of zeros. Each entry points to the library's name and to an
//! import lookup table: 8-byte entries, closed by a zero entry, that either
//! import by ordinal or point to a hint and a name.

use crate::bytes::{
    all_zero, get_subslice, get_u32, get_u64, is_zero_filled, le_u32, subslice, u64_at,
};
use crate::error::{Context, PeError, Record};
use crate::image::{get_headers, image_headers};
use crate::section::{rva_to_file_offset, rva_to_raw, SectionHeader};
use crate::walk::{
    followed_by, lemma_followed_by_nothing, lemma_followed_by_push, lemma_nothing_gathered,
};
use crate::strings::{null_terminated_string, read_null_terminated_string};
use vstd::prelude::*;

verus! {

/// The size of one entry of the import directory table.
pub const IDT_ENTRY_SIZE: usize = 20;

/// The size of one entry of the import lookup table of a PE32+ image.
pub const ILT_ENTRY_SIZE: usize = 8;

/// Where the optional header keeps the address of the import directory table.
pub const IMPORT_TABLE_RVA_OFFSET: u64 = 0x78;

/// Where the optional header keeps the size of the import directory table.
pub const IMPORT_TABLE_SIZE_OFFSET: u64 = 0x7C;

/// The smallest lookup entry with bit 63 set.
pub const ORDINAL_FLAG: u64 = 0x8000_0000_0000_0000;

/// A library and the functions imported from it by name.
pub type Import = (Seq<char>, Seq<Seq<char>>);

/// Whether a lookup entry imports by ordinal: bit 63 is set.
pub open spec fn is_ordinal(entry: u64) -> bool {
    entry >= 0x8000_0000_0000_0000
}

/// The address of the hint and name of a lookup entry: its low 32 bits.
pub open spec fn hint_name_rva(entry: u64) -> u32 {
    (entry % 0x1_0000_0000) as u32
}

/// The name that lookup entry `index`, which is `entry`, imports.
pub open spec fn imported_name(
    file: Seq<u8>,
    sections: Seq<SectionHeader>,
    entry: u64,
    index: int,
) -> Result<Seq<char>, PeError> {
    let rva = hint_name_rva(entry);
    match rva_to_file_offset(sections, rva) {
        None => Err(
            (PeError::RvaNotInAnySection { rva }).wrapped(
                Context::FunctionNameRva { index: index as usize },
            ),
        ),
        Some(raw) => match null_terminated_string(file, raw + 2) {
            Ok(name) => Ok(name),
            Err(e) => Err(e.wrapped(Context::FunctionName { index: index as usize })),
        },
    }
}

/// The names imported by the lookup table at `ilt_raw`, from entry `index` on.
pub open spec fn lookup_table(
    file: Seq<u8>,
    sections: Seq<SectionHeader>,
    ilt_raw: int,
    index: int,
) -> Result<Seq<Seq<char>>, PeError>
    decreases file.len() - (ilt_raw + 8 * index),
{
    let offset = ilt_raw + 8 * index;
    match u64_at(file, offset) {
        None => Err(
            PeError::UnterminatedImportLookupTable {
                entry: index as usize,
                offset: offset as u64,
                file_len: file.len() as usize,
            },
        ),
        Some(entry) => if entry == 0 {
            Ok(Seq::empty())
        } else if is_ordinal(entry) {
            lookup_table(file, sections, ilt_raw, index + 1)
        } else {
            match imported_name(file, sections, entry, index) {
                Err(e) => Err(e),
                Ok(name) => followed_by(seq![name], lookup_table(file, sections, ilt_raw, index + 1)),
            }
        },
    }
}

/// The library that the directory entry `index`, which is `entry`, describes.
pub open spec fn import_of_entry(
    file: Seq<u8>,
    sections: Seq<SectionHeader>,
    entry: Seq<u8>,
    index: int,
) -> Result<Import, PeError> {
    let ilt_rva = le_u32(entry.subrange(0x00, 0x04)) as u32;
    let dll_name_rva = le_u32(entry.subrange(0x0C, 0x10)) as u32;
    let entry_number = index as usize;
    match rva_to_file_offset(sections, dll_name_rva) {
        None => Err(
            (PeError::RvaNotInAnySection { rva: dll_name_rva }).wrapped(
                Context::DllNameRva { entry: entry_number },
            ),
        ),
        Some(dll_name_raw) => match null_terminated_string(file, dll_name_raw) {
            Err(e) => Err(e.wrapped(Context::DllName { entry: entry_number })),
            Ok(dll_name) => match rva_to_file_offset(sections, ilt_rva) {
                None => Err(
                    (PeError::RvaNotInAnySection { rva: ilt_rva }).wrapped(
                        Context::ImportLookupRva { entry: entry_number },
                    ),
                ),
                Some(ilt_raw) => match lookup_table(file, sections, ilt_raw, 0) {
                    Err(e) => Err(e.wrapped(Context::ImportLookup { entry: entry_number })),
                    Ok(functions) => Ok((dll_name, functions)),
                },
            },
        },
    }
}

/// The libraries of the import directory table at `idt_raw`, from entry
/// `index` on. The table may not be read past its `idt_size` bytes.
pub open spec fn import_directory(
    file: Seq<u8>,
    sections: Seq<SectionHeader>,
    idt_raw: int,
    idt_size: int,
    index: int,
) -> Result<Seq<Import>, PeError>
    decreases file.len() - (idt_raw + 20 * index),
{
    let offset = idt_raw + 20 * index;
    if (index + 1) * 20 > idt_size {
        Err(
            PeError::ImportDirectoryTableOverrun {
                entry: index as usize,
                table_size: idt_size as usize,
            },
        )
    } else {
        match subslice(file, offset, 20) {
            None => Err(
                PeError::UnexpectedEof {
                    record: Record::ImportDirectoryEntry { index: index as usize },
                    offset: offset as u64,
                    file_len: file.len() as usize,
                },
            ),
            Some(entry) => if is_zero_filled(entry) {
                Ok(Seq::empty())
            } else {
                match import_of_entry(file, sections, entry, index) {
                    Err(e) => Err(e),
                    Ok(import) => followed_by(
                        seq![import],
                        import_directory(file, sections, idt_raw, idt_size, index + 1),
                    ),
                }
            },
        }
    }
}

/// Where the import directory table of an image lies: the sections that
/// translate its addresses, its file offset and its size in bytes.
pub open spec fn import_directory_location(file: Seq<u8>) -> Result<
    (Seq<SectionHeader>, int, int),
    PeError,
> {
    match image_headers(file) {
        Err(e) => Err(e),
        Ok((header, sections)) => {
            let idt_rva = le_u32(header.subrange(0x78, 0x7C)) as u32;
            let idt_size = le_u32(header.subrange(0x7C, 0x80));
            match rva_to_file_offset(sections, idt_rva) {
                None => Err(
                    (PeError::RvaNotInAnySection { rva: idt_rva }).wrapped(
                        Context::ImportDirectoryRva,
                    ),
                ),
                Some(idt_raw) => Ok((sections, idt_raw, idt_size)),
            }
        },
    }
}

/// The libraries and functions that an image imports by name.
pub open spec fn imports(file: Seq<u8>) -> Result<Seq<Import>, PeError> {
    match import_directory_location(file) {
        Err(e) => Err(e),
        Ok((sections, idt_raw, idt_size)) => match import_directory(
            file,
            sections,
            idt_raw,
            idt_size,
            0,
        ) {
            Err(e) => Err(e.wrapped(Context::ImportDirectory)),
            Ok(found) => Ok(found),
        },
    }
}

/// Walks the import lookup table at `ilt_raw` up to its zero entry and reads
/// the name of every entry that does not import by ordinal.
pub fn parse_ilt(file: &[u8], section_headers: &[SectionHeader], ilt_raw: u64) -> (r: Result<
    Vec<String>,
    PeError,
>)
    ensures
        match r {
            Ok(names) => lookup_table(file@, section_headers@, ilt_raw as int, 0) == Ok::<
                Seq<Seq<char>>,
                PeError,
            >(names.deep_view()),
            Err(e) => lookup_table(file@, section_headers@, ilt_raw as int, 0) == Err::<
                Seq<Seq<char>>,
                PeError,
            >(e),
        },
{
    let mut result: Vec<String> = Vec::new();
    let mut ilt_entry_number: usize = 0;
    let mut offset: u64 = ilt_raw;
    proof {
        assert(result.deep_view() =~= Seq::<Seq<char>>::empty());
        lemma_nothing_gathered(lookup_table(file@, section_headers@, ilt_raw as int, 0));
    }
    loop
        invariant
            offset == ilt_raw + 8 * ilt_entry_number,
            ilt_entry_number > 0 ==> offset <= file@.len(),
            lookup_table(file@, section_headers@, ilt_raw as int, 0) == followed_by(
                result.deep_view(),
                lookup_table(file@, section_headers@, ilt_raw as int, ilt_entry_number as int),
            ),
        decreases file@.len() + 8 - offset,
    {
        let ilt_entry = match get_u64(file, offset) {
            Some(ilt_entry) => ilt_entry,
            None => {
                return Err(
                    PeError::UnterminatedImportLookupTable {
                        entry: ilt_entry_number,
                        offset,
                        file_len: file.len(),
                    },
                );
            },
        };
        assert(offset + 8 <= file.len());
        if ilt_entry == 0 {
            proof {
                lemma_followed_by_nothing(result.deep_view());
            }
            return Ok(result);
        }
        if ilt_entry < ORDINAL_FLAG {
            let function_name_rva = (ilt_entry % 0x1_0000_0000) as u32;
            let function_name_raw = match rva_to_raw(section_headers, function_name_rva) {
                Ok(function_name_raw) => function_name_raw,
                Err(e) => {
                    return Err(e.within(Context::FunctionNameRva { index: ilt_entry_number }));
                },
            };
            let function_name = match read_null_terminated_string(file, function_name_raw + 2) {
                Ok(function_name) => function_name,
                Err(e) => {
                    return Err(e.within(Context::FunctionName { index: ilt_entry_number }));
                },
            };
            let ghost gathered = result.deep_view();
            let ghost name = function_name@;
            result.push(function_name);
            proof {
                assert(result.deep_view() =~= gathered.push(name));
                lemma_followed_by_push(
                    gathered,
                    name,
                    lookup_table(
                        file@,
                        section_headers@,
                        ilt_raw as int,
                        ilt_entry_number as int + 1,
                    ),
                );
            }
        }
        ilt_entry_number += 1;
        offset += ILT_ENTRY_SIZE as u64;
    }
}

/// Walks the import directory table at `idt_raw` up to its entry of zeros,
/// and reads the name and the lookup table of every entry before it.
///
/// No entry is read that would end past the `idt_size` bytes of the table.
pub fn parse_idt(
    file: &[u8],
    section_headers: &[SectionHeader],
    idt_raw: u64,
    idt_size: usize,
) -> (r: Result<Vec<(String, Vec<String>)>, PeError>)
    ensures
        match r {
            Ok(found) => import_directory(
                file@,
                section_headers@,
                idt_raw as int,
                idt_size as int,
                0,
            ) == Ok::<Seq<Import>, PeError>(found.deep_view()),
            Err(e) => import_directory(file@, section_headers@, idt_raw as int, idt_size as int, 0)
                == Err::<Seq<Import>, PeError>(e),
        },
{
    let mut result: Vec<(String, Vec<String>)> = Vec::new();
    let mut idt_entry_number: usize = 0;
    let mut offset: u64 = idt_raw;
    let mut remaining: usize = idt_size;
    proof {
        assert(result.deep_view() =~= Seq::<Import>::empty());
        lemma_nothing_gathered(
            import_directory(file@, section_headers@, idt_raw as int, idt_size as int, 0),
        );
    }
    loop
        invariant
            offset == idt_raw + 20 * idt_entry_number,
            remaining == idt_size - 20 * idt_entry_number,
            idt_entry_number > 0 ==> offset <= file@.len(),
            import_directory(file@, section_headers@, idt_raw as int, idt_size as int, 0)
                == followed_by(
                result.deep_view(),
                import_directory(
                    file@,
                    section_headers@,
                    idt_raw as int,
                    idt_size as int,
                    idt_entry_number as int,
                ),
            ),
        decreases file@.len() + 20 - offset,
    {
        if remaining < IDT_ENTRY_SIZE {
            return Err(
                PeError::ImportDirectoryTableOverrun {
                    entry: idt_entry_number,
                    table_size: idt_size,
                },
            );
        }
        let idt_entry = match get_subslice(file, offset, IDT_ENTRY_SIZE) {
            Some(idt_entry) => idt_entry,
            None => {
                return Err(
                    PeError::UnexpectedEof {
                        record: Record::ImportDirectoryEntry { index: idt_entry_number },
                        offset,
                        file_len: file.len(),
                    },
                );
            },
        };
        assert(offset + 20 <= file.len());
        if all_zero(idt_entry) {
            proof {
                lemma_followed_by_nothing(result.deep_view());
            }
            return Ok(result);
        }
        let ilt_rva = get_u32(idt_entry, 0x00).unwrap();
        let dll_name_rva = get_u32(idt_entry, 0x0C).unwrap();
        let dll_name_raw = match rva_to_raw(section_headers, dll_name_rva) {
            Ok(dll_name_raw) => dll_name_raw,
            Err(e) => {
                return Err(e.within(Context::DllNameRva { entry: idt_entry_number }));
            },
        };
        let dll_name = match read_null_terminated_string(file, dll_name_raw) {
            Ok(dll_name) => dll_name,
            Err(e) => {
                return Err(e.within(Context::DllName { entry: idt_entry_number }));
            },
        };
        let ilt_raw = match rva_to_raw(section_headers, ilt_rva) {
            Ok(ilt_raw) => ilt_raw,
            Err(e) => {
                return Err(e.within(Context::ImportLookupRva { entry: idt_entry_number }));
            },
        };
        let functions = match parse_ilt(file, section_headers, ilt_raw) {
            Ok(functions) => functions,
            Err(e) => {
                return Err(e.within(Context::ImportLookup { entry: idt_entry_number }));
            },
        };
        let ghost gathered = result.deep_view();
        let ghost import = (dll_name@, functions.deep_view());
        result.push((dll_name, functions));
        proof {
            assert(result.deep_view() =~= gathered.push(import));
            lemma_followed_by_push(
                gathered,
                import,
                import_directory(
                    file@,
                    section_headers@,
                    idt_raw as int,
                    idt_size as int,
                    idt_entry_number as int + 1,
                ),
            );
        }
        idt_entry_number += 1;
        offset += IDT_ENTRY_SIZE as u64;
        remaining -= IDT_ENTRY_SIZE;
    }
}

/// Lists the libraries that an image imports from, in the order of its
/// import directory table, each with the functions it imports from it by
/// name, in the order of the library's import lookup table.
pub fn import_functions(file: &[u8]) -> (r: Result<Vec<(String, Vec<String>)>, PeError>)
    ensures
        match r {
            Ok(found) => imports(file@) == Ok::<Seq<Import>, PeError>(found.deep_view()),
            Err(e) => imports(file@) == Err::<Seq<Import>, PeError>(e),
        },
{
    let (optional_header, section_headers) = match get_headers(file) {
        Ok(headers) => headers,
        Err(e) => {
            return Err(e);
        },
    };
    let idt_rva = get_u32(optional_header, IMPORT_TABLE_RVA_OFFSET).unwrap();
    let idt_size = get_u32(optional_header, IMPORT_TABLE_SIZE_OFFSET).unwrap() as usize;
    let idt_raw = match rva_to_raw(section_headers.as_slice(), idt_rva) {
        Ok(idt_raw) => idt_raw,
        Err(e) => {
            return Err(e.within(Context::ImportDirectoryRva));
        },
    };
    match parse_idt(file, section_headers.as_slice(), idt_raw, idt_size) {
        Ok(found) => Ok(found),
        Err(e) => Err(e.within(Context::ImportDirectory)),
    }
}

/// Whether entry `index` of the lookup table at `ilt_raw` imports `name` by name.
pub open spec fn is_named_entry(
    file: Seq<u8>,
    sections: Seq<SectionHeader>,
    ilt_raw: int,
    index: int,
    name: Seq<char>,
) -> bool {
    match u64_at(file, ilt_raw + 8 * index) {
        Some(entry) => entry != 0 && !is_ordinal(entry) && imported_name(
            file,
            sections,
            entry,
            index,
        ) == Ok::<Seq<char>, PeError>(name),
        None => false,
    }
}

/// Whether entry `index` of the directory table at `idt_raw` describes `import`.
pub open spec fn is_library_entry(
    file: Seq<u8>,
    sections: Seq<SectionHeader>,
    idt_raw: int,
    index: int,
    import: Import,
) -> bool {
    match subslice(file, idt_raw + 20 * index, 20) {
        Some(entry) => !is_zero_filled(entry) && import_of_entry(file, sections, entry, index)
            == Ok::<Import, PeError>(import),
        None => false,
    }
}

/// Whether entry `index` of the directory table at `idt_raw` is there and
/// holds nothing but zeros.
pub open spec fn is_closing_entry(file: Seq<u8>, idt_raw: int, index: int) -> bool {
    match subslice(file, idt_raw + 20 * index, 20) {
        Some(entry) => is_zero_filled(entry),
        None => false,
    }
}

/// Whether entry `index` of the directory table at `idt_raw` points to the
/// name `import.0` and to a lookup table that holds one entry by name for
/// each of `import.1`, in that order, and then a zero entry.
pub open spec fn is_library_with_named_entries(
    file: Seq<u8>,
    sections: Seq<SectionHeader>,
    idt_raw: int,
    index: int,
    import: Import,
) -> bool {
    match subslice(file, idt_raw + 20 * index, 20) {
        Some(entry) => {
            &&& !is_zero_filled(entry)
            &&& match rva_to_file_offset(sections, le_u32(entry.subrange(0x0C, 0x10)) as u32) {
                Some(dll_name_raw) => null_terminated_string(file, dll_name_raw) == Ok::<
                    Seq<char>,
                    PeError,
                >(import.0),
                None => false,
            }
            &&& match rva_to_file_offset(sections, le_u32(entry.subrange(0x00, 0x04)) as u32) {
                Some(ilt_raw) => {
                    &&& forall|j: int|
                        0 <= j < import.1.len() ==> is_named_entry(
                            file,
                            sections,
                            ilt_raw,
                            j,
                            #[trigger] import.1[j],
                        )
                    &&& u64_at(file, ilt_raw + 8 * import.1.len()) == Some(0u64)
                },
                None => false,
            }
        },
        None => false,
    }
}

/// The ordinal flag is bit 63 of a lookup entry, and the address of its hint
/// and name is its low 32 bits.
pub proof fn lemma_lookup_entry_bits(entry: u64)
    ensures
        is_ordinal(entry) <==> entry & (1u64 << 63) != 0,
        hint_name_rva(entry) == entry & 0xFFFF_FFFF,
{
    assert((entry >= 0x8000_0000_0000_0000) <==> entry & (1u64 << 63) != 0) by (bit_vector);
    assert(entry % 0x1_0000_0000 == entry & 0xFFFF_FFFF) by (bit_vector);
}

/// An entry that imports by ordinal gives no name: the table lists what it
/// would list without the entry.
pub proof fn lemma_ordinal_entry_is_skipped(
    file: Seq<u8>,
    sections: Seq<SectionHeader>,
    ilt_raw: int,
    index: int,
    entry: u64,
)
    requires
        u64_at(file, ilt_raw + 8 * index) == Some(entry),
        is_ordinal(entry),
    ensures
        lookup_table(file, sections, ilt_raw, index) == lookup_table(
            file,
            sections,
            ilt_raw,
            index + 1,
        ),
{
}

/// A lookup table of entries by name that a zero entry closes lists one name
/// for each entry, in the order of the entries.
pub proof fn lemma_lookup_table_keeps_order(
    file: Seq<u8>,
    sections: Seq<SectionHeader>,
    ilt_raw: int,
    names: Seq<Seq<char>>,
)
    requires
        forall|j: int|
            0 <= j < names.len() ==> is_named_entry(file, sections, ilt_raw, j, #[trigger] names[j]),
        u64_at(file, ilt_raw + 8 * names.len()) == Some(0u64),
    ensures
        lookup_table(file, sections, ilt_raw, 0) == Ok::<Seq<Seq<char>>, PeError>(names),
{
    lemma_lookup_table_from(file, sections, ilt_raw, names, 0);
    assert(names.subrange(0, names.len() as int) =~= names);
}

proof fn lemma_lookup_table_from(
    file: Seq<u8>,
    sections: Seq<SectionHeader>,
    ilt_raw: int,
    names: Seq<Seq<char>>,
    from: int,
)
    requires
        0 <= from <= names.len(),
        forall|j: int|
            0 <= j < names.len() ==> is_named_entry(file, sections, ilt_raw, j, #[trigger] names[j]),
        u64_at(file, ilt_raw + 8 * names.len()) == Some(0u64),
    ensures
        lookup_table(file, sections, ilt_raw, from) == Ok::<Seq<Seq<char>>, PeError>(
            names.subrange(from, names.len() as int),
        ),
    decreases names.len() - from,
{
    if from == names.len() {
        assert(names.subrange(from, names.len() as int) =~= Seq::<Seq<char>>::empty());
    } else {
        let rest = lookup_table(file, sections, ilt_raw, from + 1);
        assert(lookup_table(file, sections, ilt_raw, from) == followed_by(seq![names[from]], rest))
            by {
            assert(is_named_entry(file, sections, ilt_raw, from, names[from]));
        }
        lemma_lookup_table_from(file, sections, ilt_raw, names, from + 1);
        assert(seq![names[from]] + names.subrange(from + 1, names.len() as int)
            =~= names.subrange(from, names.len() as int));
    }
}

/// An entry of zeros ends the directory table there, whatever follows it in
/// the file.
pub proof fn lemma_zero_entry_ends_directory(
    file: Seq<u8>,
    sections: Seq<SectionHeader>,
    idt_raw: int,
    idt_size: int,
    index: int,
)
    requires
        (index + 1) * 20 <= idt_size,
        is_closing_entry(file, idt_raw, index),
    ensures
        import_directory(file, sections, idt_raw, idt_size, index) == Ok::<Seq<Import>, PeError>(
            Seq::empty(),
        ),
{
}

/// A directory table of entries that an entry of zeros closes lists one
/// library for each entry, in the order of the entries.
pub proof fn lemma_directory_keeps_order(
    file: Seq<u8>,
    sections: Seq<SectionHeader>,
    idt_raw: int,
    idt_size: int,
    libraries: Seq<Import>,
)
    requires
        (libraries.len() + 1) * 20 <= idt_size,
        forall|k: int|
            0 <= k < libraries.len() ==> is_library_entry(
                file,
                sections,
                idt_raw,
                k,
                #[trigger] libraries[k],
            ),
        is_closing_entry(file, idt_raw, libraries.len() as int),
    ensures
        import_directory(file, sections, idt_raw, idt_size, 0) == Ok::<Seq<Import>, PeError>(
            libraries,
        ),
{
    lemma_directory_from(file, sections, idt_raw, idt_size, libraries, 0);
    assert(libraries.subrange(0, libraries.len() as int) =~= libraries);
}

proof fn lemma_directory_from(
    file: Seq<u8>,
    sections: Seq<SectionHeader>,
    idt_raw: int,
    idt_size: int,
    libraries: Seq<Import>,
    from: int,
)
    requires
        0 <= from <= libraries.len(),
        (libraries.len() + 1) * 20 <= idt_size,
        forall|k: int|
            0 <= k < libraries.len() ==> is_library_entry(
                file,
                sections,
                idt_raw,
                k,
                #[trigger] libraries[k],
            ),
        is_closing_entry(file, idt_raw, libraries.len() as int),
    ensures
        import_directory(file, sections, idt_raw, idt_size, from) == Ok::<Seq<Import>, PeError>(
            libraries.subrange(from, libraries.len() as int),
        ),
    decreases libraries.len() - from,
{
    if from == libraries.len() {
        assert(libraries.subrange(from, libraries.len() as int) =~= Seq::<Import>::empty());
    } else {
        let rest = import_directory(file, sections, idt_raw, idt_size, from + 1);
        assert(import_directory(file, sections, idt_raw, idt_size, from) == followed_by(
            seq![libraries[from]],
            rest,
        )) by {
            assert(is_library_entry(file, sections, idt_raw, from, libraries[from]));
        }
        lemma_directory_from(file, sections, idt_raw, idt_size, libraries, from + 1);
        assert(seq![libraries[from]] + libraries.subrange(from + 1, libraries.len() as int)
            =~= libraries.subrange(from, libraries.len() as int));
    }
}

/// Conversely, where a directory table lists `libraries`, it holds one entry
/// for each of them, in that order, and then an entry of zeros, all within
/// its size.
pub proof fn lemma_directory_holds_what_it_lists(
    file: Seq<u8>,
    sections: Seq<SectionHeader>,
    idt_raw: int,
    idt_size: int,
    libraries: Seq<Import>,
)
    requires
        import_directory(file, sections, idt_raw, idt_size, 0) == Ok::<Seq<Import>, PeError>(
            libraries,
        ),
    ensures
        (libraries.len() + 1) * 20 <= idt_size,
        forall|k: int|
            0 <= k < libraries.len() ==> is_library_entry(
                file,
                sections,
                idt_raw,
                k,
                #[trigger] libraries[k],
            ),
        is_closing_entry(file, idt_raw, libraries.len() as int),
{
    lemma_directory_holds_rest(file, sections, idt_raw, idt_size, libraries, 0);
    assert forall|k: int| 0 <= k < libraries.len() implies is_library_entry(
        file,
        sections,
        idt_raw,
        k,
        #[trigger] libraries[k],
    ) by {
        assert(is_library_entry(file, sections, idt_raw, 0 + k, libraries[k]));
    }
}

proof fn lemma_directory_holds_rest(
    file: Seq<u8>,
    sections: Seq<SectionHeader>,
    idt_raw: int,
    idt_size: int,
    rest: Seq<Import>,
    from: int,
)
    requires
        import_directory(file, sections, idt_raw, idt_size, from) == Ok::<Seq<Import>, PeError>(
            rest,
        ),
    ensures
        (from + rest.len() + 1) * 20 <= idt_size,
        forall|k: int|
            0 <= k < rest.len() ==> is_library_entry(file, sections, idt_raw, from + k, rest[k]),
        is_closing_entry(file, idt_raw, from + rest.len()),
    decreases rest.len(),
{
    lemma_directory_first(file, sections, idt_raw, idt_size, rest, from);
    if rest.len() > 0 {
        let tail = rest.drop_first();
        lemma_directory_holds_rest(file, sections, idt_raw, idt_size, tail, from + 1);
        assert forall|k: int| 0 <= k < rest.len() implies is_library_entry(
            file,
            sections,
            idt_raw,
            from + k,
            rest[k],
        ) by {
            if k > 0 {
                assert(rest[k] == tail[k - 1]);
                assert(from + k == (from + 1) + (k - 1));
            }
        }
        assert(from + rest.len() == (from + 1) + tail.len());
    }
}

/// What a directory table lists from entry `from` on begins with what that
/// entry describes, unless it is the closing entry.
proof fn lemma_directory_first(
    file: Seq<u8>,
    sections: Seq<SectionHeader>,
    idt_raw: int,
    idt_size: int,
    rest: Seq<Import>,
    from: int,
)
    requires
        import_directory(file, sections, idt_raw, idt_size, from) == Ok::<Seq<Import>, PeError>(
            rest,
        ),
    ensures
        (from + 1) * 20 <= idt_size,
        rest.len() == 0 ==> is_closing_entry(file, idt_raw, from),
        rest.len() > 0 ==> is_library_entry(file, sections, idt_raw, from, rest[0])
            && import_directory(file, sections, idt_raw, idt_size, from + 1) == Ok::<
            Seq<Import>,
            PeError,
        >(rest.drop_first()),
{
    let entry = subslice(file, idt_raw + 20 * from, 20).unwrap();
    if !is_zero_filled(entry) {
        let import = import_of_entry(file, sections, entry, from).unwrap();
        let tail = import_directory(file, sections, idt_raw, idt_size, from + 1).unwrap();
        assert(rest == seq![import] + tail);
        assert(rest.drop_first() =~= tail);
    }
}

/// A directory entry that points to a name and to a lookup table of
/// entries by name describes that library with exactly those functions.
pub proof fn lemma_library_with_named_entries(
    file: Seq<u8>,
    sections: Seq<SectionHeader>,
    idt_raw: int,
    index: int,
    import: Import,
)
    requires
        is_library_with_named_entries(file, sections, idt_raw, index, import),
    ensures
        is_library_entry(file, sections, idt_raw, index, import),
{
    let entry = subslice(file, idt_raw + 20 * index, 20).unwrap();
    let ilt_raw = rva_to_file_offset(sections, le_u32(entry.subrange(0x00, 0x04)) as u32).unwrap();
    lemma_lookup_table_keeps_order(file, sections, ilt_raw, import.1);
}

/// An image whose import directory table holds one entry for each of
/// `libraries`, closed by an entry of zeros, imports exactly `libraries`, in
/// the order of the table.
pub proof fn lemma_imports_keep_order(
    file: Seq<u8>,
    sections: Seq<SectionHeader>,
    idt_raw: int,
    idt_size: int,
    libraries: Seq<Import>,
)
    requires
        import_directory_location(file) == Ok::<(Seq<SectionHeader>, int, int), PeError>(
            (sections, idt_raw, idt_size),
        ),
        (libraries.len() + 1) * 20 <= idt_size,
        forall|k: int|
            0 <= k < libraries.len() ==> is_library_entry(
                file,
                sections,
                idt_raw,
                k,
                #[trigger] libraries[k],
            ),
        is_closing_entry(file, idt_raw, libraries.len() as int),
    ensures
        imports(file) == Ok::<Seq<Import>, PeError>(libraries),
{
    lemma_directory_keeps_order(file, sections, idt_raw, idt_size, libraries);
}

} // verus!
