//! The export table: which functions an image offers by name.
//!
//! The export directory table is one record of 40 bytes. It gives the number
//! of exported names and the address of the export name pointer table, whose
//! 4-byte entries point to the names.

use crate::bytes::{get_fixed_subslice, get_u32, le_u32, subslice, u32_at};
use crate::error::{Context, PeError, Record};
use crate::image::{get_headers, image_headers};
use crate::section::{rva_to_file_offset, rva_to_raw, SectionHeader};
use crate::strings::{null_terminated_string, read_null_terminated_string};
use crate::walk::{
    followed_by, lemma_followed_by_nothing, lemma_followed_by_push, lemma_nothing_gathered,
};
use vstd::prelude::*;

verus! {

/// The size of the export directory table.
pub const EDT_TABLE_SIZE: usize = 40;

/// The size of one entry of the export name pointer table.
pub const NAME_POINTER_SIZE: usize = 4;

/// Where the optional header keeps the address of the export directory table.
pub const EXPORT_TABLE_RVA_OFFSET: u64 = 0x70;

/// Where the export directory table keeps the number of name pointers.
pub const NUMBER_OF_NAME_POINTERS_OFFSET: u64 = 24;

/// Where the export directory table keeps the address of the name pointer table.
pub const NAME_POINTER_TABLE_RVA_OFFSET: u64 = 32;

/// The name that entry `index` of the name pointer table at `npt_raw`
/// points to. The table has `count` entries.
pub open spec fn exported_name(
    file: Seq<u8>,
    sections: Seq<SectionHeader>,
    npt_raw: int,
    count: int,
    index: int,
) -> Result<Seq<char>, PeError> {
    let offset = npt_raw + 4 * index;
    match u32_at(file, offset) {
        None => Err(
            PeError::UnexpectedEof {
                record: Record::NamePointer { index: index as usize, count: count as usize },
                offset: offset as u64,
                file_len: file.len() as usize,
            },
        ),
        Some(rva) => match rva_to_file_offset(sections, rva) {
            None => Err(
                (PeError::RvaNotInAnySection { rva }).wrapped(
                    Context::NamePointerRva { index: index as usize },
                ),
            ),
            Some(raw) => match null_terminated_string(file, raw) {
                Ok(name) => Ok(name),
                Err(e) => Err(e.wrapped(Context::ExportName { index: index as usize })),
            },
        },
    }
}

/// The names that the entries from `index` on, out of `count`, of the name
/// pointer table at `npt_raw` point to.
pub open spec fn exported_names(
    file: Seq<u8>,
    sections: Seq<SectionHeader>,
    npt_raw: int,
    count: int,
    index: int,
) -> Result<Seq<Seq<char>>, PeError>
    decreases count - index,
{
    if index >= count {
        Ok(Seq::empty())
    } else {
        match exported_name(file, sections, npt_raw, count, index) {
            Err(e) => Err(e),
            Ok(name) => followed_by(
                seq![name],
                exported_names(file, sections, npt_raw, count, index + 1),
            ),
        }
    }
}

/// The names that the export directory table `edt` lists.
pub open spec fn export_directory(
    file: Seq<u8>,
    sections: Seq<SectionHeader>,
    edt: Seq<u8>,
) -> Result<Seq<Seq<char>>, PeError> {
    let count = le_u32(edt.subrange(24, 28));
    let npt_rva = le_u32(edt.subrange(32, 36)) as u32;
    match rva_to_file_offset(sections, npt_rva) {
        None => Err(
            (PeError::RvaNotInAnySection { rva: npt_rva }).wrapped(Context::NamePointerTableRva),
        ),
        Some(npt_raw) => exported_names(file, sections, npt_raw, count, 0),
    }
}

/// Where the export directory table of an image lies: the sections that
/// translate its addresses, and its 40 bytes.
pub open spec fn export_directory_location(file: Seq<u8>) -> Result<
    (Seq<SectionHeader>, Seq<u8>),
    PeError,
> {
    match image_headers(file) {
        Err(e) => Err(e),
        Ok((header, sections)) => {
            let edt_rva = le_u32(header.subrange(0x70, 0x74)) as u32;
            match rva_to_file_offset(sections, edt_rva) {
                None => Err(PeError::ExportDirectoryAbsent { rva: edt_rva }),
                Some(edt_raw) => match subslice(file, edt_raw, 40) {
                    None => Err(
                        PeError::UnexpectedEof {
                            record: Record::ExportDirectoryTable,
                            offset: edt_raw as u64,
                            file_len: file.len() as usize,
                        },
                    ),
                    Some(edt) => Ok((sections, edt)),
                },
            }
        },
    }
}

/// The names of the functions that an image exports.
pub open spec fn exports(file: Seq<u8>) -> Result<Seq<Seq<char>>, PeError> {
    match export_directory_location(file) {
        Err(e) => Err(e),
        Ok((sections, edt)) => export_directory(file, sections, edt),
    }
}

/// Lists the names of the functions that an image exports, in the order of
/// its export name pointer table.
///
/// An image whose export directory lies in no section most likely exports
/// nothing; it is told apart by the error `ExportDirectoryAbsent`.
pub fn export_functions(file: &[u8]) -> (r: Result<Vec<String>, PeError>)
    ensures
        match r {
            Ok(names) => exports(file@) == Ok::<Seq<Seq<char>>, PeError>(names.deep_view()),
            Err(e) => exports(file@) == Err::<Seq<Seq<char>>, PeError>(e),
        },
{
    let (optional_header, section_headers) = match get_headers(file) {
        Ok(headers) => headers,
        Err(e) => {
            return Err(e);
        },
    };
    let edt_rva = get_u32(optional_header, EXPORT_TABLE_RVA_OFFSET).unwrap();
    let edt_raw = match rva_to_raw(section_headers.as_slice(), edt_rva) {
        Ok(edt_raw) => edt_raw,
        Err(_) => {
            return Err(PeError::ExportDirectoryAbsent { rva: edt_rva });
        },
    };
    let edt = match get_fixed_subslice::<EDT_TABLE_SIZE>(file, edt_raw) {
        Some(edt) => edt,
        None => {
            return Err(
                PeError::UnexpectedEof {
                    record: Record::ExportDirectoryTable,
                    offset: edt_raw,
                    file_len: file.len(),
                },
            );
        },
    };
    let number_of_name_pointers = get_u32(edt, NUMBER_OF_NAME_POINTERS_OFFSET).unwrap() as usize;
    let npt_rva = get_u32(edt, NAME_POINTER_TABLE_RVA_OFFSET).unwrap();
    let npt_raw = match rva_to_raw(section_headers.as_slice(), npt_rva) {
        Ok(npt_raw) => npt_raw,
        Err(e) => {
            return Err(e.within(Context::NamePointerTableRva));
        },
    };
    let mut result: Vec<String> = Vec::new();
    let mut name_pointer_number: usize = 0;
    let mut offset: u64 = npt_raw;
    let ghost sections = section_headers@;
    let ghost count = number_of_name_pointers as int;
    proof {
        assert(result.deep_view() =~= Seq::<Seq<char>>::empty());
        lemma_nothing_gathered(exported_names(file@, sections, npt_raw as int, count, 0));
    }
    while name_pointer_number < number_of_name_pointers
        invariant
            sections == section_headers@,
            count == number_of_name_pointers,
            name_pointer_number <= number_of_name_pointers,
            offset == npt_raw + 4 * name_pointer_number,
            name_pointer_number > 0 ==> offset <= file@.len(),
            exports(file@) == exported_names(file@, sections, npt_raw as int, count, 0),
            exported_names(file@, sections, npt_raw as int, count, 0) == followed_by(
                result.deep_view(),
                exported_names(file@, sections, npt_raw as int, count, name_pointer_number as int),
            ),
        decreases number_of_name_pointers - name_pointer_number,
    {
        let name_pointer_rva = match get_u32(file, offset) {
            Some(name_pointer_rva) => name_pointer_rva,
            None => {
                return Err(
                    PeError::UnexpectedEof {
                        record: Record::NamePointer {
                            index: name_pointer_number,
                            count: number_of_name_pointers,
                        },
                        offset,
                        file_len: file.len(),
                    },
                );
            },
        };
        assert(offset + 4 <= file.len());
        let name_pointer_raw = match rva_to_raw(section_headers.as_slice(), name_pointer_rva) {
            Ok(name_pointer_raw) => name_pointer_raw,
            Err(e) => {
                return Err(e.within(Context::NamePointerRva { index: name_pointer_number }));
            },
        };
        let name = match read_null_terminated_string(file, name_pointer_raw) {
            Ok(name) => name,
            Err(e) => {
                return Err(e.within(Context::ExportName { index: name_pointer_number }));
            },
        };
        let ghost gathered = result.deep_view();
        let ghost name_view = name@;
        result.push(name);
        proof {
            assert(result.deep_view() =~= gathered.push(name_view));
            lemma_followed_by_push(
                gathered,
                name_view,
                exported_names(
                    file@,
                    sections,
                    npt_raw as int,
                    count,
                    name_pointer_number as int + 1,
                ),
            );
        }
        name_pointer_number += 1;
        offset += NAME_POINTER_SIZE as u64;
    }
    proof {
        lemma_followed_by_nothing(result.deep_view());
    }
    Ok(result)
}

/// A name pointer table lists `names` if and only if it has one entry for
/// each of them and entry `k` points to `names[k]`.
pub proof fn lemma_exports_follow_name_pointers(
    file: Seq<u8>,
    sections: Seq<SectionHeader>,
    npt_raw: int,
    count: int,
    names: Seq<Seq<char>>,
)
    requires
        0 <= count,
    ensures
        exported_names(file, sections, npt_raw, count, 0) == Ok::<Seq<Seq<char>>, PeError>(names)
            <==> names.len() == count && forall|k: int|
            0 <= k < count ==> exported_name(file, sections, npt_raw, count, k) == Ok::<
                Seq<char>,
                PeError,
            >(#[trigger] names[k]),
{
    if exported_names(file, sections, npt_raw, count, 0) == Ok::<Seq<Seq<char>>, PeError>(names) {
        lemma_name_pointers_of_names(file, sections, npt_raw, count, names, 0);
        assert forall|k: int| 0 <= k < count implies exported_name(
            file,
            sections,
            npt_raw,
            count,
            k,
        ) == Ok::<Seq<char>, PeError>(#[trigger] names[k]) by {
            assert(exported_name(file, sections, npt_raw, count, 0 + k) == Ok::<
                Seq<char>,
                PeError,
            >(names[k]));
        }
    }
    if names.len() == count && forall|k: int|
        0 <= k < count ==> exported_name(file, sections, npt_raw, count, k) == Ok::<
            Seq<char>,
            PeError,
        >(#[trigger] names[k]) {
        lemma_names_of_name_pointers(file, sections, npt_raw, count, names, 0);
        assert(names.subrange(0, count) =~= names);
    }
}

proof fn lemma_name_pointers_of_names(
    file: Seq<u8>,
    sections: Seq<SectionHeader>,
    npt_raw: int,
    count: int,
    rest: Seq<Seq<char>>,
    from: int,
)
    requires
        0 <= from <= count,
        exported_names(file, sections, npt_raw, count, from) == Ok::<Seq<Seq<char>>, PeError>(
            rest,
        ),
    ensures
        rest.len() == count - from,
        forall|k: int|
            0 <= k < rest.len() ==> exported_name(file, sections, npt_raw, count, from + k) == Ok::<
                Seq<char>,
                PeError,
            >(rest[k]),
    decreases count - from,
{
    if from < count {
        let name = exported_name(file, sections, npt_raw, count, from).unwrap();
        let tail = exported_names(file, sections, npt_raw, count, from + 1).unwrap();
        assert(rest == seq![name] + tail);
        lemma_name_pointers_of_names(file, sections, npt_raw, count, tail, from + 1);
        assert forall|k: int| 0 <= k < rest.len() implies exported_name(
            file,
            sections,
            npt_raw,
            count,
            from + k,
        ) == Ok::<Seq<char>, PeError>(rest[k]) by {
            if k > 0 {
                assert(rest[k] == tail[k - 1]);
                assert(exported_name(file, sections, npt_raw, count, (from + 1) + (k - 1)) == Ok::<
                    Seq<char>,
                    PeError,
                >(tail[k - 1]));
            }
        }
    }
}

proof fn lemma_names_of_name_pointers(
    file: Seq<u8>,
    sections: Seq<SectionHeader>,
    npt_raw: int,
    count: int,
    names: Seq<Seq<char>>,
    from: int,
)
    requires
        0 <= from <= count,
        names.len() == count,
        forall|k: int|
            0 <= k < count ==> exported_name(file, sections, npt_raw, count, k) == Ok::<
                Seq<char>,
                PeError,
            >(#[trigger] names[k]),
    ensures
        exported_names(file, sections, npt_raw, count, from) == Ok::<Seq<Seq<char>>, PeError>(
            names.subrange(from, count),
        ),
    decreases count - from,
{
    if from == count {
        assert(names.subrange(from, count) =~= Seq::<Seq<char>>::empty());
    } else {
        assert(exported_name(file, sections, npt_raw, count, from) == Ok::<Seq<char>, PeError>(
            names[from],
        ));
        lemma_names_of_name_pointers(file, sections, npt_raw, count, names, from + 1);
        assert(seq![names[from]] + names.subrange(from + 1, count) =~= names.subrange(
            from,
            count,
        ));
    }
}

/// An image whose export directory table announces no names exports
/// nothing, provided that the address of its name pointer table, which is
/// translated before any name is read, lies in a section.
pub proof fn lemma_no_name_pointers_no_exports(
    file: Seq<u8>,
    sections: Seq<SectionHeader>,
    edt: Seq<u8>,
)
    requires
        export_directory_location(file) == Ok::<(Seq<SectionHeader>, Seq<u8>), PeError>(
            (sections, edt),
        ),
        le_u32(edt.subrange(24, 28)) == 0,
        rva_to_file_offset(sections, le_u32(edt.subrange(32, 36)) as u32) is Some,
    ensures
        exports(file) == Ok::<Seq<Seq<char>>, PeError>(Seq::empty()),
{
}

} // verus!
