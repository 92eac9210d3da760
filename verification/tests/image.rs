use pe_parser::cli::{render_imports, run, Cli, Report, Subcommands};
use pe_parser::error::{Context, PeError, Record};
use pe_parser::image::get_headers;
use pe_parser::imports::{parse_idt, parse_ilt};
use pe_parser::section::SectionHeader;
use pe_parser::{export_functions, import_functions, is_pe};
use std::path::PathBuf;

const PE_OFFSET: usize = 0x40;
const OPTIONAL_HEADER: usize = PE_OFFSET + 0x18;
const SECTION_TABLE: usize = OPTIONAL_HEADER + 0xF0;
const DATA_OFFSET: usize = 0x200;
const DATA_RVA: u32 = 0x1000;
const ORDINAL: u64 = 0x8000_0000_0000_0000;

enum Entry {
    Name(&'static str),
    Ordinal(u16),
}

fn put_u16(bytes: &mut [u8], offset: usize, value: u16) {
    bytes[offset..offset + 2].copy_from_slice(&value.to_le_bytes());
}

fn put_u32(bytes: &mut [u8], offset: usize, value: u32) {
    bytes[offset..offset + 4].copy_from_slice(&value.to_le_bytes());
}

fn put_u64(bytes: &mut [u8], offset: usize, value: u64) {
    bytes[offset..offset + 8].copy_from_slice(&value.to_le_bytes());
}

fn rva(data_offset: usize) -> u32 {
    DATA_RVA + data_offset as u32
}

fn push_string(data: &mut Vec<u8>, text: &str) -> usize {
    let at = data.len();
    data.extend_from_slice(text.as_bytes());
    data.push(0);
    at
}

fn push_hint_name(data: &mut Vec<u8>, name: &str) -> usize {
    let at = data.len();
    data.extend_from_slice(&[0x34, 0x12]);
    data.extend_from_slice(name.as_bytes());
    data.push(0);
    at
}

/// Headers and one section that maps `DATA_RVA..` to `data`, at `DATA_OFFSET`.
fn image_around(data: &[u8]) -> Vec<u8> {
    let mut file = vec![0u8; DATA_OFFSET];
    file[0..2].copy_from_slice(b"MZ");
    put_u32(&mut file, 0x3C, PE_OFFSET as u32);
    file[PE_OFFSET..PE_OFFSET + 4].copy_from_slice(b"PE\0\0");
    put_u16(&mut file, PE_OFFSET + 0x06, 1);
    put_u16(&mut file, PE_OFFSET + 0x14, 0xF0);
    file[OPTIONAL_HEADER] = 0x0B;
    file[OPTIONAL_HEADER + 1] = 0x02;
    file[SECTION_TABLE..SECTION_TABLE + 8].copy_from_slice(b".rdata\0\0");
    put_u32(&mut file, SECTION_TABLE + 0x08, data.len() as u32);
    put_u32(&mut file, SECTION_TABLE + 0x0C, DATA_RVA);
    put_u32(&mut file, SECTION_TABLE + 0x10, data.len() as u32);
    put_u32(&mut file, SECTION_TABLE + 0x14, DATA_OFFSET as u32);
    file.extend_from_slice(data);
    file
}

fn set_import_directory(file: &mut [u8], address: u32, size: u32) {
    put_u32(file, OPTIONAL_HEADER + 0x78, address);
    put_u32(file, OPTIONAL_HEADER + 0x7C, size);
}

fn set_export_directory(file: &mut [u8], address: u32) {
    put_u32(file, OPTIONAL_HEADER + 0x70, address);
}

/// Appends a lookup table and the names it points to; gives the table's place.
fn push_lookup_table(data: &mut Vec<u8>, entries: &[Entry]) -> usize {
    let mut values = Vec::new();
    for entry in entries {
        values.push(match entry {
            Entry::Name(name) => rva(push_hint_name(data, name)) as u64,
            Entry::Ordinal(ordinal) => ORDINAL | *ordinal as u64,
        });
    }
    values.push(0);
    let at = data.len();
    for value in values {
        data.extend_from_slice(&value.to_le_bytes());
    }
    at
}

/// The import directory table first, then for each library its name, the
/// names of its functions and its lookup table.
fn import_data(libraries: &[(&str, Vec<Entry>)]) -> Vec<u8> {
    let mut data = vec![0u8; (libraries.len() + 1) * 20];
    for (k, (library, entries)) in libraries.iter().enumerate() {
        let name_at = push_string(&mut data, library);
        let table_at = push_lookup_table(&mut data, entries);
        put_u32(&mut data, 20 * k, rva(table_at));
        put_u32(&mut data, 20 * k + 0x0C, rva(name_at));
    }
    data
}

fn image_with_imports(libraries: &[(&str, Vec<Entry>)]) -> Vec<u8> {
    let mut file = image_around(&import_data(libraries));
    set_import_directory(&mut file, DATA_RVA, ((libraries.len() + 1) * 20) as u32);
    file
}

/// The export directory table first, then the name pointer table, then the names.
fn export_data(names: &[&str], base: usize) -> Vec<u8> {
    let mut data = vec![0u8; 40 + 4 * names.len()];
    put_u32(&mut data, 24, names.len() as u32);
    put_u32(&mut data, 32, rva(base + 40));
    for (i, name) in names.iter().enumerate() {
        let at = base + data.len();
        data.extend_from_slice(name.as_bytes());
        data.push(0);
        put_u32(&mut data, 40 + 4 * i, rva(at));
    }
    data
}

fn image_with_exports(names: &[&str]) -> Vec<u8> {
    let mut data = export_data(names, 0);
    if names.is_empty() {
        // keeps the address of the empty name pointer table inside the section
        data.extend_from_slice(&[0xCC; 4]);
    }
    let mut file = image_around(&data);
    set_export_directory(&mut file, DATA_RVA);
    file
}

fn image_with_both(libraries: &[(&str, Vec<Entry>)], names: &[&str]) -> Vec<u8> {
    let mut data = import_data(libraries);
    let exports_at = data.len();
    data.extend_from_slice(&export_data(names, exports_at));
    let mut file = image_around(&data);
    set_import_directory(&mut file, DATA_RVA, ((libraries.len() + 1) * 20) as u32);
    set_export_directory(&mut file, rva(exports_at));
    file
}

fn names(list: &[&str]) -> Vec<String> {
    list.iter().map(|name| name.to_string()).collect()
}

fn sections_of(file: &[u8]) -> Vec<SectionHeader> {
    get_headers(file).unwrap().1
}

fn two_libraries() -> Vec<(&'static str, Vec<Entry>)> {
    vec![
        (
            "KERNEL32.dll",
            vec![Entry::Name("ExitProcess"), Entry::Name("GetLastError"), Entry::Name("Sleep")],
        ),
        ("USER32.dll", vec![Entry::Name("MessageBoxW")]),
    ]
}

fn within(error: PeError, contexts: &[Context]) -> PeError {
    let mut error = error;
    for context in contexts {
        error = error.within(*context);
    }
    error
}

#[test]
fn headers_of_a_built_image() {
    let file = image_with_imports(&two_libraries());
    assert!(is_pe(&file));
    let (header, sections) = get_headers(&file).unwrap();
    assert_eq!(&header[..], &file[OPTIONAL_HEADER..OPTIONAL_HEADER + 0xF0]);
    assert_eq!(sections.len(), 1);
    assert_eq!(sections[0].name, *b".rdata\0\0");
    assert_eq!(sections[0].virtual_address, DATA_RVA);
    assert_eq!(sections[0].pointer_to_raw_data, DATA_OFFSET as u32);
    assert_eq!(sections[0].virtual_size as usize, file.len() - DATA_OFFSET);
}

#[test]
fn imports_of_two_libraries() {
    let file = image_with_imports(&two_libraries());
    assert_eq!(
        import_functions(&file),
        Ok(vec![
            ("KERNEL32.dll".to_string(), names(&["ExitProcess", "GetLastError", "Sleep"])),
            ("USER32.dll".to_string(), names(&["MessageBoxW"])),
        ])
    );
}

#[test]
fn imports_round_trip_in_insertion_order() {
    let library_names = ["a.dll", "b.dll", "c.dll", "d.dll", "e.dll"];
    let function_names = ["zeta", "alpha", "Mid", "omega", "beta", "Alpha"];
    for n in 0..=library_names.len() {
        for m in 0..=function_names.len() {
            let libraries: Vec<(&str, Vec<Entry>)> = library_names[..n]
                .iter()
                .map(|library| {
                    (*library, function_names[..m].iter().map(|name| Entry::Name(*name)).collect())
                })
                .collect();
            let found = import_functions(&image_with_imports(&libraries)).unwrap();
            assert_eq!(found.len(), n);
            for (k, (library, functions)) in found.iter().enumerate() {
                assert_eq!(library, library_names[k]);
                assert_eq!(functions.len(), m);
                assert_eq!(functions, &names(&function_names[..m]));
            }
        }
    }
}

#[test]
fn empty_import_table_is_no_error() {
    let file = image_with_imports(&[]);
    assert_eq!(import_functions(&file), Ok(vec![]));
}

#[test]
fn library_without_functions() {
    let file = image_with_imports(&[("empty.dll", vec![])]);
    assert_eq!(import_functions(&file), Ok(vec![("empty.dll".to_string(), vec![])]));
}

#[test]
fn ordinal_imports_give_no_name() {
    let file = image_with_imports(&[
        (
            "WS2_32.dll",
            vec![
                Entry::Ordinal(115),
                Entry::Name("connect"),
                Entry::Ordinal(1),
                Entry::Ordinal(0xFFFF),
                Entry::Name("send"),
                Entry::Ordinal(3),
            ],
        ),
        ("ordinals.dll", vec![Entry::Ordinal(7), Entry::Ordinal(8)]),
    ]);
    assert_eq!(
        import_functions(&file),
        Ok(vec![
            ("WS2_32.dll".to_string(), names(&["connect", "send"])),
            ("ordinals.dll".to_string(), vec![]),
        ])
    );
}

#[test]
fn ordinal_entry_is_not_resolved() {
    let mut data = vec![0u8; 16];
    put_u64(&mut data, 0, ORDINAL | 0x7FFF_FFFF_FFFF_FFFF);
    let file = image_around(&data);
    assert_eq!(parse_ilt(&file, &sections_of(&file), DATA_OFFSET as u64), Ok(vec![]));
    put_u64(&mut data, 0, ORDINAL);
    let file = image_around(&data);
    assert_eq!(parse_ilt(&file, &sections_of(&file), DATA_OFFSET as u64), Ok(vec![]));
}

#[test]
fn only_the_low_32_bits_of_an_entry_are_its_address() {
    let mut data = vec![0u8; 16];
    let name_at = push_hint_name(&mut data, "Named");
    put_u64(&mut data, 0, 0x7FFF_FFFF_0000_0000 | rva(name_at) as u64);
    let file = image_around(&data);
    assert_eq!(
        parse_ilt(&file, &sections_of(&file), DATA_OFFSET as u64),
        Ok(names(&["Named"]))
    );
}

#[test]
fn hint_is_skipped() {
    let mut data = vec![0u8; 16];
    let name_at = data.len();
    data.extend_from_slice(b"\0\0Name\0");
    put_u64(&mut data, 0, rva(name_at) as u64);
    let file = image_around(&data);
    assert_eq!(parse_ilt(&file, &sections_of(&file), DATA_OFFSET as u64), Ok(names(&["Name"])));
}

#[test]
fn zero_entry_ends_the_directory() {
    let mut data = import_data(&two_libraries());
    let first = import_functions(&image_with_imports(&two_libraries())).unwrap()[0].clone();
    for byte in &mut data[20..40] {
        *byte = 0;
    }
    assert!(data[40..].iter().any(|byte| *byte != 0));
    let mut file = image_around(&data);
    set_import_directory(&mut file, DATA_RVA, 60);
    assert_eq!(import_functions(&file), Ok(vec![first]));
    for byte in &mut data[0..20] {
        *byte = 0;
    }
    data[40..60].copy_from_slice(&[0xFF; 20]);
    let mut file = image_around(&data);
    set_import_directory(&mut file, DATA_RVA, 60);
    assert_eq!(import_functions(&file), Ok(vec![]));
}

#[test]
fn directory_entry_with_one_nonzero_byte_is_live() {
    let mut data = vec![0u8; 40];
    data[19] = 1;
    let mut file = image_around(&data);
    set_import_directory(&mut file, DATA_RVA, 40);
    assert_eq!(
        import_functions(&file),
        Err(within(
            PeError::RvaNotInAnySection { rva: 0 },
            &[Context::DllNameRva { entry: 0 }, Context::ImportDirectory]
        ))
    );
}

#[test]
fn directory_may_not_overrun_its_size() {
    let mut file = image_with_imports(&two_libraries());
    for (size, entry) in [(0u32, 0usize), (19, 0), (20, 1), (39, 1), (40, 2), (59, 2)] {
        set_import_directory(&mut file, DATA_RVA, size);
        assert_eq!(
            import_functions(&file),
            Err(within(
                PeError::ImportDirectoryTableOverrun { entry, table_size: size as usize },
                &[Context::ImportDirectory]
            ))
        );
    }
    set_import_directory(&mut file, DATA_RVA, 60);
    assert_eq!(import_functions(&file).unwrap().len(), 2);
    set_import_directory(&mut file, DATA_RVA, u32::MAX);
    assert_eq!(import_functions(&file).unwrap().len(), 2);
}

#[test]
fn directory_cut_by_the_end_of_the_file() {
    let mut data = Vec::new();
    let name_at = push_string(&mut data, "last.dll");
    let table_at = push_lookup_table(&mut data, &[Entry::Name("f")]);
    let directory_at = data.len();
    data.extend_from_slice(&[0u8; 40]);
    put_u32(&mut data, directory_at, rva(table_at));
    put_u32(&mut data, directory_at + 0x0C, rva(name_at));
    let mut file = image_around(&data);
    set_import_directory(&mut file, rva(directory_at), 40);
    assert_eq!(import_functions(&file), Ok(vec![("last.dll".to_string(), names(&["f"]))]));
    let len = file.len();
    for cut in 1..=20 {
        assert_eq!(
            import_functions(&file[..len - cut]),
            Err(within(
                PeError::UnexpectedEof {
                    record: Record::ImportDirectoryEntry { index: 1 },
                    offset: (DATA_OFFSET + directory_at + 20) as u64,
                    file_len: len - cut,
                },
                &[Context::ImportDirectory]
            ))
        );
    }
    assert_eq!(
        import_functions(&file[..len - 21]),
        Err(within(
            PeError::UnexpectedEof {
                record: Record::ImportDirectoryEntry { index: 0 },
                offset: (DATA_OFFSET + directory_at) as u64,
                file_len: len - 21,
            },
            &[Context::ImportDirectory]
        ))
    );
}

#[test]
fn lookup_table_cut_by_the_end_of_the_file() {
    let file = image_with_imports(&[("only.dll", vec![Entry::Name("one"), Entry::Name("two")])]);
    let len = file.len();
    assert_eq!(import_functions(&file), Ok(vec![("only.dll".to_string(), names(&["one", "two"]))]));
    for cut in 1..=8 {
        assert_eq!(
            import_functions(&file[..len - cut]),
            Err(within(
                PeError::UnterminatedImportLookupTable {
                    entry: 2,
                    offset: (len - 8) as u64,
                    file_len: len - cut,
                },
                &[Context::ImportLookup { entry: 0 }, Context::ImportDirectory]
            ))
        );
    }
    assert_eq!(
        import_functions(&file[..len - 9]),
        Err(within(
            PeError::UnterminatedImportLookupTable {
                entry: 1,
                offset: (len - 16) as u64,
                file_len: len - 9,
            },
            &[Context::ImportLookup { entry: 0 }, Context::ImportDirectory]
        ))
    );
}

#[test]
fn lookup_table_without_zero_entry() {
    let mut data = vec![0u8; 24];
    put_u64(&mut data, 0, ORDINAL | 1);
    put_u64(&mut data, 8, ORDINAL | 2);
    put_u64(&mut data, 16, ORDINAL | 3);
    let file = image_around(&data);
    let sections = sections_of(&file);
    assert_eq!(
        parse_ilt(&file, &sections, DATA_OFFSET as u64),
        Err(PeError::UnterminatedImportLookupTable {
            entry: 3,
            offset: (DATA_OFFSET + 24) as u64,
            file_len: DATA_OFFSET + 24,
        })
    );
    assert_eq!(
        parse_ilt(&file, &sections, 0x1_0000_0000),
        Err(PeError::UnterminatedImportLookupTable {
            entry: 0,
            offset: 0x1_0000_0000,
            file_len: DATA_OFFSET + 24,
        })
    );
    assert_eq!(
        parse_ilt(&file, &sections, u64::MAX),
        Err(PeError::UnterminatedImportLookupTable {
            entry: 0,
            offset: u64::MAX,
            file_len: DATA_OFFSET + 24,
        })
    );
}

#[test]
fn directory_at_any_offset() {
    let file = image_with_imports(&two_libraries());
    let sections = sections_of(&file);
    assert_eq!(parse_idt(&file, &sections, DATA_OFFSET as u64, 60).unwrap().len(), 2);
    assert_eq!(parse_idt(&file, &sections, DATA_OFFSET as u64 + 20, 40).unwrap().len(), 1);
    assert_eq!(parse_idt(&file, &sections, DATA_OFFSET as u64 + 40, 20), Ok(vec![]));
    assert_eq!(
        parse_idt(&file, &sections, u64::MAX, 20),
        Err(PeError::UnexpectedEof {
            record: Record::ImportDirectoryEntry { index: 0 },
            offset: u64::MAX,
            file_len: file.len(),
        })
    );
    assert_eq!(
        parse_idt(&file, &sections, file.len() as u64 - 19, usize::MAX),
        Err(PeError::UnexpectedEof {
            record: Record::ImportDirectoryEntry { index: 0 },
            offset: file.len() as u64 - 19,
            file_len: file.len(),
        })
    );
}

#[test]
fn function_name_outside_every_section() {
    let mut data = vec![0u8; 16];
    put_u64(&mut data, 0, 0x0077_0000);
    let file = image_around(&data);
    assert_eq!(
        parse_ilt(&file, &sections_of(&file), DATA_OFFSET as u64),
        Err(within(
            PeError::RvaNotInAnySection { rva: 0x0077_0000 },
            &[Context::FunctionNameRva { index: 0 }]
        ))
    );
}

#[test]
fn function_name_without_terminator() {
    let mut data = vec![0u8; 32];
    put_u64(&mut data, 0, ORDINAL | 9);
    put_u64(&mut data, 8, rva(24) as u64);
    data[24..32].copy_from_slice(b"\x01\x02Broken");
    let file = image_around(&data);
    assert_eq!(
        parse_ilt(&file, &sections_of(&file), DATA_OFFSET as u64),
        Err(within(
            PeError::UnterminatedString { offset: (DATA_OFFSET + 26) as u64, bytes_read: 6 },
            &[Context::FunctionName { index: 1 }]
        ))
    );
}

#[test]
fn function_name_that_is_not_utf8() {
    let mut data = vec![0u8; 40];
    let library_at = push_string(&mut data, "lib.dll");
    let name_at = data.len();
    data.extend_from_slice(b"\0\0bad\xFEname\0");
    let table_at = data.len();
    data.extend_from_slice(&[0u8; 16]);
    put_u64(&mut data, table_at, rva(name_at) as u64);
    put_u32(&mut data, 0, rva(table_at));
    put_u32(&mut data, 0x0C, rva(library_at));
    let mut file = image_around(&data);
    set_import_directory(&mut file, DATA_RVA, 40);
    assert_eq!(
        import_functions(&file),
        Err(within(
            PeError::InvalidUtf8 { offset: (DATA_OFFSET + name_at + 2) as u64, length: 8 },
            &[
                Context::FunctionName { index: 0 },
                Context::ImportLookup { entry: 0 },
                Context::ImportDirectory
            ]
        ))
    );
}

#[test]
fn library_name_and_lookup_table_outside_every_section() {
    let mut data = import_data(&two_libraries());
    put_u32(&mut data, 20, 0x0500_0000);
    let mut file = image_around(&data);
    set_import_directory(&mut file, DATA_RVA, 60);
    assert_eq!(
        import_functions(&file),
        Err(within(
            PeError::RvaNotInAnySection { rva: 0x0500_0000 },
            &[Context::ImportLookupRva { entry: 1 }, Context::ImportDirectory]
        ))
    );
    put_u32(&mut data, 20 + 0x0C, 0x0600_0000);
    let mut file = image_around(&data);
    set_import_directory(&mut file, DATA_RVA, 60);
    assert_eq!(
        import_functions(&file),
        Err(within(
            PeError::RvaNotInAnySection { rva: 0x0600_0000 },
            &[Context::DllNameRva { entry: 1 }, Context::ImportDirectory]
        ))
    );
}

#[test]
fn library_name_without_terminator() {
    let mut data = vec![0u8; 40];
    put_u32(&mut data, 0, rva(0));
    put_u32(&mut data, 0x0C, rva(40));
    data.extend_from_slice(b"open");
    let mut file = image_around(&data);
    set_import_directory(&mut file, DATA_RVA, 40);
    assert_eq!(
        import_functions(&file),
        Err(within(
            PeError::UnterminatedString { offset: (DATA_OFFSET + 40) as u64, bytes_read: 4 },
            &[Context::DllName { entry: 0 }, Context::ImportDirectory]
        ))
    );
}

#[test]
fn import_directory_outside_every_section() {
    let mut file = image_with_imports(&two_libraries());
    set_import_directory(&mut file, 0, 60);
    assert_eq!(
        import_functions(&file),
        Err(within(PeError::RvaNotInAnySection { rva: 0 }, &[Context::ImportDirectoryRva]))
    );
    let end = rva(file.len() - DATA_OFFSET);
    set_import_directory(&mut file, end, 60);
    assert_eq!(
        import_functions(&file),
        Err(within(PeError::RvaNotInAnySection { rva: end }, &[Context::ImportDirectoryRva]))
    );
}

#[test]
fn imports_need_the_headers() {
    assert_eq!(import_functions(&[]), Err(PeError::TooShortForHeaderPointer { file_len: 0 }));
    assert_eq!(
        import_functions(&[0xFF; 0x40]),
        Err(PeError::TooShortForHeaderPointer { file_len: 0x40 })
    );
    assert_eq!(
        import_functions(&[0u8; 0x40]),
        Err(PeError::MissingOptionalHeader)
    );
    let file = image_with_imports(&two_libraries());
    assert_eq!(
        import_functions(&file[..PE_OFFSET + 0x17]),
        Err(within(
            PeError::UnexpectedEof { record: Record::CoffHeader, offset: 0, file_len: 0x17 },
            &[Context::OptionalHeader]
        ))
    );
    let mut pe32 = file.clone();
    pe32[OPTIONAL_HEADER + 1] = 0x01;
    assert_eq!(
        import_functions(&pe32),
        Err(within(PeError::NotPe32Plus, &[Context::OptionalHeader]))
    );
    let mut small = file.clone();
    put_u16(&mut small, PE_OFFSET + 0x14, 0xE0);
    assert_eq!(
        import_functions(&small),
        Err(within(
            PeError::UnexpectedOptionalHeaderSize { size: 0xE0 },
            &[Context::OptionalHeader]
        ))
    );
    let mut many = file.clone();
    put_u16(&mut many, PE_OFFSET + 0x06, 0xFFFF);
    assert_eq!(
        import_functions(&many),
        Err(within(
            PeError::TruncatedSectionTable {
                expected: 0xFFFF,
                available: (file.len() - SECTION_TABLE) / 40
            },
            &[Context::SectionHeaders]
        ))
    );
}

#[test]
fn imports_do_not_need_the_signature() {
    let mut file = image_with_imports(&two_libraries());
    file[PE_OFFSET..PE_OFFSET + 4].copy_from_slice(b"XX\0\0");
    assert!(!is_pe(&file));
    assert_eq!(import_functions(&file).unwrap().len(), 2);
}

#[test]
fn exports_in_table_order() {
    let file = image_with_exports(&["zulu", "Alpha", "mike", "alpha"]);
    assert_eq!(export_functions(&file), Ok(names(&["zulu", "Alpha", "mike", "alpha"])));
}

#[test]
fn export_table_without_names_is_empty() {
    let file = image_with_exports(&[]);
    assert_eq!(export_functions(&file), Ok(vec![]));
}

#[test]
fn export_table_without_names_still_translates_its_name_pointer_table() {
    let mut file = image_with_exports(&[]);
    put_u32(&mut file, DATA_OFFSET + 32, 0);
    assert_eq!(
        export_functions(&file),
        Err(within(PeError::RvaNotInAnySection { rva: 0 }, &[Context::NamePointerTableRva]))
    );
}

#[test]
fn image_without_export_directory() {
    let file = image_with_imports(&two_libraries());
    assert_eq!(export_functions(&file), Err(PeError::ExportDirectoryAbsent { rva: 0 }));
    let mut elsewhere = image_with_exports(&["f"]);
    set_export_directory(&mut elsewhere, 0x0090_0000);
    assert_eq!(
        export_functions(&elsewhere),
        Err(PeError::ExportDirectoryAbsent { rva: 0x0090_0000 })
    );
}

#[test]
fn export_directory_cut_by_the_end_of_the_file() {
    let mut file = image_around(&[0u8; 40]);
    put_u32(&mut file, DATA_OFFSET + 32, DATA_RVA);
    set_export_directory(&mut file, DATA_RVA);
    assert_eq!(file.len(), DATA_OFFSET + 40);
    assert_eq!(export_functions(&file), Ok(vec![]));
    for cut in 1..=40 {
        assert_eq!(
            export_functions(&file[..file.len() - cut]),
            Err(PeError::UnexpectedEof {
                record: Record::ExportDirectoryTable,
                offset: DATA_OFFSET as u64,
                file_len: file.len() - cut,
            })
        );
    }
}

#[test]
fn name_pointer_table_cut_by_the_end_of_the_file() {
    let mut data = Vec::new();
    let first = push_string(&mut data, "first");
    let second = push_string(&mut data, "second");
    let directory_at = data.len();
    data.extend_from_slice(&[0u8; 48]);
    put_u32(&mut data, directory_at + 24, 2);
    put_u32(&mut data, directory_at + 32, rva(directory_at + 40));
    put_u32(&mut data, directory_at + 40, rva(first));
    put_u32(&mut data, directory_at + 44, rva(second));
    let mut file = image_around(&data);
    set_export_directory(&mut file, rva(directory_at));
    assert_eq!(export_functions(&file), Ok(names(&["first", "second"])));
    let len = file.len();
    for cut in 1..=4 {
        assert_eq!(
            export_functions(&file[..len - cut]),
            Err(PeError::UnexpectedEof {
                record: Record::NamePointer { index: 1, count: 2 },
                offset: (len - 4) as u64,
                file_len: len - cut,
            })
        );
    }
    assert_eq!(
        export_functions(&file[..len - 5]),
        Err(PeError::UnexpectedEof {
            record: Record::NamePointer { index: 0, count: 2 },
            offset: (len - 8) as u64,
            file_len: len - 5,
        })
    );
}

#[test]
fn more_name_pointers_than_the_file_holds() {
    let mut file = image_with_exports(&["one", "two"]);
    put_u32(&mut file, DATA_OFFSET + 24, u32::MAX);
    assert_eq!(
        export_functions(&file),
        Err(within(
            PeError::RvaNotInAnySection { rva: u32::from_le_bytes(*b"one\0") },
            &[Context::NamePointerRva { index: 2 }]
        ))
    );
}

#[test]
fn exported_name_outside_every_section() {
    let mut file = image_with_exports(&["one", "two", "three"]);
    put_u32(&mut file, DATA_OFFSET + 40 + 8, 0x00A0_0000);
    assert_eq!(
        export_functions(&file),
        Err(within(
            PeError::RvaNotInAnySection { rva: 0x00A0_0000 },
            &[Context::NamePointerRva { index: 2 }]
        ))
    );
}

#[test]
fn exported_name_without_terminator() {
    let mut file = image_with_exports(&["one", "two"]);
    let len = file.len();
    file.truncate(len - 1);
    assert_eq!(
        export_functions(&file),
        Err(within(
            PeError::UnterminatedString { offset: (len - 4) as u64, bytes_read: 3 },
            &[Context::ExportName { index: 1 }]
        ))
    );
}

#[test]
fn exported_name_that_is_not_utf8() {
    let mut file = image_with_exports(&["good", "bad!"]);
    let len = file.len();
    file[len - 2] = 0x80;
    assert_eq!(
        export_functions(&file),
        Err(within(
            PeError::InvalidUtf8 { offset: (len - 5) as u64, length: 4 },
            &[Context::ExportName { index: 1 }]
        ))
    );
}

#[test]
fn exports_need_the_headers() {
    assert_eq!(export_functions(&[]), Err(PeError::TooShortForHeaderPointer { file_len: 0 }));
    assert_eq!(export_functions(&[0u8; 0x40]), Err(PeError::MissingOptionalHeader));
}

#[test]
fn truncation_of_imports_at_every_offset() {
    let file = image_with_both(
        &[
            ("KERNEL32.dll", vec![Entry::Name("ExitProcess"), Entry::Ordinal(4), Entry::Name("Sleep")]),
            ("USER32.dll", vec![Entry::Name("MessageBoxW")]),
        ],
        &["exported_one", "exported_two"],
    );
    let whole = import_functions(&file).unwrap();
    assert_eq!(whole.len(), 2);
    let mut complete = 0;
    for cut in 0..=file.len() {
        match import_functions(&file[..cut]) {
            Ok(found) => {
                assert_eq!(found, whole, "cut at {}", cut);
                complete += 1;
            },
            Err(error) => {
                assert!(error.truncated(), "cut at {}: {:?}", cut, error);
                let cause = error.root_cause();
                if cut < 0x40 {
                    assert_eq!(cause, &PeError::TooShortForHeaderPointer { file_len: cut });
                } else if cut < PE_OFFSET + 0x18 {
                    assert_eq!(
                        cause,
                        &PeError::UnexpectedEof {
                            record: Record::CoffHeader,
                            offset: 0,
                            file_len: cut - PE_OFFSET
                        }
                    );
                } else if cut < SECTION_TABLE {
                    assert_eq!(
                        cause,
                        &PeError::OptionalHeaderTooShort { available: cut - OPTIONAL_HEADER }
                    );
                } else if cut < SECTION_TABLE + 40 {
                    assert_eq!(
                        cause,
                        &PeError::TruncatedSectionTable { expected: 1, available: 0 }
                    );
                } else if cut < DATA_OFFSET + 20 {
                    assert_eq!(
                        cause,
                        &PeError::UnexpectedEof {
                            record: Record::ImportDirectoryEntry { index: 0 },
                            offset: DATA_OFFSET as u64,
                            file_len: cut,
                        }
                    );
                }
            },
        }
    }
    assert!(complete >= 1);
    assert!(complete < file.len() - DATA_OFFSET);
}

#[test]
fn truncation_of_exports_at_every_offset() {
    let file = image_with_both(
        &[("KERNEL32.dll", vec![Entry::Name("ExitProcess")])],
        &["exported_one", "exported_two", "exported_three"],
    );
    let whole = export_functions(&file).unwrap();
    assert_eq!(whole, names(&["exported_one", "exported_two", "exported_three"]));
    for cut in 0..file.len() {
        match export_functions(&file[..cut]) {
            Ok(found) => panic!("cut at {} gave {:?}", cut, found),
            Err(error) => assert!(error.truncated(), "cut at {}: {:?}", cut, error),
        }
    }
}

#[test]
fn truncated_zero_buffers() {
    for len in 0..0x200usize {
        let zeros = vec![0u8; len];
        assert!(!(len < 0x40 && is_pe(&zeros)));
        assert!(import_functions(&zeros).is_err());
        assert!(export_functions(&zeros).is_err());
    }
}

#[test]
fn run_is_pe() {
    let arguments = Cli { subcommand: Subcommands::IsPe { filepath: None } };
    let Report { lines, exit_code } = run(&arguments, &image_with_imports(&[])).unwrap();
    assert_eq!(lines, names(&["PE"]));
    assert_eq!(exit_code, 0);
    let Report { lines, exit_code } = run(&arguments, &[0u8; 0x40]).unwrap();
    assert_eq!(lines, names(&["Not PE"]));
    assert_eq!(exit_code, 1);
    let Report { lines, exit_code } = run(&arguments, &[]).unwrap();
    assert_eq!(lines, names(&["Not PE"]));
    assert_eq!(exit_code, 1);
}

#[test]
fn run_import_functions() {
    let arguments = Cli {
        subcommand: Subcommands::ImportFunctions { filepath: Some(PathBuf::from("some.exe")) },
    };
    let file = image_with_imports(&[
        ("KERNEL32.dll", vec![Entry::Name("ExitProcess"), Entry::Ordinal(2), Entry::Name("Sleep")]),
        ("none.dll", vec![]),
        ("USER32.dll", vec![Entry::Name("MessageBoxW")]),
    ]);
    let Report { lines, exit_code } = run(&arguments, &file).unwrap();
    assert_eq!(
        lines,
        names(&[
            "KERNEL32.dll",
            "    ExitProcess",
            "    Sleep",
            "none.dll",
            "USER32.dll",
            "    MessageBoxW"
        ])
    );
    assert_eq!(exit_code, 0);
    assert_eq!(
        run(&arguments, &[0u8; 3]).err(),
        Some(PeError::TooShortForHeaderPointer { file_len: 3 })
    );
}

#[test]
fn run_export_functions() {
    let arguments = Cli { subcommand: Subcommands::ExportFunctions { filepath: None } };
    let Report { lines, exit_code } = run(&arguments, &image_with_exports(&["b", "a"])).unwrap();
    assert_eq!(lines, names(&["b", "a"]));
    assert_eq!(exit_code, 0);
    assert_eq!(
        run(&arguments, &image_with_imports(&[])).err(),
        Some(PeError::ExportDirectoryAbsent { rva: 0 })
    );
}

#[test]
fn render_imports_indents_functions() {
    assert_eq!(render_imports(&[]), Vec::<String>::new());
    let found = vec![
        ("a.dll".to_string(), names(&["f", "g"])),
        ("b.dll".to_string(), vec![]),
        ("".to_string(), names(&[""])),
    ];
    assert_eq!(render_imports(&found), names(&["a.dll", "    f", "    g", "b.dll", "", "    "]));
}

#[test]
fn subcommand_names_its_file() {
    let path = Some(PathBuf::from("dir/file.dll"));
    assert_eq!(Subcommands::IsPe { filepath: path.clone() }.filepath(), &path);
    assert_eq!(Subcommands::ImportFunctions { filepath: path.clone() }.filepath(), &path);
    assert_eq!(Subcommands::ExportFunctions { filepath: path.clone() }.filepath(), &path);
    assert_eq!(Subcommands::IsPe { filepath: None }.filepath(), &None);
}
