use pe_parser::error::{PeError, Record};
use pe_parser::header::{get_optional_header, require_pe, strip_pe};
use pe_parser::is_pe;

fn file_with_pe_at(pointer: u32, len: usize) -> Vec<u8> {
    let mut file = vec![0u8; len];
    file[0x3C..0x40].copy_from_slice(&pointer.to_le_bytes());
    file
}

fn pe_part_with_optional_header_size(size: u16, len: usize) -> Vec<u8> {
    let mut pe = vec![0u8; len];
    pe[0..4].copy_from_slice(b"PE\0\0");
    pe[0x14..0x16].copy_from_slice(&size.to_le_bytes());
    pe
}

#[test]
fn buffers_shorter_than_0x40_are_not_pe() {
    for len in 0..0x40usize {
        let zeros = vec![0u8; len];
        assert!(!is_pe(&zeros), "{} zero bytes", len);
        let mut letters = Vec::new();
        while letters.len() < len {
            letters.extend_from_slice(b"PE\0\0");
        }
        letters.truncate(len);
        assert!(!is_pe(&letters), "{} signature bytes", len);
    }
}

#[test]
fn zero_buffer_of_0x40_bytes_is_not_pe() {
    let file = [0u8; 0x40];
    assert_eq!(strip_pe(&file), Some(&file[..]));
    assert!(!is_pe(&file));
}

#[test]
fn signature_at_the_pointer_is_pe() {
    let mut file = file_with_pe_at(0x40, 0x44);
    file[0x40..0x44].copy_from_slice(b"PE\0\0");
    assert!(is_pe(&file));
    assert_eq!(require_pe(&file), Ok(()));
}

#[test]
fn signature_at_offset_zero_is_pe() {
    let mut file = vec![0u8; 0x40];
    file[0..4].copy_from_slice(b"PE\0\0");
    assert!(is_pe(&file));
}

#[test]
fn any_other_four_bytes_are_not_pe() {
    let wrong: [&[u8; 4]; 6] = [b"PE\0\x01", b"PE\x01\0", b"PF\0\0", b"QE\0\0", b"MZ\0\0", b"\0\0\0\0"];
    for signature in wrong {
        let mut file = file_with_pe_at(0x80, 0x100);
        file[0x80..0x84].copy_from_slice(signature);
        assert!(!is_pe(&file));
        assert_eq!(require_pe(&file), Err(PeError::NotAPeImage { offset: 0x80 }));
    }
}

#[test]
fn signature_elsewhere_does_not_count() {
    let mut file = file_with_pe_at(0x80, 0x100);
    file[0x40..0x44].copy_from_slice(b"PE\0\0");
    file[0x84..0x88].copy_from_slice(b"PE\0\0");
    assert!(!is_pe(&file));
}

#[test]
fn signature_cut_short_is_not_pe() {
    let mut file = file_with_pe_at(0x40, 0x43);
    file[0x40..0x43].copy_from_slice(b"PE\0");
    assert!(!is_pe(&file));
    assert_eq!(require_pe(&file), Err(PeError::NotAPeImage { offset: 0x40 }));
}

#[test]
fn pointer_to_the_end_gives_an_empty_pe_part() {
    let file = file_with_pe_at(0x40, 0x40);
    assert_eq!(strip_pe(&file), Some(&file[0x40..]));
    assert!(!is_pe(&file));
}

#[test]
fn pointer_past_the_end_gives_no_pe_part() {
    let file = file_with_pe_at(0x41, 0x40);
    assert_eq!(strip_pe(&file), None);
    assert!(!is_pe(&file));
    assert_eq!(require_pe(&file), Err(PeError::TooShortForHeaderPointer { file_len: 0x40 }));
    let far = file_with_pe_at(u32::MAX, 0x100);
    assert_eq!(strip_pe(&far), None);
}

#[test]
fn short_file_gives_no_pe_part() {
    assert_eq!(strip_pe(&[]), None);
    assert_eq!(strip_pe(&[0u8; 0x3F]), None);
    assert_eq!(require_pe(&[0u8; 0x3F]), Err(PeError::TooShortForHeaderPointer { file_len: 0x3F }));
}

#[test]
fn pe_part_starts_at_the_pointer() {
    let mut file = file_with_pe_at(0x50, 0x60);
    for (i, byte) in file.iter_mut().enumerate().skip(0x40) {
        *byte = i as u8;
    }
    assert_eq!(strip_pe(&file), Some(&file[0x50..]));
}

#[test]
fn no_optional_header_is_ok_none() {
    let mut file = file_with_pe_at(0x40, 0x40);
    file.extend_from_slice(&pe_part_with_optional_header_size(0, 0x18));
    let pe = strip_pe(&file).unwrap();
    assert_eq!(pe.len(), 0x18);
    assert_eq!(get_optional_header(pe), Ok(None));
}

#[test]
fn optional_header_size_0x20_is_unexpected() {
    let mut pe = pe_part_with_optional_header_size(0x20, 0x18 + 0xF0);
    pe[0x18] = 0x0B;
    pe[0x19] = 0x02;
    assert_eq!(
        get_optional_header(&pe),
        Err(PeError::UnexpectedOptionalHeaderSize { size: 0x20 })
    );
}

#[test]
fn optional_header_sizes_next_to_240_are_unexpected() {
    for size in [1u16, 0xE0, 0xEF, 0xF1, 0xF000, u16::MAX] {
        let pe = pe_part_with_optional_header_size(size, 0x400);
        assert_eq!(
            get_optional_header(&pe),
            Err(PeError::UnexpectedOptionalHeaderSize { size })
        );
    }
}

#[test]
fn optional_header_of_pe32_plus_is_borrowed() {
    let mut pe = pe_part_with_optional_header_size(0xF0, 0x18 + 0xF0 + 5);
    pe[0x18] = 0x0B;
    pe[0x19] = 0x02;
    pe[0x18 + 0xEF] = 0x77;
    pe[0x18 + 0xF0] = 0x99;
    let header = get_optional_header(&pe).unwrap().unwrap();
    assert_eq!(&header[..], &pe[0x18..0x108]);
    assert_eq!(header[0xEF], 0x77);
}

#[test]
fn optional_header_of_pe32_is_refused() {
    let mut pe = pe_part_with_optional_header_size(0xF0, 0x18 + 0xF0);
    pe[0x18] = 0x0B;
    pe[0x19] = 0x01;
    assert_eq!(get_optional_header(&pe), Err(PeError::NotPe32Plus));
    pe[0x18] = 0x0A;
    pe[0x19] = 0x02;
    assert_eq!(get_optional_header(&pe), Err(PeError::NotPe32Plus));
    pe[0x18] = 0x02;
    pe[0x19] = 0x0B;
    assert_eq!(get_optional_header(&pe), Err(PeError::NotPe32Plus));
}

#[test]
fn optional_header_cut_short() {
    let mut pe = pe_part_with_optional_header_size(0xF0, 0x18 + 0xEF);
    pe[0x18] = 0x0B;
    pe[0x19] = 0x02;
    assert_eq!(
        get_optional_header(&pe),
        Err(PeError::OptionalHeaderTooShort { available: 0xEF })
    );
    pe.truncate(0x18);
    assert_eq!(
        get_optional_header(&pe),
        Err(PeError::OptionalHeaderTooShort { available: 0 })
    );
}

#[test]
fn coff_header_cut_short() {
    for len in 0..0x18usize {
        let pe = vec![0u8; len];
        assert_eq!(
            get_optional_header(&pe),
            Err(PeError::UnexpectedEof { record: Record::CoffHeader, offset: 0, file_len: len })
        );
    }
}
