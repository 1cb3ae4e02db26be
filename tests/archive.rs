use bec_extract::entry::{read_file_entry, FileEntry};
use bec_extract::error::{ExtractError, ReadError};
use bec_extract::extract::{extract_all, extract_entry, read_header, ArchiveHeader};
use bec_extract::names::{fallback_name, hash_key};
use bec_extract::offset::resolve_offset;
use bec_extract::reader::{read_byte, read_bytes, read_short_le, read_word, read_word_le};
use bec_extract::table::{choose_name, resolve_name};

fn table(text: &str) -> serde_json::Value {
    serde_json::from_str(text).unwrap()
}

fn put_u32_le(buf: &mut Vec<u8>, at: usize, v: u32) {
    buf[at..at + 4].copy_from_slice(&v.to_le_bytes());
}

/// Header with the given alignment and count, then `len - 16` zero bytes.
fn archive(alignment: u16, count: u32, len: usize) -> Vec<u8> {
    let mut buf = vec![0u8; len];
    buf[6..8].copy_from_slice(&alignment.to_le_bytes());
    put_u32_le(&mut buf, 8, count);
    buf
}

fn slot(buf: &mut Vec<u8>, index: usize, hash: u32, offset: u32, cor: [u8; 3], flag: u8, size: u32) {
    let at = (index + 1) * 16;
    put_u32_le(buf, at, hash);
    put_u32_le(buf, at + 4, offset);
    buf[at + 8] = cor[0];
    buf[at + 9] = cor[1];
    buf[at + 10] = cor[2];
    buf[at + 11] = flag;
    put_u32_le(buf, at + 12, size);
}

fn single_entry_archive() -> Vec<u8> {
    let mut buf = archive(0x10, 1, 0x24);
    slot(&mut buf, 0, 0x1, 0x20, [0, 0, 0], 0, 4);
    buf[0x20..0x24].copy_from_slice(&[0xDE, 0xAD, 0xBE, 0xEF]);
    buf
}

#[test]
fn named_entry_is_extracted() {
    let buf = single_entry_archive();
    let t = table(r#"{"0x1": "hello.txt"}"#);
    let out = extract_all(&buf, &t).unwrap();
    assert_eq!(out.len(), 1);
    assert_eq!(out[0].name, "hello.txt");
    assert_eq!(out[0].bytes, vec![0xDE, 0xAD, 0xBE, 0xEF]);
}

#[test]
fn unnamed_entry_gets_its_index() {
    let buf = single_entry_archive();
    let t = table(r#"{"0x2": "other.txt"}"#);
    let out = extract_all(&buf, &t).unwrap();
    assert_eq!(out.len(), 1);
    assert_eq!(out[0].name, "0");
    assert_eq!(out[0].bytes, vec![0xDE, 0xAD, 0xBE, 0xEF]);
}

#[test]
fn truncated_second_payload_fails() {
    let mut buf = archive(0x10, 2, 0x54);
    slot(&mut buf, 0, 0x1, 0x40, [0, 0, 0], 0, 4);
    slot(&mut buf, 1, 0x2, 0x50, [0, 0, 0], 0, 8);
    buf[0x40..0x44].copy_from_slice(&[1, 2, 3, 4]);
    let t = table("{}");
    let expected = ExtractError::Read(ReadError { offset: 0x50, width: 8 });
    assert_eq!(extract_all(&buf, &t).err(), Some(expected));
    let header = read_header(&buf).unwrap();
    let first = extract_entry(&buf, &header, &t, 0).unwrap();
    assert_eq!(first.name, "0");
    assert_eq!(first.bytes, vec![1, 2, 3, 4]);
    assert_eq!(extract_entry(&buf, &header, &t, 1).err(), Some(expected));
}

#[test]
fn missing_slot_fails() {
    let buf = archive(0x10, 2, 0x18);
    let t = table("{}");
    assert_eq!(
        extract_all(&buf, &t).err(),
        Some(ExtractError::Read(ReadError { offset: 0x10, width: 16 }))
    );
}

#[test]
fn empty_directory_extracts_nothing() {
    let buf = archive(0x10, 0, 0x10);
    let out = extract_all(&buf, &table("{}")).unwrap();
    assert!(out.is_empty());
}

#[test]
fn several_entries_in_directory_order() {
    let mut buf = archive(0x10, 3, 0x70);
    slot(&mut buf, 0, 0xabc, 0x40, [0, 0, 0], 0, 2);
    slot(&mut buf, 1, 0x2, 0x50, [0, 0, 0], 0, 1);
    slot(&mut buf, 2, 0x3, 0x60, [0, 0, 0], 0, 3);
    buf[0x40] = 9;
    buf[0x41] = 8;
    buf[0x50] = 7;
    buf[0x60..0x63].copy_from_slice(&[6, 5, 4]);
    let t = table(r#"{"0xabc": "dir/a.bin", "0x3": "c.bin"}"#);
    let out = extract_all(&buf, &t).unwrap();
    let names: Vec<&str> = out.iter().map(|x| x.name.as_str()).collect();
    assert_eq!(names, vec!["dir/a.bin", "1", "c.bin"]);
    assert_eq!(out[0].bytes, vec![9, 8]);
    assert_eq!(out[1].bytes, vec![7]);
    assert_eq!(out[2].bytes, vec![6, 5, 4]);
}

#[test]
fn non_string_name_is_an_error() {
    let buf = single_entry_archive();
    let t = table(r#"{"0x1": 5}"#);
    assert_eq!(
        extract_all(&buf, &t).err(),
        Some(ExtractError::MalformedName { path_hash: 1 })
    );
}

#[test]
fn header_fields() {
    let buf = archive(0x800, 0x01020304, 0x10);
    assert_eq!(
        read_header(&buf),
        Ok(ArchiveHeader { file_alignment: 0x800, entry_count: 0x01020304 })
    );
}

#[test]
fn short_header_fails() {
    assert_eq!(read_header(&[0u8; 7]), Err(ReadError { offset: 6, width: 2 }));
    assert_eq!(read_header(&[0u8; 11]), Err(ReadError { offset: 8, width: 4 }));
    assert_eq!(read_header(&[0u8; 12]).map(|h| h.entry_count), Ok(0));
}

#[test]
fn slot_fields_are_decoded() {
    let mut buf = vec![0u8; 0x20];
    slot(&mut buf, 0, 0x11223344, 0x55667788, [0x01, 0x02, 0x03], 0xAB, 0x99AABBCC);
    let e = read_file_entry(&buf, 0x10).unwrap();
    assert_eq!(
        e,
        FileEntry {
            path_hash: 0x11223344,
            declared_offset: 0x55667788,
            correction: 0x030201,
            flag_byte: 0xAB,
            data_size: 0x99AABBCC,
        }
    );
}

#[test]
fn slot_past_end_fails() {
    let buf = vec![0u8; 0x1F];
    assert_eq!(read_file_entry(&buf, 0x10), Err(ReadError { offset: 0x10, width: 16 }));
}

#[test]
fn offset_without_correction() {
    assert_eq!(resolve_offset(0x20, 0, 0x10), 0x20);
    assert_eq!(resolve_offset(0x21, 0, 0x10), 0x30);
    assert_eq!(resolve_offset(0x28, 0, 0x10), 0x30);
}

#[test]
fn offset_with_correction_adds_eight() {
    assert_eq!(resolve_offset(0x20, 1, 0x10), 0x30);
    assert_eq!(resolve_offset(0x20, 0x100, 0x800), 0x800);
    assert_eq!(resolve_offset(0x100, 0x0F0, 0x10), 0x200);
    assert_eq!(resolve_offset(0x100, 0x0F8, 0x10), 0x200);
    assert_eq!(resolve_offset(0x100, 0x0F7, 0x10), 0x1F0 + 0x10);
}

#[test]
fn offset_wraps_in_32_bits() {
    assert_eq!(resolve_offset(0xFFFF_FFF0, 0, 0x10), 0xFFFF_FFF0);
    assert_eq!(resolve_offset(0xFFFF_FFF8, 0, 0x10), 0);
    assert_eq!(resolve_offset(0x1234, 0, 0), 0);
    assert_eq!(resolve_offset(0x1235, 0, 1), 0x1235);
}

#[test]
fn offset_is_a_multiple_of_alignment() {
    for a in [1u16, 2, 4, 0x10, 0x800, 0x8000] {
        for d in [0u32, 1, 0x7F, 0x1234_5677, 0xFFFF_FFFF] {
            for c in [0u32, 1, 0xFF_FFFF] {
                assert_eq!(resolve_offset(d, c, a) % a as u32, 0);
            }
        }
    }
}

#[test]
fn words_in_both_byte_orders() {
    let buf = [0x12u8, 0x34, 0x56, 0x78, 0x9A];
    assert_eq!(read_word(&buf, 0), Ok(0x12345678));
    assert_eq!(read_word_le(&buf, 0), Ok(0x78563412));
    assert_eq!(read_word_le(&buf, 1), Ok(0x9A785634));
    assert_eq!(read_short_le(&buf, 3), Ok(0x9A78));
    assert_eq!(read_byte(&buf, 4), Ok(0x9A));
}

#[test]
fn reads_past_end_fail() {
    let buf = [0u8; 4];
    assert_eq!(read_word(&buf, 1), Err(ReadError { offset: 1, width: 4 }));
    assert_eq!(read_word_le(&buf, u64::MAX), Err(ReadError { offset: u64::MAX, width: 4 }));
    assert_eq!(read_short_le(&buf, 3), Err(ReadError { offset: 3, width: 2 }));
    assert_eq!(read_byte(&buf, 4), Err(ReadError { offset: 4, width: 1 }));
    assert_eq!(read_bytes(&buf, 2, 3), Err(ReadError { offset: 2, width: 3 }));
    assert_eq!(read_bytes(&buf, 2, 2), Ok(vec![0, 0]));
    assert_eq!(read_bytes(&buf, 4, 0), Ok(vec![]));
}

#[test]
fn keys_are_lower_case_hex() {
    assert_eq!(hash_key(0), "0x0");
    assert_eq!(hash_key(0x1), "0x1");
    assert_eq!(hash_key(0xDEADBEEF), "0xdeadbeef");
    assert_eq!(hash_key(0x00F0), "0xf0");
}

#[test]
fn fallback_names_are_decimal() {
    assert_eq!(fallback_name(0), "0");
    assert_eq!(fallback_name(10), "10");
    assert_eq!(fallback_name(1234), "1234");
    assert_eq!(fallback_name(u32::MAX), "4294967295");
    assert_ne!(fallback_name(1), fallback_name(11));
}

#[test]
fn name_from_lookup_result() {
    assert_eq!(choose_name(None, 7, 3), Ok("3".to_string()));
    assert_eq!(choose_name(Some(Some("a/b.txt".to_string())), 7, 3), Ok("a/b.txt".to_string()));
    assert_eq!(choose_name(Some(None), 7, 3), Err(ExtractError::MalformedName { path_hash: 7 }));
}

#[test]
fn name_through_table() {
    let t = table(r#"{"0xdeadbeef": "x/y.dat", "0xff": null}"#);
    assert_eq!(resolve_name(&t, 0xDEADBEEF, 4), Ok("x/y.dat".to_string()));
    assert_eq!(resolve_name(&t, 0xDEADBEEE, 4), Ok("4".to_string()));
    assert_eq!(resolve_name(&t, 0xFF, 4), Err(ExtractError::MalformedName { path_hash: 0xFF }));
    let not_object = table("[1, 2]");
    assert_eq!(resolve_name(&not_object, 1, 12), Ok("12".to_string()));
}
