use ironworks::crc::crc32_range;
use ironworks::error::Error;
use ironworks::file::{read_block, read_failed, read_file};
use ironworks::strutil::to_identifier;

use std::io::Read;

fn le32(v: &mut Vec<u8>, x: u32) {
    v.extend_from_slice(&x.to_le_bytes());
}

fn le16(v: &mut Vec<u8>, x: u16) {
    v.extend_from_slice(&x.to_le_bytes());
}

fn deflate(data: &[u8]) -> Vec<u8> {
    let mut enc = flate2::read::DeflateEncoder::new(data, flate2::Compression::new(6));
    let mut out = Vec::new();
    enc.read_to_end(&mut out).unwrap();
    out
}

/// A block header followed by its payload: compressed when the stored
/// size is at most 16000, raw otherwise.
fn block(payload: &[u8], raw: bool) -> Vec<u8> {
    let mut v = Vec::new();
    let body = if raw { payload.to_vec() } else { deflate(payload) };
    le32(&mut v, 16);
    le32(&mut v, 0);
    if raw {
        le32(&mut v, 16001);
    } else {
        le32(&mut v, body.len() as u32);
    }
    le32(&mut v, payload.len() as u32);
    v.extend_from_slice(&body);
    v
}

fn file_header(v: &mut Vec<u8>, size: u32, kind: u32, raw_size: u32, block_count: u32) {
    le32(v, size);
    le32(v, kind);
    le32(v, raw_size);
    le32(v, 0);
    le32(v, 0);
    le32(v, block_count);
}

/// A Standard file at offset 0 of a fresh buffer, one table entry and
/// one stored block per payload.
fn standard_file(payloads: &[&[u8]], raw_size: u32) -> Vec<u8> {
    let blocks: Vec<Vec<u8>> = payloads.iter().map(|p| block(p, false)).collect();
    let header_size = 24 + 8 * payloads.len() as u32;
    let mut v = Vec::new();
    file_header(&mut v, header_size, 2, raw_size, payloads.len() as u32);
    let mut off = 0u32;
    for (p, b) in payloads.iter().zip(blocks.iter()) {
        le32(&mut v, off);
        le16(&mut v, b.len() as u16);
        le16(&mut v, p.len() as u16);
        off += b.len() as u32;
    }
    for b in blocks.iter() {
        v.extend_from_slice(b);
    }
    v
}

#[test]
fn raw_block_above_boundary() {
    // A stored size of 16001 marks the block as raw: the payload is the
    // bytes themselves, which are not a DEFLATE stream.
    let mut v = Vec::new();
    le32(&mut v, 16);
    le32(&mut v, 0);
    le32(&mut v, 16001);
    le32(&mut v, 3);
    v.extend_from_slice(b"abc");
    let out = read_block(&v, 0).unwrap();
    assert_eq!(out, b"abc".to_vec());
}

#[test]
fn compressed_block_at_boundary() {
    // A stored size of exactly 16000 still means compressed: the payload
    // is a DEFLATE stream, not the bytes themselves.
    let body = deflate(b"abc");
    let mut v = Vec::new();
    le32(&mut v, 16);
    le32(&mut v, 0);
    le32(&mut v, 16000);
    le32(&mut v, 3);
    v.extend_from_slice(&body);
    let out = read_block(&v, 0).unwrap();
    assert_eq!(out, b"abc".to_vec());
    assert_ne!(body, b"abc".to_vec());
}

#[test]
fn empty_file_yields_empty_buffer() {
    let mut v = Vec::new();
    file_header(&mut v, 24, 1, 0, 0);
    let out = read_file(&v, 0).unwrap();
    assert_eq!(out.len(), 0);
}

#[test]
fn empty_file_with_nonzero_size_is_fatal() {
    let mut v = Vec::new();
    file_header(&mut v, 24, 1, 5, 0);
    match read_file(&v, 0) {
        Err(Error::Resource(m)) => {
            assert_eq!(m, "Failed to read file. Expected 5 bytes, got 0.");
        }
        _ => panic!("expected a resource error"),
    }
}

#[test]
fn standard_file_decodes_all_blocks() {
    let v = standard_file(&[b"HELLO", b" WORLD"], 11);
    let out = read_file(&v, 0).unwrap();
    assert_eq!(out, b"HELLO WORLD".to_vec());
    assert_eq!(out.len(), 11);
}

#[test]
fn short_file_is_fatal_with_exact_detail() {
    // The last block is one byte short of the declared file size: every
    // block is consistent, the file-level check fails.
    let v = standard_file(&[b"HELLO", b" WORL"], 11);
    match read_file(&v, 0) {
        Err(Error::Resource(m)) => {
            assert_eq!(m, "Failed to read file. Expected 11 bytes, got 10.");
        }
        _ => panic!("expected a resource error"),
    }
}

#[test]
fn block_size_mismatch_is_fatal() {
    // The table declares six decoded bytes; the block yields five.
    let mut v = standard_file(&[b"HELLO"], 5);
    // Patch the declared decoded size of the single table entry.
    let ds_pos = 24 + 6;
    v[ds_pos] = 6;
    match read_file(&v, 0) {
        Err(Error::Resource(m)) => {
            assert_eq!(m, "Failed to read block. Expected 6 bytes, got 5.");
        }
        _ => panic!("expected a resource error"),
    }
}

#[test]
fn unsupported_kind_is_fatal() {
    let mut v = Vec::new();
    file_header(&mut v, 24, 3, 0, 0);
    match read_file(&v, 0) {
        Err(Error::Resource(m)) => {
            assert_eq!(m, "Failed to read file. Unsupported kind 3.");
        }
        _ => panic!("expected a resource error"),
    }
}

#[test]
fn texture_prelude_is_copied_raw() {
    // One LOD whose raw region starts 80 bytes in: the gap is the
    // texture's own header, copied through before the sub-blocks.
    let sub = block(b"TEX", false);
    let mut v = Vec::new();
    file_header(&mut v, 128, 4, 83, 1);
    le32(&mut v, 80); // compressed_offset
    le32(&mut v, sub.len() as u32);
    le32(&mut v, 3);
    le32(&mut v, 0); // block_offset
    le32(&mut v, 1); // block_count
    le16(&mut v, sub.len() as u16);
    while v.len() < 128 + 80 {
        v.push(0);
    }
    v.extend_from_slice(&sub);
    let out = read_file(&v, 0).unwrap();
    assert_eq!(out.len(), 83);
    assert_eq!(&out[..80], &[0u8; 80][..]);
    assert_eq!(&out[80..], b"TEX");
}

#[test]
fn truncated_header_is_fatal() {
    let v = vec![0u8; 10];
    match read_file(&v, 0) {
        Err(Error::Resource(m)) => {
            assert_eq!(m, "Failed to read file header. Expected 24 bytes, got 10.");
        }
        _ => panic!("expected a resource error"),
    }
}

#[test]
fn crc_matches_reference_value() {
    // The reflected polynomial without the final complement.
    let v = b"123456789".to_vec();
    assert_eq!(crc32_range(&v, 0, 9), 0x340BC6D9);
}

#[test]
fn read_failed_formats_counts() {
    let m = read_failed("block", 4096, 4088);
    assert_eq!(m, "Failed to read block. Expected 4096 bytes, got 4088.");
}

#[test]
fn identifier_strips_punctuation() {
    assert_eq!(to_identifier("Foo/Bar_9!"), "FooBar9");
    assert_eq!(to_identifier(""), "");
    assert_eq!(to_identifier("abc"), "abc");
}
