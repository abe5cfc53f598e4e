use ironworks::crc::crc32_range;
use ironworks::error::Error;
use ironworks::excel::{Excel, SqPackResource};
use ironworks::exh::SheetKind;
use ironworks::ffxiv::{SqPackFfxiv, ffxiv_at};
use ironworks::data::{Data, Version};
use ironworks::exh::ColumnDefinition;
use ironworks::row::{FieldValue, RowReader};
use ironworks::sheet::RowOptions;
use ironworks::sqpack::{Category, Repository, SqPack};

fn le32(v: &mut Vec<u8>, x: u32) {
    v.extend_from_slice(&x.to_le_bytes());
}

fn le16(v: &mut Vec<u8>, x: u16) {
    v.extend_from_slice(&x.to_le_bytes());
}

fn be16(v: &mut Vec<u8>, x: u16) {
    v.extend_from_slice(&x.to_be_bytes());
}

fn be32(v: &mut Vec<u8>, x: u32) {
    v.extend_from_slice(&x.to_be_bytes());
}

/// A raw (stored) block: sixteen-byte header, then the bytes themselves.
fn raw_block(payload: &[u8]) -> Vec<u8> {
    let mut v = Vec::new();
    le32(&mut v, 16);
    le32(&mut v, 0);
    le32(&mut v, 16001);
    le32(&mut v, payload.len() as u32);
    v.extend_from_slice(payload);
    v
}

/// A Standard file holding `content` in one raw block.
fn standard_file(content: &[u8]) -> Vec<u8> {
    let b = raw_block(content);
    let mut v = Vec::new();
    le32(&mut v, 32);
    le32(&mut v, 2);
    le32(&mut v, content.len() as u32);
    le32(&mut v, 0);
    le32(&mut v, 0);
    le32(&mut v, 1);
    le32(&mut v, 0);
    le16(&mut v, b.len() as u16);
    le16(&mut v, content.len() as u16);
    v.extend_from_slice(&b);
    v
}

/// The index key the archive computes for an already-lowercased path.
fn key_of(path: &str) -> u64 {
    let b: Vec<u8> = path.bytes().collect();
    let slash = path.rfind('/').unwrap();
    let dir = crc32_range(&b, 0, slash) as u64;
    let file = crc32_range(&b, slash + 1, b.len()) as u64;
    dir * 0x100000000 + file
}

/// An `.index` buffer: the segment record at 1024 points at the entry
/// array right behind it.
fn index_of(entries: &[(u64, u64)]) -> Vec<u8> {
    let mut v = vec![0u8; 1024];
    le32(&mut v, 1032);
    le32(&mut v, 16 * entries.len() as u32);
    for (hash, offset) in entries {
        v.extend_from_slice(&hash.to_le_bytes());
        le32(&mut v, (offset / 8) as u32);
        le32(&mut v, 0);
    }
    v
}

/// Lay the given files out in one `.dat` buffer at 128-byte strides and
/// build the archive around them: one repository `ffxiv` (the default),
/// the stock categories, one chunk per category used.
fn archive(files: &[(&str, Vec<u8>)]) -> SqPack {
    let mut sq: SqPack = SqPack::ffxiv_at("/tmp/none");
    let mut dat: Vec<u8> = Vec::new();
    let mut entries: Vec<(u64, u64)> = Vec::new();
    for (path, content) in files {
        while dat.len() % 128 != 0 {
            dat.push(0);
        }
        entries.push((key_of(path), dat.len() as u64));
        dat.extend_from_slice(content);
    }
    let index = index_of(&entries);
    // One chunk per category that the paths use.
    let mut cats: Vec<u8> = Vec::new();
    for (path, _) in files {
        let cat = match path.split('/').next().unwrap() {
            "common" => 0x00u8,
            "exd" => 0x0au8,
            other => panic!("no category id for {other}"),
        };
        if !cats.contains(&cat) {
            cats.push(cat);
        }
    }
    for cat in cats {
        sq.add_chunk(0, cat, 0, &index, vec![dat.clone()]).unwrap();
    }
    sq
}

/// An `.exh` buffer.
fn exh(
    row_size: u16,
    kind: u8,
    columns: &[(u16, u16)],
    pages: &[(u32, u32)],
    languages: &[u8],
) -> Vec<u8> {
    let mut v = Vec::new();
    v.extend_from_slice(b"EXHF");
    be16(&mut v, row_size);
    be16(&mut v, columns.len() as u16);
    be16(&mut v, pages.len() as u16);
    be16(&mut v, languages.len() as u16);
    v.push(kind);
    v.extend_from_slice(&[0, 0, 0]);
    for (k, o) in columns {
        be16(&mut v, *k);
        be16(&mut v, *o);
    }
    for (s, c) in pages {
        be32(&mut v, *s);
        be32(&mut v, *c);
    }
    for l in languages {
        v.push(*l);
        v.push(0);
    }
    v
}

/// An `.exd` buffer: each row is `(row_id, data_size, subrow_count,
/// bytes)`.
fn exd(rows: &[(u32, u32, u16, Vec<u8>)]) -> Vec<u8> {
    let mut v = Vec::new();
    v.extend_from_slice(b"EXDF");
    be32(&mut v, 8 * rows.len() as u32);
    v.extend_from_slice(&[0u8; 8]);
    let mut data: Vec<u8> = Vec::new();
    let mut offsets: Vec<u32> = Vec::new();
    for (_, data_size, subrow_count, bytes) in rows {
        offsets.push(data.len() as u32);
        be32(&mut data, *data_size);
        be16(&mut data, *subrow_count);
        data.extend_from_slice(bytes);
    }
    for ((row_id, _, _, _), off) in rows.iter().zip(offsets.iter()) {
        be32(&mut v, *row_id);
        be32(&mut v, *off);
    }
    v.extend_from_slice(&data);
    v
}

#[test]
fn standard_file_round_trip() {
    let sq = archive(&[("common/fake/hello.txt", standard_file(b"HELLO WORLD"))]);
    let out = sq.read_file("common/fake/hello.txt").unwrap();
    assert_eq!(out, vec![0x48, 0x45, 0x4C, 0x4C, 0x4F, 0x20, 0x57, 0x4F, 0x52, 0x4C, 0x44]);
}

#[test]
fn path_lookup_is_case_insensitive() {
    let sq = archive(&[("common/fake/hello.txt", standard_file(b"HELLO WORLD"))]);
    let lower = sq.read_file("common/fake/hello.txt").unwrap();
    let upper = sq.read_file("COMMON/FAKE/HELLO.TXT").unwrap();
    assert_eq!(lower, upper);
}

#[test]
fn invalid_path_is_rejected() {
    let sq = archive(&[]);
    match sq.read_file("nopath") {
        Err(Error::InvalidPath(m)) => assert_eq!(m, "nopath"),
        _ => panic!("expected an invalid path error"),
    }
}

#[test]
fn unknown_category_is_not_found() {
    let sq = archive(&[]);
    match sq.read_file("nosuch/ffxiv/x.y") {
        Err(Error::NotFound(m)) => assert_eq!(m, "Category nosuch"),
        _ => panic!("expected a not-found error"),
    }
}

#[test]
fn unknown_repository_is_not_found() {
    let sq = SqPack::new(
        "zzz".to_string(),
        vec![],
        vec![Category { name: "common".to_string(), id: 0 }],
    );
    match sq.read_file("common/fake/x.y") {
        Err(Error::NotFound(m)) => assert_eq!(m, "Repository fake"),
        _ => panic!("expected a not-found error"),
    }
}

#[test]
fn default_repository_stands_in() {
    // The second segment names no repository, so the default one is
    // used; an explicit repository name works the same way.
    let sq = archive(&[("common/fake/hello.txt", standard_file(b"HELLO WORLD"))]);
    assert!(sq.get_repository("fake").unwrap().name == "ffxiv");
    assert!(sq.get_repository("ffxiv").unwrap().name == "ffxiv");
}

#[test]
fn missing_hash_is_not_found() {
    let sq = archive(&[("common/fake/hello.txt", standard_file(b"HELLO WORLD"))]);
    match sq.read_file("common/fake/none.txt") {
        Err(Error::NotFound(m)) => assert_eq!(m, "Path common/fake/none.txt"),
        _ => panic!("expected a not-found error"),
    }
}

#[test]
fn parse_segments_splits_category_and_repository() {
    let sq = archive(&[]);
    let (cat, rep) = sq.parse_segments("common/ffxiv/a/b.txt").unwrap();
    assert_eq!(cat, "common");
    assert_eq!(rep, "ffxiv");
    match sq.parse_segments("plain") {
        Err(Error::InvalidPath(m)) => assert_eq!(m, "plain"),
        _ => panic!("expected an invalid path error"),
    }
}

fn sheet_archive() -> SqPack {
    // Sheet "t": one u32 column, pages [0..10) and [100..105), neutral
    // language only.
    let t_exh = exh(4, 1, &[(7, 0)], &[(0, 10), (100, 5)], &[0]);
    let t_exd = exd(&[
        (0, 0, 1, vec![0, 0, 0, 1]),
        (7, 0, 1, vec![0, 0, 0, 42]),
        (9, 0, 1, vec![0, 0, 0, 9]),
    ]);
    let t_exd_hi = exd(&[(100, 0, 1, vec![0, 0, 0, 100]), (104, 0, 1, vec![0, 0, 0, 104])]);
    // Sheet "l": carries language 1 and the neutral fallback.
    let l_exh = exh(4, 1, &[(7, 0)], &[(0, 10)], &[1, 0]);
    let l_exd0 = exd(&[(3, 0, 1, vec![0, 0, 0, 33])]);
    let l_exd1 = exd(&[(3, 0, 1, vec![0, 0, 0, 11])]);
    // Sheet "n": language 1 only, no neutral fallback.
    let n_exh = exh(4, 1, &[(7, 0)], &[(0, 10)], &[1]);
    // Sheet "s": subrows, two subrows under row 0.
    let s_exh = exh(4, 2, &[(7, 0)], &[(0, 10)], &[0]);
    let mut s_block = Vec::new();
    be16(&mut s_block, 0);
    s_block.extend_from_slice(&[0, 0, 0, 5]);
    be16(&mut s_block, 1);
    s_block.extend_from_slice(&[0, 0, 0, 6]);
    let s_exd = exd(&[(0, 12, 2, s_block)]);
    // Sheet "w": one of each scalar shape for field decoding.
    let w_exh = exh(8, 1, &[(0, 0), (4, 4), (27, 6), (25, 6), (1, 7)], &[(0, 10)], &[0]);
    let mut w_row = Vec::new();
    be32(&mut w_row, 0); // string pointer: tail offset 0
    be16(&mut w_row, 0xFFFE); // -2
    w_row.push(0b0000_0100); // packed booleans: bit 2 set, bit 0 clear
    w_row.push(1); // plain boolean
    w_row.extend_from_slice(b"hi\0");
    let w_exd = exd(&[(0, 3, 1, w_row)]);
    let exl = b"EXLT,2\r\nt,0\r\nl,4\r\n".to_vec();
    archive(&[
        ("exd/root.exl", standard_file(&exl)),
        ("exd/t.exh", standard_file(&t_exh)),
        ("exd/t_0.exd", standard_file(&t_exd)),
        ("exd/t_100.exd", standard_file(&t_exd_hi)),
        ("exd/l.exh", standard_file(&l_exh)),
        ("exd/l_0.exd", standard_file(&l_exd0)),
        ("exd/l_0_1.exd", standard_file(&l_exd1)),
        ("exd/n.exh", standard_file(&n_exh)),
        ("exd/s.exh", standard_file(&s_exh)),
        ("exd/s_0.exd", standard_file(&s_exd)),
        ("exd/w.exh", standard_file(&w_exh)),
        ("exd/w_0.exd", standard_file(&w_exd)),
    ])
}

#[test]
fn sheet_row_lookup_reads_field() {
    let sq = sheet_archive();
    let excel = Excel::new(SqPackResource::new(&sq));
    let sheet = excel.get_raw_sheet("t").unwrap();
    let row = sheet.get_row(7).unwrap();
    match row.field(0).unwrap() {
        FieldValue::U32(x) => assert_eq!(x, 42),
        _ => panic!("expected a u32 field"),
    }
    assert_eq!(row.data.len(), 4);
}

#[test]
fn row_lookup_is_idempotent() {
    let sq = sheet_archive();
    let excel = Excel::new(SqPackResource::new(&sq));
    let sheet = excel.get_raw_sheet("t").unwrap();
    let a = sheet.get_row(7).unwrap();
    let b = sheet.get_row(7).unwrap();
    assert_eq!(a.data, b.data);
}

#[test]
fn page_boundary_rows_resolve() {
    let sq = sheet_archive();
    let excel = Excel::new(SqPackResource::new(&sq));
    let sheet = excel.get_raw_sheet("t").unwrap();
    assert!(sheet.get_row(0).is_ok());
    assert!(sheet.get_row(9).is_ok());
    assert!(sheet.get_row(100).is_ok());
    assert!(sheet.get_row(104).is_ok());
    match sheet.get_row(10) {
        Err(Error::NotFound(m)) => assert_eq!(m, "Row ID 10"),
        _ => panic!("expected a not-found error"),
    }
}

#[test]
fn language_falls_back_to_neutral() {
    let sq = sheet_archive();
    let excel = Excel::new(SqPackResource::new(&sq));
    let sheet = excel.get_raw_sheet("l").unwrap();
    let mut want_two = RowOptions::new();
    want_two.language(2);
    let via_fallback = sheet.get_row_with_options(3, &want_two).unwrap();
    let mut want_zero = RowOptions::new();
    want_zero.language(0);
    let neutral = sheet.get_row_with_options(3, &want_zero).unwrap();
    assert_eq!(via_fallback.data, neutral.data);
    assert_eq!(via_fallback.data, vec![0, 0, 0, 33]);
    // The carried language is honoured when asked for.
    let mut want_one = RowOptions::new();
    want_one.language(1);
    let localized = sheet.get_row_with_options(3, &want_one).unwrap();
    assert_eq!(localized.data, vec![0, 0, 0, 11]);
}

#[test]
fn missing_language_without_neutral_is_not_found() {
    let sq = sheet_archive();
    let excel = Excel::new(SqPackResource::new(&sq));
    let sheet = excel.get_raw_sheet("n").unwrap();
    let mut want_three = RowOptions::new();
    want_three.language(3);
    match sheet.get_row_with_options(0, &want_three) {
        Err(Error::NotFound(m)) => assert_eq!(m, "Language 3"),
        _ => panic!("expected a not-found error"),
    }
}

#[test]
fn subrow_lookup_on_plain_sheet_is_invalid() {
    let sq = sheet_archive();
    let excel = Excel::new(SqPackResource::new(&sq));
    let sheet = excel.get_raw_sheet("t").unwrap();
    match sheet.get_subrow(0, 0) {
        Err(Error::Invalid(m)) => assert_eq!(m, "Sheet t does not support subrows."),
        _ => panic!("expected an invalid error"),
    }
}

#[test]
fn row_lookup_on_subrow_sheet_is_invalid() {
    let sq = sheet_archive();
    let excel = Excel::new(SqPackResource::new(&sq));
    let sheet = excel.get_raw_sheet("s").unwrap();
    match sheet.get_row(0) {
        Err(Error::Invalid(m)) => assert_eq!(m, "Sheet s requires a subrow ID."),
        _ => panic!("expected an invalid error"),
    }
    assert!(sheet.kind().unwrap() == SheetKind::Subrows);
}

#[test]
fn subrows_resolve_and_validate_their_index() {
    let sq = sheet_archive();
    let excel = Excel::new(SqPackResource::new(&sq));
    let sheet = excel.get_raw_sheet("s").unwrap();
    let first = sheet.get_subrow(0, 0).unwrap();
    assert_eq!(first.data, vec![0, 0, 0, 5]);
    let second = sheet.get_subrow(0, 1).unwrap();
    assert_eq!(second.data, vec![0, 0, 0, 6]);
    match sheet.get_subrow(0, 2) {
        Err(Error::NotFound(m)) => assert_eq!(m, "Subrow 2"),
        _ => panic!("expected a not-found error"),
    }
}

#[test]
fn fields_decode_by_kind() {
    let sq = sheet_archive();
    let excel = Excel::new(SqPackResource::new(&sq));
    let sheet = excel.get_raw_sheet("w").unwrap();
    let row = sheet.get_row(0).unwrap();
    match row.field(0).unwrap() {
        FieldValue::Str(s) => assert_eq!(s, "hi"),
        _ => panic!("expected a string field"),
    }
    match row.field(1).unwrap() {
        FieldValue::I16(x) => assert_eq!(x, -2),
        _ => panic!("expected an i16 field"),
    }
    match row.field(2).unwrap() {
        FieldValue::Bool(b) => assert!(b),
        _ => panic!("expected a packed boolean"),
    }
    match row.field(3).unwrap() {
        FieldValue::Bool(b) => assert!(!b),
        _ => panic!("expected a packed boolean"),
    }
    match row.field(4).unwrap() {
        FieldValue::Bool(b) => assert!(b),
        _ => panic!("expected a boolean"),
    }
    match row.field(5) {
        Err(Error::NotFound(m)) => assert_eq!(m, "Column 5"),
        _ => panic!("expected a not-found error"),
    }
}

#[test]
fn list_names_the_sheets() {
    let sq = sheet_archive();
    let excel = Excel::new(SqPackResource::new(&sq));
    let names = excel.list().unwrap();
    assert_eq!(names, vec!["t".to_string(), "l".to_string()]);
}

#[test]
fn missing_sheet_is_not_found() {
    let sq = sheet_archive();
    let excel = Excel::new(SqPackResource::new(&sq));
    match excel.get_raw_sheet("nope") {
        Err(Error::NotFound(m)) => assert_eq!(m, "Path exd/nope.exh"),
        _ => panic!("expected a not-found error"),
    }
}

#[test]
fn string_fields_validate_their_bytes() {
    let col = ColumnDefinition { kind: 0, offset: 0 };
    // Two-byte UTF-8 in the tail decodes to its characters.
    let mut data = vec![0, 0, 0, 0];
    data.extend_from_slice("\u{e9}!".as_bytes());
    data.push(0);
    let r = RowReader { row_size: 4, columns: vec![col], data };
    match r.field(0).unwrap() {
        FieldValue::Str(s) => assert_eq!(s, "\u{e9}!"),
        _ => panic!("expected a string field"),
    }
    // Bytes that are not UTF-8 are a corrupt resource.
    let r = RowReader { row_size: 4, columns: vec![col], data: vec![0, 0, 0, 0, 0xFF, 0xFE, 0] };
    match r.field(0) {
        Err(Error::Resource(m)) => assert_eq!(m, "Failed to read string. Invalid UTF-8."),
        _ => panic!("expected a resource error"),
    }
    // A tail without a terminator is a corrupt resource.
    let r = RowReader { row_size: 4, columns: vec![col], data: vec![0, 0, 0, 0, b'h', b'i'] };
    match r.field(0) {
        Err(Error::Resource(m)) => assert_eq!(m, "Failed to read string. Missing terminator."),
        _ => panic!("expected a resource error"),
    }
}

#[test]
fn data_serves_its_one_version() {
    let sq = sheet_archive();
    let excel = Excel::new(SqPackResource::new(&sq));
    let data = Data::new(Version::new(excel));
    let names = data.version(None).excel().list().unwrap();
    assert_eq!(names, vec!["t".to_string(), "l".to_string()]);
}

#[test]
fn ffxiv_profile_carries_stock_categories() {
    let sq = ffxiv_at("/opt/game");
    assert!(sq.get_category("exd").unwrap().id == 0x0a);
    assert!(sq.get_category("debug").unwrap().id == 0x13);
    assert!(sq.get_repository("anything").unwrap().path == "/opt/game/game/sqpack/ffxiv");
}
