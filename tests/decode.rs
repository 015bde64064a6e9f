use disunity::class::{resolve, AssetClass, AssetClassVariant};
use disunity::cursor::{ByteCursor, Endianness};
use disunity::error::{ParseError, ParseResult};
use disunity::file::parse_assets_file;
use disunity::header::{
    parse_header, parse_target_platform, parse_type_tree_presence, parse_unity_version, Header,
    TargetPlatform,
};
use disunity::index::{parse_entry, parse_index, AssetEntry};
use disunity::tables::{parse_asset_type, parse_asset_types, AssetType};

fn ok<T>(r: ParseResult<T>) -> T {
    match r {
        Ok(v) => v,
        Err(e) => panic!("{}", e.debug_message()),
    }
}

fn is_mismatch<T>(r: &ParseResult<T>) -> bool {
    matches!(r, Err(ParseError::Expected(_)))
}

fn is_io_failure<T>(r: &ParseResult<T>) -> bool {
    matches!(r, Err(ParseError::UnexpectedIo(_)))
}

fn header_bytes(version: u32, big: u8, metadata: u32, file_size: u64, data_offset: u64) -> Vec<u8> {
    let mut b = vec![0u8; 8];
    b.extend_from_slice(&version.to_be_bytes());
    b.extend_from_slice(&[0u8; 4]);
    b.push(big);
    b.extend_from_slice(&[0u8; 3]);
    b.extend_from_slice(&metadata.to_be_bytes());
    b.extend_from_slice(&file_size.to_be_bytes());
    b.extend_from_slice(&data_offset.to_be_bytes());
    b.extend_from_slice(&[0u8; 8]);
    b
}

fn u32_in(order: Endianness, v: u32) -> [u8; 4] {
    match order {
        Endianness::Big => v.to_be_bytes(),
        Endianness::Little => v.to_le_bytes(),
    }
}

fn type_row(order: Endianness, class_id: u32, stripped: u8, script_type_index: u16, script: Option<[u8; 16]>, hash: [u8; 16]) -> Vec<u8> {
    let mut b = u32_in(order, class_id).to_vec();
    b.push(stripped);
    match order {
        Endianness::Big => b.extend_from_slice(&script_type_index.to_be_bytes()),
        Endianness::Little => b.extend_from_slice(&script_type_index.to_le_bytes()),
    }
    if let Some(s) = script {
        b.extend_from_slice(&s);
    }
    b.extend_from_slice(&hash);
    b
}

fn entry_bytes(path_id: u64, offset: u64, size: u32, ty: u32) -> Vec<u8> {
    let mut b = path_id.to_le_bytes().to_vec();
    b.extend_from_slice(&offset.to_le_bytes());
    b.extend_from_slice(&size.to_le_bytes());
    b.extend_from_slice(&ty.to_le_bytes());
    b
}

fn plain_type(class: AssetClass) -> AssetType {
    AssetType { class, stripped: false, script_type_index: 0, old_type_hash: [0u8; 16] }
}

#[test]
fn header_decodes_big_endian_example() {
    let bytes = header_bytes(7, 1, 42, 100, 48);
    assert_eq!(bytes.len(), 48);
    let mut c = ByteCursor::new(bytes);
    let h = ok(parse_header(&mut c));
    assert_eq!(
        h,
        Header { version: 7, endianness: Endianness::Big, metadata: 42, file_size: 100, data_offset: 48 }
    );
    assert_eq!(c.pos(), 48);
}

#[test]
fn header_flag_zero_is_little_endian() {
    let mut c = ByteCursor::new(header_bytes(22, 0, 0xdead_beef, 1 << 40, 4096));
    let h = ok(parse_header(&mut c));
    assert_eq!(h.endianness, Endianness::Little);
    assert_eq!(h.version, 22);
    assert_eq!(h.metadata, 0xdead_beef);
    assert_eq!(h.file_size, 1 << 40);
    assert_eq!(h.data_offset, 4096);
}

#[test]
fn header_fields_survive_writing_back() {
    let source_bytes = header_bytes(0x0102_0304, 1, 0x0a0b_0c0d, 0x1122_3344_5566_7788, 0x99aa_bbcc_ddee_ff00);
    let h = ok(parse_header(&mut ByteCursor::new(source_bytes.clone())));
    let flag = if h.endianness == Endianness::Big { 1 } else { 0 };
    let written = header_bytes(h.version, flag, h.metadata, h.file_size, h.data_offset);
    assert_eq!(written, source_bytes);
    let again = ok(parse_header(&mut ByteCursor::new(written)));
    assert_eq!(again, h);
}

#[test]
fn header_with_bad_flag_is_a_mismatch() {
    let mut c = ByteCursor::new(header_bytes(7, 2, 42, 100, 48));
    let r = parse_header(&mut c);
    assert!(is_mismatch(&r));
    if let Err(ParseError::Expected(e)) = r {
        assert_eq!(e.received, vec![2]);
    }
}

#[test]
fn short_header_is_an_io_failure() {
    let mut bytes = header_bytes(7, 1, 42, 100, 48);
    bytes.truncate(47);
    let r = parse_header(&mut ByteCursor::new(bytes));
    assert!(is_io_failure(&r));
    if let Err(ParseError::UnexpectedIo(e)) = r {
        assert_eq!(e.context, "ignoring last 8 bytes of header");
    }
    let r = parse_header(&mut ByteCursor::new(vec![0u8; 10]));
    if let Err(ParseError::UnexpectedIo(e)) = r {
        assert_eq!(e.context, "reading header version");
    } else {
        panic!("expected an I/O failure");
    }
}

#[test]
fn version_string_decodes_and_skips_terminator() {
    let mut bytes = b"2021.3.1f1\0".to_vec();
    bytes.extend_from_slice(&[0x13, 0, 0, 0]);
    let mut c = ByteCursor::new(bytes);
    assert_eq!(ok(parse_unity_version(&mut c)), "2021.3.1f1");
    assert_eq!(c.pos(), 11);
}

#[test]
fn version_string_without_terminator_is_a_mismatch() {
    let r = parse_unity_version(&mut ByteCursor::new(b"2021".to_vec()));
    match r {
        Err(ParseError::Expected(e)) => {
            assert_eq!(e.expected, "Unity version ending with a null byte");
            assert_eq!(e.received, b"2021".to_vec());
            assert_eq!(e.source.map(|s| s.kind()), Some(std::io::ErrorKind::UnexpectedEof));
        }
        _ => panic!("expected a mismatch"),
    }
    let r = parse_unity_version(&mut ByteCursor::new(Vec::new()));
    assert!(is_mismatch(&r));
}

#[test]
fn version_string_with_bad_utf8_is_a_mismatch() {
    let r = parse_unity_version(&mut ByteCursor::new(vec![b'2', 0xc3, 0]));
    match r {
        Err(ParseError::Expected(e)) => {
            assert_eq!(e.expected, "valid utf-8 for Unity version");
            assert_eq!(e.received, vec![b'2', 0xc3]);
            assert_eq!(e.source.map(|s| s.kind()), Some(std::io::ErrorKind::InvalidData));
        }
        _ => panic!("expected a mismatch"),
    }
}

#[test]
fn platform_maps_known_and_unknown_values() {
    let mut c = ByteCursor::new(vec![19, 0, 0, 0, 0, 0, 0, 19, 0xff, 0xff, 0xff, 0xff]);
    assert_eq!(ok(parse_target_platform(&mut c, Endianness::Little)), TargetPlatform::Windows64);
    assert_eq!(ok(parse_target_platform(&mut c, Endianness::Big)), TargetPlatform::Windows64);
    assert_eq!(ok(parse_target_platform(&mut c, Endianness::Little)), TargetPlatform::Unknown(-1));
    assert!(is_io_failure(&parse_target_platform(&mut c, Endianness::Little)));
    assert_eq!(TargetPlatform::from(5), TargetPlatform::Unknown(5));
    assert_eq!(TargetPlatform::from(19), TargetPlatform::Windows64);
}

#[test]
fn type_tree_flag_is_reported() {
    let mut c = ByteCursor::new(vec![0, 1, 5]);
    assert!(!ok(parse_type_tree_presence(&mut c)));
    assert!(ok(parse_type_tree_presence(&mut c)));
    assert!(is_mismatch(&parse_type_tree_presence(&mut c)));
    assert!(is_io_failure(&parse_type_tree_presence(&mut c)));
}

#[test]
fn resolve_known_and_unknown_ids() {
    assert_eq!(resolve(1839735485), AssetClassVariant::Tilemap);
    assert_eq!(resolve(999999), AssetClassVariant::Unknown(999999));
    assert_eq!(resolve(1), AssetClassVariant::GameObject);
    assert_eq!(resolve(114), AssetClassVariant::MonoBehavior);
    assert_eq!(resolve(0), AssetClassVariant::Unknown(0));
    assert_eq!(resolve(u32::MAX), AssetClassVariant::Unknown(u32::MAX));
}

#[test]
fn from_variant_converts_case_for_case() {
    assert_eq!(AssetClass::from_variant(AssetClassVariant::Tilemap), AssetClass::Tilemap);
    assert_eq!(AssetClass::from_variant(AssetClassVariant::Unknown(3)), AssetClass::Unknown(3));
}

#[test]
fn type_rows_decode_known_and_unknown_classes() {
    let order = Endianness::Little;
    let mut bytes = type_row(order, 1839735485, 0, 3, None, [9u8; 16]);
    bytes.extend(type_row(order, 999999, 1, 0xffff, None, [7u8; 16]));
    let mut c = ByteCursor::new(bytes);
    let t = ok(parse_asset_type(&mut c, order));
    assert_eq!(t.class, AssetClass::Tilemap);
    assert!(!t.stripped);
    assert_eq!(t.script_type_index, 3);
    assert_eq!(t.old_type_hash, [9u8; 16]);
    assert_eq!(c.pos(), 23);
    let t = ok(parse_asset_type(&mut c, order));
    assert_eq!(t.class, AssetClass::Unknown(999999));
    assert!(t.stripped);
    assert_eq!(t.script_type_index, 0xffff);
    assert_eq!(c.pos(), 46);
}

#[test]
fn scripted_row_carries_its_script_id() {
    let order = Endianness::Big;
    let script: [u8; 16] = core::array::from_fn(|i| i as u8 + 1);
    let mut c = ByteCursor::new(type_row(order, 114, 0, 2, Some(script), [0xaa; 16]));
    let t = ok(parse_asset_type(&mut c, order));
    assert_eq!(t.class, AssetClass::MonoBehavior { script_id: script });
    assert_eq!(t.old_type_hash, [0xaa; 16]);
    assert_eq!(c.pos(), 39);
}

#[test]
fn type_table_has_count_rows_in_order() {
    let order = Endianness::Little;
    let mut bytes = u32_in(order, 3).to_vec();
    bytes.extend(type_row(order, 4, 0, 0, None, [1u8; 16]));
    bytes.extend(type_row(order, 114, 0, 1, Some([5u8; 16]), [2u8; 16]));
    bytes.extend(type_row(order, 28, 1, 2, None, [3u8; 16]));
    let mut c = ByteCursor::new(bytes);
    let types = ok(parse_asset_types(&mut c, order));
    assert_eq!(types.len(), 3);
    assert_eq!(types[0].class, AssetClass::Transform);
    assert_eq!(types[1].class, AssetClass::MonoBehavior { script_id: [5u8; 16] });
    assert_eq!(types[2].class, AssetClass::Texture2D);
    assert_eq!(types[0].old_type_hash, [1u8; 16]);
    assert_eq!(types[1].old_type_hash, [2u8; 16]);
    assert_eq!(types[2].old_type_hash, [3u8; 16]);
    assert_eq!(c.pos(), 4 + 23 + 39 + 23);
}

#[test]
fn empty_type_table() {
    let mut c = ByteCursor::new(vec![0, 0, 0, 0]);
    assert!(ok(parse_asset_types(&mut c, Endianness::Big)).is_empty());
    assert_eq!(c.pos(), 4);
}

#[test]
fn type_table_failures() {
    let order = Endianness::Little;
    let mut bytes = u32_in(order, 2).to_vec();
    bytes.extend(type_row(order, 1, 0, 0, None, [0u8; 16]));
    let r = parse_asset_types(&mut ByteCursor::new(bytes.clone()), order);
    assert!(is_io_failure(&r));

    bytes.extend(type_row(order, 1, 3, 0, None, [0u8; 16]));
    let r = parse_asset_types(&mut ByteCursor::new(bytes), order);
    assert!(is_mismatch(&r));

    assert!(is_io_failure(&parse_asset_types(&mut ByteCursor::new(vec![1, 0]), order)));
}

#[test]
fn index_offset_is_made_absolute() {
    let mut bytes = vec![1u8, 0, 0, 0];
    bytes.extend(entry_bytes(77, 16, 5, 0));
    let types = vec![plain_type(AssetClass::GameObject)];
    let mut c = ByteCursor::new(bytes);
    let entries = ok(parse_index(&mut c, Endianness::Little, 48, &types));
    assert_eq!(entries, vec![AssetEntry { path_id: 77, offset: 64, size: 5, type_index: 0 }]);
    assert_eq!(c.pos(), 28);
}

#[test]
fn index_aligns_after_count() {
    let mut bytes = vec![0xeeu8];
    bytes.extend_from_slice(&2u32.to_le_bytes());
    bytes.extend_from_slice(&[0u8; 3]);
    bytes.extend(entry_bytes(1, 0, 10, 1));
    bytes.extend(entry_bytes(2, 100, 20, 0));
    let types = vec![plain_type(AssetClass::Mesh), plain_type(AssetClass::Shader)];
    let mut c = ByteCursor::new(bytes);
    c.skip(1).unwrap();
    let entries = ok(parse_index(&mut c, Endianness::Little, 1000, &types));
    assert_eq!(
        entries,
        vec![
            AssetEntry { path_id: 1, offset: 1000, size: 10, type_index: 1 },
            AssetEntry { path_id: 2, offset: 1100, size: 20, type_index: 0 },
        ]
    );
    assert_eq!(c.pos(), 8 + 48);
}

#[test]
fn index_reads_big_endian_records() {
    let mut bytes = 1u32.to_be_bytes().to_vec();
    bytes.extend_from_slice(&9u64.to_be_bytes());
    bytes.extend_from_slice(&16u64.to_be_bytes());
    bytes.extend_from_slice(&3u32.to_be_bytes());
    bytes.extend_from_slice(&0u32.to_be_bytes());
    let types = vec![plain_type(AssetClass::Sprite)];
    let entries = ok(parse_index(&mut ByteCursor::new(bytes), Endianness::Big, 48, &types));
    assert_eq!(entries, vec![AssetEntry { path_id: 9, offset: 64, size: 3, type_index: 0 }]);
}

#[test]
fn index_type_out_of_range_is_a_mismatch() {
    let mut bytes = vec![2u8, 0, 0, 0];
    bytes.extend(entry_bytes(1, 0, 1, 0));
    bytes.extend(entry_bytes(2, 0, 1, 1));
    let types = vec![plain_type(AssetClass::Font)];
    let r = parse_index(&mut ByteCursor::new(bytes), Endianness::Little, 0, &types);
    match r {
        Err(ParseError::Expected(e)) => {
            assert_eq!(e.expected, "one of the file's asset types");
            assert_eq!(e.received, vec![1, 0, 0, 0]);
            assert!(e.source.is_none());
        }
        _ => panic!("expected a mismatch"),
    }
    let r = parse_entry(&mut ByteCursor::new(entry_bytes(1, 0, 1, 0x0102_0304)), Endianness::Little, 0, 5);
    match r {
        Err(ParseError::Expected(e)) => assert_eq!(e.received, vec![4, 3, 2, 1]),
        _ => panic!("expected a mismatch"),
    }
}

#[test]
fn index_offset_overflow_is_a_mismatch() {
    let mut bytes = vec![1u8, 0, 0, 0];
    bytes.extend(entry_bytes(1, u64::MAX - 1, 1, 0));
    let types = vec![plain_type(AssetClass::Font)];
    assert!(is_mismatch(&parse_index(&mut ByteCursor::new(bytes.clone()), Endianness::Little, 2, &types)));
    let entries = ok(parse_index(&mut ByteCursor::new(bytes), Endianness::Little, 1, &types));
    assert_eq!(entries[0].offset, u64::MAX);
}

#[test]
fn short_index_is_an_io_failure() {
    let mut bytes = vec![2u8, 0, 0, 0];
    bytes.extend(entry_bytes(1, 0, 1, 0));
    bytes.extend_from_slice(&[0u8; 10]);
    let types = vec![plain_type(AssetClass::Font)];
    assert!(is_io_failure(&parse_index(&mut ByteCursor::new(bytes), Endianness::Little, 0, &types)));
}

fn sample_file(type_tree: u8) -> Vec<u8> {
    let mut b = header_bytes(22, 0, 0, 200, 128);
    b.extend_from_slice(b"2021.3.1f1\0");
    b.extend_from_slice(&19i32.to_le_bytes());
    b.push(type_tree);
    b.extend_from_slice(&2u32.to_le_bytes());
    b.extend(type_row(Endianness::Little, 1839735485, 0, 0, None, [1u8; 16]));
    b.extend(type_row(Endianness::Little, 999999, 0, 0, None, [2u8; 16]));
    b.extend_from_slice(&1u32.to_le_bytes());
    while b.len() % 4 != 0 {
        b.push(0);
    }
    b.extend(entry_bytes(5, 16, 8, 1));
    b
}

#[test]
fn whole_file_decodes() {
    let bytes = sample_file(0);
    let end = bytes.len();
    let mut c = ByteCursor::new(bytes);
    let f = ok(parse_assets_file(&mut c));
    assert_eq!(f.header.version, 22);
    assert_eq!(f.header.endianness, Endianness::Little);
    assert_eq!(f.unity_version, "2021.3.1f1");
    assert_eq!(f.target_platform, TargetPlatform::Windows64);
    assert_eq!(f.asset_types.len(), 2);
    assert_eq!(f.asset_types[0].class, AssetClass::Tilemap);
    assert_eq!(f.asset_types[1].class, AssetClass::Unknown(999999));
    assert_eq!(f.assets, vec![AssetEntry { path_id: 5, offset: 144, size: 8, type_index: 1 }]);
    assert_eq!(c.pos(), end);
}

#[test]
fn file_with_type_tree_is_refused() {
    let r = parse_assets_file(&mut ByteCursor::new(sample_file(1)));
    assert!(is_mismatch(&r));
}

fn io_label<T>(r: &ParseResult<T>) -> &'static str {
    match r {
        Err(ParseError::UnexpectedIo(e)) => e.context,
        _ => panic!("expected an I/O failure"),
    }
}

#[test]
fn header_failures_name_the_field() {
    let full = header_bytes(7, 1, 42, 100, 48);
    for (k, label) in [
        (0usize, "ignoring first 8 bytes"),
        (9, "reading header version"),
        (13, "ignoring 4 bytes after header"),
        (16, "reading endianess boolean"),
        (18, "ignoring reserved bytes"),
        (21, "reading header metadata"),
        (30, "reading header file size"),
        (35, "reading header data offset"),
        (47, "ignoring last 8 bytes of header"),
    ] {
        let r = parse_header(&mut ByteCursor::new(full[..k].to_vec()));
        assert_eq!(io_label(&r), label, "with {k} bytes");
    }
    let mut bad = full.clone();
    bad[16] = 9;
    match parse_header(&mut ByteCursor::new(bad)) {
        Err(ParseError::Expected(e)) => {
            assert_eq!(e.expected, "0 or 1 for the byte order flag");
            assert_eq!(e.received, vec![9]);
        }
        _ => panic!("expected a mismatch"),
    }
}

#[test]
fn version_string_failures_leave_cursor_past_the_field() {
    let mut c = ByteCursor::new(vec![0xff, 0, b'x']);
    assert!(is_mismatch(&parse_unity_version(&mut c)));
    assert_eq!(c.pos(), 2);
    let mut c = ByteCursor::new(b"abc".to_vec());
    assert!(is_mismatch(&parse_unity_version(&mut c)));
    assert_eq!(c.pos(), 3);
}

#[test]
fn platform_and_flag_failures_name_the_field() {
    let r = parse_target_platform(&mut ByteCursor::new(vec![1, 2]), Endianness::Big);
    assert_eq!(io_label(&r), "reading target platform");
    let r = parse_type_tree_presence(&mut ByteCursor::new(Vec::new()));
    assert_eq!(io_label(&r), "reading type tree status");
    let mut c = ByteCursor::new(vec![7]);
    match parse_type_tree_presence(&mut c) {
        Err(ParseError::Expected(e)) => {
            assert_eq!(e.expected, "0 or 1 for the type tree flag");
            assert_eq!(e.received, vec![7]);
        }
        _ => panic!("expected a mismatch"),
    }
    assert_eq!(c.pos(), 1);
}

#[test]
fn type_table_failures_name_the_field() {
    let order = Endianness::Big;
    let r = parse_asset_types(&mut ByteCursor::new(vec![0, 0]), order);
    assert_eq!(io_label(&r), "reading asset types count");

    let mut base = u32_in(order, 1).to_vec();
    let row = type_row(order, 114, 0, 0, Some([3u8; 16]), [4u8; 16]);
    for (k, label) in [
        (2usize, "reading asset type class_id"),
        (4, "reading asset type is_stripped"),
        (6, "reading asset type script type index"),
        (10, "reading asset type script id"),
        (30, "reading old type hash"),
    ] {
        let mut bytes = base.clone();
        bytes.extend_from_slice(&row[..k]);
        let r = parse_asset_types(&mut ByteCursor::new(bytes), order);
        assert_eq!(io_label(&r), label, "with {k} row bytes");
    }

    base.extend(type_row(order, 1, 4, 0, None, [0u8; 16]));
    let mut c = ByteCursor::new(base);
    match parse_asset_types(&mut c, order) {
        Err(ParseError::Expected(e)) => {
            assert_eq!(e.expected, "0 or 1 for asset type is_stripped");
            assert_eq!(e.received, vec![4]);
        }
        _ => panic!("expected a mismatch"),
    }
    assert_eq!(c.pos(), 4 + 5);
}

#[test]
fn index_failures_name_the_field() {
    let types = vec![plain_type(AssetClass::Font)];
    let r = parse_index(&mut ByteCursor::new(vec![1, 0]), Endianness::Little, 0, &types);
    assert_eq!(io_label(&r), "reading entry count");

    let mut c = ByteCursor::new(vec![0xee, 1, 0, 0, 0, 0]);
    c.skip(1).unwrap();
    let r = parse_index(&mut c, Endianness::Little, 0, &types);
    assert_eq!(io_label(&r), "aligning file reader");

    let record = entry_bytes(1, 2, 3, 0);
    for (k, label) in [
        (5usize, "reading entry path id"),
        (12, "reading entry offset"),
        (18, "reading entry size"),
        (22, "reading entry type"),
    ] {
        let mut bytes = vec![1u8, 0, 0, 0];
        bytes.extend_from_slice(&record[..k]);
        let r = parse_index(&mut ByteCursor::new(bytes), Endianness::Little, 0, &types);
        assert_eq!(io_label(&r), label, "with {k} record bytes");
    }
}

#[test]
fn index_stops_at_the_first_bad_record() {
    let mut bytes = vec![3u8, 0, 0, 0];
    bytes.extend(entry_bytes(1, 0, 1, 0));
    bytes.extend(entry_bytes(2, 0, 1, 9));
    bytes.extend(entry_bytes(3, 0, 1, 0));
    let types = vec![plain_type(AssetClass::Font)];
    let mut c = ByteCursor::new(bytes);
    match parse_index(&mut c, Endianness::Little, 0, &types) {
        Err(ParseError::Expected(e)) => {
            assert_eq!(e.expected, "one of the file's asset types");
            assert_eq!(e.received, vec![9, 0, 0, 0]);
        }
        _ => panic!("expected a mismatch"),
    }
    assert_eq!(c.pos(), 4 + 2 * 24);
}

#[test]
fn index_padding_bytes_do_not_matter() {
    let mut a = vec![0xeeu8];
    a.extend_from_slice(&1u32.to_le_bytes());
    a.extend_from_slice(&[0u8; 3]);
    a.extend(entry_bytes(4, 8, 2, 0));
    let mut b = a.clone();
    b[5] = 0xaa;
    b[6] = 0xbb;
    b[7] = 0xcc;
    let types = vec![plain_type(AssetClass::Font)];
    let mut ca = ByteCursor::new(a);
    let mut cb = ByteCursor::new(b);
    ca.skip(1).unwrap();
    cb.skip(1).unwrap();
    let ea = ok(parse_index(&mut ca, Endianness::Little, 10, &types));
    let eb = ok(parse_index(&mut cb, Endianness::Little, 10, &types));
    assert_eq!(ea, eb);
    assert_eq!(ca.pos(), cb.pos());
}
