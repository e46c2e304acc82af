use cdrs_tokio::frame_response_rows::{
    BodyResResultRows, ColSpec, ColType, RowsMetadata, RowsMetadataFlag, GLOBAL_TABLE_SPACE,
    HAS_MORE_PAGES, NO_METADATA,
};
use cdrs_tokio::types::DecodeError;

fn int_field(v: i32) -> Vec<u8> {
    v.to_be_bytes().to_vec()
}

fn short_field(v: u16) -> Vec<u8> {
    v.to_be_bytes().to_vec()
}

fn string_field(s: &str) -> Vec<u8> {
    let mut out = short_field(s.len() as u16);
    out.extend_from_slice(s.as_bytes());
    out
}

fn blob_field(b: &[u8]) -> Vec<u8> {
    let mut out = int_field(b.len() as i32);
    out.extend_from_slice(b);
    out
}

fn concat(parts: &[Vec<u8>]) -> Vec<u8> {
    parts.concat()
}

const ALL_TYPES: [(ColType, u16); 25] = [
    (ColType::Custom, 0x0000),
    (ColType::Ascii, 0x0001),
    (ColType::Bigint, 0x0002),
    (ColType::Blob, 0x0003),
    (ColType::Boolean, 0x0004),
    (ColType::Counter, 0x0005),
    (ColType::Decimal, 0x0006),
    (ColType::Double, 0x0007),
    (ColType::Float, 0x0008),
    (ColType::Int, 0x0009),
    (ColType::Timestamp, 0x000B),
    (ColType::Uuid, 0x000C),
    (ColType::Varchar, 0x000D),
    (ColType::Varint, 0x000E),
    (ColType::Timeuuid, 0x000F),
    (ColType::Inet, 0x0010),
    (ColType::Date, 0x0011),
    (ColType::Time, 0x0012),
    (ColType::Smallint, 0x0013),
    (ColType::Tinyint, 0x0014),
    (ColType::List, 0x0020),
    (ColType::MapType, 0x0021),
    (ColType::SetType, 0x0022),
    (ColType::Udt, 0x0030),
    (ColType::Tuple, 0x0031),
];

#[test]
fn set_then_has_each_bit() {
    for f in [0, 1, 2, 4, 7, -1, 0x100, i32::MIN] {
        assert!(RowsMetadataFlag::has_global_table_space(RowsMetadataFlag::set_global_table_space(f)));
        assert!(RowsMetadataFlag::has_has_more_pages(RowsMetadataFlag::set_has_more_pages(f)));
        assert!(RowsMetadataFlag::has_no_metadata(RowsMetadataFlag::set_no_metadata(f)));
        let g = RowsMetadataFlag::set_has_more_pages(f);
        assert_eq!(RowsMetadataFlag::set_has_more_pages(g), g);
    }
}

#[test]
fn flag_values() {
    assert_eq!(RowsMetadataFlag::set_global_table_space(0), 1);
    assert_eq!(RowsMetadataFlag::set_has_more_pages(0), 2);
    assert_eq!(RowsMetadataFlag::set_no_metadata(0), 4);
    assert_eq!(RowsMetadataFlag::set_no_metadata(3), 7);
    assert!(!RowsMetadataFlag::has_global_table_space(6));
    assert!(RowsMetadataFlag::has_has_more_pages(6));
    assert!(!RowsMetadataFlag::has_no_metadata(0x0100));
}

#[test]
fn flag_round_trip() {
    for f in [
        RowsMetadataFlag::GlobalTableSpace,
        RowsMetadataFlag::HasMorePages,
        RowsMetadataFlag::NoMetadata,
    ] {
        assert_eq!(RowsMetadataFlag::from_bytes(f.into_cbytes()), Ok(f));
    }
    assert_eq!(RowsMetadataFlag::HasMorePages.into_cbytes(), vec![0, 0, 0, 2]);
}

#[test]
fn single_flag_refuses_combined_bits() {
    assert_eq!(RowsMetadataFlag::from_bytes(int_field(3)), Err(DecodeError::UnknownFlagBit(3)));
    assert_eq!(RowsMetadataFlag::from_bytes(vec![0, 0, 1]), Err(DecodeError::Truncated));
}

#[test]
fn single_flag_ignores_unknown_bits() {
    assert_eq!(
        RowsMetadataFlag::from_bytes(vec![0, 0, 0, 9]),
        Ok(RowsMetadataFlag::GlobalTableSpace)
    );
    assert_eq!(
        RowsMetadataFlag::from_bytes(int_field(0x0102)),
        Ok(RowsMetadataFlag::HasMorePages)
    );
    assert_eq!(
        RowsMetadataFlag::from_bytes(int_field(-4)),
        Ok(RowsMetadataFlag::NoMetadata)
    );
    assert_eq!(RowsMetadataFlag::from_bytes(int_field(8)), Err(DecodeError::UnknownFlagBit(8)));
}

#[test]
fn flag_set_ignores_unknown_bits() {
    assert_eq!(
        RowsMetadataFlag::flags_from_int(0x0105),
        vec![RowsMetadataFlag::GlobalTableSpace, RowsMetadataFlag::NoMetadata]
    );
    assert_eq!(RowsMetadataFlag::flags_from_int(0), vec![]);
}

#[test]
fn col_type_round_trip() {
    for (t, code) in ALL_TYPES {
        assert_eq!(t.code(), code);
        assert_eq!(ColType::from_code(code), Ok(t));
        assert_eq!(ColType::from_bytes(short_field(code)), Ok(t));
    }
}

#[test]
fn unknown_col_type_is_an_error() {
    assert_eq!(ColType::from_code(0x0099), Err(DecodeError::UnknownColumnType(0x0099)));
    assert_eq!(ColType::from_bytes(vec![0x00, 0x99]), Err(DecodeError::UnknownColumnType(0x0099)));
    assert_eq!(ColType::from_code(0x000A), Err(DecodeError::UnknownColumnType(0x000A)));
    assert_eq!(ColType::from_bytes(vec![0x00]), Err(DecodeError::Truncated));
}

#[test]
fn unknown_col_type_in_spec_leaves_buffer_usable() {
    let bad = concat(&[string_field("c"), short_field(0x0099)]);
    let good = concat(&[string_field("d"), short_field(0x0009)]);
    let buf = concat(&[bad.clone(), good]);
    assert_eq!(
        ColSpec::from_bytes(&buf, 0, true).unwrap_err(),
        DecodeError::UnknownColumnType(0x0099)
    );
    let (spec, end) = ColSpec::from_bytes(&buf, bad.len(), true).unwrap();
    assert_eq!(spec.name, "d");
    assert_eq!(spec.col_type, ColType::Int);
    assert_eq!(end, buf.len());
}

#[test]
fn col_spec_with_own_names() {
    let buf = concat(&[string_field("ks"), string_field("tbl"), string_field("id"), short_field(0x000C)]);
    let (spec, end) = ColSpec::from_bytes(&buf, 0, false).unwrap();
    assert_eq!(spec.ksname.as_deref(), Some("ks"));
    assert_eq!(spec.tablename.as_deref(), Some("tbl"));
    assert_eq!(spec.name, "id");
    assert_eq!(spec.col_type, ColType::Uuid);
    assert_eq!(end, buf.len());
}

#[test]
fn col_spec_invalid_utf8() {
    let buf = concat(&[short_field(2), vec![0xff, 0xfe], short_field(0x0009)]);
    assert_eq!(ColSpec::from_bytes(&buf, 0, true).unwrap_err(), DecodeError::InvalidUtf8);
}

#[test]
fn metadata_global_table_space_and_paging() {
    let flags = GLOBAL_TABLE_SPACE | HAS_MORE_PAGES;
    let buf = concat(&[
        int_field(flags),
        int_field(2),
        string_field("ks"),
        string_field("tbl"),
        blob_field(&[9, 8, 7]),
        string_field("a"),
        short_field(0x000D),
        string_field("b"),
        short_field(0x0009),
    ]);
    let (m, end) = RowsMetadata::from_bytes(&buf, 0).unwrap();
    assert_eq!(end, buf.len());
    assert_eq!(
        m.flags,
        vec![RowsMetadataFlag::GlobalTableSpace, RowsMetadataFlag::HasMorePages]
    );
    assert_eq!(m.columns_count, 2);
    assert_eq!(m.global_table_space, Some(("ks".to_string(), "tbl".to_string())));
    assert_eq!(m.paging_state, Some(vec![9, 8, 7]));
    assert_eq!(m.col_specs.len(), 2);
    assert_eq!(m.col_specs[0].ksname, None);
    assert_eq!(m.col_specs[0].tablename, None);
    assert_eq!(m.col_specs[0].name, "a");
    assert_eq!(m.col_specs[0].col_type, ColType::Varchar);
    assert_eq!(m.col_specs[1].name, "b");
    assert_eq!(m.col_specs[1].col_type, ColType::Int);
}

#[test]
fn metadata_no_metadata_has_no_specs() {
    let buf = concat(&[int_field(NO_METADATA), int_field(5)]);
    let (m, end) = RowsMetadata::from_bytes(&buf, 0).unwrap();
    assert_eq!(end, 8);
    assert_eq!(m.columns_count, 5);
    assert!(m.col_specs.is_empty());
    assert_eq!(m.paging_state, None);
    assert_eq!(m.global_table_space, None);
}

#[test]
fn metadata_flags_five() {
    let buf = concat(&[int_field(0x0005), int_field(3), string_field("ks"), string_field("tbl")]);
    let (m, end) = RowsMetadata::from_bytes(&buf, 0).unwrap();
    assert_eq!(end, buf.len());
    assert_eq!(m.global_table_space, Some(("ks".to_string(), "tbl".to_string())));
    assert_eq!(m.paging_state, None);
    assert!(m.col_specs.is_empty());
}

#[test]
fn metadata_negative_count() {
    let buf = concat(&[int_field(0), int_field(-3)]);
    assert_eq!(RowsMetadata::from_bytes(&buf, 0).unwrap_err(), DecodeError::NegativeCount(-3));
}

#[test]
fn metadata_negative_paging_length() {
    let buf = concat(&[int_field(HAS_MORE_PAGES), int_field(0), int_field(-1)]);
    assert_eq!(RowsMetadata::from_bytes(&buf, 0).unwrap_err(), DecodeError::InvalidLength(-1));
}

fn two_by_two() -> Vec<u8> {
    concat(&[
        int_field(NO_METADATA),
        int_field(2),
        int_field(2),
        blob_field(b"abc"),
        int_field(-1),
        blob_field(b""),
        blob_field(b"xy"),
    ])
}

#[test]
fn rows_content_with_null_and_empty() {
    let buf = two_by_two();
    let (rows, end) = BodyResResultRows::from_bytes(&buf, 0).unwrap();
    assert_eq!(end, buf.len());
    assert_eq!(rows.rows_count, 2);
    assert_eq!(
        rows.rows_content,
        vec![
            vec![Some(b"abc".to_vec()), None],
            vec![Some(b"".to_vec()), Some(b"xy".to_vec())],
        ]
    );
}

#[test]
fn rows_from_given_metadata() {
    let buf = two_by_two();
    let (m, q) = RowsMetadata::from_bytes(&buf, 0).unwrap();
    let (rows, end) = BodyResResultRows::from_metadata(m, &buf, q).unwrap();
    assert_eq!(end, buf.len());
    assert_eq!(rows.rows_content[1][1], Some(b"xy".to_vec()));
}

#[test]
fn rows_invalid_length() {
    let buf = concat(&[int_field(NO_METADATA), int_field(1), int_field(1), int_field(-2)]);
    assert_eq!(
        BodyResResultRows::from_bytes(&buf, 0).unwrap_err(),
        DecodeError::InvalidLength(-2)
    );
}

#[test]
fn rows_negative_count() {
    let buf = concat(&[int_field(NO_METADATA), int_field(1), int_field(-1)]);
    assert_eq!(
        BodyResResultRows::from_bytes(&buf, 0).unwrap_err(),
        DecodeError::NegativeCount(-1)
    );
}

#[test]
fn zero_rows_with_many_columns() {
    let buf = concat(&[int_field(NO_METADATA), int_field(i32::MAX), int_field(0)]);
    let (rows, end) = BodyResResultRows::from_bytes(&buf, 0).unwrap();
    assert_eq!(end, buf.len());
    assert!(rows.rows_content.is_empty());
}

#[test]
fn every_truncation_is_truncated() {
    let full = concat(&[
        int_field(GLOBAL_TABLE_SPACE | HAS_MORE_PAGES),
        int_field(2),
        string_field("ks"),
        string_field("tbl"),
        blob_field(&[1, 2]),
        string_field("a"),
        short_field(0x000D),
        string_field("b"),
        short_field(0x0009),
        int_field(2),
        blob_field(b"abc"),
        int_field(-1),
        blob_field(b""),
        blob_field(b"xy"),
    ]);
    assert!(BodyResResultRows::from_bytes(&full, 0).is_ok());
    for k in 0..full.len() {
        assert_eq!(
            BodyResResultRows::from_bytes(&full[..k], 0).unwrap_err(),
            DecodeError::Truncated,
            "cut at {}",
            k
        );
    }
    let meta_end = RowsMetadata::from_bytes(&full, 0).unwrap().1;
    for k in 0..meta_end {
        assert_eq!(RowsMetadata::from_bytes(&full[..k], 0).unwrap_err(), DecodeError::Truncated);
    }
    let spec = concat(&[string_field("ks"), string_field("t"), string_field("n"), short_field(1)]);
    for k in 0..spec.len() {
        assert_eq!(ColSpec::from_bytes(&spec[..k], 0, false).unwrap_err(), DecodeError::Truncated);
    }
}

#[test]
fn rows_refuse_negative_column_count() {
    let m = RowsMetadata {
        flags: vec![],
        columns_count: -2,
        paging_state: None,
        global_table_space: None,
        col_specs: vec![],
    };
    let buf = int_field(0);
    assert_eq!(
        BodyResResultRows::from_metadata(m, &buf, 0).unwrap_err(),
        DecodeError::NegativeCount(-2)
    );
}
