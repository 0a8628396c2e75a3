//! Tests for the numeric translation tables and the column spec reader.

use cql_codec::reading::colspec::{read_column_specs, read_short_string};
use cql_codec::shared::{
    to_column_type, to_opcode, to_result_kind, CollectionSpec, ColumnType, Opcode, ResultKind,
};

#[test]
fn opcode_table_is_total() {
    assert!(matches!(to_opcode(0x00), Opcode::Error));
    assert!(matches!(to_opcode(0x02), Opcode::Ready));
    assert!(matches!(to_opcode(0x08), Opcode::Result));
    assert!(matches!(to_opcode(0x10), Opcode::AuthSuccess));
    assert!(matches!(to_opcode(0x04), Opcode::UnknownOpcode));
    assert!(matches!(to_opcode(0xFF), Opcode::UnknownOpcode));
}

#[test]
fn result_kind_table_is_total() {
    assert!(matches!(to_result_kind(1), ResultKind::Void));
    assert!(matches!(to_result_kind(2), ResultKind::Rows));
    assert!(matches!(to_result_kind(5), ResultKind::SchemaChange));
    assert!(matches!(to_result_kind(0), ResultKind::UnknownResult));
    assert!(matches!(to_result_kind(0xABCD), ResultKind::UnknownResult));
}

#[test]
fn column_type_table_defaults_to_varchar() {
    assert!(matches!(to_column_type(0x0009), ColumnType::Int));
    assert!(matches!(to_column_type(0x0020), ColumnType::List));
    assert!(matches!(to_column_type(0x0021), ColumnType::MapType));
    assert!(matches!(to_column_type(0x0022), ColumnType::SetType));
    assert!(matches!(to_column_type(0x0031), ColumnType::Tuple));
    // reserved and unknown codes never fail
    assert!(matches!(to_column_type(0x0011), ColumnType::Varchar));
    assert!(matches!(to_column_type(0xFFFF), ColumnType::Varchar));
}

fn push_short_string(out: &mut Vec<u8>, s: &str) {
    out.extend_from_slice(&(s.len() as u16).to_be_bytes());
    out.extend_from_slice(s.as_bytes());
}

#[test]
fn short_string_roundtrip() {
    let mut buf: Vec<u8> = Vec::new();
    push_short_string(&mut buf, "hello");
    let (s, end) = read_short_string(&buf, 0).expect("decode failed");
    assert_eq!(s, "hello");
    assert_eq!(end, buf.len());
    assert!(read_short_string(&vec![0x00], 0).is_err());
}

#[test]
fn column_specs_with_collection_element_types() {
    let mut buf: Vec<u8> = Vec::new();
    push_short_string(&mut buf, "plain");
    buf.extend_from_slice(&0x000Du16.to_be_bytes()); // varchar
    push_short_string(&mut buf, "nums");
    buf.extend_from_slice(&0x0020u16.to_be_bytes()); // list
    buf.extend_from_slice(&0x0009u16.to_be_bytes()); // of int
    push_short_string(&mut buf, "pairs");
    buf.extend_from_slice(&0x0021u16.to_be_bytes()); // map
    buf.extend_from_slice(&0x000Du16.to_be_bytes()); // varchar keys
    buf.extend_from_slice(&0x0002u16.to_be_bytes()); // bigint values

    let (specs, end) = read_column_specs(&buf, 0, 3).expect("decode failed");
    assert_eq!(end, buf.len());
    assert_eq!(specs.len(), 3);

    assert_eq!(specs[0].name, "plain");
    assert!(matches!(specs[0].data_type, ColumnType::Varchar));
    assert!(matches!(specs[0].collection_spec, CollectionSpec::NoSpec));

    assert_eq!(specs[1].name, "nums");
    assert!(matches!(specs[1].data_type, ColumnType::List));
    let CollectionSpec::ListOf(ref elem) = specs[1].collection_spec else {
        panic!("expected a list element descriptor");
    };
    assert!(matches!(elem.data_type, ColumnType::Int));

    assert_eq!(specs[2].name, "pairs");
    let CollectionSpec::MapOf(ref k, ref v) = specs[2].collection_spec else {
        panic!("expected map element descriptors");
    };
    assert!(matches!(k.data_type, ColumnType::Varchar));
    assert!(matches!(v.data_type, ColumnType::Bigint));
}

#[test]
fn unknown_spec_type_codes_are_kept_not_dropped() {
    let mut buf: Vec<u8> = Vec::new();
    push_short_string(&mut buf, "mystery");
    buf.extend_from_slice(&0x4242u16.to_be_bytes());
    let (specs, end) = read_column_specs(&buf, 0, 1).expect("decode failed");
    assert_eq!(end, buf.len());
    assert_eq!(specs.len(), 1);
    assert_eq!(specs[0].name, "mystery");
    assert!(matches!(specs[0].data_type, ColumnType::Varchar));
}

#[test]
fn negative_spec_count_reads_nothing() {
    let buf: Vec<u8> = vec![1, 2, 3];
    let (specs, end) = read_column_specs(&buf, 0, -4).expect("decode failed");
    assert_eq!(specs.len(), 0);
    assert_eq!(end, 0);
}
