//! Tests for the value codec: exact encodings, round trips, null handling,
//! and the lossy text fallbacks.

use cql_codec::reading::value::read_column_value;
use cql_codec::shared::{CollectionSpec, Column, ColumnType, TypeDesc};
use cql_codec::writing::{value_size, write_prefixed_value, write_value};

fn plain(t: ColumnType) -> TypeDesc {
    TypeDesc { data_type: t, collection_spec: CollectionSpec::NoSpec }
}

fn encoded(c: &Column) -> Vec<u8> {
    let mut buf: Vec<u8> = Vec::new();
    write_prefixed_value(&mut buf, c);
    buf
}

fn roundtrip(c: &Column, t: ColumnType, cs: &CollectionSpec) -> Column {
    let buf = encoded(c);
    let (out, end) = read_column_value(&buf, 0, t, cs).expect("decode failed");
    assert_eq!(end, buf.len(), "decode must consume exactly the encoded bytes");
    out
}

#[test]
fn encode_int_exact() {
    let buf = encoded(&Column::Int(0x01020304));
    assert_eq!(buf, vec![0, 0, 0, 4, 1, 2, 3, 4]);
}

#[test]
fn encode_null_exact() {
    let buf = encoded(&Column::Null);
    assert_eq!(buf, vec![0xff, 0xff, 0xff, 0xff]);
}

#[test]
fn encode_bigint_exact() {
    let buf = encoded(&Column::Bigint(-2));
    assert_eq!(buf, vec![0, 0, 0, 8, 0xff, 0xff, 0xff, 0xff, 0xff, 0xff, 0xff, 0xfe]);
}

#[test]
fn encode_string_exact() {
    let buf = encoded(&Column::String("hi".to_string()));
    assert_eq!(buf, vec![0, 0, 0, 2, b'h', b'i']);
}

#[test]
fn value_size_of_collection() {
    // 4 (count) plus, per element, 4 (prefix) + 4 (int body)
    let v = Column::SetOf(vec![Column::Int(1), Column::Int(2)]);
    assert_eq!(value_size(&v), 20);
    // a null element costs only its prefix
    let w = Column::ListOf(vec![Column::Null, Column::Int(1)]);
    assert_eq!(value_size(&w), 4 + 4 + (4 + 4));
}

#[test]
fn write_value_body_only() {
    let mut buf: Vec<u8> = Vec::new();
    write_value(&mut buf, &Column::Int(7));
    assert_eq!(buf, vec![0, 0, 0, 7]);
}

#[test]
fn roundtrip_int() {
    let c = roundtrip(&Column::Int(-42), ColumnType::Int, &CollectionSpec::NoSpec);
    assert_eq!(c, Column::Int(-42));
}

#[test]
fn roundtrip_bigint() {
    let c = roundtrip(&Column::Bigint(1 << 40), ColumnType::Bigint, &CollectionSpec::NoSpec);
    assert_eq!(c, Column::Bigint(1 << 40));
}

#[test]
fn roundtrip_float_bits() {
    let bits = 1.5f32.to_bits();
    let c = roundtrip(&Column::Float(bits), ColumnType::Float, &CollectionSpec::NoSpec);
    assert_eq!(c, Column::Float(bits));
    assert_eq!(f32::from_bits(bits), 1.5f32);
}

#[test]
fn roundtrip_double_bits() {
    let bits = (-0.25f64).to_bits();
    let c = roundtrip(&Column::Double(bits), ColumnType::Double, &CollectionSpec::NoSpec);
    assert_eq!(c, Column::Double(bits));
}

#[test]
fn roundtrip_timestamp() {
    let c = roundtrip(
        &Column::Timestamp(1_480_000_000_123),
        ColumnType::Timestamp,
        &CollectionSpec::NoSpec,
    );
    assert_eq!(c, Column::Timestamp(1_480_000_000_123));
}

#[test]
fn roundtrip_string() {
    let c = roundtrip(
        &Column::String("héllo, wörld".to_string()),
        ColumnType::Varchar,
        &CollectionSpec::NoSpec,
    );
    assert_eq!(c, Column::String("héllo, wörld".to_string()));
}

#[test]
fn roundtrip_empty_string() {
    let c = roundtrip(&Column::String(String::new()), ColumnType::Text, &CollectionSpec::NoSpec);
    assert_eq!(c, Column::String(String::new()));
}

#[test]
fn roundtrip_null_independent_of_type() {
    for t in [
        ColumnType::Int,
        ColumnType::Varchar,
        ColumnType::Double,
        ColumnType::Timeuuid,
        ColumnType::Blob,
    ] {
        let c = roundtrip(&Column::Null, t, &CollectionSpec::NoSpec);
        assert_eq!(c, Column::Null);
    }
    // also against a collection descriptor
    let cs = CollectionSpec::ListOf(Box::new(plain(ColumnType::Int)));
    let c = roundtrip(&Column::Null, ColumnType::List, &cs);
    assert_eq!(c, Column::Null);
}

#[test]
fn roundtrip_list_of_ints() {
    let v = Column::ListOf(vec![Column::Int(1), Column::Null, Column::Int(3)]);
    let cs = CollectionSpec::ListOf(Box::new(plain(ColumnType::Int)));
    let c = roundtrip(&v, ColumnType::List, &cs);
    assert_eq!(c, v);
}

#[test]
fn roundtrip_empty_set() {
    let v = Column::SetOf(vec![]);
    let cs = CollectionSpec::SetOf(Box::new(plain(ColumnType::Varchar)));
    let c = roundtrip(&v, ColumnType::SetType, &cs);
    assert_eq!(c, v);
}

#[test]
fn roundtrip_nested_three_levels() {
    // a List of Map of Set, three levels deep
    let inner_set = |a: i32, b: i32| Column::SetOf(vec![Column::Int(a), Column::Int(b)]);
    let map1 = Column::MapOf(vec![
        (Column::String("k1".to_string()), inner_set(1, 2)),
        (Column::String("k2".to_string()), inner_set(3, 4)),
    ]);
    let map2 = Column::MapOf(vec![(Column::String("k3".to_string()), inner_set(5, 6))]);
    let v = Column::ListOf(vec![map1, map2]);

    let set_desc = TypeDesc {
        data_type: ColumnType::SetType,
        collection_spec: CollectionSpec::SetOf(Box::new(plain(ColumnType::Int))),
    };
    let map_desc = TypeDesc {
        data_type: ColumnType::MapType,
        collection_spec: CollectionSpec::MapOf(
            Box::new(plain(ColumnType::Varchar)),
            Box::new(set_desc),
        ),
    };
    let cs = CollectionSpec::ListOf(Box::new(map_desc));

    let c = roundtrip(&v, ColumnType::List, &cs);
    assert_eq!(c, v);
}

#[test]
fn map_null_key_pair_is_dropped() {
    // two encoded pairs, the first with a null key: the decoded map keeps
    // one fewer pair than the encoded pair count
    let mut buf: Vec<u8> = Vec::new();
    let body_len: i32 = 4 + (4) + (4 + 4) + (4 + 4) + (4 + 4);
    buf.extend_from_slice(&body_len.to_be_bytes());
    buf.extend_from_slice(&2i32.to_be_bytes()); // pair count
    buf.extend_from_slice(&(-1i32).to_be_bytes()); // key 1: null
    buf.extend_from_slice(&4i32.to_be_bytes()); // value 1
    buf.extend_from_slice(&7i32.to_be_bytes());
    buf.extend_from_slice(&4i32.to_be_bytes()); // key 2
    buf.extend_from_slice(&1i32.to_be_bytes());
    buf.extend_from_slice(&4i32.to_be_bytes()); // value 2
    buf.extend_from_slice(&2i32.to_be_bytes());

    let cs = CollectionSpec::MapOf(Box::new(plain(ColumnType::Int)), Box::new(plain(ColumnType::Int)));
    let (c, end) = read_column_value(&buf, 0, ColumnType::MapType, &cs).expect("decode failed");
    assert_eq!(end, buf.len());
    assert_eq!(c, Column::MapOf(vec![(Column::Int(1), Column::Int(2))]));
}

#[test]
fn timeuuid_decodes_to_hyphenated_string() {
    let mut buf: Vec<u8> = Vec::new();
    buf.extend_from_slice(&16i32.to_be_bytes());
    buf.extend_from_slice(&[
        0x00, 0x01, 0x02, 0x03, 0x04, 0x05, 0x06, 0x07, 0x08, 0x09, 0x0a, 0x0b, 0xde, 0xad, 0xbe,
        0xef,
    ]);
    let (c, end) = read_column_value(&buf, 0, ColumnType::Timeuuid, &CollectionSpec::NoSpec)
        .expect("decode failed");
    assert_eq!(end, buf.len());
    assert_eq!(c, Column::String("00010203-0405-0607-0809-0a0bdeadbeef".to_string()));
}

#[test]
fn invalid_utf8_degrades_to_empty_string() {
    let mut buf: Vec<u8> = Vec::new();
    buf.extend_from_slice(&2i32.to_be_bytes());
    buf.extend_from_slice(&[0xff, 0xfe]);
    let (c, _) = read_column_value(&buf, 0, ColumnType::Varchar, &CollectionSpec::NoSpec)
        .expect("decode failed");
    assert_eq!(c, Column::String(String::new()));
}

#[test]
fn short_value_is_an_error() {
    let buf = vec![0, 0, 0, 4, 1, 2]; // declares 4 body bytes, has 2
    assert!(read_column_value(&buf, 0, ColumnType::Varchar, &CollectionSpec::NoSpec).is_err());
    let buf2 = vec![0, 0]; // not even a length prefix
    assert!(read_column_value(&buf2, 0, ColumnType::Int, &CollectionSpec::NoSpec).is_err());
}

#[test]
fn mismatched_collection_spec_yields_null() {
    // a Set wire type with no element spec: the eight consumed bytes are
    // the length and the element count, and the value degrades to null
    let v = Column::SetOf(vec![Column::Int(1)]);
    let mut buf: Vec<u8> = Vec::new();
    write_prefixed_value(&mut buf, &v);
    let (c, end) = read_column_value(&buf, 0, ColumnType::SetType, &CollectionSpec::NoSpec)
        .expect("decode failed");
    assert_eq!(c, Column::Null);
    assert_eq!(end, 8);
}

#[test]
fn negative_element_count_decodes_as_empty() {
    let mut buf: Vec<u8> = Vec::new();
    buf.extend_from_slice(&4i32.to_be_bytes());
    buf.extend_from_slice(&(-5i32).to_be_bytes());
    let cs = CollectionSpec::ListOf(Box::new(plain(ColumnType::Int)));
    let (c, end) = read_column_value(&buf, 0, ColumnType::List, &cs).expect("decode failed");
    assert_eq!(c, Column::ListOf(vec![]));
    assert_eq!(end, 8);
}

#[test]
fn getters_select_the_right_variant() {
    assert_eq!(Column::Int(3).get_int(), Some(3));
    assert_eq!(Column::Int(3).get_bigint(), None);
    assert_eq!(Column::Bigint(9).get_bigint(), Some(9));
    assert_eq!(Column::Timestamp(5).get_timestamp(), Some(5));
    assert_eq!(Column::Float(1.0f32.to_bits()).get_float(), Some(1.0f32.to_bits()));
    assert_eq!(Column::Double(2.0f64.to_bits()).get_double(), Some(2.0f64.to_bits()));
    assert_eq!(Column::String("x".to_string()).get_string(), Some("x".to_string()));
    assert_eq!(Column::Null.get_string(), None);
    let v = Column::SetOf(vec![Column::Int(1)]);
    assert_eq!(v.get_vec(), Some(vec![Column::Int(1)]));
    // an empty collection yields nothing
    assert_eq!(Column::ListOf(vec![]).get_vec(), None);
    assert_eq!(Column::Int(1).get_vec(), None);
}
