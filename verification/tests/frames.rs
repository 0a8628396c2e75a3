//! Tests for request frames and response decoding: the frame length
//! invariant, opcode dispatch and each result-body shape.

use cql_codec::reading::reader::{frame_body_len, read_message};
use cql_codec::shared::{
    BatchQuery, Column, Consistency, DecodeError, Request, Response, ResultBody,
};
use cql_codec::writing::write_message;

fn frame(opcode: u8, body: &[u8]) -> Vec<u8> {
    let mut f: Vec<u8> = vec![0x84, 0x00, 0x00, 0x01, opcode];
    f.extend_from_slice(&(body.len() as u32).to_be_bytes());
    f.extend_from_slice(body);
    f
}

fn push_short_string(out: &mut Vec<u8>, s: &str) {
    out.extend_from_slice(&(s.len() as u16).to_be_bytes());
    out.extend_from_slice(s.as_bytes());
}

fn assert_frame_invariant(r: &Request) {
    let out = write_message(r);
    assert!(out.len() >= 9);
    let declared = u32::from_be_bytes([out[5], out[6], out[7], out[8]]) as usize;
    assert_eq!(declared, out.len() - 9, "length field must equal the body byte count");
}

#[test]
fn frame_length_equals_body_length() {
    assert_frame_invariant(&Request::Options);
    assert_frame_invariant(&Request::Startup(vec![(
        "CQL_VERSION".to_string(),
        "3.4.3".to_string(),
    )]));
    assert_frame_invariant(&Request::Query("SELECT * FROM t".to_string(), Consistency::Quorum));
    assert_frame_invariant(&Request::PrmQuery(
        "SELECT * FROM t WHERE a = ?".to_string(),
        vec![Column::Int(3), Column::String("x".to_string())],
        Consistency::One,
    ));
    assert_frame_invariant(&Request::PrmQueryWithNames(
        "SELECT * FROM t WHERE a = :a".to_string(),
        vec![("a".to_string(), Column::Bigint(1))],
        Consistency::LocalOne,
    ));
    assert_frame_invariant(&Request::Prepare("SELECT 1".to_string()));
    assert_frame_invariant(&Request::Execute(vec![1, 2, 3], vec![Column::Null], Consistency::All));
    assert_frame_invariant(&Request::Batch(
        vec![
            BatchQuery::Simple("INSERT 1".to_string()),
            BatchQuery::SimpleWithParams("INSERT ?".to_string(), vec![Column::Int(1)]),
            BatchQuery::Prepared(vec![9, 9], vec![Column::Int(2)]),
        ],
        Consistency::Two,
    ));
    assert_frame_invariant(&Request::PagedQuery(
        "SELECT * FROM t".to_string(),
        Consistency::Quorum,
        10,
        None,
    ));
    assert_frame_invariant(&Request::PagedPrmQuery(
        "SELECT ?".to_string(),
        vec![Column::Int(1)],
        Consistency::Quorum,
        10,
        Some(vec![1, 2, 3, 4]),
    ));
    assert_frame_invariant(&Request::PagedPrmQueryWithNames(
        "SELECT :a".to_string(),
        vec![("a".to_string(), Column::Int(1))],
        Consistency::Quorum,
        7,
        Some(vec![5]),
    ));
    assert_frame_invariant(&Request::PagedExecute(
        vec![4, 5],
        vec![Column::Int(1)],
        Consistency::Serial,
        64,
        None,
    ));
}

#[test]
fn query_frame_exact_bytes() {
    let out = write_message(&Request::Query("SELECT 1".to_string(), Consistency::One));
    let mut expected: Vec<u8> = vec![0x04, 0x00, 0x00, 0x01, 0x07];
    let body_len: u32 = 4 + 8 + 2 + 1;
    expected.extend_from_slice(&body_len.to_be_bytes());
    expected.extend_from_slice(&8i32.to_be_bytes());
    expected.extend_from_slice(b"SELECT 1");
    expected.extend_from_slice(&1u16.to_be_bytes()); // consistency One
    expected.push(0x00); // no flags
    assert_eq!(out, expected);
}

#[test]
fn startup_frame_exact_bytes() {
    let out = write_message(&Request::Startup(vec![(
        "CQL_VERSION".to_string(),
        "3.4.3".to_string(),
    )]));
    let mut body: Vec<u8> = Vec::new();
    body.extend_from_slice(&1u16.to_be_bytes());
    push_short_string(&mut body, "CQL_VERSION");
    push_short_string(&mut body, "3.4.3");
    let mut expected: Vec<u8> = vec![0x04, 0x00, 0x00, 0x01, 0x01];
    expected.extend_from_slice(&(body.len() as u32).to_be_bytes());
    expected.extend_from_slice(&body);
    assert_eq!(out, expected);
}

#[test]
fn paged_query_sets_paging_flags() {
    // flags byte stands after the long string and the consistency code
    let out = write_message(&Request::PagedQuery("Q".to_string(), Consistency::One, 10, None));
    assert_eq!(out[9 + 4 + 1 + 2], 0x04, "page-size flag alone when no paging state");
    let out2 = write_message(&Request::PagedQuery(
        "Q".to_string(),
        Consistency::One,
        10,
        Some(vec![0xAA]),
    ));
    assert_eq!(out2[9 + 4 + 1 + 2], 0x04 | 0x08, "page-size and paging-state flags");
    // the page size follows as a signed 32-bit value
    let at = 9 + 4 + 1 + 2 + 1;
    assert_eq!(&out2[at..at + 4], &10i32.to_be_bytes());
    // then the length-prefixed paging state
    assert_eq!(&out2[at + 4..at + 8], &1i32.to_be_bytes());
    assert_eq!(out2[at + 8], 0xAA);
}

#[test]
fn request_opcode_totality() {
    let cases: Vec<(Request, u8)> = vec![
        (Request::Startup(vec![]), 0x01),
        (Request::Options, 0x05),
        (Request::Query("q".to_string(), Consistency::Any), 0x07),
        (Request::PrmQuery("q".to_string(), vec![], Consistency::Any), 0x07),
        (Request::PrmQueryWithNames("q".to_string(), vec![], Consistency::Any), 0x07),
        (Request::Prepare("q".to_string()), 0x09),
        (Request::Execute(vec![], vec![], Consistency::Any), 0x0A),
        (Request::Batch(vec![], Consistency::Any), 0x0D),
        (Request::PagedQuery("q".to_string(), Consistency::Any, 1, None), 0x07),
        (Request::PagedPrmQuery("q".to_string(), vec![], Consistency::Any, 1, None), 0x07),
        (
            Request::PagedPrmQueryWithNames("q".to_string(), vec![], Consistency::Any, 1, None),
            0x07,
        ),
        (Request::PagedExecute(vec![], vec![], Consistency::Any, 1, None), 0x0A),
    ];
    let allowed = [0x01u8, 0x05, 0x07, 0x09, 0x0A, 0x0D];
    for (r, expected) in &cases {
        let op = r.opcode();
        assert_eq!(op, *expected);
        assert!(allowed.contains(&op));
    }
}

#[test]
fn unknown_opcode_decodes_to_empty() {
    let f = frame(0xFF, &[]);
    assert_eq!(read_message(&f), Ok(Response::Empty));
}

#[test]
fn request_opcodes_on_response_side_decode_to_empty() {
    // opcodes the response decoder does not know (even valid request ones)
    for op in [0x01u8, 0x05, 0x07, 0x09, 0x0A, 0x0B, 0x0C, 0x0D] {
        let f = frame(op, &[]);
        assert_eq!(read_message(&f), Ok(Response::Empty));
    }
}

#[test]
fn ready_supported_and_authenticate() {
    assert_eq!(read_message(&frame(0x02, &[])), Ok(Response::Ready));
    assert_eq!(read_message(&frame(0x06, &[])), Ok(Response::Supported));
    assert_eq!(
        read_message(&frame(0x03, &[])),
        Ok(Response::Authenticate("test".to_string()))
    );
}

#[test]
fn error_response_with_message() {
    let mut body: Vec<u8> = Vec::new();
    body.extend_from_slice(&0x1100u32.to_be_bytes());
    push_short_string(&mut body, "bad query");
    let f = frame(0x00, &body);
    assert_eq!(read_message(&f), Ok(Response::Error(0x1100, "bad query".to_string())));
}

#[test]
fn error_response_with_malformed_message() {
    let mut body: Vec<u8> = Vec::new();
    body.extend_from_slice(&7u32.to_be_bytes());
    body.extend_from_slice(&2u16.to_be_bytes());
    body.extend_from_slice(&[0xff, 0xfe]);
    let f = frame(0x00, &body);
    assert_eq!(read_message(&f), Ok(Response::Error(7, "couldn't parse".to_string())));
}

#[test]
fn short_frame_is_an_error() {
    assert_eq!(read_message(&vec![0x84, 0x00]), Err(DecodeError::UnexpectedEnd));
    // header declares 4 body bytes but none follow
    let mut f: Vec<u8> = vec![0x84, 0x00, 0x00, 0x01, 0x02];
    f.extend_from_slice(&4u32.to_be_bytes());
    assert_eq!(read_message(&f), Err(DecodeError::UnexpectedEnd));
}

#[test]
fn result_void_and_unknown_kind() {
    let body = 1u32.to_be_bytes();
    assert_eq!(read_message(&frame(0x08, &body)), Ok(Response::Result(ResultBody::Void)));
    // a result kind outside the table also decodes to Void
    let body2 = 0x77u32.to_be_bytes();
    assert_eq!(read_message(&frame(0x08, &body2)), Ok(Response::Result(ResultBody::Void)));
}

#[test]
fn result_set_keyspace() {
    let mut body: Vec<u8> = Vec::new();
    body.extend_from_slice(&3u32.to_be_bytes());
    push_short_string(&mut body, "ks1");
    assert_eq!(
        read_message(&frame(0x08, &body)),
        Ok(Response::Result(ResultBody::SetKeyspace("ks1".to_string())))
    );
}

#[test]
fn result_schema_change() {
    let mut body: Vec<u8> = Vec::new();
    body.extend_from_slice(&5u32.to_be_bytes());
    push_short_string(&mut body, "CREATED");
    push_short_string(&mut body, "ks");
    push_short_string(&mut body, "tbl");
    assert_eq!(
        read_message(&frame(0x08, &body)),
        Ok(Response::Result(ResultBody::SchemaChange(
            "CREATED".to_string(),
            "ks".to_string(),
            "tbl".to_string()
        )))
    );
}

#[test]
fn result_prepared_keeps_only_the_id() {
    let mut body: Vec<u8> = Vec::new();
    body.extend_from_slice(&4u32.to_be_bytes()); // kind: prepared
    body.extend_from_slice(&3u16.to_be_bytes());
    body.extend_from_slice(&[0xCA, 0xFE, 0x42]); // statement id
    body.extend_from_slice(&0i32.to_be_bytes()); // flags
    body.extend_from_slice(&1i32.to_be_bytes()); // column count
    body.extend_from_slice(&2i32.to_be_bytes()); // pk count
    body.extend_from_slice(&0u16.to_be_bytes()); // pk index
    body.extend_from_slice(&1u16.to_be_bytes()); // pk index
    push_short_string(&mut body, "ks");
    push_short_string(&mut body, "tbl");
    // one column spec, read and discarded
    push_short_string(&mut body, "a");
    body.extend_from_slice(&0x0009u16.to_be_bytes());
    assert_eq!(
        read_message(&frame(0x08, &body)),
        Ok(Response::Result(ResultBody::Prepared(vec![0xCA, 0xFE, 0x42])))
    );
}

fn rows_body(flags: i32, paging_state: Option<&[u8]>, row_values: &[(i32, &str)]) -> Vec<u8> {
    let mut body: Vec<u8> = Vec::new();
    body.extend_from_slice(&2u32.to_be_bytes()); // kind: rows
    body.extend_from_slice(&flags.to_be_bytes());
    body.extend_from_slice(&2i32.to_be_bytes()); // column count
    if let Some(ps) = paging_state {
        body.extend_from_slice(&(ps.len() as i32).to_be_bytes());
        body.extend_from_slice(ps);
    }
    push_short_string(&mut body, "ks");
    push_short_string(&mut body, "tbl");
    // column specs: one Int, one Varchar
    push_short_string(&mut body, "num");
    body.extend_from_slice(&0x0009u16.to_be_bytes());
    push_short_string(&mut body, "name");
    body.extend_from_slice(&0x000Du16.to_be_bytes());
    body.extend_from_slice(&(row_values.len() as i32).to_be_bytes());
    for (n, s) in row_values {
        body.extend_from_slice(&4i32.to_be_bytes());
        body.extend_from_slice(&n.to_be_bytes());
        body.extend_from_slice(&(s.len() as i32).to_be_bytes());
        body.extend_from_slice(s.as_bytes());
    }
    body
}

#[test]
fn rows_decoding_counts_and_order() {
    let body = rows_body(0, None, &[(1, "a"), (2, "b"), (3, "c")]);
    let resp = read_message(&frame(0x08, &body)).expect("decode failed");
    let Response::Result(ResultBody::Rows(rows, paging)) = resp else {
        panic!("expected a Rows result");
    };
    assert_eq!(paging, None, "unset flag must leave the paging state absent");
    assert_eq!(rows.len(), 3);
    let expected = [(1, "a"), (2, "b"), (3, "c")];
    for (row, (n, s)) in rows.iter().zip(expected.iter()) {
        assert_eq!(row.columns.len(), 2);
        assert_eq!(row.columns[0].0, "num");
        assert_eq!(row.columns[0].1, Column::Int(*n));
        assert_eq!(row.columns[1].0, "name");
        assert_eq!(row.columns[1].1, Column::String(s.to_string()));
    }
}

#[test]
fn rows_paging_state_extracted_verbatim() {
    let blob = [0xDE, 0xAD, 0xBE, 0xEF, 0x99];
    let body = rows_body(0x0002, Some(&blob), &[(7, "x")]);
    let resp = read_message(&frame(0x08, &body)).expect("decode failed");
    let Response::Result(ResultBody::Rows(rows, paging)) = resp else {
        panic!("expected a Rows result");
    };
    assert_eq!(paging, Some(blob.to_vec()));
    assert_eq!(rows.len(), 1);
    assert_eq!(rows[0].columns[0].1, Column::Int(7));
    assert_eq!(rows[0].columns[1].1, Column::String("x".to_string()));
}

#[test]
fn rows_with_zero_rows() {
    let body = rows_body(0, None, &[]);
    let resp = read_message(&frame(0x08, &body)).expect("decode failed");
    let Response::Result(ResultBody::Rows(rows, paging)) = resp else {
        panic!("expected a Rows result");
    };
    assert_eq!(rows.len(), 0);
    assert_eq!(paging, None);
}

#[test]
fn frame_body_len_reads_the_header() {
    let f = frame(0x02, &[1, 2, 3]);
    assert_eq!(frame_body_len(&f), Some(3));
    assert_eq!(frame_body_len(&vec![0x84, 0x00]), None);
}

#[test]
fn try_write_message_accepts_ordinary_requests() {
    let r = Request::Query("SELECT 1".to_string(), Consistency::One);
    let out = cql_codec::writing::try_write_message(&r).expect("must encode");
    assert_eq!(out, write_message(&r));
}

#[test]
fn try_write_message_rejects_oversized_counts() {
    // one bound value more than the 16-bit value count can carry
    let mut values: Vec<Column> = Vec::new();
    for _ in 0..0x10000 {
        values.push(Column::Null);
    }
    let r = Request::PrmQuery("SELECT ?".to_string(), values, Consistency::One);
    assert!(cql_codec::writing::try_write_message(&r).is_none());
}
