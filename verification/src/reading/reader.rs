//! The response decoder.
//!
//! `dec_message` is the byte-level specification of one whole response
//! frame: the 9-byte header is read, the body is the declared number of
//! bytes, and the result is dispatched on the opcode.  An opcode outside
//! the table yields `Empty`, an unknown result kind yields `Void`: the
//! decoder never fails on structurally valid data, only on a short frame.
//! `read_message` is the executable decoder, proved to return exactly what
//! `dec_message` says.

use vstd::prelude::*;

use crate::bytes::{
    i32_of,
    read_fixed,
    read_i32_at,
    read_u16_at,
    read_u32_at,
    read_u8_at,
    u16_of,
    u32_of,
};
use crate::reading::colspec::{
    colspecs_view,
    dec_colspecs,
    dec_short_string,
    lemma_colspecs_view_len,
    read_column_specs,
    read_short_string,
};
use crate::reading::value::{dec_value, read_column_value, try_from_utf8};
use crate::shared::{
    col_view,
    colspec_view,
    Column,
    named_cols_view,
    opt_bytes_view,
    result_body_view,
    resp_view,
    row_view,
    rows_view,
    spec_to_opcode,
    spec_to_result_kind,
    to_opcode,
    to_result_kind,
    ColumnSpec,
    ColumnSpecV,
    DecodeError,
    Opcode,
    ResultBody,
    ResultBodyV,
    ResultKind,
    Response,
    ResponseV,
    Row,
    RowV,
};
use vstd::utf8::{decode_utf8, valid_utf8};

verus! {

// ---------------------------------------------------------------------------
// Decode specification
// ---------------------------------------------------------------------------

/// An error response body: a 32-bit code and a short message, with a
/// placeholder message when the bytes are not UTF-8.
pub open spec fn dec_error(s: Seq<u8>) -> Option<ResponseV> {
    if s.len() < 6 {
        Option::None
    } else {
        let code = u32_of(s.subrange(0, 4));
        let len = u16_of(s.subrange(4, 6)) as int;
        if s.len() < 6 + len {
            Option::None
        } else {
            let b = s.subrange(6, 6 + len);
            Option::Some(
                ResponseV::Error(
                    code,
                    if valid_utf8(b) {
                        decode_utf8(b)
                    } else {
                        "couldn't parse"@
                    },
                ),
            )
        }
    }
}

/// One row: one value per column descriptor, in order, paired with the
/// column's name.
pub open spec fn dec_row(s: Seq<u8>, specs: Seq<ColumnSpecV>) -> Option<(RowV, int)>
    decreases specs.len(),
{
    if specs.len() == 0 {
        Option::Some((Seq::empty(), 0int))
    } else {
        match dec_value(s, specs[0].desc) {
            Option::Some((v, used)) => match dec_row(s.skip(used), specs.drop_first()) {
                Option::Some((row, used_rest)) => Option::Some(
                    (seq![(specs[0].name, v)] + row, used + used_rest),
                ),
                Option::None => Option::None,
            },
            Option::None => Option::None,
        }
    }
}

/// `n` rows, back to back.
pub open spec fn dec_rows_data(s: Seq<u8>, specs: Seq<ColumnSpecV>, n: int) -> Option<
    (Seq<RowV>, int),
>
    decreases n,
{
    if n <= 0 {
        Option::Some((Seq::empty(), 0int))
    } else {
        match dec_row(s, specs) {
            Option::Some((row, used)) => match dec_rows_data(s.skip(used), specs, n - 1) {
                Option::Some((rows, used_rest)) => Option::Some(
                    (seq![row] + rows, used + used_rest),
                ),
                Option::None => Option::None,
            },
            Option::None => Option::None,
        }
    }
}

/// What follows the flags, column count and optional paging state of a
/// Rows body: the global keyspace and table names, the column descriptors,
/// a row count, then the rows.
pub open spec fn dec_rows_tail(s: Seq<u8>, col_count: i32, paging: Option<Seq<u8>>) -> Option<
    ResultBodyV,
> {
    match dec_short_string(s) {
        Option::Some((_keyspace, u1)) => match dec_short_string(s.skip(u1)) {
            Option::Some((_table, u2)) => match dec_colspecs(s.skip(u1 + u2), col_count as int) {
                Option::Some((specs, u3)) => {
                    let p = u1 + u2 + u3;
                    if s.len() < p + 4 {
                        Option::None
                    } else {
                        let row_count = i32_of(s.subrange(p, p + 4));
                        match dec_rows_data(
                            s.skip(p + 4),
                            specs,
                            if row_count < 0 {
                                0int
                            } else {
                                row_count as int
                            },
                        ) {
                            Option::Some((rows, _)) => Option::Some(
                                ResultBodyV::Rows(rows, paging),
                            ),
                            Option::None => Option::None,
                        }
                    }
                },
                Option::None => Option::None,
            },
            Option::None => Option::None,
        },
        Option::None => Option::None,
    }
}

/// A Rows result body.  When the "has more pages" flag is set, a
/// length-prefixed paging-state blob stands before the metadata and is
/// returned verbatim; otherwise the decoded paging state is absent.
pub open spec fn dec_rows(s: Seq<u8>) -> Option<ResultBodyV> {
    if s.len() < 8 {
        Option::None
    } else {
        let flags = i32_of(s.subrange(0, 4));
        let col_count = i32_of(s.subrange(4, 8));
        if flags & 2 == 2 {
            if s.len() < 12 {
                Option::None
            } else {
                let plen = i32_of(s.subrange(8, 12));
                let need = (plen as usize) as int;
                if s.len() < 12 + need {
                    Option::None
                } else {
                    dec_rows_tail(
                        s.skip(12 + need),
                        col_count,
                        Option::Some(s.subrange(12, 12 + need)),
                    )
                }
            }
        } else {
            dec_rows_tail(s.skip(8), col_count, Option::None)
        }
    }
}

/// A Prepared result body: the statement id is kept; the flags, column
/// metadata and partition-key indices are read and discarded.
pub open spec fn dec_prepared(s: Seq<u8>) -> Option<ResultBodyV> {
    if s.len() < 2 {
        Option::None
    } else {
        let idlen = u16_of(s.subrange(0, 2)) as int;
        if s.len() < 2 + idlen {
            Option::None
        } else {
            let id = s.subrange(2, 2 + idlen);
            let p = 2 + idlen;
            if s.len() < p + 12 {
                Option::None
            } else {
                let col_count = i32_of(s.subrange(p + 4, p + 8));
                let pk_count = i32_of(s.subrange(p + 8, p + 12));
                let pk = if pk_count < 0 {
                    0int
                } else {
                    pk_count as int
                };
                let q = p + 12 + 2 * pk;
                if s.len() < q {
                    Option::None
                } else {
                    match dec_short_string(s.skip(q)) {
                        Option::Some((_keyspace, u1)) => match dec_short_string(s.skip(q + u1)) {
                            Option::Some((_table, u2)) => match dec_colspecs(
                                s.skip(q + u1 + u2),
                                col_count as int,
                            ) {
                                Option::Some(_) => Option::Some(ResultBodyV::Prepared(id)),
                                Option::None => Option::None,
                            },
                            Option::None => Option::None,
                        },
                        Option::None => Option::None,
                    }
                }
            }
        }
    }
}

/// A SchemaChange result body: three short strings.
pub open spec fn dec_schema_change(s: Seq<u8>) -> Option<ResultBodyV> {
    match dec_short_string(s) {
        Option::Some((change, u1)) => match dec_short_string(s.skip(u1)) {
            Option::Some((keyspace, u2)) => match dec_short_string(s.skip(u1 + u2)) {
                Option::Some((table, _)) => Option::Some(
                    ResultBodyV::SchemaChange(change, keyspace, table),
                ),
                Option::None => Option::None,
            },
            Option::None => Option::None,
        },
        Option::None => Option::None,
    }
}

/// A result frame body: a 32-bit result kind, then the kind's own body.
/// Kinds outside the table decode to `Void`.
pub open spec fn dec_result(s: Seq<u8>) -> Option<ResponseV> {
    if s.len() < 4 {
        Option::None
    } else {
        let body = s.skip(4);
        match spec_to_result_kind(u32_of(s.subrange(0, 4))) {
            ResultKind::Void => Option::Some(ResponseV::Result(ResultBodyV::Void)),
            ResultKind::Rows => match dec_rows(body) {
                Option::Some(b) => Option::Some(ResponseV::Result(b)),
                Option::None => Option::None,
            },
            ResultKind::SetKeyspace => match dec_short_string(body) {
                Option::Some((name, _)) => Option::Some(
                    ResponseV::Result(ResultBodyV::SetKeyspace(name)),
                ),
                Option::None => Option::None,
            },
            ResultKind::Prepared => match dec_prepared(body) {
                Option::Some(b) => Option::Some(ResponseV::Result(b)),
                Option::None => Option::None,
            },
            ResultKind::SchemaChange => match dec_schema_change(body) {
                Option::Some(b) => Option::Some(ResponseV::Result(b)),
                Option::None => Option::None,
            },
            ResultKind::UnknownResult => Option::Some(ResponseV::Result(ResultBodyV::Void)),
        }
    }
}

/// One whole response frame.  The header's length field declares the body;
/// a frame shorter than it declares does not decode.  Opcodes outside the
/// table decode to `Empty` without touching the body.  The authenticate
/// response carries a fixed placeholder name.
pub open spec fn dec_message(s: Seq<u8>) -> Option<ResponseV> {
    if s.len() < 9 {
        Option::None
    } else {
        let body_len = u32_of(s.subrange(5, 9)) as int;
        if s.len() < 9 + body_len {
            Option::None
        } else {
            let body = s.subrange(9, 9 + body_len);
            match spec_to_opcode(s[4]) {
                Opcode::Error => dec_error(body),
                Opcode::Ready => Option::Some(ResponseV::Ready),
                Opcode::Authenticate => Option::Some(ResponseV::Authenticate("test"@)),
                Opcode::Supported => Option::Some(ResponseV::Supported),
                Opcode::Result => dec_result(body),
                _ => Option::Some(ResponseV::Empty),
            }
        }
    }
}

// ---------------------------------------------------------------------------
// Executable decoder
// ---------------------------------------------------------------------------

/// Read an error response body, as `dec_error` describes.
fn read_error_response(body: &Vec<u8>) -> (r: Result<Response, DecodeError>)
    ensures
        match r {
            Result::Ok(resp) => dec_error(body@) == Option::Some(resp_view(resp)),
            Result::Err(_) => dec_error(body@) is None,
        },
{
    let n = body.len();
    if n < 6 {
        return Result::Err(DecodeError::UnexpectedEnd);
    }
    let code = read_u32_at(body, 0);
    let len = read_u16_at(body, 4);
    proof {
        assert(body@.subrange(0, 4) =~= body@.subrange(0int, 4int));
        assert(body@.subrange(4, 6) =~= body@.subrange(4int, 6int));
    }
    let len_u = len as usize;
    if n - 6 < len_u {
        return Result::Err(DecodeError::UnexpectedEnd);
    }
    let raw = read_fixed(body, 6, len_u);
    let msg = match try_from_utf8(raw) {
        Option::Some(s) => s,
        Option::None => "couldn't parse".to_owned(),
    };
    Result::Ok(Response::Error(code, msg))
}

/// Read the columns of one row starting at column `i`, as `dec_row`
/// describes over the remaining descriptors.
fn read_row_cols(bytes: &Vec<u8>, pos: usize, specs: &Vec<ColumnSpec>, i: usize) -> (r: Result<
    (Vec<(String, Column)>, usize),
    DecodeError,
>)
    requires
        pos <= bytes@.len(),
        i <= specs@.len(),
    ensures
        match r {
            Result::Ok((cols, end)) => pos <= end <= bytes@.len() && dec_row(
                bytes@.skip(pos as int),
                colspecs_view(specs@).skip(i as int),
            ) == Option::Some((named_cols_view(cols@), end - pos)),
            Result::Err(_) => dec_row(
                bytes@.skip(pos as int),
                colspecs_view(specs@).skip(i as int),
            ) is None,
        },
    decreases specs@.len() - i,
{
    proof {
        lemma_colspecs_view_len(specs@);
    }
    let n_specs = specs.len();
    if i == n_specs {
        let cols: Vec<(String, Column)> = Vec::new();
        proof {
            assert(colspecs_view(specs@).skip(i as int) =~= Seq::<ColumnSpecV>::empty());
            assert(named_cols_view(cols@) =~= Seq::<(Seq<char>, crate::shared::ColumnV)>::empty());
        }
        Result::Ok((cols, pos))
    } else {
        proof {
            crate::reading::colspec::lemma_colspecs_view_index(specs@, i as int);
            assert(colspecs_view(specs@).skip(i as int)[0] == colspecs_view(specs@)[i as int]);
            assert(colspecs_view(specs@).skip(i as int).drop_first() =~= colspecs_view(
                specs@,
            ).skip(i as int + 1));
        }
        match read_column_value(bytes, pos, specs[i].data_type, &specs[i].collection_spec) {
            Result::Ok((c, mid)) => {
                match read_row_cols(bytes, mid, specs, i + 1) {
                    Result::Ok((mut cols, end)) => {
                        proof {
                            assert(bytes@.skip(pos as int).skip(mid - pos) =~= bytes@.skip(
                                mid as int,
                            ));
                        }
                        let name = specs[i].name.clone();
                        let ghost old_cols = cols@;
                        cols.insert(0, (name, c));
                        proof {
                            assert(cols@[0].0@ == specs@[i as int].name@);
                            assert(cols@[0].1 == c);
                            assert(cols@.drop_first() =~= old_cols);
                            assert(named_cols_view(cols@) =~= seq![
                                (specs@[i as int].name@, col_view(c)),
                            ] + named_cols_view(old_cols));
                        }
                        Result::Ok((cols, end))
                    },
                    Result::Err(e) => {
                        proof {
                            assert(bytes@.skip(pos as int).skip(mid - pos) =~= bytes@.skip(
                                mid as int,
                            ));
                        }
                        Result::Err(e)
                    },
                }
            },
            Result::Err(e) => Result::Err(e),
        }
    }
}

/// Read `n` rows starting at `pos`, as `dec_rows_data` describes.
fn read_rows_data(bytes: &Vec<u8>, pos: usize, specs: &Vec<ColumnSpec>, n: usize) -> (r: Result<
    (Vec<Row>, usize),
    DecodeError,
>)
    requires
        pos <= bytes@.len(),
    ensures
        match r {
            Result::Ok((rows, end)) => pos <= end <= bytes@.len() && dec_rows_data(
                bytes@.skip(pos as int),
                colspecs_view(specs@),
                n as int,
            ) == Option::Some((rows_view(rows@), end - pos)),
            Result::Err(_) => dec_rows_data(
                bytes@.skip(pos as int),
                colspecs_view(specs@),
                n as int,
            ) is None,
        },
    decreases n,
{
    if n == 0 {
        let rows: Vec<Row> = Vec::new();
        proof {
            assert(rows_view(rows@) =~= Seq::<RowV>::empty());
        }
        Result::Ok((rows, pos))
    } else {
        proof {
            assert(colspecs_view(specs@).skip(0) =~= colspecs_view(specs@));
        }
        match read_row_cols(bytes, pos, specs, 0) {
            Result::Ok((cols, mid)) => {
                match read_rows_data(bytes, mid, specs, n - 1) {
                    Result::Ok((mut rows, end)) => {
                        proof {
                            assert(bytes@.skip(pos as int).skip(mid - pos) =~= bytes@.skip(
                                mid as int,
                            ));
                        }
                        let row = Row { columns: cols };
                        let ghost old_rows = rows@;
                        rows.insert(0, row);
                        proof {
                            assert(rows@[0].columns@ == cols@);
                            assert(rows@.drop_first() =~= old_rows);
                            assert(rows_view(rows@) =~= seq![row_view(rows@[0])] + rows_view(
                                old_rows,
                            ));
                        }
                        Result::Ok((rows, end))
                    },
                    Result::Err(e) => {
                        proof {
                            assert(bytes@.skip(pos as int).skip(mid - pos) =~= bytes@.skip(
                                mid as int,
                            ));
                        }
                        Result::Err(e)
                    },
                }
            },
            Result::Err(e) => Result::Err(e),
        }
    }
}

/// Read the metadata, column descriptors and rows that follow the flags
/// and optional paging state, as `dec_rows_tail` describes.
#[verifier::rlimit(100)]
fn read_rows_tail(body: &Vec<u8>, pos: usize, col_count: i32, paging: Option<Vec<u8>>) -> (r:
    Result<ResultBody, DecodeError>)
    requires
        pos <= body@.len(),
    ensures
        match r {
            Result::Ok(rb) => dec_rows_tail(
                body@.skip(pos as int),
                col_count,
                opt_bytes_view(paging),
            ) == Option::Some(result_body_view(rb)),
            Result::Err(_) => dec_rows_tail(
                body@.skip(pos as int),
                col_count,
                opt_bytes_view(paging),
            ) is None,
        },
{
    let ghost s = body@.skip(pos as int);
    let n = body.len();
    let (_keyspace, p1) = match read_short_string(body, pos) {
        Result::Ok(x) => x,
        Result::Err(e) => {
            return Result::Err(e);
        },
    };
    let (_table, p2) = match read_short_string(body, p1) {
        Result::Ok(x) => x,
        Result::Err(e) => {
            proof {
                assert(s.skip(p1 - pos) =~= body@.skip(p1 as int));
            }
            return Result::Err(e);
        },
    };
    proof {
        assert(s.skip(p1 - pos) =~= body@.skip(p1 as int));
        assert(s.skip((p1 - pos) + (p2 - p1)) =~= body@.skip(p2 as int));
    }
    let (specs, p3) = match read_column_specs(body, p2, col_count) {
        Result::Ok(x) => x,
        Result::Err(e) => {
            return Result::Err(e);
        },
    };
    proof {
        assert(s.skip((p1 - pos) + (p2 - p1) + (p3 - p2)) =~= body@.skip(p3 as int));
    }
    if n - p3 < 4 {
        return Result::Err(DecodeError::UnexpectedEnd);
    }
    let row_count = read_i32_at(body, p3);
    proof {
        assert(s.subrange((p3 - pos) as int, (p3 - pos) as int + 4) =~= body@.subrange(
            p3 as int,
            p3 as int + 4,
        ));
    }
    let n_rows: usize = if row_count < 0 {
        0
    } else {
        row_count as usize
    };
    match read_rows_data(body, p3 + 4, &specs, n_rows) {
        Result::Ok((rows, _end)) => {
            proof {
                assert(s.skip((p3 - pos) + 4) =~= body@.skip(p3 as int + 4));
            }
            Result::Ok(ResultBody::Rows(rows, paging))
        },
        Result::Err(e) => {
            proof {
                assert(s.skip((p3 - pos) + 4) =~= body@.skip(p3 as int + 4));
            }
            Result::Err(e)
        },
    }
}

/// Read a Rows result body at `pos`, as `dec_rows` describes.
fn read_rows(body: &Vec<u8>, pos: usize) -> (r: Result<ResultBody, DecodeError>)
    requires
        pos <= body@.len(),
    ensures
        match r {
            Result::Ok(rb) => dec_rows(body@.skip(pos as int)) == Option::Some(
                result_body_view(rb),
            ),
            Result::Err(_) => dec_rows(body@.skip(pos as int)) is None,
        },
{
    let ghost s = body@.skip(pos as int);
    let n = body.len();
    if n - pos < 8 {
        return Result::Err(DecodeError::UnexpectedEnd);
    }
    let flags = read_i32_at(body, pos);
    let col_count = read_i32_at(body, pos + 4);
    proof {
        assert(s.subrange(0, 4) =~= body@.subrange(pos as int, pos as int + 4));
        assert(s.subrange(4, 8) =~= body@.subrange(pos as int + 4, pos as int + 8));
    }
    if flags & 2 == 2 {
        if n - pos < 12 {
            return Result::Err(DecodeError::UnexpectedEnd);
        }
        let plen = read_i32_at(body, pos + 8);
        proof {
            assert(s.subrange(8, 12) =~= body@.subrange(pos as int + 8, pos as int + 12));
        }
        let plen_u: usize = #[verifier::truncate] (plen as usize);
        if n - pos - 12 < plen_u {
            return Result::Err(DecodeError::UnexpectedEnd);
        }
        let paging = read_fixed(body, pos + 12, plen_u);
        proof {
            assert(s.subrange(12, 12 + plen_u as int) =~= body@.subrange(
                pos as int + 12,
                pos as int + 12 + plen_u as int,
            ));
            assert(s.skip(12 + plen_u as int) =~= body@.skip(pos as int + 12 + plen_u as int));
        }
        read_rows_tail(body, pos + 12 + plen_u, col_count, Option::Some(paging))
    } else {
        proof {
            assert(s.skip(8) =~= body@.skip(pos as int + 8));
        }
        read_rows_tail(body, pos + 8, col_count, Option::None)
    }
}

/// Read a Prepared result body at `pos`, as `dec_prepared` describes.
#[verifier::rlimit(100)]
fn read_prepared(body: &Vec<u8>, pos: usize) -> (r: Result<ResultBody, DecodeError>)
    requires
        pos <= body@.len(),
    ensures
        match r {
            Result::Ok(rb) => dec_prepared(body@.skip(pos as int)) == Option::Some(
                result_body_view(rb),
            ),
            Result::Err(_) => dec_prepared(body@.skip(pos as int)) is None,
        },
{
    let ghost s = body@.skip(pos as int);
    let n = body.len();
    if n - pos < 2 {
        return Result::Err(DecodeError::UnexpectedEnd);
    }
    let idlen = read_u16_at(body, pos);
    proof {
        assert(s.subrange(0, 2) =~= body@.subrange(pos as int, pos as int + 2));
    }
    let idlen_u = idlen as usize;
    if n - pos - 2 < idlen_u {
        return Result::Err(DecodeError::UnexpectedEnd);
    }
    let id = read_fixed(body, pos + 2, idlen_u);
    proof {
        assert(s.subrange(2, 2 + idlen as int) =~= body@.subrange(
            pos as int + 2,
            pos as int + 2 + idlen as int,
        ));
    }
    let p = pos + 2 + idlen_u;
    if n - p < 12 {
        return Result::Err(DecodeError::UnexpectedEnd);
    }
    let _flags = read_i32_at(body, p);
    let col_count = read_i32_at(body, p + 4);
    let pk_count = read_i32_at(body, p + 8);
    proof {
        assert(s.subrange((p - pos) + 4, (p - pos) + 8) =~= body@.subrange(
            p as int + 4,
            p as int + 8,
        ));
        assert(s.subrange((p - pos) + 8, (p - pos) + 12) =~= body@.subrange(
            p as int + 8,
            p as int + 12,
        ));
    }
    let pk_u: usize = if pk_count < 0 {
        0
    } else {
        pk_count as usize
    };
    if n - p - 12 < 2 * pk_u {
        return Result::Err(DecodeError::UnexpectedEnd);
    }
    let q = p + 12 + 2 * pk_u;
    proof {
        assert(s.skip((q - pos) as int) =~= body@.skip(q as int));
    }
    let (_keyspace, u1) = match read_short_string(body, q) {
        Result::Ok(x) => x,
        Result::Err(e) => {
            return Result::Err(e);
        },
    };
    let (_table, u2) = match read_short_string(body, u1) {
        Result::Ok(x) => x,
        Result::Err(e) => {
            proof {
                assert(s.skip((q - pos) + (u1 - q)) =~= body@.skip(u1 as int));
            }
            return Result::Err(e);
        },
    };
    proof {
        assert(s.skip((q - pos) + (u1 - q)) =~= body@.skip(u1 as int));
        assert(s.skip((q - pos) + (u1 - q) + (u2 - u1)) =~= body@.skip(u2 as int));
    }
    match read_column_specs(body, u2, col_count) {
        Result::Ok(_) => Result::Ok(ResultBody::Prepared(id)),
        Result::Err(e) => Result::Err(e),
    }
}

/// Read a SchemaChange result body at `pos`, as `dec_schema_change`
/// describes.
fn read_schema_change(body: &Vec<u8>, pos: usize) -> (r: Result<ResultBody, DecodeError>)
    requires
        pos <= body@.len(),
    ensures
        match r {
            Result::Ok(rb) => dec_schema_change(body@.skip(pos as int)) == Option::Some(
                result_body_view(rb),
            ),
            Result::Err(_) => dec_schema_change(body@.skip(pos as int)) is None,
        },
{
    let ghost s = body@.skip(pos as int);
    let (change, u1) = match read_short_string(body, pos) {
        Result::Ok(x) => x,
        Result::Err(e) => {
            return Result::Err(e);
        },
    };
    let (keyspace, u2) = match read_short_string(body, u1) {
        Result::Ok(x) => x,
        Result::Err(e) => {
            proof {
                assert(s.skip(u1 - pos) =~= body@.skip(u1 as int));
            }
            return Result::Err(e);
        },
    };
    proof {
        assert(s.skip(u1 - pos) =~= body@.skip(u1 as int));
        assert(s.skip((u1 - pos) + (u2 - u1)) =~= body@.skip(u2 as int));
    }
    match read_short_string(body, u2) {
        Result::Ok((table, _)) => Result::Ok(ResultBody::SchemaChange(change, keyspace, table)),
        Result::Err(e) => Result::Err(e),
    }
}

/// Read a result frame body, as `dec_result` describes.
fn read_result(body: &Vec<u8>) -> (r: Result<Response, DecodeError>)
    ensures
        match r {
            Result::Ok(resp) => dec_result(body@) == Option::Some(resp_view(resp)),
            Result::Err(_) => dec_result(body@) is None,
        },
{
    let n = body.len();
    if n < 4 {
        return Result::Err(DecodeError::UnexpectedEnd);
    }
    let kind_raw = read_u32_at(body, 0);
    proof {
        assert(body@.subrange(0, 4) =~= body@.subrange(0int, 4int));
        assert(body@.skip(4).skip(0) =~= body@.skip(4int));
    }
    match to_result_kind(kind_raw) {
        ResultKind::Void | ResultKind::UnknownResult => Result::Ok(
            Response::Result(ResultBody::Void),
        ),
        ResultKind::Rows => {
            match read_rows(body, 4) {
                Result::Ok(rb) => {
                    proof {
                        assert(body@.skip(4int) =~= body@.skip(4));
                    }
                    Result::Ok(Response::Result(rb))
                },
                Result::Err(e) => Result::Err(e),
            }
        },
        ResultKind::SetKeyspace => {
            match read_short_string(body, 4) {
                Result::Ok((name, _)) => {
                    proof {
                        assert(body@.skip(4int) =~= body@.skip(4));
                    }
                    Result::Ok(Response::Result(ResultBody::SetKeyspace(name)))
                },
                Result::Err(e) => Result::Err(e),
            }
        },
        ResultKind::Prepared => {
            match read_prepared(body, 4) {
                Result::Ok(rb) => Result::Ok(Response::Result(rb)),
                Result::Err(e) => Result::Err(e),
            }
        },
        ResultKind::SchemaChange => {
            match read_schema_change(body, 4) {
                Result::Ok(rb) => Result::Ok(Response::Result(rb)),
                Result::Err(e) => Result::Err(e),
            }
        },
    }
}

/// The number of body bytes a frame header declares, from its first 9
/// bytes.
pub fn frame_body_len(header: &Vec<u8>) -> (r: Option<u32>)
    ensures
        r == (if header@.len() >= 9 {
            Option::Some(u32_of(header@.subrange(5, 9)))
        } else {
            Option::None::<u32>
        }),
{
    if header.len() < 9 {
        Option::None
    } else {
        Option::Some(read_u32_at(header, 5))
    }
}

/// Decode one whole response frame, as `dec_message` describes: header,
/// declared body, opcode dispatch.  Unknown opcodes yield `Empty`; the
/// only failure is a frame shorter than its header declares.
pub fn read_message(bytes: &Vec<u8>) -> (r: Result<Response, DecodeError>)
    ensures
        match r {
            Result::Ok(resp) => dec_message(bytes@) == Option::Some(resp_view(resp)),
            Result::Err(_) => dec_message(bytes@) is None,
        },
{
    let n = bytes.len();
    if n < 9 {
        return Result::Err(DecodeError::UnexpectedEnd);
    }
    let opcode_byte = read_u8_at(bytes, 4);
    let body_len32 = read_u32_at(bytes, 5);
    let body_len = body_len32 as usize;
    if n - 9 < body_len {
        return Result::Err(DecodeError::UnexpectedEnd);
    }
    let body = read_fixed(bytes, 9, body_len);
    match to_opcode(opcode_byte) {
        Opcode::Error => read_error_response(&body),
        Opcode::Ready => Result::Ok(Response::Ready),
        Opcode::Authenticate => Result::Ok(Response::Authenticate("test".to_owned())),
        Opcode::Supported => Result::Ok(Response::Supported),
        Opcode::Result => read_result(&body),
        _ => Result::Ok(Response::Empty),
    }
}

} // verus!
