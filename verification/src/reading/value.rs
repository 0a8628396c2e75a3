//! The value decoder.
//!
//! `dec_value` is the byte-level specification: one recursive function over
//! a type descriptor, covering top-level and nested values alike.  A value
//! is a signed 32-bit length prefix (negative = null) followed by its body.
//! Fixed-width scalars consume exactly their wire width; strings consume
//! the declared length; collections consume an element count and that many
//! recursively decoded elements.  `read_column_value` is the executable
//! decoder, proved to return exactly what `dec_value` says.

use vstd::prelude::*;

use crate::bytes::{i32_of, i64_of, read_fixed, read_i32_at, read_i64_at, read_u32_at, read_u64_at, u32_of, u64_of};
use crate::shared::{
    col_view,
    coll_view,
    cols_view,
    desc_view,
    pairs_view,
    CollV,
    CollectionSpec,
    Column,
    ColumnType,
    ColumnV,
    DecodeError,
    DescV,
    TypeDesc,
};
use vstd::utf8::{decode_utf8, valid_utf8};

verus! {

// ---------------------------------------------------------------------------
// Text and Timeuuid helpers
// ---------------------------------------------------------------------------

/// The characters a byte sequence decodes to: its UTF-8 decoding when it is
/// valid, and the empty placeholder otherwise (lossy fallback, so that one
/// malformed string never fails a whole response).
pub open spec fn text_of(b: Seq<u8>) -> Seq<char> {
    if valid_utf8(b) {
        decode_utf8(b)
    } else {
        Seq::empty()
    }
}

/// Relies on `String::from_utf8`: it succeeds exactly on valid UTF-8 input
/// and then returns the string holding those bytes, whose characters are
/// their UTF-8 decoding.
#[verifier::external_body]
pub(crate) fn try_from_utf8(b: Vec<u8>) -> (r: Option<String>)
    ensures
        r is Some <==> valid_utf8(b@),
        r is Some ==> r.unwrap()@ == decode_utf8(b@),
{
    String::from_utf8(b).ok()
}

/// Lossy byte-to-text conversion per `text_of`.
pub(crate) fn bytes_to_text(b: Vec<u8>) -> (s: String)
    ensures
        s@ == text_of(b@),
{
    match try_from_utf8(b) {
        Option::Some(s) => s,
        Option::None => String::new(),
    }
}

pub open spec fn hex_char(n: u8) -> char {
    match n {
        0u8 => '0',
        1u8 => '1',
        2u8 => '2',
        3u8 => '3',
        4u8 => '4',
        5u8 => '5',
        6u8 => '6',
        7u8 => '7',
        8u8 => '8',
        9u8 => '9',
        10u8 => 'a',
        11u8 => 'b',
        12u8 => 'c',
        13u8 => 'd',
        14u8 => 'e',
        _ => 'f',
    }
}

/// Lowercase hexadecimal characters of a byte sequence, two per byte.
pub open spec fn hex_chars(b: Seq<u8>) -> Seq<char>
    decreases b.len(),
{
    if b.len() == 0 {
        Seq::empty()
    } else {
        seq![hex_char(b[0] / 16), hex_char(b[0] % 16)] + hex_chars(b.drop_first())
    }
}

/// The canonical hyphenated rendering of a 16-byte identifier: lowercase
/// hex digits with hyphens after digits 8, 12, 16 and 20.
pub open spec fn uuid_chars(b: Seq<u8>) -> Seq<char>
    recommends
        b.len() == 16,
{
    hex_chars(b.subrange(0, 4)) + seq!['-'] + hex_chars(b.subrange(4, 6)) + seq!['-'] + hex_chars(
        b.subrange(6, 8),
    ) + seq!['-'] + hex_chars(b.subrange(8, 10)) + seq!['-'] + hex_chars(b.subrange(10, 16))
}

/// Relies on `uuid::Uuid::from_bytes` and the `Hyphenated` display format:
/// the bytes are kept in order and rendered as lowercase hexadecimal with
/// hyphens after digits 8, 12, 16 and 20.
#[verifier::external_body]
fn uuid_hyphenated(b: &Vec<u8>) -> (r: String)
    requires
        b@.len() == 16,
    ensures
        r@ == uuid_chars(b@),
{
    let mut a = [0u8; 16];
    a.copy_from_slice(&b[..]);
    uuid::Uuid::from_bytes(a).as_hyphenated().to_string()
}

// ---------------------------------------------------------------------------
// The decode specification
// ---------------------------------------------------------------------------

/// Decode one value from the front of `s` against descriptor `d`.
/// Returns the decoded value and the number of bytes consumed, or `None`
/// when the bytes end before the declared structure does.
pub open spec fn dec_value(s: Seq<u8>, d: DescV) -> Option<(ColumnV, int)>
    decreases d, 0int, 0int,
{
    if s.len() < 4 {
        Option::None
    } else {
        let len = i32_of(s.subrange(0, 4));
        if len < 0 {
            Option::Some((ColumnV::Null, 4int))
        } else {
            match d.data_type {
                ColumnType::Int => if s.len() < 8 {
                    Option::None
                } else {
                    Option::Some((ColumnV::Int(i32_of(s.subrange(4, 8))), 8int))
                },
                ColumnType::Float => if s.len() < 8 {
                    Option::None
                } else {
                    Option::Some((ColumnV::Float(u32_of(s.subrange(4, 8))), 8int))
                },
                ColumnType::Bigint => if s.len() < 12 {
                    Option::None
                } else {
                    Option::Some((ColumnV::Bigint(i64_of(s.subrange(4, 12))), 12int))
                },
                ColumnType::Double => if s.len() < 12 {
                    Option::None
                } else {
                    Option::Some((ColumnV::Double(u64_of(s.subrange(4, 12))), 12int))
                },
                ColumnType::Timestamp => if s.len() < 12 {
                    Option::None
                } else {
                    Option::Some((ColumnV::Timestamp(i64_of(s.subrange(4, 12))), 12int))
                },
                ColumnType::Timeuuid => if s.len() < 20 {
                    Option::None
                } else {
                    Option::Some((ColumnV::Text(uuid_chars(s.subrange(4, 20))), 20int))
                },
                ColumnType::SetType => if s.len() < 8 {
                    Option::None
                } else {
                    let n = i32_of(s.subrange(4, 8));
                    match d.collection {
                        CollV::SetOf(ed) => match dec_elems(
                            s.skip(8),
                            *ed,
                            if n < 0 {
                                0int
                            } else {
                                n as int
                            },
                        ) {
                            Option::Some((vs, used)) => Option::Some(
                                (ColumnV::SetOf(vs), 8 + used),
                            ),
                            Option::None => Option::None,
                        },
                        _ => Option::Some((ColumnV::Null, 8int)),
                    }
                },
                ColumnType::List => if s.len() < 8 {
                    Option::None
                } else {
                    let n = i32_of(s.subrange(4, 8));
                    match d.collection {
                        CollV::ListOf(ed) => match dec_elems(
                            s.skip(8),
                            *ed,
                            if n < 0 {
                                0int
                            } else {
                                n as int
                            },
                        ) {
                            Option::Some((vs, used)) => Option::Some(
                                (ColumnV::ListOf(vs), 8 + used),
                            ),
                            Option::None => Option::None,
                        },
                        _ => Option::Some((ColumnV::Null, 8int)),
                    }
                },
                ColumnType::MapType => if s.len() < 8 {
                    Option::None
                } else {
                    let n = i32_of(s.subrange(4, 8));
                    match d.collection {
                        CollV::MapOf(_, _) => match dec_pairs(
                            s.skip(8),
                            d.collection,
                            if n < 0 {
                                0int
                            } else {
                                n as int
                            },
                        ) {
                            Option::Some((ps, used)) => Option::Some(
                                (ColumnV::MapOf(ps), 8 + used),
                            ),
                            Option::None => Option::None,
                        },
                        _ => Option::Some((ColumnV::Null, 8int)),
                    }
                },
                _ => if s.len() < 4 + len {
                    Option::None
                } else {
                    Option::Some((ColumnV::Text(text_of(s.subrange(4, 4 + len))), 4 + len))
                },
            }
        }
    }
}

/// Decode `n` collection elements, each with its own length prefix.
pub open spec fn dec_elems(s: Seq<u8>, ed: DescV, n: int) -> Option<(Seq<ColumnV>, int)>
    decreases ed, 1int, n,
{
    if n <= 0 {
        Option::Some((Seq::empty(), 0int))
    } else {
        match dec_value(s, ed) {
            Option::Some((v, used)) => match dec_elems(s.skip(used), ed, n - 1) {
                Option::Some((vs, used_rest)) => Option::Some((seq![v] + vs, used + used_rest)),
                Option::None => Option::None,
            },
            Option::None => Option::None,
        }
    }
}

/// Decode `n` map entries.  A pair whose key decodes to null is dropped
/// rather than kept, after both its key and its value are consumed.
pub open spec fn dec_pairs(s: Seq<u8>, c: CollV, n: int) -> Option<
    (Seq<(ColumnV, ColumnV)>, int),
>
    decreases c, 1int, n,
{
    if n <= 0 {
        Option::Some((Seq::empty(), 0int))
    } else {
        match c {
            CollV::MapOf(kd, vd) => match dec_value(s, *kd) {
                Option::Some((k, used_k)) => match dec_value(s.skip(used_k), *vd) {
                    Option::Some((w, used_v)) => match dec_pairs(
                        s.skip(used_k + used_v),
                        c,
                        n - 1,
                    ) {
                        Option::Some((ps, used_rest)) => Option::Some(
                            (
                                if k is Null {
                                    ps
                                } else {
                                    seq![(k, w)] + ps
                                },
                                used_k + used_v + used_rest,
                            ),
                        ),
                        Option::None => Option::None,
                    },
                    Option::None => Option::None,
                },
                Option::None => Option::None,
            },
            _ => Option::None,
        }
    }
}

// ---------------------------------------------------------------------------
// The executable decoder
// ---------------------------------------------------------------------------

/// Decode one value at `pos` against the given wire type and collection
/// spec, exactly as `dec_value` describes; the returned position is the
/// first byte after the value.
pub fn read_column_value(
    bytes: &Vec<u8>,
    pos: usize,
    data_type: ColumnType,
    collection_spec: &CollectionSpec,
) -> (r: Result<(Column, usize), DecodeError>)
    requires
        pos <= bytes@.len(),
    ensures
        match r {
            Result::Ok((c, end)) => pos <= end <= bytes@.len() && dec_value(
                bytes@.skip(pos as int),
                DescV { data_type, collection: coll_view(*collection_spec) },
            ) == Option::Some((col_view(c), end - pos)),
            Result::Err(_) => dec_value(
                bytes@.skip(pos as int),
                DescV { data_type, collection: coll_view(*collection_spec) },
            ) is None,
        },
    decreases *collection_spec, 2int, 0int,
{
    let ghost s = bytes@.skip(pos as int);
    let ghost d = DescV { data_type, collection: coll_view(*collection_spec) };
    let n_total = bytes.len();
    if n_total - pos < 4 {
        return Result::Err(DecodeError::UnexpectedEnd);
    }
    let len = read_i32_at(bytes, pos);
    proof {
        assert(s.subrange(0, 4) =~= bytes@.subrange(pos as int, pos as int + 4));
    }
    if len < 0 {
        return Result::Ok((Column::Null, pos + 4));
    }
    match data_type {
        ColumnType::Int => {
            if n_total - pos < 8 {
                return Result::Err(DecodeError::UnexpectedEnd);
            }
            let v = read_i32_at(bytes, pos + 4);
            proof {
                assert(s.subrange(4, 8) =~= bytes@.subrange(pos as int + 4, pos as int + 8));
            }
            Result::Ok((Column::Int(v), pos + 8))
        },
        ColumnType::Float => {
            if n_total - pos < 8 {
                return Result::Err(DecodeError::UnexpectedEnd);
            }
            let v = read_u32_at(bytes, pos + 4);
            proof {
                assert(s.subrange(4, 8) =~= bytes@.subrange(pos as int + 4, pos as int + 8));
            }
            Result::Ok((Column::Float(v), pos + 8))
        },
        ColumnType::Bigint => {
            if n_total - pos < 12 {
                return Result::Err(DecodeError::UnexpectedEnd);
            }
            let v = read_i64_at(bytes, pos + 4);
            proof {
                assert(s.subrange(4, 12) =~= bytes@.subrange(pos as int + 4, pos as int + 12));
            }
            Result::Ok((Column::Bigint(v), pos + 12))
        },
        ColumnType::Double => {
            if n_total - pos < 12 {
                return Result::Err(DecodeError::UnexpectedEnd);
            }
            let v = read_u64_at(bytes, pos + 4);
            proof {
                assert(s.subrange(4, 12) =~= bytes@.subrange(pos as int + 4, pos as int + 12));
            }
            Result::Ok((Column::Double(v), pos + 12))
        },
        ColumnType::Timestamp => {
            if n_total - pos < 12 {
                return Result::Err(DecodeError::UnexpectedEnd);
            }
            let v = read_i64_at(bytes, pos + 4);
            proof {
                assert(s.subrange(4, 12) =~= bytes@.subrange(pos as int + 4, pos as int + 12));
            }
            Result::Ok((Column::Timestamp(v), pos + 12))
        },
        ColumnType::Timeuuid => {
            if n_total - pos < 20 {
                return Result::Err(DecodeError::UnexpectedEnd);
            }
            let raw = read_fixed(bytes, pos + 4, 16);
            proof {
                assert(s.subrange(4, 20) =~= bytes@.subrange(pos as int + 4, pos as int + 20));
            }
            let text = uuid_hyphenated(&raw);
            Result::Ok((Column::String(text), pos + 20))
        },
        ColumnType::SetType => {
            if n_total - pos < 8 {
                return Result::Err(DecodeError::UnexpectedEnd);
            }
            let count = read_i32_at(bytes, pos + 4);
            proof {
                assert(s.subrange(4, 8) =~= bytes@.subrange(pos as int + 4, pos as int + 8));
            }
            match collection_spec {
                CollectionSpec::SetOf(ed) => {
                    let n_elems: usize = if count < 0 {
                        0
                    } else {
                        count as usize
                    };
                    match read_elems(bytes, pos + 8, ed, n_elems) {
                        Result::Ok((vs, end)) => {
                            proof {
                                assert(s.skip(8) =~= bytes@.skip(pos as int + 8));
                            }
                            Result::Ok((Column::SetOf(vs), end))
                        },
                        Result::Err(e) => {
                            proof {
                                assert(s.skip(8) =~= bytes@.skip(pos as int + 8));
                            }
                            Result::Err(e)
                        },
                    }
                },
                _ => Result::Ok((Column::Null, pos + 8)),
            }
        },
        ColumnType::List => {
            if n_total - pos < 8 {
                return Result::Err(DecodeError::UnexpectedEnd);
            }
            let count = read_i32_at(bytes, pos + 4);
            proof {
                assert(s.subrange(4, 8) =~= bytes@.subrange(pos as int + 4, pos as int + 8));
            }
            match collection_spec {
                CollectionSpec::ListOf(ed) => {
                    let n_elems: usize = if count < 0 {
                        0
                    } else {
                        count as usize
                    };
                    match read_elems(bytes, pos + 8, ed, n_elems) {
                        Result::Ok((vs, end)) => {
                            proof {
                                assert(s.skip(8) =~= bytes@.skip(pos as int + 8));
                            }
                            Result::Ok((Column::ListOf(vs), end))
                        },
                        Result::Err(e) => {
                            proof {
                                assert(s.skip(8) =~= bytes@.skip(pos as int + 8));
                            }
                            Result::Err(e)
                        },
                    }
                },
                _ => Result::Ok((Column::Null, pos + 8)),
            }
        },
        ColumnType::MapType => {
            if n_total - pos < 8 {
                return Result::Err(DecodeError::UnexpectedEnd);
            }
            let count = read_i32_at(bytes, pos + 4);
            proof {
                assert(s.subrange(4, 8) =~= bytes@.subrange(pos as int + 4, pos as int + 8));
            }
            match collection_spec {
                CollectionSpec::MapOf(_, _) => {
                    let n_pairs: usize = if count < 0 {
                        0
                    } else {
                        count as usize
                    };
                    match read_pairs(bytes, pos + 8, collection_spec, n_pairs) {
                        Result::Ok((ps, end)) => {
                            proof {
                                assert(s.skip(8) =~= bytes@.skip(pos as int + 8));
                            }
                            Result::Ok((Column::MapOf(ps), end))
                        },
                        Result::Err(e) => {
                            proof {
                                assert(s.skip(8) =~= bytes@.skip(pos as int + 8));
                            }
                            Result::Err(e)
                        },
                    }
                },
                _ => Result::Ok((Column::Null, pos + 8)),
            }
        },
        _ => {
            let body_len = len as usize;
            if n_total - pos - 4 < body_len {
                return Result::Err(DecodeError::UnexpectedEnd);
            }
            let raw = read_fixed(bytes, pos + 4, body_len);
            proof {
                assert(s.subrange(4, 4 + len as int) =~= bytes@.subrange(
                    pos as int + 4,
                    pos as int + 4 + len as int,
                ));
            }
            let text = bytes_to_text(raw);
            Result::Ok((Column::String(text), pos + 4 + body_len))
        },
    }
}

/// Decode `n` elements starting at `pos`, as `dec_elems` describes.
fn read_elems(bytes: &Vec<u8>, pos: usize, ed: &TypeDesc, n: usize) -> (r: Result<
    (Vec<Column>, usize),
    DecodeError,
>)
    requires
        pos <= bytes@.len(),
    ensures
        match r {
            Result::Ok((vs, end)) => pos <= end <= bytes@.len() && dec_elems(
                bytes@.skip(pos as int),
                desc_view(*ed),
                n as int,
            ) == Option::Some((cols_view(vs@), end - pos)),
            Result::Err(_) => dec_elems(bytes@.skip(pos as int), desc_view(*ed), n as int)
                is None,
        },
    decreases *ed, 1int, n,
{
    if n == 0 {
        let vs: Vec<Column> = Vec::new();
        proof {
            assert(cols_view(vs@) =~= Seq::<ColumnV>::empty());
        }
        Result::Ok((vs, pos))
    } else {
        match read_column_value(bytes, pos, ed.data_type, &ed.collection_spec) {
            Result::Ok((c, mid)) => {
                match read_elems(bytes, mid, ed, n - 1) {
                    Result::Ok((mut vs, end)) => {
                        proof {
                            assert(bytes@.skip(pos as int).skip(mid - pos) =~= bytes@.skip(
                                mid as int,
                            ));
                        }
                        let ghost old_vs = vs@;
                        vs.insert(0, c);
                        proof {
                            assert(vs@[0] == c);
                            assert(vs@.drop_first() =~= old_vs);
                            assert(cols_view(vs@) =~= seq![col_view(c)] + cols_view(old_vs));
                        }
                        Result::Ok((vs, end))
                    },
                    Result::Err(e) => {
                        proof {
                            assert(bytes@.skip(pos as int).skip(mid - pos) =~= bytes@.skip(
                                mid as int,
                            ));
                        }
                        Result::Err(e)
                    },
                }
            },
            Result::Err(e) => Result::Err(e),
        }
    }
}

/// Decode `n` map entries starting at `pos`, as `dec_pairs` describes.
fn read_pairs(bytes: &Vec<u8>, pos: usize, cs: &CollectionSpec, n: usize) -> (r: Result<
    (Vec<(Column, Column)>, usize),
    DecodeError,
>)
    requires
        pos <= bytes@.len(),
        cs is MapOf,
    ensures
        match r {
            Result::Ok((ps, end)) => pos <= end <= bytes@.len() && dec_pairs(
                bytes@.skip(pos as int),
                coll_view(*cs),
                n as int,
            ) == Option::Some((pairs_view(ps@), end - pos)),
            Result::Err(_) => dec_pairs(bytes@.skip(pos as int), coll_view(*cs), n as int)
                is None,
        },
    decreases *cs, 1int, n,
{
    if n == 0 {
        let ps: Vec<(Column, Column)> = Vec::new();
        proof {
            assert(pairs_view(ps@) =~= Seq::<(ColumnV, ColumnV)>::empty());
        }
        Result::Ok((ps, pos))
    } else {
        match cs {
            CollectionSpec::MapOf(kd, vd) => {
                match read_column_value(bytes, pos, kd.data_type, &kd.collection_spec) {
                    Result::Ok((k, mid)) => {
                        match read_column_value(bytes, mid, vd.data_type, &vd.collection_spec) {
                            Result::Ok((w, mid2)) => {
                                proof {
                                    assert(bytes@.skip(pos as int).skip(mid - pos) =~= bytes@.skip(
                                        mid as int,
                                    ));
                                }
                                match read_pairs(bytes, mid2, cs, n - 1) {
                                    Result::Ok((mut ps, end)) => {
                                        proof {
                                            assert(bytes@.skip(pos as int).skip(mid2 - pos)
                                                =~= bytes@.skip(mid2 as int));
                                        }
                                        let is_null = match k {
                                            Column::Null => true,
                                            _ => false,
                                        };
                                        if is_null {
                                            Result::Ok((ps, end))
                                        } else {
                                            let ghost old_ps = ps@;
                                            ps.insert(0, (k, w));
                                            proof {
                                                assert(ps@[0] == (k, w));
                                                assert(ps@.drop_first() =~= old_ps);
                                                assert(pairs_view(ps@) =~= seq![
                                                    (col_view(k), col_view(w)),
                                                ] + pairs_view(old_ps));
                                            }
                                            Result::Ok((ps, end))
                                        }
                                    },
                                    Result::Err(e) => {
                                        proof {
                                            assert(bytes@.skip(pos as int).skip(mid2 - pos)
                                                =~= bytes@.skip(mid2 as int));
                                        }
                                        Result::Err(e)
                                    },
                                }
                            },
                            Result::Err(e) => {
                                proof {
                                    assert(bytes@.skip(pos as int).skip(mid - pos) =~= bytes@.skip(
                                        mid as int,
                                    ));
                                }
                                Result::Err(e)
                            },
                        }
                    },
                    Result::Err(e) => Result::Err(e),
                }
            },
            _ => Result::Err(DecodeError::UnexpectedEnd),
        }
    }
}

} // verus!
