//! The column spec reader.
//!
//! Before the row data of a tabular result, the wire carries one descriptor
//! per column: a short name, a 16-bit type code, and, for List/Set/Map, one
//! or two element type codes.  Unrecognized type codes fall back to Varchar
//! and the descriptor is still kept: no entry is dropped on decode.

use vstd::prelude::*;

use crate::bytes::{read_u16_at, u16_of};
use crate::reading::value::text_of;
use crate::shared::{
    colspec_view,
    spec_to_column_type,
    to_column_type,
    CollV,
    CollectionSpec,
    ColumnSpec,
    ColumnSpecV,
    ColumnType,
    DecodeError,
    DescV,
    TypeDesc,
};

verus! {

// ---------------------------------------------------------------------------
// Short strings
// ---------------------------------------------------------------------------

/// Decode a `[string]`: a 16-bit byte length followed by UTF-8 text, read
/// lossily per `text_of`.
pub open spec fn dec_short_string(s: Seq<u8>) -> Option<(Seq<char>, int)> {
    if s.len() < 2 {
        Option::None
    } else {
        let len = u16_of(s.subrange(0, 2)) as int;
        if s.len() < 2 + len {
            Option::None
        } else {
            Option::Some((text_of(s.subrange(2, 2 + len)), 2 + len))
        }
    }
}

/// Read a `[string]` at `pos`, as `dec_short_string` describes.
pub fn read_short_string(bytes: &Vec<u8>, pos: usize) -> (r: Result<(String, usize), DecodeError>)
    requires
        pos <= bytes@.len(),
    ensures
        match r {
            Result::Ok((t, end)) => pos <= end <= bytes@.len() && dec_short_string(
                bytes@.skip(pos as int),
            ) == Option::Some((t@, end - pos)),
            Result::Err(_) => dec_short_string(bytes@.skip(pos as int)) is None,
        },
{
    let ghost s = bytes@.skip(pos as int);
    let n = bytes.len();
    if n - pos < 2 {
        return Result::Err(DecodeError::UnexpectedEnd);
    }
    let len = read_u16_at(bytes, pos);
    proof {
        assert(s.subrange(0, 2) =~= bytes@.subrange(pos as int, pos as int + 2));
    }
    let len_u = len as usize;
    if n - pos - 2 < len_u {
        return Result::Err(DecodeError::UnexpectedEnd);
    }
    let raw = crate::bytes::read_fixed(bytes, pos + 2, len_u);
    proof {
        assert(s.subrange(2, 2 + len as int) =~= bytes@.subrange(
            pos as int + 2,
            pos as int + 2 + len as int,
        ));
    }
    let text = crate::reading::value::bytes_to_text(raw);
    Result::Ok((text, pos + 2 + len_u))
}

// ---------------------------------------------------------------------------
// Column specs
// ---------------------------------------------------------------------------

/// Decode one column descriptor: name, type code, and the element type
/// codes of a collection type.  The element descriptors read from the wire
/// are always one level deep, with no nested collection spec of their own.
pub open spec fn dec_colspec(s: Seq<u8>) -> Option<(ColumnSpecV, int)> {
    match dec_short_string(s) {
        Option::Some((name, used)) => {
            if s.len() < used + 2 {
                Option::None
            } else {
                let t = spec_to_column_type(u16_of(s.subrange(used, used + 2)));
                match t {
                    ColumnType::SetType => if s.len() < used + 4 {
                        Option::None
                    } else {
                        let et = spec_to_column_type(u16_of(s.subrange(used + 2, used + 4)));
                        Option::Some(
                            (
                                ColumnSpecV {
                                    name,
                                    desc: DescV {
                                        data_type: t,
                                        collection: CollV::SetOf(
                                            Box::new(
                                                DescV { data_type: et, collection: CollV::NoSpec },
                                            ),
                                        ),
                                    },
                                },
                                used + 4,
                            ),
                        )
                    },
                    ColumnType::List => if s.len() < used + 4 {
                        Option::None
                    } else {
                        let et = spec_to_column_type(u16_of(s.subrange(used + 2, used + 4)));
                        Option::Some(
                            (
                                ColumnSpecV {
                                    name,
                                    desc: DescV {
                                        data_type: t,
                                        collection: CollV::ListOf(
                                            Box::new(
                                                DescV { data_type: et, collection: CollV::NoSpec },
                                            ),
                                        ),
                                    },
                                },
                                used + 4,
                            ),
                        )
                    },
                    ColumnType::MapType => if s.len() < used + 6 {
                        Option::None
                    } else {
                        let kt = spec_to_column_type(u16_of(s.subrange(used + 2, used + 4)));
                        let vt = spec_to_column_type(u16_of(s.subrange(used + 4, used + 6)));
                        Option::Some(
                            (
                                ColumnSpecV {
                                    name,
                                    desc: DescV {
                                        data_type: t,
                                        collection: CollV::MapOf(
                                            Box::new(
                                                DescV { data_type: kt, collection: CollV::NoSpec },
                                            ),
                                            Box::new(
                                                DescV { data_type: vt, collection: CollV::NoSpec },
                                            ),
                                        ),
                                    },
                                },
                                used + 6,
                            ),
                        )
                    },
                    _ => Option::Some(
                        (
                            ColumnSpecV {
                                name,
                                desc: DescV { data_type: t, collection: CollV::NoSpec },
                            },
                            used + 2,
                        ),
                    ),
                }
            }
        },
        Option::None => Option::None,
    }
}

/// Decode `n` column descriptors in order.
pub open spec fn dec_colspecs(s: Seq<u8>, n: int) -> Option<(Seq<ColumnSpecV>, int)>
    decreases n,
{
    if n <= 0 {
        Option::Some((Seq::empty(), 0int))
    } else {
        match dec_colspec(s) {
            Option::Some((c, used)) => match dec_colspecs(s.skip(used), n - 1) {
                Option::Some((cs, used_rest)) => Option::Some((seq![c] + cs, used + used_rest)),
                Option::None => Option::None,
            },
            Option::None => Option::None,
        }
    }
}

pub open spec fn colspecs_view(s: Seq<ColumnSpec>) -> Seq<ColumnSpecV>
    decreases s,
{
    if s.len() == 0 {
        Seq::empty()
    } else {
        seq![colspec_view(s[0])] + colspecs_view(s.drop_first())
    }
}

pub broadcast proof fn lemma_colspecs_view_len(s: Seq<ColumnSpec>)
    ensures
        (#[trigger] colspecs_view(s)).len() == s.len(),
    decreases s,
{
    if s.len() > 0 {
        lemma_colspecs_view_len(s.drop_first());
    }
}

pub broadcast proof fn lemma_colspecs_view_index(s: Seq<ColumnSpec>, i: int)
    requires
        0 <= i < s.len(),
    ensures
        #[trigger] colspecs_view(s)[i] == colspec_view(s[i]),
    decreases s,
{
    lemma_colspecs_view_len(s);
    if i > 0 {
        lemma_colspecs_view_index(s.drop_first(), i - 1);
    }
}

/// Read one column descriptor at `pos`, as `dec_colspec` describes.
fn read_colspec(bytes: &Vec<u8>, pos: usize) -> (r: Result<(ColumnSpec, usize), DecodeError>)
    requires
        pos <= bytes@.len(),
    ensures
        match r {
            Result::Ok((c, end)) => pos <= end <= bytes@.len() && dec_colspec(
                bytes@.skip(pos as int),
            ) == Option::Some((colspec_view(c), end - pos)),
            Result::Err(_) => dec_colspec(bytes@.skip(pos as int)) is None,
        },
{
    proof {
        reveal_with_fuel(crate::shared::coll_view, 3);
        reveal_with_fuel(crate::shared::desc_view, 3);
    }
    let ghost s = bytes@.skip(pos as int);
    let n = bytes.len();
    let (name, p1) = match read_short_string(bytes, pos) {
        Result::Ok(x) => x,
        Result::Err(e) => {
            return Result::Err(e);
        },
    };
    if n - p1 < 2 {
        return Result::Err(DecodeError::UnexpectedEnd);
    }
    let code = read_u16_at(bytes, p1);
    proof {
        assert(s.subrange(p1 - pos, p1 - pos + 2) =~= bytes@.subrange(p1 as int, p1 as int + 2));
    }
    let t = to_column_type(code);
    match t {
        ColumnType::SetType | ColumnType::List => {
            if n - p1 < 4 {
                return Result::Err(DecodeError::UnexpectedEnd);
            }
            let ecode = read_u16_at(bytes, p1 + 2);
            proof {
                assert(s.subrange(p1 - pos + 2, p1 - pos + 4) =~= bytes@.subrange(
                    p1 as int + 2,
                    p1 as int + 4,
                ));
            }
            let et = to_column_type(ecode);
            let elem = TypeDesc { data_type: et, collection_spec: CollectionSpec::NoSpec };
            let cs = if matches!(t, ColumnType::SetType) {
                CollectionSpec::SetOf(Box::new(elem))
            } else {
                CollectionSpec::ListOf(Box::new(elem))
            };
            Result::Ok(
                (ColumnSpec { name, data_type: t, collection_spec: cs }, p1 + 4),
            )
        },
        ColumnType::MapType => {
            if n - p1 < 6 {
                return Result::Err(DecodeError::UnexpectedEnd);
            }
            let kcode = read_u16_at(bytes, p1 + 2);
            let vcode = read_u16_at(bytes, p1 + 4);
            proof {
                assert(s.subrange(p1 - pos + 2, p1 - pos + 4) =~= bytes@.subrange(
                    p1 as int + 2,
                    p1 as int + 4,
                ));
                assert(s.subrange(p1 - pos + 4, p1 - pos + 6) =~= bytes@.subrange(
                    p1 as int + 4,
                    p1 as int + 6,
                ));
            }
            let kt = to_column_type(kcode);
            let vt = to_column_type(vcode);
            let kd = TypeDesc { data_type: kt, collection_spec: CollectionSpec::NoSpec };
            let vd = TypeDesc { data_type: vt, collection_spec: CollectionSpec::NoSpec };
            Result::Ok(
                (
                    ColumnSpec {
                        name,
                        data_type: t,
                        collection_spec: CollectionSpec::MapOf(Box::new(kd), Box::new(vd)),
                    },
                    p1 + 6,
                ),
            )
        },
        _ => Result::Ok(
            (
                ColumnSpec { name, data_type: t, collection_spec: CollectionSpec::NoSpec },
                p1 + 2,
            ),
        ),
    }
}

/// Read `column_count` column descriptors at `pos`, as `dec_colspecs`
/// describes.  A negative count reads nothing, like an empty result.
pub fn read_column_specs(bytes: &Vec<u8>, pos: usize, column_count: i32) -> (r: Result<
    (Vec<ColumnSpec>, usize),
    DecodeError,
>)
    requires
        pos <= bytes@.len(),
    ensures
        match r {
            Result::Ok((cs, end)) => pos <= end <= bytes@.len() && dec_colspecs(
                bytes@.skip(pos as int),
                column_count as int,
            ) == Option::Some((colspecs_view(cs@), end - pos)),
            Result::Err(_) => dec_colspecs(bytes@.skip(pos as int), column_count as int)
                is None,
        },
{
    let n_specs: usize = if column_count < 0 {
        0
    } else {
        column_count as usize
    };
    proof {
        if column_count >= 0 {
            assert(column_count as int == n_specs as int);
        }
    }
    read_colspecs_rec(bytes, pos, n_specs)
}

fn read_colspecs_rec(bytes: &Vec<u8>, pos: usize, n: usize) -> (r: Result<
    (Vec<ColumnSpec>, usize),
    DecodeError,
>)
    requires
        pos <= bytes@.len(),
    ensures
        match r {
            Result::Ok((cs, end)) => pos <= end <= bytes@.len() && dec_colspecs(
                bytes@.skip(pos as int),
                n as int,
            ) == Option::Some((colspecs_view(cs@), end - pos)),
            Result::Err(_) => dec_colspecs(bytes@.skip(pos as int), n as int) is None,
        },
    decreases n,
{
    if n == 0 {
        let cs: Vec<ColumnSpec> = Vec::new();
        proof {
            assert(colspecs_view(cs@) =~= Seq::<ColumnSpecV>::empty());
        }
        Result::Ok((cs, pos))
    } else {
        match read_colspec(bytes, pos) {
            Result::Ok((c, mid)) => {
                match read_colspecs_rec(bytes, mid, n - 1) {
                    Result::Ok((mut cs, end)) => {
                        proof {
                            assert(bytes@.skip(pos as int).skip(mid - pos) =~= bytes@.skip(
                                mid as int,
                            ));
                        }
                        let ghost old_cs = cs@;
                        cs.insert(0, c);
                        proof {
                            assert(cs@[0] == c);
                            assert(cs@.drop_first() =~= old_cs);
                            assert(colspecs_view(cs@) =~= seq![colspec_view(c)] + colspecs_view(
                                old_cs,
                            ));
                        }
                        Result::Ok((cs, end))
                    },
                    Result::Err(e) => {
                        proof {
                            assert(bytes@.skip(pos as int).skip(mid - pos) =~= bytes@.skip(
                                mid as int,
                            ));
                        }
                        Result::Err(e)
                    },
                }
            },
            Result::Err(e) => Result::Err(e),
        }
    }
}

} // verus!
