//! The laws of the codec: the encode/decode round trip for values, the
//! frame length invariant, and the totality of the opcode tables.

use vstd::prelude::*;

use crate::bytes::{
    be32,
    i32_of,
    lemma_be32_neg_one,
    lemma_be32_of_nonneg,
    lemma_be32_roundtrip,
    lemma_be32i_roundtrip,
    lemma_be64i_roundtrip,
    lemma_be64_roundtrip,
    u32_of,
};
use crate::reading::reader::{dec_message, dec_result, dec_rows, dec_rows_tail};
use crate::reading::value::{dec_elems, dec_pairs, dec_value};
use crate::shared::{
    col_view,
    cols_view,
    pairs_view,
    spec_opcode,
    spec_to_opcode,
    spec_to_result_kind,
    CollV,
    Column,
    ColumnType,
    ColumnV,
    DescV,
    Request,
    ResponseV,
    ResultBodyV,
};
use crate::writing::{
    elems_ok,
    enc_elems,
    enc_pairs,
    enc_request,
    enc_value,
    lemma_enc_elems_min_len,
    lemma_enc_pairs_min_len,
    pairs_ok,
    req_body,
    req_ok,
    val_body,
    val_ok,
};
use vstd::utf8::{encode_utf8, encode_utf8_decode_utf8, encode_utf8_valid_utf8};

verus! {

// ---------------------------------------------------------------------------
// Matching descriptors
// ---------------------------------------------------------------------------

/// A wire type whose decode path is the raw-text fallback: everything that
/// is not a fixed-width scalar, a Timeuuid, or a collection.
pub open spec fn text_type(t: ColumnType) -> bool {
    match t {
        ColumnType::Int => false,
        ColumnType::Float => false,
        ColumnType::Bigint => false,
        ColumnType::Double => false,
        ColumnType::Timestamp => false,
        ColumnType::Timeuuid => false,
        ColumnType::SetType => false,
        ColumnType::List => false,
        ColumnType::MapType => false,
        _ => true,
    }
}

/// The descriptor under which an encoded value decodes back to itself:
/// each variant against its own wire type, recursively for collections.
/// A map key that is null is excluded: the decoder drops such a pair, so
/// the round trip holds only without them.  A Timeuuid decodes to its
/// hyphenated text form, so a string value round-trips through the text
/// types, never through Timeuuid.
pub open spec fn desc_matches(d: DescV, c: Column) -> bool
    decreases c, 1int,
{
    match c {
        Column::Null => true,
        Column::String(_) => text_type(d.data_type),
        Column::Int(_) => d.data_type is Int,
        Column::Bigint(_) => d.data_type is Bigint,
        Column::Float(_) => d.data_type is Float,
        Column::Double(_) => d.data_type is Double,
        Column::Timestamp(_) => d.data_type is Timestamp,
        Column::SetOf(v) => d.data_type is SetType && (d.collection matches CollV::SetOf(ed)
            && elems_match(*ed, v@)),
        Column::ListOf(v) => d.data_type is List && (d.collection matches CollV::ListOf(ed)
            && elems_match(*ed, v@)),
        Column::MapOf(v) => d.data_type is MapType && (d.collection matches CollV::MapOf(kd, vd)
            && pairs_match(*kd, *vd, v@)),
    }
}

pub open spec fn elems_match(ed: DescV, s: Seq<Column>) -> bool
    decreases s, 2int,
{
    s.len() == 0 || (desc_matches(ed, s[0]) && elems_match(ed, s.drop_first()))
}

pub open spec fn pairs_match(kd: DescV, vd: DescV, s: Seq<(Column, Column)>) -> bool
    decreases s, 2int,
{
    s.len() == 0 || (!(s[0].0 is Null) && desc_matches(kd, s[0].0) && desc_matches(vd, s[0].1)
        && pairs_match(kd, vd, s.drop_first()))
}

// ---------------------------------------------------------------------------
// Round trip
// ---------------------------------------------------------------------------

/// Decoding an encoded value, with anything at all after it, gives back
/// exactly that value and consumes exactly its bytes.
pub proof fn lemma_dec_enc_value(c: Column, d: DescV, rest: Seq<u8>)
    requires
        val_ok(c),
        desc_matches(d, c),
    ensures
        dec_value(enc_value(c) + rest, d) == Option::Some(
            (col_view(c), enc_value(c).len() as int),
        ),
    decreases c, 1int,
{
    let e = enc_value(c) + rest;
    if c is Null {
        assert(e.subrange(0, 4) =~= be32(0xffffffffu32));
        lemma_be32_neg_one();
    } else {
        let body = val_body(c);
        let len = body.len() as u32;
        assert(e.subrange(0, 4) =~= be32(len));
        lemma_be32_of_nonneg(len);
        match c {
            Column::String(s) => {
                assert(e.subrange(4, 4 + body.len() as int) =~= encode_utf8(s@));
                encode_utf8_valid_utf8(s@);
                encode_utf8_decode_utf8(s@);
            },
            Column::Int(v) => {
                assert(e.subrange(4, 8) =~= crate::bytes::be32i(v));
                lemma_be32i_roundtrip(v);
            },
            Column::Bigint(v) => {
                assert(e.subrange(4, 12) =~= crate::bytes::be64i(v));
                lemma_be64i_roundtrip(v);
            },
            Column::Float(v) => {
                assert(e.subrange(4, 8) =~= be32(v));
                lemma_be32_roundtrip(v);
            },
            Column::Double(v) => {
                assert(e.subrange(4, 12) =~= crate::bytes::be64(v));
                lemma_be64_roundtrip(v);
            },
            Column::Timestamp(v) => {
                assert(e.subrange(4, 12) =~= crate::bytes::be64i(v));
                lemma_be64i_roundtrip(v);
            },
            Column::SetOf(v) => {
                lemma_enc_elems_min_len(v@);
                let count = v@.len() as u32;
                assert(e.subrange(4, 8) =~= be32(count));
                lemma_be32_of_nonneg(count);
                assert(e.skip(8) =~= enc_elems(v@) + rest);
                let ed = d.collection->SetOf_0;
                lemma_dec_enc_elems(*ed, v@, rest);
            },
            Column::ListOf(v) => {
                lemma_enc_elems_min_len(v@);
                let count = v@.len() as u32;
                assert(e.subrange(4, 8) =~= be32(count));
                lemma_be32_of_nonneg(count);
                assert(e.skip(8) =~= enc_elems(v@) + rest);
                let ed = d.collection->ListOf_0;
                lemma_dec_enc_elems(*ed, v@, rest);
            },
            Column::MapOf(v) => {
                lemma_enc_pairs_min_len(v@);
                let count = v@.len() as u32;
                assert(e.subrange(4, 8) =~= be32(count));
                lemma_be32_of_nonneg(count);
                assert(e.skip(8) =~= enc_pairs(v@) + rest);
                lemma_dec_enc_pairs(d.collection, v@, rest);
            },
            _ => {},
        }
    }
}

/// Element-wise round trip for Set and List contents.
pub proof fn lemma_dec_enc_elems(ed: DescV, s: Seq<Column>, rest: Seq<u8>)
    requires
        elems_ok(s),
        elems_match(ed, s),
    ensures
        dec_elems(enc_elems(s) + rest, ed, s.len() as int) == Option::Some(
            (cols_view(s), enc_elems(s).len() as int),
        ),
    decreases s, 2int,
{
    if s.len() == 0 {
        assert(cols_view(s) =~= Seq::<ColumnV>::empty());
    } else {
        let e = enc_elems(s) + rest;
        let first = enc_value(s[0]);
        let rest2 = enc_elems(s.drop_first()) + rest;
        assert(e =~= first + rest2);
        lemma_dec_enc_value(s[0], ed, rest2);
        assert(e.skip(first.len() as int) =~= rest2);
        lemma_dec_enc_elems(ed, s.drop_first(), rest);
        assert(cols_view(s) == seq![col_view(s[0])] + cols_view(s.drop_first()));
    }
}

/// Pair-wise round trip for Map contents, keys non-null.
pub proof fn lemma_dec_enc_pairs(c: CollV, s: Seq<(Column, Column)>, rest: Seq<u8>)
    requires
        pairs_ok(s),
        c matches CollV::MapOf(kd, vd) && pairs_match(*kd, *vd, s),
    ensures
        dec_pairs(enc_pairs(s) + rest, c, s.len() as int) == Option::Some(
            (pairs_view(s), enc_pairs(s).len() as int),
        ),
    decreases s, 2int,
{
    if s.len() == 0 {
        assert(pairs_view(s) =~= Seq::<(ColumnV, ColumnV)>::empty());
    } else {
        let kd = c->MapOf_0;
        let vd = c->MapOf_1;
        let e = enc_pairs(s) + rest;
        let ke = enc_value(s[0].0);
        let we = enc_value(s[0].1);
        let rest2 = enc_pairs(s.drop_first()) + rest;
        assert(e =~= ke + (we + rest2));
        lemma_dec_enc_value(s[0].0, *kd, we + rest2);
        assert(e.skip(ke.len() as int) =~= we + rest2);
        lemma_dec_enc_value(s[0].1, *vd, rest2);
        assert(e.skip(ke.len() as int + we.len() as int) =~= rest2);
        lemma_dec_enc_pairs(c, s.drop_first(), rest);
        assert(pairs_view(s) == seq![(col_view(s[0].0), col_view(s[0].1))] + pairs_view(
            s.drop_first(),
        ));
        assert(!(col_view(s[0].0) is Null));
    }
}

/// Round trip: for every value within the wire-format size bounds, and
/// every matching descriptor — nested collections of any depth included —
/// decoding its encoding yields the identical value and consumes exactly
/// its bytes.
pub proof fn lemma_value_roundtrip(c: Column, d: DescV)
    requires
        val_ok(c),
        desc_matches(d, c),
    ensures
        dec_value(enc_value(c), d) == Option::Some((col_view(c), enc_value(c).len() as int)),
{
    lemma_dec_enc_value(c, d, Seq::empty());
    assert(enc_value(c) + Seq::<u8>::empty() =~= enc_value(c));
}

/// Null round trip: an encoded null decodes back to null against every
/// descriptor, whatever the declared type.
pub proof fn lemma_null_roundtrip(d: DescV)
    ensures
        dec_value(enc_value(Column::Null), d) == Option::Some((ColumnV::Null, 4int)),
{
    lemma_value_roundtrip(Column::Null, d);
}

// ---------------------------------------------------------------------------
// Frame invariant and opcode totality
// ---------------------------------------------------------------------------

/// Frame invariant: in every encoded request, the 32-bit length field of
/// the header equals the exact byte count of the body that follows it.
pub proof fn lemma_frame_length(r: Request)
    requires
        req_ok(r),
    ensures
        enc_request(r).len() == 9 + req_body(r).len(),
        u32_of(enc_request(r).subrange(5, 9)) == enc_request(r).len() - 9,
{
    let body = req_body(r);
    assert(enc_request(r).subrange(5, 9) =~= be32(body.len() as u32));
    lemma_be32_roundtrip(body.len() as u32);
}

/// Opcode totality: every request maps to exactly one of the six
/// documented request opcodes.
pub proof fn lemma_opcode_total(r: Request)
    ensures
        spec_opcode(r) == 0x01 || spec_opcode(r) == 0x05 || spec_opcode(r) == 0x07 || spec_opcode(
            r,
        ) == 0x09 || spec_opcode(r) == 0x0A || spec_opcode(r) == 0x0D,
{
}

/// Unknown-result-kind tolerance: a result body whose 32-bit kind tag is
/// outside the table decodes to `Void`, never to a failure.
pub proof fn lemma_unknown_result_kind_void(s: Seq<u8>)
    requires
        s.len() >= 4,
        spec_to_result_kind(u32_of(s.subrange(0, 4))) is UnknownResult,
    ensures
        dec_result(s) == Option::Some(ResponseV::Result(ResultBodyV::Void)),
{
}

/// Paging: whenever a Rows body decodes, the "has more pages" flag decides
/// the paging state exactly.  With the flag set, the decoded paging state
/// is precisely the length-prefixed blob standing before the metadata —
/// bytes 12 on of the body, before any row data; with the flag unset, the
/// decoded paging state is absent, never an empty blob.
pub proof fn lemma_paging_state(s: Seq<u8>)
    requires
        dec_rows(s) is Some,
    ensures
        dec_rows(s)->Some_0 is Rows,
        dec_rows(s)->Some_0->Rows_1 == (if i32_of(s.subrange(0, 4)) & 2 == 2 {
            Option::Some(s.subrange(12, 12 + (i32_of(s.subrange(8, 12)) as usize) as int))
        } else {
            Option::None
        }),
{
    let flags = i32_of(s.subrange(0, 4));
    if flags & 2 == 2 {
        let need = (i32_of(s.subrange(8, 12)) as usize) as int;
        let tail = dec_rows_tail(s.skip(12 + need), i32_of(s.subrange(4, 8)), Option::Some(s.subrange(12, 12 + need)));
        assert(tail is Some ==> tail->Some_0 is Rows && tail->Some_0->Rows_1 == Option::Some(
            s.subrange(12, 12 + need),
        ));
        let rows = tail->Some_0->Rows_0;
        assert(dec_rows(s) == Option::Some(
            ResultBodyV::Rows(rows, Option::Some(s.subrange(12, 12 + need))),
        ));
    } else {
        let tail = dec_rows_tail(s.skip(8), i32_of(s.subrange(4, 8)), Option::None);
        assert(tail is Some ==> tail->Some_0 is Rows && tail->Some_0->Rows_1 == Option::None::<
            Seq<u8>,
        >);
        let rows = tail->Some_0->Rows_0;
        assert(dec_rows(s) == Option::Some(ResultBodyV::Rows(rows, Option::None)));
    }
}

/// Unknown-opcode tolerance: a frame as long as its header declares, whose
/// opcode is none that the response decoder knows, decodes to `Empty` —
/// never to a failure.
pub proof fn lemma_unknown_opcode_empty(s: Seq<u8>)
    requires
        s.len() >= 9,
        s.len() >= 9 + u32_of(s.subrange(5, 9)),
        !(spec_to_opcode(s[4]) is Error),
        !(spec_to_opcode(s[4]) is Ready),
        !(spec_to_opcode(s[4]) is Authenticate),
        !(spec_to_opcode(s[4]) is Supported),
        !(spec_to_opcode(s[4]) is Result),
    ensures
        dec_message(s) == Option::Some(ResponseV::Empty),
{
}

} // verus!
