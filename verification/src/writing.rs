//! The request encoder.
//!
//! `req_body` gives the bytes of each request's opcode-specific body and
//! `enc_request` the whole frame: header, length field and body.  The
//! executable encoder `write_message` is proved to produce exactly those
//! bytes.  Bound values go through `enc_value`, the encode-side mirror of
//! the value decoder.

use vstd::prelude::*;

use crate::bytes::{
    be16,
    be32,
    be32i,
    be64,
    be64i,
    push_bytes,
    push_i32_be,
    push_i64_be,
    push_u16_be,
    push_u32_be,
    push_u64_be,
    push_u8,
};
use crate::shared::{
    consistency_code,
    spec_consistency_code,
    spec_opcode,
    BatchQuery,
    Column,
    Request,
};
use crate::CQL_BINARY_PROTOCOL_VERSION;
use vstd::utf8::encode_utf8;

verus! {

/// Largest value length and longest string that fit a signed 32-bit prefix.
pub const MAX_VALUE_LEN: u32 = 0x7fffffff;

/// Largest count or string length that fits an unsigned 16-bit prefix.
pub const MAX_SHORT_LEN: u32 = 0xffff;

// ---------------------------------------------------------------------------
// Byte-level encodings of the protocol's primitive shapes
// ---------------------------------------------------------------------------

/// `[short string]`: a 16-bit byte length followed by the UTF-8 bytes.
pub open spec fn enc_short_string(s: Seq<char>) -> Seq<u8> {
    be16(encode_utf8(s).len() as u16) + encode_utf8(s)
}

/// `[long string]`: a 32-bit byte length followed by the UTF-8 bytes.
pub open spec fn enc_long_string(s: Seq<char>) -> Seq<u8> {
    be32(encode_utf8(s).len() as u32) + encode_utf8(s)
}

/// `[short bytes]`: a 16-bit length followed by raw bytes.
pub open spec fn enc_short_bytes(b: Seq<u8>) -> Seq<u8> {
    be16(b.len() as u16) + b
}

/// `[bytes]`: a signed 32-bit length followed by raw bytes.
pub open spec fn enc_int_bytes(b: Seq<u8>) -> Seq<u8> {
    be32(b.len() as u32) + b
}

// ---------------------------------------------------------------------------
// Value encoding
// ---------------------------------------------------------------------------

/// The body bytes of one value, without the outer length prefix.
pub open spec fn val_body(c: Column) -> Seq<u8>
    decreases c, 0int,
{
    match c {
        Column::Null => Seq::empty(),
        Column::String(s) => encode_utf8(s@),
        Column::Int(v) => be32i(v),
        Column::Bigint(v) => be64i(v),
        Column::Float(v) => be32(v),
        Column::Double(v) => be64(v),
        Column::Timestamp(v) => be64i(v),
        Column::SetOf(v) => be32(v@.len() as u32) + enc_elems(v@),
        Column::ListOf(v) => be32(v@.len() as u32) + enc_elems(v@),
        Column::MapOf(v) => be32(v@.len() as u32) + enc_pairs(v@),
    }
}

/// One value as it stands inside a message: a signed 32-bit length prefix
/// (-1 for null) followed by the body bytes.
pub open spec fn enc_value(c: Column) -> Seq<u8>
    decreases c, 1int,
{
    if c is Null {
        be32(0xffffffffu32)
    } else {
        be32(val_body(c).len() as u32) + val_body(c)
    }
}

/// Collection elements, each with its own length prefix.
pub open spec fn enc_elems(s: Seq<Column>) -> Seq<u8>
    decreases s, 2int,
{
    if s.len() == 0 {
        Seq::empty()
    } else {
        enc_value(s[0]) + enc_elems(s.drop_first())
    }
}

/// Map entries: key then value, each with its own length prefix.
pub open spec fn enc_pairs(s: Seq<(Column, Column)>) -> Seq<u8>
    decreases s, 2int,
{
    if s.len() == 0 {
        Seq::empty()
    } else {
        enc_value(s[0].0) + enc_value(s[0].1) + enc_pairs(s.drop_first())
    }
}

/// A value all of whose nested bodies fit their signed 32-bit length
/// prefixes.  Every value under this bound encodes, and `write_message`
/// requires it of each bound value.
pub open spec fn val_ok(c: Column) -> bool
    decreases c, 1int,
{
    &&& val_body(c).len() <= MAX_VALUE_LEN
    &&& match c {
        Column::SetOf(v) => elems_ok(v@),
        Column::ListOf(v) => elems_ok(v@),
        Column::MapOf(v) => pairs_ok(v@),
        _ => true,
    }
}

pub open spec fn elems_ok(s: Seq<Column>) -> bool
    decreases s, 2int,
{
    s.len() == 0 || (val_ok(s[0]) && elems_ok(s.drop_first()))
}

pub open spec fn pairs_ok(s: Seq<(Column, Column)>) -> bool
    decreases s, 2int,
{
    s.len() == 0 || (val_ok(s[0].0) && val_ok(s[0].1) && pairs_ok(s.drop_first()))
}

// ---------------------------------------------------------------------------
// Size bounds
// ---------------------------------------------------------------------------

/// Each element costs at least its 4-byte length prefix.
pub proof fn lemma_enc_elems_min_len(s: Seq<Column>)
    ensures
        enc_elems(s).len() >= 4 * s.len(),
    decreases s,
{
    if s.len() > 0 {
        lemma_enc_elems_min_len(s.drop_first());
        assert(enc_value(s[0]).len() >= 4);
    }
}

/// Each map entry costs at least its two 4-byte length prefixes.
pub proof fn lemma_enc_pairs_min_len(s: Seq<(Column, Column)>)
    ensures
        enc_pairs(s).len() >= 8 * s.len(),
    decreases s,
{
    if s.len() > 0 {
        lemma_enc_pairs_min_len(s.drop_first());
        assert(enc_value(s[0].0).len() >= 4);
        assert(enc_value(s[0].1).len() >= 4);
    }
}

// ---------------------------------------------------------------------------
// Executable value encoder
// ---------------------------------------------------------------------------

/// The encoded body size of one value: its fixed wire width for scalars,
/// the byte length for strings, and count plus per-element prefixed sizes
/// for collections.
pub fn value_size(c: &Column) -> (r: usize)
    requires
        val_ok(*c),
    ensures
        r as int == val_body(*c).len(),
    decreases *c, 0int,
{
    match *c {
        Column::Null => 0,
        Column::String(ref s) => s.as_str().len(),
        Column::Int(_) => 4,
        Column::Bigint(_) => 8,
        Column::Float(_) => 4,
        Column::Double(_) => 8,
        Column::Timestamp(_) => 8,
        Column::SetOf(ref v) | Column::ListOf(ref v) => {
            proof {
                assert(v@.skip(0) =~= v@);
            }
            4 + elems_size(v, 0)
        },
        Column::MapOf(ref v) => {
            proof {
                assert(v@.skip(0) =~= v@);
            }
            4 + pairs_size(v, 0)
        },
    }
}

#[verifier::rlimit(50)]
fn elems_size(v: &Vec<Column>, i: usize) -> (r: usize)
    requires
        i <= v@.len(),
        elems_ok(v@.skip(i as int)),
        enc_elems(v@.skip(i as int)).len() <= MAX_VALUE_LEN,
    ensures
        r as int == enc_elems(v@.skip(i as int)).len(),
    decreases *v, v@.len() - i,
{
    let n = v.len();
    if i < n {
        proof {
            assert(v@.skip(i as int)[0] == v@[i as int]);
            assert(v@.skip(i as int).drop_first() =~= v@.skip(i as int + 1));
        }
        let first = value_size(&v[i]);
        let rest = elems_size(v, i + 1);
        proof {
            assert(enc_elems(v@.skip(i as int)) == enc_value(v@[i as int]) + enc_elems(
                v@.skip(i as int + 1),
            ));
            assert(enc_value(v@[i as int]).len() == 4 + val_body(v@[i as int]).len());
        }
        4 + first + rest
    } else {
        proof {
            assert(v@.skip(i as int) =~= Seq::<Column>::empty());
        }
        0
    }
}

#[verifier::rlimit(50)]
fn pairs_size(v: &Vec<(Column, Column)>, i: usize) -> (r: usize)
    requires
        i <= v@.len(),
        pairs_ok(v@.skip(i as int)),
        enc_pairs(v@.skip(i as int)).len() <= MAX_VALUE_LEN,
    ensures
        r as int == enc_pairs(v@.skip(i as int)).len(),
    decreases *v, v@.len() - i,
{
    let n = v.len();
    if i < n {
        proof {
            assert(v@.skip(i as int)[0] == v@[i as int]);
            assert(v@.skip(i as int).drop_first() =~= v@.skip(i as int + 1));
        }
        let k = value_size(&v[i].0);
        let w = value_size(&v[i].1);
        let rest = pairs_size(v, i + 1);
        proof {
            assert(enc_pairs(v@.skip(i as int)) == enc_value(v@[i as int].0) + enc_value(
                v@[i as int].1,
            ) + enc_pairs(v@.skip(i as int + 1)));
            assert(enc_value(v@[i as int].0).len() == 4 + val_body(v@[i as int].0).len());
            assert(enc_value(v@[i as int].1).len() == 4 + val_body(v@[i as int].1).len());
        }
        8 + k + w + rest
    } else {
        proof {
            assert(v@.skip(i as int) =~= Seq::<(Column, Column)>::empty());
        }
        0
    }
}

/// Append the UTF-8 bytes of a string.
fn push_str_bytes(buf: &mut Vec<u8>, s: &String)
    ensures
        final(buf)@ == old(buf)@ + encode_utf8(s@),
{
    buf.extend_from_slice(s.as_str().as_bytes());
    assert(buf@ =~= old(buf)@ + encode_utf8(s@));
}

/// Append a `[short string]`.
fn push_short_string(buf: &mut Vec<u8>, s: &String)
    requires
        encode_utf8(s@).len() <= MAX_SHORT_LEN,
    ensures
        final(buf)@ == old(buf)@ + enc_short_string(s@),
{
    let len = s.as_str().len();
    push_u16_be(buf, len as u16);
    push_str_bytes(buf, s);
    assert(buf@ =~= old(buf)@ + enc_short_string(s@));
}

/// Append a `[long string]`.
fn push_long_string(buf: &mut Vec<u8>, s: &String)
    requires
        encode_utf8(s@).len() <= MAX_VALUE_LEN,
    ensures
        final(buf)@ == old(buf)@ + enc_long_string(s@),
{
    let len = s.as_str().len();
    push_u32_be(buf, len as u32);
    push_str_bytes(buf, s);
    assert(buf@ =~= old(buf)@ + enc_long_string(s@));
}

/// Append `[short bytes]`.
fn push_short_bytes(buf: &mut Vec<u8>, b: &Vec<u8>)
    requires
        b@.len() <= MAX_SHORT_LEN,
    ensures
        final(buf)@ == old(buf)@ + enc_short_bytes(b@),
{
    push_u16_be(buf, b.len() as u16);
    push_bytes(buf, b);
    assert(buf@ =~= old(buf)@ + enc_short_bytes(b@));
}

/// Append `[bytes]` with a signed 32-bit length.
fn push_int_bytes(buf: &mut Vec<u8>, b: &Vec<u8>)
    requires
        b@.len() <= MAX_VALUE_LEN,
    ensures
        final(buf)@ == old(buf)@ + enc_int_bytes(b@),
{
    push_u32_be(buf, b.len() as u32);
    push_bytes(buf, b);
    assert(buf@ =~= old(buf)@ + enc_int_bytes(b@));
}

/// Append the body bytes of one value (no outer length prefix).
pub fn write_value(buf: &mut Vec<u8>, c: &Column)
    requires
        val_ok(*c),
    ensures
        final(buf)@ == old(buf)@ + val_body(*c),
    decreases *c, 0int,
{
    match *c {
        Column::Null => {},
        Column::String(ref s) => {
            push_str_bytes(buf, s);
        },
        Column::Int(v) => {
            push_i32_be(buf, v);
        },
        Column::Bigint(v) => {
            push_i64_be(buf, v);
        },
        Column::Float(v) => {
            push_u32_be(buf, v);
        },
        Column::Double(v) => {
            push_u64_be(buf, v);
        },
        Column::Timestamp(v) => {
            push_i64_be(buf, v);
        },
        Column::SetOf(ref v) | Column::ListOf(ref v) => {
            proof {
                assert(v@.skip(0) =~= v@);
                lemma_enc_elems_min_len(v@);
            }
            push_u32_be(buf, v.len() as u32);
            write_elems(buf, v, 0);
            assert(buf@ =~= old(buf)@ + val_body(*c));
        },
        Column::MapOf(ref v) => {
            proof {
                assert(v@.skip(0) =~= v@);
                lemma_enc_pairs_min_len(v@);
            }
            push_u32_be(buf, v.len() as u32);
            write_pairs(buf, v, 0);
            assert(buf@ =~= old(buf)@ + val_body(*c));
        },
    }
}

/// Append one value with its signed 32-bit length prefix (-1 for null).
pub fn write_prefixed_value(buf: &mut Vec<u8>, c: &Column)
    requires
        val_ok(*c),
    ensures
        final(buf)@ == old(buf)@ + enc_value(*c),
    decreases *c, 1int,
{
    match *c {
        Column::Null => {
            push_u32_be(buf, 0xffffffffu32);
        },
        _ => {
            let n = value_size(c);
            push_u32_be(buf, n as u32);
            write_value(buf, c);
            assert(buf@ =~= old(buf)@ + enc_value(*c));
        },
    }
}

fn write_elems(buf: &mut Vec<u8>, v: &Vec<Column>, i: usize)
    requires
        i <= v@.len(),
        elems_ok(v@.skip(i as int)),
    ensures
        final(buf)@ == old(buf)@ + enc_elems(v@.skip(i as int)),
    decreases *v, v@.len() - i,
{
    let n = v.len();
    if i < n {
        proof {
            assert(v@.skip(i as int)[0] == v@[i as int]);
            assert(v@.skip(i as int).drop_first() =~= v@.skip(i as int + 1));
        }
        write_prefixed_value(buf, &v[i]);
        write_elems(buf, v, i + 1);
        assert(buf@ =~= old(buf)@ + enc_elems(v@.skip(i as int)));
    } else {
        proof {
            assert(v@.skip(i as int) =~= Seq::<Column>::empty());
        }
        assert(buf@ =~= old(buf)@ + enc_elems(v@.skip(i as int)));
    }
}

fn write_pairs(buf: &mut Vec<u8>, v: &Vec<(Column, Column)>, i: usize)
    requires
        i <= v@.len(),
        pairs_ok(v@.skip(i as int)),
    ensures
        final(buf)@ == old(buf)@ + enc_pairs(v@.skip(i as int)),
    decreases *v, v@.len() - i,
{
    let n = v.len();
    if i < n {
        proof {
            assert(v@.skip(i as int)[0] == v@[i as int]);
            assert(v@.skip(i as int).drop_first() =~= v@.skip(i as int + 1));
        }
        write_prefixed_value(buf, &v[i].0);
        write_prefixed_value(buf, &v[i].1);
        write_pairs(buf, v, i + 1);
        assert(buf@ =~= old(buf)@ + enc_pairs(v@.skip(i as int)));
    } else {
        proof {
            assert(v@.skip(i as int) =~= Seq::<(Column, Column)>::empty());
        }
        assert(buf@ =~= old(buf)@ + enc_pairs(v@.skip(i as int)));
    }
}

/// Ordered bound values, one prefixed value each.
pub fn write_values(buf: &mut Vec<u8>, values: &Vec<Column>)
    requires
        elems_ok(values@),
    ensures
        final(buf)@ == old(buf)@ + enc_elems(values@),
{
    proof {
        assert(values@.skip(0) =~= values@);
    }
    write_elems(buf, values, 0);
}

// ---------------------------------------------------------------------------
// Named values and startup options
// ---------------------------------------------------------------------------

pub open spec fn enc_named_values(s: Seq<(String, Column)>) -> Seq<u8>
    decreases s, 2int,
{
    if s.len() == 0 {
        Seq::empty()
    } else {
        enc_short_string(s[0].0@) + enc_value(s[0].1) + enc_named_values(s.drop_first())
    }
}

pub open spec fn named_values_ok(s: Seq<(String, Column)>) -> bool
    decreases s, 2int,
{
    s.len() == 0 || (encode_utf8(s[0].0@).len() <= MAX_SHORT_LEN && val_ok(s[0].1)
        && named_values_ok(s.drop_first()))
}

/// Named bound values: a short name then a prefixed value, per entry.
pub fn write_named_values(buf: &mut Vec<u8>, named_values: &Vec<(String, Column)>)
    requires
        named_values_ok(named_values@),
    ensures
        final(buf)@ == old(buf)@ + enc_named_values(named_values@),
{
    proof {
        assert(named_values@.skip(0) =~= named_values@);
    }
    write_named_values_from(buf, named_values, 0);
}

fn write_named_values_from(buf: &mut Vec<u8>, v: &Vec<(String, Column)>, i: usize)
    requires
        i <= v@.len(),
        named_values_ok(v@.skip(i as int)),
    ensures
        final(buf)@ == old(buf)@ + enc_named_values(v@.skip(i as int)),
    decreases v@.len() - i,
{
    let n = v.len();
    if i < n {
        proof {
            assert(v@.skip(i as int)[0] == v@[i as int]);
            assert(v@.skip(i as int).drop_first() =~= v@.skip(i as int + 1));
        }
        push_short_string(buf, &v[i].0);
        write_prefixed_value(buf, &v[i].1);
        write_named_values_from(buf, v, i + 1);
        assert(buf@ =~= old(buf)@ + enc_named_values(v@.skip(i as int)));
    } else {
        proof {
            assert(v@.skip(i as int) =~= Seq::<(String, Column)>::empty());
        }
        assert(buf@ =~= old(buf)@ + enc_named_values(v@.skip(i as int)));
    }
}

pub open spec fn enc_startup_pairs(s: Seq<(String, String)>) -> Seq<u8>
    decreases s,
{
    if s.len() == 0 {
        Seq::empty()
    } else {
        enc_short_string(s[0].0@) + enc_short_string(s[0].1@) + enc_startup_pairs(s.drop_first())
    }
}

pub open spec fn startup_pairs_ok(s: Seq<(String, String)>) -> bool
    decreases s,
{
    s.len() == 0 || (encode_utf8(s[0].0@).len() <= MAX_SHORT_LEN && encode_utf8(s[0].1@).len()
        <= MAX_SHORT_LEN && startup_pairs_ok(s.drop_first()))
}

fn write_startup_pairs(buf: &mut Vec<u8>, v: &Vec<(String, String)>, i: usize)
    requires
        i <= v@.len(),
        startup_pairs_ok(v@.skip(i as int)),
    ensures
        final(buf)@ == old(buf)@ + enc_startup_pairs(v@.skip(i as int)),
    decreases v@.len() - i,
{
    let n = v.len();
    if i < n {
        proof {
            assert(v@.skip(i as int)[0] == v@[i as int]);
            assert(v@.skip(i as int).drop_first() =~= v@.skip(i as int + 1));
        }
        push_short_string(buf, &v[i].0);
        push_short_string(buf, &v[i].1);
        write_startup_pairs(buf, v, i + 1);
        assert(buf@ =~= old(buf)@ + enc_startup_pairs(v@.skip(i as int)));
    } else {
        proof {
            assert(v@.skip(i as int) =~= Seq::<(String, String)>::empty());
        }
        assert(buf@ =~= old(buf)@ + enc_startup_pairs(v@.skip(i as int)));
    }
}

// ---------------------------------------------------------------------------
// Batch entries
// ---------------------------------------------------------------------------

pub open spec fn enc_batch_entry(q: BatchQuery) -> Seq<u8>
    decreases q, 3int,
{
    match q {
        BatchQuery::Simple(text) => seq![0x00u8] + enc_long_string(text@) + be16(0u16),
        BatchQuery::SimpleWithParams(text, values) => seq![0x00u8] + enc_long_string(text@)
            + be16(values@.len() as u16) + enc_elems(values@),
        BatchQuery::Prepared(id, values) => seq![0x01u8] + enc_short_bytes(id@) + be16(
            values@.len() as u16,
        ) + enc_elems(values@),
    }
}

pub open spec fn enc_batch_entries(s: Seq<BatchQuery>) -> Seq<u8>
    decreases s, 4int,
{
    if s.len() == 0 {
        Seq::empty()
    } else {
        enc_batch_entry(s[0]) + enc_batch_entries(s.drop_first())
    }
}

pub open spec fn batch_entry_ok(q: BatchQuery) -> bool
    decreases q, 3int,
{
    match q {
        BatchQuery::Simple(text) => encode_utf8(text@).len() <= MAX_VALUE_LEN,
        BatchQuery::SimpleWithParams(text, values) => encode_utf8(text@).len() <= MAX_VALUE_LEN
            && values@.len() <= MAX_SHORT_LEN && elems_ok(values@),
        BatchQuery::Prepared(id, values) => id@.len() <= MAX_SHORT_LEN && values@.len()
            <= MAX_SHORT_LEN && elems_ok(values@),
    }
}

pub open spec fn batch_entries_ok(s: Seq<BatchQuery>) -> bool
    decreases s, 4int,
{
    s.len() == 0 || (batch_entry_ok(s[0]) && batch_entries_ok(s.drop_first()))
}

fn write_batch_entry(buf: &mut Vec<u8>, q: &BatchQuery)
    requires
        batch_entry_ok(*q),
    ensures
        final(buf)@ == old(buf)@ + enc_batch_entry(*q),
{
    match *q {
        BatchQuery::Simple(ref text) => {
            push_u8(buf, 0x00);
            push_long_string(buf, text);
            push_u16_be(buf, 0);
            assert(buf@ =~= old(buf)@ + enc_batch_entry(*q));
        },
        BatchQuery::SimpleWithParams(ref text, ref values) => {
            push_u8(buf, 0x00);
            push_long_string(buf, text);
            push_u16_be(buf, values.len() as u16);
            write_values(buf, values);
            assert(buf@ =~= old(buf)@ + enc_batch_entry(*q));
        },
        BatchQuery::Prepared(ref id, ref values) => {
            push_u8(buf, 0x01);
            push_short_bytes(buf, id);
            push_u16_be(buf, values.len() as u16);
            write_values(buf, values);
            assert(buf@ =~= old(buf)@ + enc_batch_entry(*q));
        },
    }
}

fn write_batch_entries(buf: &mut Vec<u8>, v: &Vec<BatchQuery>, i: usize)
    requires
        i <= v@.len(),
        batch_entries_ok(v@.skip(i as int)),
    ensures
        final(buf)@ == old(buf)@ + enc_batch_entries(v@.skip(i as int)),
    decreases v@.len() - i,
{
    let n = v.len();
    if i < n {
        proof {
            assert(v@.skip(i as int)[0] == v@[i as int]);
            assert(v@.skip(i as int).drop_first() =~= v@.skip(i as int + 1));
        }
        write_batch_entry(buf, &v[i]);
        write_batch_entries(buf, v, i + 1);
        assert(buf@ =~= old(buf)@ + enc_batch_entries(v@.skip(i as int)));
    } else {
        proof {
            assert(v@.skip(i as int) =~= Seq::<BatchQuery>::empty());
        }
        assert(buf@ =~= old(buf)@ + enc_batch_entries(v@.skip(i as int)));
    }
}

// ---------------------------------------------------------------------------
// Request bodies and frames
// ---------------------------------------------------------------------------

/// Flags byte of a query-family body: `Values` and `WithNamesForValues`
/// when bound values are present, `PageSize` and `WithPagingState` on the
/// paged variants.
pub open spec fn paged_flags(base: u8, paging_state: Option<Vec<u8>>) -> u8 {
    if paging_state is Some {
        (base | 0x04 | 0x08) as u8
    } else {
        (base | 0x04) as u8
    }
}

/// The optional trailing `[bytes]` of a paged request.
pub open spec fn enc_paging_state(paging_state: Option<Vec<u8>>) -> Seq<u8> {
    match paging_state {
        Option::Some(b) => enc_int_bytes(b@),
        Option::None => Seq::empty(),
    }
}

pub open spec fn paging_state_ok(paging_state: Option<Vec<u8>>) -> bool {
    match paging_state {
        Option::Some(b) => b@.len() <= MAX_VALUE_LEN,
        Option::None => true,
    }
}

/// The opcode-specific body bytes of a request.
pub open spec fn req_body(r: Request) -> Seq<u8> {
    match r {
        Request::Startup(pairs) => be16(pairs@.len() as u16) + enc_startup_pairs(pairs@),
        Request::Options => Seq::empty(),
        Request::Query(q, c) => enc_long_string(q@) + be16(spec_consistency_code(c)) + seq![0x00u8],
        Request::PrmQuery(q, values, c) => enc_long_string(q@) + be16(spec_consistency_code(c))
            + seq![0x01u8] + be16(values@.len() as u16) + enc_elems(values@),
        Request::PrmQueryWithNames(q, named, c) => enc_long_string(q@) + be16(
            spec_consistency_code(c),
        ) + seq![0x41u8] + be16(named@.len() as u16) + enc_named_values(named@),
        Request::Prepare(q) => enc_long_string(q@),
        Request::Execute(id, values, c) => enc_short_bytes(id@) + be16(spec_consistency_code(c))
            + seq![0x01u8] + be16(values@.len() as u16) + enc_elems(values@),
        Request::Batch(entries, c) => seq![0x00u8] + be16(entries@.len() as u16)
            + enc_batch_entries(entries@) + be16(spec_consistency_code(c)) + seq![0x00u8],
        Request::PagedQuery(q, c, page_size, ps) => enc_long_string(q@) + be16(
            spec_consistency_code(c),
        ) + seq![paged_flags(0x00, ps)] + be32i(page_size) + enc_paging_state(ps),
        Request::PagedPrmQuery(q, values, c, page_size, ps) => enc_long_string(q@) + be16(
            spec_consistency_code(c),
        ) + seq![paged_flags(0x01, ps)] + be16(values@.len() as u16) + enc_elems(values@) + be32i(
            page_size,
        ) + enc_paging_state(ps),
        Request::PagedPrmQueryWithNames(q, named, c, page_size, ps) => enc_long_string(q@) + be16(
            spec_consistency_code(c),
        ) + seq![paged_flags(0x41, ps)] + be16(named@.len() as u16) + enc_named_values(named@)
            + be32i(page_size) + enc_paging_state(ps),
        Request::PagedExecute(id, values, c, page_size, ps) => enc_short_bytes(id@) + be16(
            spec_consistency_code(c),
        ) + seq![paged_flags(0x01, ps)] + be16(values@.len() as u16) + enc_elems(values@) + be32i(
            page_size,
        ) + enc_paging_state(ps),
    }
}

/// A request whose strings, counts and body all fit their wire-format
/// length fields.  These are machine limits of the frame format, not
/// restrictions of the logical request set.
pub open spec fn req_ok(r: Request) -> bool {
    &&& req_body(r).len() <= 0xffffffff
    &&& match r {
        Request::Startup(pairs) => pairs@.len() <= MAX_SHORT_LEN && startup_pairs_ok(pairs@),
        Request::Options => true,
        Request::Query(q, _) => encode_utf8(q@).len() <= MAX_VALUE_LEN,
        Request::PrmQuery(q, values, _) => encode_utf8(q@).len() <= MAX_VALUE_LEN && values@.len()
            <= MAX_SHORT_LEN && elems_ok(values@),
        Request::PrmQueryWithNames(q, named, _) => encode_utf8(q@).len() <= MAX_VALUE_LEN
            && named@.len() <= MAX_SHORT_LEN && named_values_ok(named@),
        Request::Prepare(q) => encode_utf8(q@).len() <= MAX_VALUE_LEN,
        Request::Execute(id, values, _) => id@.len() <= MAX_SHORT_LEN && values@.len()
            <= MAX_SHORT_LEN && elems_ok(values@),
        Request::Batch(entries, _) => entries@.len() <= MAX_SHORT_LEN && batch_entries_ok(
            entries@,
        ),
        Request::PagedQuery(q, _, _, ps) => encode_utf8(q@).len() <= MAX_VALUE_LEN
            && paging_state_ok(ps),
        Request::PagedPrmQuery(q, values, _, _, ps) => encode_utf8(q@).len() <= MAX_VALUE_LEN
            && values@.len() <= MAX_SHORT_LEN && elems_ok(values@) && paging_state_ok(ps),
        Request::PagedPrmQueryWithNames(q, named, _, _, ps) => encode_utf8(q@).len()
            <= MAX_VALUE_LEN && named@.len() <= MAX_SHORT_LEN && named_values_ok(named@)
            && paging_state_ok(ps),
        Request::PagedExecute(id, values, _, _, ps) => id@.len() <= MAX_SHORT_LEN && values@.len()
            <= MAX_SHORT_LEN && elems_ok(values@) && paging_state_ok(ps),
    }
}

/// The whole frame of a request: version, flags, stream id 1, opcode, the
/// 32-bit body length, then the body.
pub open spec fn enc_request(r: Request) -> Seq<u8> {
    seq![CQL_BINARY_PROTOCOL_VERSION, 0x00u8] + be16(1u16) + seq![spec_opcode(r)] + be32(
        req_body(r).len() as u32,
    ) + req_body(r)
}

fn write_paging_state(buf: &mut Vec<u8>, ps: &Option<Vec<u8>>)
    requires
        paging_state_ok(*ps),
    ensures
        final(buf)@ == old(buf)@ + enc_paging_state(*ps),
{
    match *ps {
        Option::Some(ref b) => {
            push_int_bytes(buf, b);
        },
        Option::None => {},
    }
}

/// The opcode-specific body of a request, as `req_body` gives it.
pub fn write_body(r: &Request) -> (out: Vec<u8>)
    requires
        req_ok(*r),
    ensures
        out@ == req_body(*r),
{
    let mut buf: Vec<u8> = Vec::new();
    match *r {
        Request::Startup(ref pairs) => {
            push_u16_be(&mut buf, pairs.len() as u16);
            proof {
                assert(pairs@.skip(0) =~= pairs@);
            }
            write_startup_pairs(&mut buf, pairs, 0);
            assert(buf@ =~= req_body(*r));
        },
        Request::Options => {
            assert(buf@ =~= req_body(*r));
        },
        Request::Query(ref q, c) => {
            push_long_string(&mut buf, q);
            push_u16_be(&mut buf, consistency_code(c));
            push_u8(&mut buf, 0x00);
            assert(buf@ =~= req_body(*r));
        },
        Request::PrmQuery(ref q, ref values, c) => {
            push_long_string(&mut buf, q);
            push_u16_be(&mut buf, consistency_code(c));
            push_u8(&mut buf, 0x01);
            push_u16_be(&mut buf, values.len() as u16);
            write_values(&mut buf, values);
            assert(buf@ =~= req_body(*r));
        },
        Request::PrmQueryWithNames(ref q, ref named, c) => {
            push_long_string(&mut buf, q);
            push_u16_be(&mut buf, consistency_code(c));
            push_u8(&mut buf, 0x41);
            push_u16_be(&mut buf, named.len() as u16);
            write_named_values(&mut buf, named);
            assert(buf@ =~= req_body(*r));
        },
        Request::Prepare(ref q) => {
            push_long_string(&mut buf, q);
            assert(buf@ =~= req_body(*r));
        },
        Request::Execute(ref id, ref values, c) => {
            push_short_bytes(&mut buf, id);
            push_u16_be(&mut buf, consistency_code(c));
            push_u8(&mut buf, 0x01);
            push_u16_be(&mut buf, values.len() as u16);
            write_values(&mut buf, values);
            assert(buf@ =~= req_body(*r));
        },
        Request::Batch(ref entries, c) => {
            push_u8(&mut buf, 0x00);
            push_u16_be(&mut buf, entries.len() as u16);
            proof {
                assert(entries@.skip(0) =~= entries@);
            }
            write_batch_entries(&mut buf, entries, 0);
            push_u16_be(&mut buf, consistency_code(c));
            push_u8(&mut buf, 0x00);
            assert(buf@ =~= req_body(*r));
        },
        Request::PagedQuery(ref q, c, page_size, ref ps) => {
            push_long_string(&mut buf, q);
            push_u16_be(&mut buf, consistency_code(c));
            let flags: u8 = if ps.is_some() { 0x00 | 0x04 | 0x08 } else { 0x00 | 0x04 };
            push_u8(&mut buf, flags);
            push_i32_be(&mut buf, page_size);
            write_paging_state(&mut buf, ps);
            assert(buf@ =~= req_body(*r));
        },
        Request::PagedPrmQuery(ref q, ref values, c, page_size, ref ps) => {
            push_long_string(&mut buf, q);
            push_u16_be(&mut buf, consistency_code(c));
            let flags: u8 = if ps.is_some() { 0x01 | 0x04 | 0x08 } else { 0x01 | 0x04 };
            push_u8(&mut buf, flags);
            push_u16_be(&mut buf, values.len() as u16);
            write_values(&mut buf, values);
            push_i32_be(&mut buf, page_size);
            write_paging_state(&mut buf, ps);
            assert(buf@ =~= req_body(*r));
        },
        Request::PagedPrmQueryWithNames(ref q, ref named, c, page_size, ref ps) => {
            push_long_string(&mut buf, q);
            push_u16_be(&mut buf, consistency_code(c));
            let flags: u8 = if ps.is_some() { 0x41 | 0x04 | 0x08 } else { 0x41 | 0x04 };
            push_u8(&mut buf, flags);
            push_u16_be(&mut buf, named.len() as u16);
            write_named_values(&mut buf, named);
            push_i32_be(&mut buf, page_size);
            write_paging_state(&mut buf, ps);
            assert(buf@ =~= req_body(*r));
        },
        Request::PagedExecute(ref id, ref values, c, page_size, ref ps) => {
            push_short_bytes(&mut buf, id);
            push_u16_be(&mut buf, consistency_code(c));
            let flags: u8 = if ps.is_some() { 0x01 | 0x04 | 0x08 } else { 0x01 | 0x04 };
            push_u8(&mut buf, flags);
            push_u16_be(&mut buf, values.len() as u16);
            write_values(&mut buf, values);
            push_i32_be(&mut buf, page_size);
            write_paging_state(&mut buf, ps);
            assert(buf@ =~= req_body(*r));
        },
    }
    buf
}

/// Encode one request as a complete frame.  The 32-bit length field of the
/// header is the exact byte count of the body that follows it.
pub fn write_message(r: &Request) -> (out: Vec<u8>)
    requires
        req_ok(*r),
    ensures
        out@ == enc_request(*r),
{
    let body = write_body(r);
    let mut out: Vec<u8> = Vec::new();
    push_u8(&mut out, CQL_BINARY_PROTOCOL_VERSION);
    push_u8(&mut out, 0x00);
    push_u16_be(&mut out, 1);
    push_u8(&mut out, r.opcode());
    push_u32_be(&mut out, body.len() as u32);
    push_bytes(&mut out, &body);
    assert(out@ =~= enc_request(*r));
    out
}

// ---------------------------------------------------------------------------
// Checking a request against the wire-format limits
// ---------------------------------------------------------------------------

/// The encoded body size of a value, or nothing when some nested body
/// overruns its signed 32-bit length prefix.
fn check_value(c: &Column) -> (r: Option<usize>)
    ensures
        match r {
            Option::Some(n) => val_ok(*c) && n as int == val_body(*c).len(),
            Option::None => !val_ok(*c),
        },
    decreases *c, 0int,
{
    match *c {
        Column::Null => Option::Some(0),
        Column::String(ref s) => {
            let n = s.as_str().as_bytes().len();
            if n <= 0x7fffffff {
                Option::Some(n)
            } else {
                Option::None
            }
        },
        Column::Int(_) => Option::Some(4),
        Column::Bigint(_) => Option::Some(8),
        Column::Float(_) => Option::Some(4),
        Column::Double(_) => Option::Some(8),
        Column::Timestamp(_) => Option::Some(8),
        Column::SetOf(ref v) | Column::ListOf(ref v) => {
            proof {
                assert(v@.skip(0) =~= v@);
            }
            match check_elems_size(v, 0) {
                Option::Some(n) => {
                    if n > 0x7fffffff - 4 {
                        Option::None
                    } else {
                        Option::Some(4 + (n as usize))
                    }
                },
                Option::None => Option::None,
            }
        },
        Column::MapOf(ref v) => {
            proof {
                assert(v@.skip(0) =~= v@);
            }
            match check_pairs_size(v, 0) {
                Option::Some(n) => {
                    if n > 0x7fffffff - 4 {
                        Option::None
                    } else {
                        Option::Some(4 + (n as usize))
                    }
                },
                Option::None => Option::None,
            }
        },
    }
}

/// The byte count of the encoded elements from index `i` on, capped at
/// the unsigned 32-bit range.
fn check_elems_size(v: &Vec<Column>, i: usize) -> (r: Option<u64>)
    requires
        i <= v@.len(),
    ensures
        match r {
            Option::Some(n) => elems_ok(v@.skip(i as int)) && n as int == enc_elems(
                v@.skip(i as int),
            ).len() && n <= 0xffffffff,
            Option::None => !(elems_ok(v@.skip(i as int)) && enc_elems(v@.skip(i as int)).len()
                <= 0xffffffff),
        },
    decreases *v, v@.len() - i,
{
    let n_total = v.len();
    if i < n_total {
        proof {
            assert(v@.skip(i as int)[0] == v@[i as int]);
            assert(v@.skip(i as int).drop_first() =~= v@.skip(i as int + 1));
        }
        match check_value(&v[i]) {
            Option::Some(first) => {
                match check_elems_size(v, i + 1) {
                    Option::Some(rest) => {
                        let total: u64 = 4 + (first as u64) + rest;
                        proof {
                            assert(enc_value(v@[i as int]).len() == 4 + val_body(
                                v@[i as int],
                            ).len());
                        }
                        if total > 0xffffffff {
                            Option::None
                        } else {
                            Option::Some(total)
                        }
                    },
                    Option::None => {
                        proof {
                            assert(enc_elems(v@.skip(i as int)).len() >= enc_elems(
                                v@.skip(i as int + 1),
                            ).len());
                        }
                        Option::None
                    },
                }
            },
            Option::None => Option::None,
        }
    } else {
        proof {
            assert(v@.skip(i as int) =~= Seq::<Column>::empty());
        }
        Option::Some(0)
    }
}

/// The byte count of the encoded map entries from index `i` on, capped at
/// the unsigned 32-bit range.
fn check_pairs_size(v: &Vec<(Column, Column)>, i: usize) -> (r: Option<u64>)
    requires
        i <= v@.len(),
    ensures
        match r {
            Option::Some(n) => pairs_ok(v@.skip(i as int)) && n as int == enc_pairs(
                v@.skip(i as int),
            ).len() && n <= 0xffffffff,
            Option::None => !(pairs_ok(v@.skip(i as int)) && enc_pairs(v@.skip(i as int)).len()
                <= 0xffffffff),
        },
    decreases *v, v@.len() - i,
{
    let n_total = v.len();
    if i < n_total {
        proof {
            assert(v@.skip(i as int)[0] == v@[i as int]);
            assert(v@.skip(i as int).drop_first() =~= v@.skip(i as int + 1));
        }
        match check_value(&v[i].0) {
            Option::Some(k) => {
                match check_value(&v[i].1) {
                    Option::Some(w) => {
                        match check_pairs_size(v, i + 1) {
                            Option::Some(rest) => {
                                let total: u64 = 8 + (k as u64) + (w as u64) + rest;
                                proof {
                                    assert(enc_value(v@[i as int].0).len() == 4 + val_body(
                                        v@[i as int].0,
                                    ).len());
                                    assert(enc_value(v@[i as int].1).len() == 4 + val_body(
                                        v@[i as int].1,
                                    ).len());
                                }
                                if total > 0xffffffff {
                                    Option::None
                                } else {
                                    Option::Some(total)
                                }
                            },
                            Option::None => {
                                proof {
                                    assert(enc_pairs(v@.skip(i as int)).len() >= enc_pairs(
                                        v@.skip(i as int + 1),
                                    ).len());
                                }
                                Option::None
                            },
                        }
                    },
                    Option::None => Option::None,
                }
            },
            Option::None => Option::None,
        }
    } else {
        proof {
            assert(v@.skip(i as int) =~= Seq::<(Column, Column)>::empty());
        }
        Option::Some(0)
    }
}

/// The byte count of the encoded named values from index `i` on.
fn check_named_size(v: &Vec<(String, Column)>, i: usize) -> (r: Option<u64>)
    requires
        i <= v@.len(),
    ensures
        match r {
            Option::Some(n) => named_values_ok(v@.skip(i as int)) && n as int == enc_named_values(
                v@.skip(i as int),
            ).len() && n <= 0xffffffff,
            Option::None => !(named_values_ok(v@.skip(i as int)) && enc_named_values(
                v@.skip(i as int),
            ).len() <= 0xffffffff),
        },
    decreases v@.len() - i,
{
    let n_total = v.len();
    if i < n_total {
        proof {
            assert(v@.skip(i as int)[0] == v@[i as int]);
            assert(v@.skip(i as int).drop_first() =~= v@.skip(i as int + 1));
        }
        let name_len = v[i].0.as_str().as_bytes().len();
        if name_len > 0xffff {
            return Option::None;
        }
        match check_value(&v[i].1) {
            Option::Some(val) => {
                match check_named_size(v, i + 1) {
                    Option::Some(rest) => {
                        let total: u64 = 2 + (name_len as u64) + 4 + (val as u64) + rest;
                        proof {
                            assert(enc_value(v@[i as int].1).len() == 4 + val_body(
                                v@[i as int].1,
                            ).len());
                        }
                        if total > 0xffffffff {
                            Option::None
                        } else {
                            Option::Some(total)
                        }
                    },
                    Option::None => {
                        proof {
                            assert(enc_named_values(v@.skip(i as int)).len()
                                >= enc_named_values(v@.skip(i as int + 1)).len());
                        }
                        Option::None
                    },
                }
            },
            Option::None => Option::None,
        }
    } else {
        proof {
            assert(v@.skip(i as int) =~= Seq::<(String, Column)>::empty());
        }
        Option::Some(0)
    }
}

/// The byte count of the encoded startup options from index `i` on.
fn check_startup_size(v: &Vec<(String, String)>, i: usize) -> (r: Option<u64>)
    requires
        i <= v@.len(),
    ensures
        match r {
            Option::Some(n) => startup_pairs_ok(v@.skip(i as int)) && n as int
                == enc_startup_pairs(v@.skip(i as int)).len() && n <= 0xffffffff,
            Option::None => !(startup_pairs_ok(v@.skip(i as int)) && enc_startup_pairs(
                v@.skip(i as int),
            ).len() <= 0xffffffff),
        },
    decreases v@.len() - i,
{
    let n_total = v.len();
    if i < n_total {
        proof {
            assert(v@.skip(i as int)[0] == v@[i as int]);
            assert(v@.skip(i as int).drop_first() =~= v@.skip(i as int + 1));
        }
        let k = v[i].0.as_str().as_bytes().len();
        let w = v[i].1.as_str().as_bytes().len();
        if k > 0xffff || w > 0xffff {
            return Option::None;
        }
        match check_startup_size(v, i + 1) {
            Option::Some(rest) => {
                let total: u64 = 2 + (k as u64) + 2 + (w as u64) + rest;
                if total > 0xffffffff {
                    Option::None
                } else {
                    Option::Some(total)
                }
            },
            Option::None => {
                proof {
                    assert(enc_startup_pairs(v@.skip(i as int)).len() >= enc_startup_pairs(
                        v@.skip(i as int + 1),
                    ).len());
                }
                Option::None
            },
        }
    } else {
        proof {
            assert(v@.skip(i as int) =~= Seq::<(String, String)>::empty());
        }
        Option::Some(0)
    }
}

/// The byte count of the encoded batch entries from index `i` on.
fn check_batch_size(v: &Vec<BatchQuery>, i: usize) -> (r: Option<u64>)
    requires
        i <= v@.len(),
    ensures
        match r {
            Option::Some(n) => batch_entries_ok(v@.skip(i as int)) && n as int
                == enc_batch_entries(v@.skip(i as int)).len() && n <= 0xffffffff,
            Option::None => !(batch_entries_ok(v@.skip(i as int)) && enc_batch_entries(
                v@.skip(i as int),
            ).len() <= 0xffffffff),
        },
    decreases v@.len() - i,
{
    let n_total = v.len();
    if i < n_total {
        proof {
            assert(v@.skip(i as int)[0] == v@[i as int]);
            assert(v@.skip(i as int).drop_first() =~= v@.skip(i as int + 1));
        }
        let first: Option<u64> = check_batch_entry_size(&v[i]);
        match first {
            Option::Some(entry) => {
                match check_batch_size(v, i + 1) {
                    Option::Some(rest) => {
                        let total: u64 = entry + rest;
                        if total > 0xffffffff {
                            Option::None
                        } else {
                            Option::Some(total)
                        }
                    },
                    Option::None => {
                        proof {
                            assert(enc_batch_entries(v@.skip(i as int)).len()
                                >= enc_batch_entries(v@.skip(i as int + 1)).len());
                        }
                        Option::None
                    },
                }
            },
            Option::None => {
                proof {
                    assert(enc_batch_entries(v@.skip(i as int)).len() >= enc_batch_entry(
                        v@[i as int],
                    ).len());
                }
                Option::None
            },
        }
    } else {
        proof {
            assert(v@.skip(i as int) =~= Seq::<BatchQuery>::empty());
        }
        Option::Some(0)
    }
}

/// The byte count of one encoded batch entry.
fn check_batch_entry_size(q: &BatchQuery) -> (r: Option<u64>)
    ensures
        match r {
            Option::Some(n) => batch_entry_ok(*q) && n as int == enc_batch_entry(*q).len() && n
                <= 0xffffffff,
            Option::None => !(batch_entry_ok(*q) && enc_batch_entry(*q).len() <= 0xffffffff),
        },
{
    match *q {
        BatchQuery::Simple(ref text) => {
            let tb = text.as_str().as_bytes().len();
            if tb > 0x7fffffff {
                Option::None
            } else {
                Option::Some(1 + 4 + (tb as u64) + 2)
            }
        },
        BatchQuery::SimpleWithParams(ref text, ref values) => {
            let tb = text.as_str().as_bytes().len();
            if tb > 0x7fffffff || values.len() > 0xffff {
                return Option::None;
            }
            proof {
                assert(values@.skip(0) =~= values@);
            }
            match check_elems_size(values, 0) {
                Option::Some(n) => {
                    let total: u64 = 1 + 4 + (tb as u64) + 2 + n;
                    if total > 0xffffffff {
                        Option::None
                    } else {
                        Option::Some(total)
                    }
                },
                Option::None => Option::None,
            }
        },
        BatchQuery::Prepared(ref id, ref values) => {
            if id.len() > 0xffff || values.len() > 0xffff {
                return Option::None;
            }
            proof {
                assert(values@.skip(0) =~= values@);
            }
            match check_elems_size(values, 0) {
                Option::Some(n) => {
                    let total: u64 = 1 + 2 + (id.len() as u64) + 2 + n;
                    if total > 0xffffffff {
                        Option::None
                    } else {
                        Option::Some(total)
                    }
                },
                Option::None => Option::None,
            }
        },
    }
}

/// Whether a request fits every length field of the wire format, exactly
/// the condition under which `write_message` encodes it.
pub fn check_request(r: &Request) -> (b: bool)
    ensures
        b == req_ok(*r),
{
    match *r {
        Request::Startup(ref pairs) => {
            if pairs.len() > 0xffff {
                return false;
            }
            proof {
                assert(pairs@.skip(0) =~= pairs@);
            }
            match check_startup_size(pairs, 0) {
                Option::Some(n) => 2 + n <= 0xffffffff,
                Option::None => false,
            }
        },
        Request::Options => true,
        Request::Query(ref q, _) => q.as_str().as_bytes().len() <= 0x7fffffff,
        Request::Prepare(ref q) => q.as_str().as_bytes().len() <= 0x7fffffff,
        Request::PrmQuery(ref q, ref values, _) => {
            if q.as_str().as_bytes().len() > 0x7fffffff || values.len() > 0xffff {
                return false;
            }
            proof {
                assert(values@.skip(0) =~= values@);
            }
            match check_elems_size(values, 0) {
                Option::Some(n) => 4 + (q.as_str().as_bytes().len() as u64) + 5 + n <= 0xffffffff,
                Option::None => false,
            }
        },
        Request::PrmQueryWithNames(ref q, ref named, _) => {
            if q.as_str().as_bytes().len() > 0x7fffffff || named.len() > 0xffff {
                return false;
            }
            proof {
                assert(named@.skip(0) =~= named@);
            }
            match check_named_size(named, 0) {
                Option::Some(n) => 4 + (q.as_str().as_bytes().len() as u64) + 5 + n <= 0xffffffff,
                Option::None => false,
            }
        },
        Request::Execute(ref id, ref values, _) => {
            if id.len() > 0xffff || values.len() > 0xffff {
                return false;
            }
            proof {
                assert(values@.skip(0) =~= values@);
            }
            match check_elems_size(values, 0) {
                Option::Some(n) => 2 + (id.len() as u64) + 5 + n <= 0xffffffff,
                Option::None => false,
            }
        },
        Request::Batch(ref entries, _) => {
            if entries.len() > 0xffff {
                return false;
            }
            proof {
                assert(entries@.skip(0) =~= entries@);
            }
            match check_batch_size(entries, 0) {
                Option::Some(n) => 6 + n <= 0xffffffff,
                Option::None => false,
            }
        },
        Request::PagedQuery(ref q, _, _, ref ps) => {
            if q.as_str().as_bytes().len() > 0x7fffffff || !check_paging_state(ps) {
                return false;
            }
            4 + (q.as_str().as_bytes().len() as u64) + 7 + paging_state_len(ps) <= 0xffffffff
        },
        Request::PagedPrmQuery(ref q, ref values, _, _, ref ps) => {
            if q.as_str().as_bytes().len() > 0x7fffffff || values.len() > 0xffff || !check_paging_state(ps) {
                return false;
            }
            proof {
                assert(values@.skip(0) =~= values@);
            }
            match check_elems_size(values, 0) {
                Option::Some(n) => 4 + (q.as_str().as_bytes().len() as u64) + 9 + n + paging_state_len(ps)
                    <= 0xffffffff,
                Option::None => false,
            }
        },
        Request::PagedPrmQueryWithNames(ref q, ref named, _, _, ref ps) => {
            if q.as_str().as_bytes().len() > 0x7fffffff || named.len() > 0xffff || !check_paging_state(ps) {
                return false;
            }
            proof {
                assert(named@.skip(0) =~= named@);
            }
            match check_named_size(named, 0) {
                Option::Some(n) => 4 + (q.as_str().as_bytes().len() as u64) + 9 + n + paging_state_len(ps)
                    <= 0xffffffff,
                Option::None => false,
            }
        },
        Request::PagedExecute(ref id, ref values, _, _, ref ps) => {
            if id.len() > 0xffff || values.len() > 0xffff || !check_paging_state(ps) {
                return false;
            }
            proof {
                assert(values@.skip(0) =~= values@);
            }
            match check_elems_size(values, 0) {
                Option::Some(n) => 2 + (id.len() as u64) + 9 + n + paging_state_len(ps)
                    <= 0xffffffff,
                Option::None => false,
            }
        },
    }
}

fn check_paging_state(ps: &Option<Vec<u8>>) -> (b: bool)
    ensures
        b == paging_state_ok(*ps),
{
    match *ps {
        Option::Some(ref b) => b.len() <= 0x7fffffff,
        Option::None => true,
    }
}

/// The encoded byte count of the optional paging state.
fn paging_state_len(ps: &Option<Vec<u8>>) -> (n: u64)
    requires
        paging_state_ok(*ps),
    ensures
        n as int == enc_paging_state(*ps).len(),
{
    match *ps {
        Option::Some(ref b) => 4 + (b.len() as u64),
        Option::None => 0,
    }
}

/// Encode a request when it fits the wire format's length fields, and
/// return nothing exactly when it does not.
pub fn try_write_message(r: &Request) -> (out: Option<Vec<u8>>)
    ensures
        match out {
            Option::Some(bytes) => req_ok(*r) && bytes@ == enc_request(*r),
            Option::None => !req_ok(*r),
        },
{
    if check_request(r) {
        Option::Some(write_message(r))
    } else {
        Option::None
    }
}

} // verus!
