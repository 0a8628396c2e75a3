//! The shared data model of the protocol: opcodes, flags, consistency
//! levels, column types, values, requests and responses, together with the
//! numeric translation tables and the ghost views that the codec contracts
//! are stated over.

use vstd::prelude::*;

verus! {

// ---------------------------------------------------------------------------
// Wire tag enumerations
// ---------------------------------------------------------------------------

#[derive(Clone, Copy, Debug, PartialEq, Eq, Structural)]
pub enum Opcode {
    Error,
    Startup,
    Ready,
    Authenticate,
    Options,
    Supported,
    Query,
    Result,
    Prepare,
    Execute,
    Register,
    Event,
    Batch,
    AuthChallenge,
    AuthResponse,
    AuthSuccess,
    UnknownOpcode,
}

pub open spec fn spec_to_opcode(value: u8) -> Opcode {
    match value {
        0x00 => Opcode::Error,
        0x01 => Opcode::Startup,
        0x02 => Opcode::Ready,
        0x03 => Opcode::Authenticate,
        0x05 => Opcode::Options,
        0x06 => Opcode::Supported,
        0x07 => Opcode::Query,
        0x08 => Opcode::Result,
        0x09 => Opcode::Prepare,
        0x0A => Opcode::Execute,
        0x0B => Opcode::Register,
        0x0C => Opcode::Event,
        0x0D => Opcode::Batch,
        0x0E => Opcode::AuthChallenge,
        0x0F => Opcode::AuthResponse,
        0x10 => Opcode::AuthSuccess,
        _ => Opcode::UnknownOpcode,
    }
}

/// Total decoding table from a wire opcode byte; bytes outside the table
/// yield `UnknownOpcode` rather than a failure.
pub fn to_opcode(value: u8) -> (r: Opcode)
    ensures
        r == spec_to_opcode(value),
{
    match value {
        0x00 => Opcode::Error,
        0x01 => Opcode::Startup,
        0x02 => Opcode::Ready,
        0x03 => Opcode::Authenticate,
        0x05 => Opcode::Options,
        0x06 => Opcode::Supported,
        0x07 => Opcode::Query,
        0x08 => Opcode::Result,
        0x09 => Opcode::Prepare,
        0x0A => Opcode::Execute,
        0x0B => Opcode::Register,
        0x0C => Opcode::Event,
        0x0D => Opcode::Batch,
        0x0E => Opcode::AuthChallenge,
        0x0F => Opcode::AuthResponse,
        0x10 => Opcode::AuthSuccess,
        _ => Opcode::UnknownOpcode,
    }
}

#[derive(Clone, Copy, Debug, PartialEq, Eq, Structural)]
pub enum FrameFlag {
    NoFlag,
    Compression,
    Tracing,
    CustomPayload,
    Warning,
    UseBeta,
}

pub open spec fn spec_frame_flag_bit(f: FrameFlag) -> u8 {
    match f {
        FrameFlag::NoFlag => 0x00,
        FrameFlag::Compression => 0x01,
        FrameFlag::Tracing => 0x02,
        FrameFlag::CustomPayload => 0x04,
        FrameFlag::Warning => 0x08,
        FrameFlag::UseBeta => 0x10,
    }
}

#[derive(Clone, Copy, Debug, PartialEq, Eq, Structural)]
pub enum ResultKind {
    Void,
    Rows,
    SetKeyspace,
    Prepared,
    SchemaChange,
    UnknownResult,
}

pub open spec fn spec_to_result_kind(value: u32) -> ResultKind {
    match value {
        0x0001u32 => ResultKind::Void,
        0x0002u32 => ResultKind::Rows,
        0x0003u32 => ResultKind::SetKeyspace,
        0x0004u32 => ResultKind::Prepared,
        0x0005u32 => ResultKind::SchemaChange,
        _ => ResultKind::UnknownResult,
    }
}

/// Total decoding table from the 32-bit result-kind tag of a result frame.
pub fn to_result_kind(value: u32) -> (r: ResultKind)
    ensures
        r == spec_to_result_kind(value),
{
    match value {
        0x0001u32 => ResultKind::Void,
        0x0002u32 => ResultKind::Rows,
        0x0003u32 => ResultKind::SetKeyspace,
        0x0004u32 => ResultKind::Prepared,
        0x0005u32 => ResultKind::SchemaChange,
        _ => ResultKind::UnknownResult,
    }
}

#[derive(Clone, Copy, Debug, PartialEq, Eq, Structural)]
pub enum RowsFlag {
    NoFlag,
    GlobalTablesSpec,
    HasMorePages,
    NoMetadata,
}

pub open spec fn spec_rows_flag_bit(f: RowsFlag) -> u32 {
    match f {
        RowsFlag::NoFlag => 0x0000,
        RowsFlag::GlobalTablesSpec => 0x0001,
        RowsFlag::HasMorePages => 0x0002,
        RowsFlag::NoMetadata => 0x0004,
    }
}

#[derive(Clone, Copy, Debug, PartialEq, Eq, Structural)]
pub enum QueryFlag {
    NoFlag,
    Values,
    SkipMetadata,
    PageSize,
    WithPagingState,
    WithSerialConsistency,
    WithDefaultTimestamp,
    WithNamesForValues,
}

pub open spec fn spec_query_flag_bit(f: QueryFlag) -> u8 {
    match f {
        QueryFlag::NoFlag => 0x00,
        QueryFlag::Values => 0x01,
        QueryFlag::SkipMetadata => 0x02,
        QueryFlag::PageSize => 0x04,
        QueryFlag::WithPagingState => 0x08,
        QueryFlag::WithSerialConsistency => 0x10,
        QueryFlag::WithDefaultTimestamp => 0x20,
        QueryFlag::WithNamesForValues => 0x40,
    }
}

#[derive(Clone, Copy, Debug, PartialEq, Eq, Structural)]
pub enum Consistency {
    Any,
    One,
    Two,
    Three,
    Quorum,
    All,
    LocalQuorum,
    EachQuorum,
    Serial,
    LocalSerial,
    LocalOne,
    Unknown,
}

pub open spec fn spec_consistency_code(c: Consistency) -> u16 {
    match c {
        Consistency::Any => 0x0000,
        Consistency::One => 0x0001,
        Consistency::Two => 0x0002,
        Consistency::Three => 0x0003,
        Consistency::Quorum => 0x0004,
        Consistency::All => 0x0005,
        Consistency::LocalQuorum => 0x0006,
        Consistency::EachQuorum => 0x0007,
        Consistency::Serial => 0x0008,
        Consistency::LocalSerial => 0x0009,
        Consistency::LocalOne => 0x000A,
        Consistency::Unknown => 0x000B,
    }
}

/// Wire code of a consistency level (unsigned 16-bit, big-endian on the wire).
pub fn consistency_code(c: Consistency) -> (r: u16)
    ensures
        r == spec_consistency_code(c),
{
    match c {
        Consistency::Any => 0x0000,
        Consistency::One => 0x0001,
        Consistency::Two => 0x0002,
        Consistency::Three => 0x0003,
        Consistency::Quorum => 0x0004,
        Consistency::All => 0x0005,
        Consistency::LocalQuorum => 0x0006,
        Consistency::EachQuorum => 0x0007,
        Consistency::Serial => 0x0008,
        Consistency::LocalSerial => 0x0009,
        Consistency::LocalOne => 0x000A,
        Consistency::Unknown => 0x000B,
    }
}

#[derive(Clone, Copy, Debug, PartialEq, Eq, Structural)]
pub enum BatchType {
    Logged,
    Unlogged,
    Counter,
}

pub open spec fn spec_batch_type_code(t: BatchType) -> u8 {
    match t {
        BatchType::Logged => 0x00,
        BatchType::Unlogged => 0x01,
        BatchType::Counter => 0x02,
    }
}

#[derive(Clone, Copy, Debug, PartialEq, Eq, Structural)]
pub enum BatchFlag {
    NoFlag,
    WithSerialConsistency,
    WithDefaultTimestamp,
    WithNamesForValues,
}

pub open spec fn spec_batch_flag_bit(f: BatchFlag) -> u8 {
    match f {
        BatchFlag::NoFlag => 0x00,
        BatchFlag::WithSerialConsistency => 0x10,
        BatchFlag::WithDefaultTimestamp => 0x20,
        BatchFlag::WithNamesForValues => 0x40,
    }
}

#[derive(Clone, Copy, Debug, PartialEq, Eq, Structural)]
pub enum BatchQueryKind {
    Simple,
    Prepared,
}

pub open spec fn spec_batch_query_kind_code(k: BatchQueryKind) -> u8 {
    match k {
        BatchQueryKind::Simple => 0x00,
        BatchQueryKind::Prepared => 0x01,
    }
}

// ---------------------------------------------------------------------------
// Column types and type descriptors
// ---------------------------------------------------------------------------

#[derive(Clone, Copy, Debug, PartialEq, Eq, Structural)]
pub enum ColumnType {
    Custom,
    Ascii,
    Bigint,
    Blob,
    Boolean,
    Counter,
    Decimal,
    Double,
    Float,
    Int,
    Text,
    Timestamp,
    Uuid,
    Varchar,
    Varint,
    Timeuuid,
    Inet,
    List,
    MapType,
    SetType,
    UDT,
    Tuple,
}

pub open spec fn spec_to_column_type(value: u16) -> ColumnType {
    match value {
        0x0000u16 => ColumnType::Custom,
        0x0001u16 => ColumnType::Ascii,
        0x0002u16 => ColumnType::Bigint,
        0x0003u16 => ColumnType::Blob,
        0x0004u16 => ColumnType::Boolean,
        0x0005u16 => ColumnType::Counter,
        0x0006u16 => ColumnType::Decimal,
        0x0007u16 => ColumnType::Double,
        0x0008u16 => ColumnType::Float,
        0x0009u16 => ColumnType::Int,
        0x000Au16 => ColumnType::Text,
        0x000Bu16 => ColumnType::Timestamp,
        0x000Cu16 => ColumnType::Uuid,
        0x000Du16 => ColumnType::Varchar,
        0x000Eu16 => ColumnType::Varint,
        0x000Fu16 => ColumnType::Timeuuid,
        0x0010u16 => ColumnType::Inet,
        0x0020u16 => ColumnType::List,
        0x0021u16 => ColumnType::MapType,
        0x0022u16 => ColumnType::SetType,
        0x0030u16 => ColumnType::UDT,
        0x0031u16 => ColumnType::Tuple,
        _ => ColumnType::Varchar,
    }
}

/// Total decoding table from a 16-bit wire type code; unrecognized codes
/// fall back to `Varchar` so that decoding never fails on a new type.
pub fn to_column_type(value: u16) -> (r: ColumnType)
    ensures
        r == spec_to_column_type(value),
{
    match value {
        0x0000u16 => ColumnType::Custom,
        0x0001u16 => ColumnType::Ascii,
        0x0002u16 => ColumnType::Bigint,
        0x0003u16 => ColumnType::Blob,
        0x0004u16 => ColumnType::Boolean,
        0x0005u16 => ColumnType::Counter,
        0x0006u16 => ColumnType::Decimal,
        0x0007u16 => ColumnType::Double,
        0x0008u16 => ColumnType::Float,
        0x0009u16 => ColumnType::Int,
        0x000Au16 => ColumnType::Text,
        0x000Bu16 => ColumnType::Timestamp,
        0x000Cu16 => ColumnType::Uuid,
        0x000Du16 => ColumnType::Varchar,
        0x000Eu16 => ColumnType::Varint,
        0x000Fu16 => ColumnType::Timeuuid,
        0x0010u16 => ColumnType::Inet,
        0x0020u16 => ColumnType::List,
        0x0021u16 => ColumnType::MapType,
        0x0022u16 => ColumnType::SetType,
        0x0030u16 => ColumnType::UDT,
        0x0031u16 => ColumnType::Tuple,
        _ => ColumnType::Varchar,
    }
}

/// Collection element descriptor attached to a column type.  The element
/// descriptors are full type descriptors of their own, so that collections
/// of collections decode through one recursive algorithm.
#[derive(Debug, PartialEq)]
pub enum CollectionSpec {
    NoSpec,
    SetOf(Box<TypeDesc>),
    ListOf(Box<TypeDesc>),
    MapOf(Box<TypeDesc>, Box<TypeDesc>),
}

/// A full type descriptor: a wire type plus, for List/Set/Map, the
/// descriptors of the element types.
#[derive(Debug, PartialEq)]
pub struct TypeDesc {
    pub data_type: ColumnType,
    pub collection_spec: CollectionSpec,
}

/// Ghost mirror of `CollectionSpec`, used in the decoder's specification.
pub enum CollV {
    NoSpec,
    SetOf(Box<DescV>),
    ListOf(Box<DescV>),
    MapOf(Box<DescV>, Box<DescV>),
}

/// Ghost mirror of `TypeDesc`.
pub struct DescV {
    pub data_type: ColumnType,
    pub collection: CollV,
}

pub open spec fn coll_view(cs: CollectionSpec) -> CollV
    decreases cs,
{
    match cs {
        CollectionSpec::NoSpec => CollV::NoSpec,
        CollectionSpec::SetOf(d) => CollV::SetOf(Box::new(desc_view(*d))),
        CollectionSpec::ListOf(d) => CollV::ListOf(Box::new(desc_view(*d))),
        CollectionSpec::MapOf(k, v) => CollV::MapOf(Box::new(desc_view(*k)), Box::new(desc_view(*v))),
    }
}

pub open spec fn desc_view(d: TypeDesc) -> DescV
    decreases d,
{
    DescV { data_type: d.data_type, collection: coll_view(d.collection_spec) }
}

/// One decoded column descriptor of a tabular result.
#[derive(Debug, PartialEq)]
pub struct ColumnSpec {
    pub name: String,
    pub data_type: ColumnType,
    pub collection_spec: CollectionSpec,
}

/// Ghost view of a `ColumnSpec`.
pub struct ColumnSpecV {
    pub name: Seq<char>,
    pub desc: DescV,
}

pub open spec fn colspec_view(c: ColumnSpec) -> ColumnSpecV {
    ColumnSpecV {
        name: c.name@,
        desc: DescV { data_type: c.data_type, collection: coll_view(c.collection_spec) },
    }
}

// ---------------------------------------------------------------------------
// Values
// ---------------------------------------------------------------------------

/// A decoded or to-be-encoded value.  `Float` and `Double` hold the IEEE 754
/// bit patterns of the wire representation, so that the codec moves bytes
/// without doing any floating-point arithmetic.  `Timestamp` holds integer
/// milliseconds since the epoch.
#[derive(Debug, PartialEq)]
pub enum Column {
    Null,
    String(String),
    Int(i32),
    Bigint(i64),
    Float(u32),
    Double(u64),
    Timestamp(i64),
    SetOf(Vec<Column>),
    ListOf(Vec<Column>),
    MapOf(Vec<(Column, Column)>),
}

/// Ghost view of a `Column`: strings become character sequences and the
/// collections become mathematical sequences.
pub enum ColumnV {
    Null,
    Text(Seq<char>),
    Int(i32),
    Bigint(i64),
    Float(u32),
    Double(u64),
    Timestamp(i64),
    SetOf(Seq<ColumnV>),
    ListOf(Seq<ColumnV>),
    MapOf(Seq<(ColumnV, ColumnV)>),
}

pub open spec fn col_view(c: Column) -> ColumnV
    decreases c,
{
    match c {
        Column::Null => ColumnV::Null,
        Column::String(s) => ColumnV::Text(s@),
        Column::Int(v) => ColumnV::Int(v),
        Column::Bigint(v) => ColumnV::Bigint(v),
        Column::Float(v) => ColumnV::Float(v),
        Column::Double(v) => ColumnV::Double(v),
        Column::Timestamp(v) => ColumnV::Timestamp(v),
        Column::SetOf(v) => ColumnV::SetOf(cols_view(v@)),
        Column::ListOf(v) => ColumnV::ListOf(cols_view(v@)),
        Column::MapOf(v) => ColumnV::MapOf(pairs_view(v@)),
    }
}

pub open spec fn cols_view(s: Seq<Column>) -> Seq<ColumnV>
    decreases s,
{
    if s.len() == 0 {
        Seq::empty()
    } else {
        seq![col_view(s[0])] + cols_view(s.drop_first())
    }
}

pub open spec fn pairs_view(s: Seq<(Column, Column)>) -> Seq<(ColumnV, ColumnV)>
    decreases s,
{
    if s.len() == 0 {
        Seq::empty()
    } else {
        seq![(col_view(s[0].0), col_view(s[0].1))] + pairs_view(s.drop_first())
    }
}

impl Column {
    pub fn get_string(&self) -> (r: Option<String>)
        ensures
            match *self {
                Column::String(ref s) => r is Some && r.unwrap()@ == s@,
                _ => r is None,
            },
    {
        match *self {
            Column::String(ref val) => Some(val.clone()),
            _ => None,
        }
    }

    pub fn get_int(&self) -> (r: Option<i32>)
        ensures
            r == (match *self {
                Column::Int(v) => Some(v),
                _ => None,
            }),
    {
        match *self {
            Column::Int(ref val) => Some(*val),
            _ => None,
        }
    }

    pub fn get_bigint(&self) -> (r: Option<i64>)
        ensures
            r == (match *self {
                Column::Bigint(v) => Some(v),
                _ => None,
            }),
    {
        match *self {
            Column::Bigint(ref val) => Some(*val),
            _ => None,
        }
    }

    /// The IEEE 754 bit pattern of a single-precision column.
    pub fn get_float(&self) -> (r: Option<u32>)
        ensures
            r == (match *self {
                Column::Float(v) => Some(v),
                _ => None,
            }),
    {
        match *self {
            Column::Float(ref val) => Some(*val),
            _ => None,
        }
    }

    /// The IEEE 754 bit pattern of a double-precision column.
    pub fn get_double(&self) -> (r: Option<u64>)
        ensures
            r == (match *self {
                Column::Double(v) => Some(v),
                _ => None,
            }),
    {
        match *self {
            Column::Double(ref val) => Some(*val),
            _ => None,
        }
    }

    pub fn get_timestamp(&self) -> (r: Option<i64>)
        ensures
            r == (match *self {
                Column::Timestamp(v) => Some(v),
                _ => None,
            }),
    {
        match *self {
            Column::Timestamp(ref val) => Some(*val),
            _ => None,
        }
    }

    /// The elements of a nonempty Set or List column.
    pub fn get_vec(&self) -> (r: Option<Vec<Column>>)
        ensures
            match *self {
                Column::SetOf(ref v) | Column::ListOf(ref v) => if v@.len() == 0 {
                    r is None
                } else {
                    r is Some && cols_view(r.unwrap()@) == cols_view(v@)
                },
                _ => r is None,
            },
    {
        match *self {
            Column::SetOf(ref val) | Column::ListOf(ref val) => {
                if val.len() == 0 {
                    return None;
                }
                Some(clone_columns(val))
            },
            _ => None,
        }
    }
}

/// Structural clone of a value, with its view preserved.
pub fn clone_column(c: &Column) -> (r: Column)
    ensures
        col_view(r) == col_view(*c),
    decreases *c,
{
    match *c {
        Column::Null => Column::Null,
        Column::String(ref s) => Column::String(s.clone()),
        Column::Int(v) => Column::Int(v),
        Column::Bigint(v) => Column::Bigint(v),
        Column::Float(v) => Column::Float(v),
        Column::Double(v) => Column::Double(v),
        Column::Timestamp(v) => Column::Timestamp(v),
        Column::SetOf(ref v) => Column::SetOf(clone_columns(v)),
        Column::ListOf(ref v) => Column::ListOf(clone_columns(v)),
        Column::MapOf(ref v) => Column::MapOf(clone_column_pairs(v)),
    }
}

pub fn clone_columns(v: &Vec<Column>) -> (r: Vec<Column>)
    ensures
        cols_view(r@) == cols_view(v@),
        r@.len() == v@.len(),
    decreases *v,
{
    let mut out: Vec<Column> = Vec::new();
    let n = v.len();
    let mut i: usize = 0;
    proof {
        assert(v@.take(0) =~= Seq::<Column>::empty());
    }
    while i < n
        invariant
            n == v@.len(),
            i <= n,
            out@.len() == i,
            cols_view(out@) == cols_view(v@.take(i as int)),
        decreases n - i,
    {
        let ghost prev = out@;
        out.push(clone_column(&v[i]));
        proof {
            lemma_cols_view_snoc(prev, out@.last());
            lemma_cols_view_snoc(v@.take(i as int), v@[i as int]);
            assert(prev.push(out@.last()) =~= out@);
            assert(v@.take(i as int).push(v@[i as int]) =~= v@.take(i as int + 1));
        }
        i = i + 1;
    }
    proof {
        assert(v@.take(n as int) =~= v@);
    }
    out
}

pub fn clone_column_pairs(v: &Vec<(Column, Column)>) -> (r: Vec<(Column, Column)>)
    ensures
        pairs_view(r@) == pairs_view(v@),
        r@.len() == v@.len(),
    decreases *v,
{
    let mut out: Vec<(Column, Column)> = Vec::new();
    let n = v.len();
    let mut i: usize = 0;
    proof {
        assert(v@.take(0) =~= Seq::<(Column, Column)>::empty());
    }
    while i < n
        invariant
            n == v@.len(),
            i <= n,
            out@.len() == i,
            pairs_view(out@) == pairs_view(v@.take(i as int)),
        decreases n - i,
    {
        let ghost prev = out@;
        let pair = (clone_column(&v[i].0), clone_column(&v[i].1));
        out.push(pair);
        proof {
            lemma_pairs_view_snoc(prev, out@.last());
            lemma_pairs_view_snoc(v@.take(i as int), v@[i as int]);
            assert(prev.push(out@.last()) =~= out@);
            assert(v@.take(i as int).push(v@[i as int]) =~= v@.take(i as int + 1));
        }
        i = i + 1;
    }
    proof {
        assert(v@.take(n as int) =~= v@);
    }
    out
}

pub proof fn lemma_cols_view_snoc(s: Seq<Column>, c: Column)
    ensures
        cols_view(s.push(c)) == cols_view(s) + seq![col_view(c)],
    decreases s,
{
    if s.len() == 0 {
        reveal_with_fuel(cols_view, 2);
        assert(s.push(c)[0] == c);
        assert(s.push(c).drop_first() =~= Seq::<Column>::empty());
        assert(cols_view(s.push(c)) =~= cols_view(s) + seq![col_view(c)]);
    } else {
        assert(s.push(c).drop_first() =~= s.drop_first().push(c));
        lemma_cols_view_snoc(s.drop_first(), c);
        assert(s.push(c)[0] == s[0]);
        assert(cols_view(s.push(c)) =~= cols_view(s) + seq![col_view(c)]);
    }
}

pub proof fn lemma_pairs_view_snoc(s: Seq<(Column, Column)>, p: (Column, Column))
    ensures
        pairs_view(s.push(p)) == pairs_view(s) + seq![(col_view(p.0), col_view(p.1))],
    decreases s,
{
    if s.len() == 0 {
        reveal_with_fuel(pairs_view, 2);
        assert(s.push(p)[0] == p);
        assert(s.push(p).drop_first() =~= Seq::<(Column, Column)>::empty());
        assert(pairs_view(s.push(p)) =~= pairs_view(s) + seq![(col_view(p.0), col_view(p.1))]);
    } else {
        assert(s.push(p).drop_first() =~= s.drop_first().push(p));
        lemma_pairs_view_snoc(s.drop_first(), p);
        assert(s.push(p)[0] == s[0]);
        assert(pairs_view(s.push(p)) =~= pairs_view(s) + seq![(col_view(p.0), col_view(p.1))]);
    }
}

// ---------------------------------------------------------------------------
// Requests
// ---------------------------------------------------------------------------

/// One statement of a batch request.
#[derive(Debug, PartialEq)]
pub enum BatchQuery {
    Simple(String),
    SimpleWithParams(String, Vec<Column>),
    Prepared(Vec<u8>, Vec<Column>),
}

/// A logical request.  The `Paged` variants add a requested page size and an
/// optional opaque paging-state blob to their non-paged counterparts.
///
/// The startup options are an ordered list of key/value pairs, so that the
/// encoded body is a deterministic function of the request.
#[derive(Debug)]
pub enum Request {
    Startup(Vec<(String, String)>),
    Options,
    Query(String, Consistency),
    PrmQuery(String, Vec<Column>, Consistency),
    PrmQueryWithNames(String, Vec<(String, Column)>, Consistency),
    Prepare(String),
    Execute(Vec<u8>, Vec<Column>, Consistency),
    Batch(Vec<BatchQuery>, Consistency),
    PagedQuery(String, Consistency, i32, Option<Vec<u8>>),
    PagedPrmQuery(String, Vec<Column>, Consistency, i32, Option<Vec<u8>>),
    PagedPrmQueryWithNames(String, Vec<(String, Column)>, Consistency, i32, Option<Vec<u8>>),
    PagedExecute(Vec<u8>, Vec<Column>, Consistency, i32, Option<Vec<u8>>),
}

pub open spec fn spec_opcode(r: Request) -> u8 {
    match r {
        Request::Startup(_) => 0x01,
        Request::Options => 0x05,
        Request::Query(_, _) => 0x07,
        Request::PrmQuery(_, _, _) => 0x07,
        Request::PrmQueryWithNames(_, _, _) => 0x07,
        Request::PagedQuery(_, _, _, _) => 0x07,
        Request::PagedPrmQuery(_, _, _, _, _) => 0x07,
        Request::PagedPrmQueryWithNames(_, _, _, _, _) => 0x07,
        Request::Prepare(_) => 0x09,
        Request::Execute(_, _, _) => 0x0A,
        Request::PagedExecute(_, _, _, _, _) => 0x0A,
        Request::Batch(_, _) => 0x0D,
    }
}

impl Request {
    /// The opcode byte of this request's frame.  The mapping is total over
    /// the variant set and lands in the six documented request opcodes.
    pub fn opcode(&self) -> (r: u8)
        ensures
            r == spec_opcode(*self),
            r == 0x01 || r == 0x05 || r == 0x07 || r == 0x09 || r == 0x0A || r == 0x0D,
    {
        match *self {
            Request::Startup(_) => 0x01,
            Request::Options => 0x05,
            Request::Query(_, _) | Request::PrmQuery(_, _, _) | Request::PrmQueryWithNames(
                _,
                _,
                _,
            ) | Request::PagedQuery(_, _, _, _) | Request::PagedPrmQuery(_, _, _, _, _)
                | Request::PagedPrmQueryWithNames(_, _, _, _, _) => 0x07,
            Request::Prepare(_) => 0x09,
            Request::Execute(_, _, _) | Request::PagedExecute(_, _, _, _, _) => 0x0A,
            Request::Batch(_, _) => 0x0D,
        }
    }
}

// ---------------------------------------------------------------------------
// Responses
// ---------------------------------------------------------------------------

/// The decoder's failure: the byte stream ended before the structure it
/// declares was complete.  Everything else degrades gracefully instead of
/// failing.
#[derive(Clone, Copy, Debug, PartialEq, Eq, Structural)]
pub enum DecodeError {
    UnexpectedEnd,
}

/// One decoded row: the column names of the result paired with the decoded
/// values, in the declared column order, names unique per result.
#[derive(Debug, PartialEq)]
pub struct Row {
    pub columns: Vec<(String, Column)>,
}

#[derive(Debug, PartialEq)]
pub enum ResultBody {
    Void,
    Rows(Vec<Row>, Option<Vec<u8>>),
    SetKeyspace(String),
    Prepared(Vec<u8>),
    SchemaChange(String, String, String),
}

#[derive(Debug, PartialEq)]
pub enum Response {
    Error(u32, String),
    Ready,
    Supported,
    Result(ResultBody),
    Authenticate(String),
    Unknown,
    Empty,
}

/// Ghost view of one row: (name, value) pairs in column order.
pub type RowV = Seq<(Seq<char>, ColumnV)>;

pub enum ResultBodyV {
    Void,
    Rows(Seq<RowV>, Option<Seq<u8>>),
    SetKeyspace(Seq<char>),
    Prepared(Seq<u8>),
    SchemaChange(Seq<char>, Seq<char>, Seq<char>),
}

pub enum ResponseV {
    Error(u32, Seq<char>),
    Ready,
    Supported,
    Result(ResultBodyV),
    Authenticate(Seq<char>),
    Unknown,
    Empty,
}

pub open spec fn named_cols_view(s: Seq<(String, Column)>) -> RowV
    decreases s,
{
    if s.len() == 0 {
        Seq::empty()
    } else {
        seq![(s[0].0@, col_view(s[0].1))] + named_cols_view(s.drop_first())
    }
}

pub open spec fn row_view(r: Row) -> RowV {
    named_cols_view(r.columns@)
}

pub open spec fn rows_view(s: Seq<Row>) -> Seq<RowV>
    decreases s,
{
    if s.len() == 0 {
        Seq::empty()
    } else {
        seq![row_view(s[0])] + rows_view(s.drop_first())
    }
}

pub open spec fn opt_bytes_view(o: Option<Vec<u8>>) -> Option<Seq<u8>> {
    match o {
        Option::Some(b) => Option::Some(b@),
        Option::None => Option::None,
    }
}

pub open spec fn result_body_view(b: ResultBody) -> ResultBodyV {
    match b {
        ResultBody::Void => ResultBodyV::Void,
        ResultBody::Rows(rows, paging) => ResultBodyV::Rows(rows_view(rows@), opt_bytes_view(paging)),
        ResultBody::SetKeyspace(s) => ResultBodyV::SetKeyspace(s@),
        ResultBody::Prepared(id) => ResultBodyV::Prepared(id@),
        ResultBody::SchemaChange(a, b, c) => ResultBodyV::SchemaChange(a@, b@, c@),
    }
}

pub open spec fn resp_view(r: Response) -> ResponseV {
    match r {
        Response::Error(code, msg) => ResponseV::Error(code, msg@),
        Response::Ready => ResponseV::Ready,
        Response::Supported => ResponseV::Supported,
        Response::Result(b) => ResponseV::Result(result_body_view(b)),
        Response::Authenticate(s) => ResponseV::Authenticate(s@),
        Response::Unknown => ResponseV::Unknown,
        Response::Empty => ResponseV::Empty,
    }
}

} // verus!
