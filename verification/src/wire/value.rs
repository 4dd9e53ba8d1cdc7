//! The values that cross the boundary, and their encoding.

use vstd::prelude::*;
use vstd::utf8::encode_utf8;
use crate::wire::bytes::be_bytes;
use crate::wire::bytes::unsigned_of;

verus! {

/// A value of a type of the interface.
///
/// A float is held as its bits, which is all that the wire format asks of
/// it. A timestamp is seconds since the epoch and nanoseconds, a duration
/// seconds and nanoseconds. A record holds its fields in their declared
/// order; a variant of an enum or of an error holds its number, counted from
/// one, and its fields; a map holds its entries in the order in which they
/// are walked.
#[derive(Debug, PartialEq, Eq)]
pub enum Value {
    UInt8(u8),
    Int8(i8),
    UInt16(u16),
    Int16(i16),
    UInt32(u32),
    Int32(i32),
    UInt64(u64),
    Int64(i64),
    Float32(u32),
    Float64(u64),
    Boolean(bool),
    String(String),
    Timestamp(i64, u32),
    Duration(u64, u32),
    Object(u64),
    CallbackInterface(u64),
    Optional(Option<Box<Value>>),
    Sequence(Vec<Value>),
    Mapping(Vec<(String, Value)>),
    Record(Vec<Value>),
    Variant(u32, Vec<Value>),
}

/// The mathematical value of a [`Value`].
pub enum ValueView {
    UInt8(u8),
    Int8(i8),
    UInt16(u16),
    Int16(i16),
    UInt32(u32),
    Int32(i32),
    UInt64(u64),
    Int64(i64),
    Float32(u32),
    Float64(u64),
    Boolean(bool),
    String(Seq<char>),
    Timestamp(i64, u32),
    Duration(u64, u32),
    Object(u64),
    CallbackInterface(u64),
    Optional(Option<Box<ValueView>>),
    Sequence(Seq<ValueView>),
    Mapping(Seq<(Seq<char>, ValueView)>),
    Record(Seq<ValueView>),
    Variant(u32, Seq<ValueView>),
}

/// The values of the items of a vector of values.
pub open spec fn value_views(items: Vec<Value>) -> Seq<ValueView>
    decreases items,
{
    Seq::new(
        items@.len(),
        |i: int|
            if 0 <= i < items@.len() {
                value_view(items@[i])
            } else {
                ValueView::Optional(None)
            },
    )
}

/// The values of the entries of a map.
pub open spec fn entry_views(entries: Vec<(String, Value)>) -> Seq<(Seq<char>, ValueView)>
    decreases entries,
{
    Seq::new(
        entries@.len(),
        |i: int|
            if 0 <= i < entries@.len() {
                (entries@[i].0@, value_view(entries@[i].1))
            } else {
                (Seq::empty(), ValueView::Optional(None))
            },
    )
}

/// The value of a value, by structural recursion.
pub open spec fn value_view(v: Value) -> ValueView
    decreases v,
{
    match v {
        Value::UInt8(n) => ValueView::UInt8(n),
        Value::Int8(n) => ValueView::Int8(n),
        Value::UInt16(n) => ValueView::UInt16(n),
        Value::Int16(n) => ValueView::Int16(n),
        Value::UInt32(n) => ValueView::UInt32(n),
        Value::Int32(n) => ValueView::Int32(n),
        Value::UInt64(n) => ValueView::UInt64(n),
        Value::Int64(n) => ValueView::Int64(n),
        Value::Float32(bits) => ValueView::Float32(bits),
        Value::Float64(bits) => ValueView::Float64(bits),
        Value::Boolean(b) => ValueView::Boolean(b),
        Value::String(s) => ValueView::String(s@),
        Value::Timestamp(seconds, nanos) => ValueView::Timestamp(seconds, nanos),
        Value::Duration(seconds, nanos) => ValueView::Duration(seconds, nanos),
        Value::Object(handle) => ValueView::Object(handle),
        Value::CallbackInterface(handle) => ValueView::CallbackInterface(handle),
        Value::Optional(None) => ValueView::Optional(None),
        Value::Optional(Some(inner)) => ValueView::Optional(Some(Box::new(value_view(*inner)))),
        Value::Sequence(items) => ValueView::Sequence(value_views(items)),
        Value::Mapping(entries) => ValueView::Mapping(entry_views(entries)),
        Value::Record(fields) => ValueView::Record(value_views(fields)),
        Value::Variant(index, fields) => ValueView::Variant(index, value_views(fields)),
    }
}

impl View for Value {
    type V = ValueView;

    open spec fn view(&self) -> ValueView {
        value_view(*self)
    }
}

/// The greatest count that four bytes hold on the foreign side, where every
/// count is a signed number.
pub const MAX_COUNT: u32 = 0x7fff_ffff;

/// A string on the wire: its UTF-8 bytes behind their count.
pub open spec fn string_encoding(s: Seq<char>) -> Seq<u8> {
    be_bytes(encode_utf8(s).len(), 4) + encode_utf8(s)
}

/// A value on the wire.
pub open spec fn encoding(v: ValueView) -> Seq<u8>
    decreases v,
{
    match v {
        ValueView::UInt8(n) => be_bytes(n as nat, 1),
        ValueView::Int8(n) => be_bytes(unsigned_of(n as int, 1), 1),
        ValueView::UInt16(n) => be_bytes(n as nat, 2),
        ValueView::Int16(n) => be_bytes(unsigned_of(n as int, 2), 2),
        ValueView::UInt32(n) => be_bytes(n as nat, 4),
        ValueView::Int32(n) => be_bytes(unsigned_of(n as int, 4), 4),
        ValueView::UInt64(n) => be_bytes(n as nat, 8),
        ValueView::Int64(n) => be_bytes(unsigned_of(n as int, 8), 8),
        ValueView::Float32(bits) => be_bytes(bits as nat, 4),
        ValueView::Float64(bits) => be_bytes(bits as nat, 8),
        ValueView::Boolean(b) => be_bytes(
            if b {
                1
            } else {
                0
            },
            1,
        ),
        ValueView::String(s) => string_encoding(s),
        ValueView::Timestamp(seconds, nanos) => be_bytes(unsigned_of(seconds as int, 8), 8)
            + be_bytes(nanos as nat, 4),
        ValueView::Duration(seconds, nanos) => be_bytes(seconds as nat, 8) + be_bytes(
            nanos as nat,
            4,
        ),
        ValueView::Object(handle) => be_bytes(handle as nat, 8),
        ValueView::CallbackInterface(handle) => be_bytes(handle as nat, 8),
        ValueView::Optional(None) => be_bytes(0, 1),
        ValueView::Optional(Some(inner)) => be_bytes(1, 1) + encoding(*inner),
        ValueView::Sequence(items) => be_bytes(items.len(), 4) + encode_all(items),
        ValueView::Mapping(entries) => be_bytes(entries.len(), 4) + encode_entries(entries),
        ValueView::Record(fields) => encode_all(fields),
        ValueView::Variant(index, fields) => be_bytes(index as nat, 4) + encode_all(fields),
    }
}

/// Values on the wire, one after the other.
pub open spec fn encode_all(items: Seq<ValueView>) -> Seq<u8>
    decreases items,
{
    if items.len() == 0 {
        Seq::empty()
    } else {
        encoding(items.first()) + encode_all(items.drop_first())
    }
}

/// The entries of a map on the wire: each key, as a string, before its value.
pub open spec fn encode_entries(entries: Seq<(Seq<char>, ValueView)>) -> Seq<u8>
    decreases entries,
{
    if entries.len() == 0 {
        Seq::empty()
    } else {
        string_encoding(entries.first().0) + encoding(entries.first().1) + encode_entries(
            entries.drop_first(),
        )
    }
}

/// Whether a value can be written: every count in it fits in four bytes as
/// a signed number, and every variant has a number from one on.
pub open spec fn encodable(v: ValueView) -> bool
    decreases v,
{
    match v {
        ValueView::String(s) => encode_utf8(s).len() <= MAX_COUNT,
        ValueView::Optional(Some(inner)) => encodable(*inner),
        ValueView::Sequence(items) => items.len() <= MAX_COUNT && all_encodable(items),
        ValueView::Mapping(entries) => entries.len() <= MAX_COUNT && entries_encodable(entries),
        ValueView::Record(fields) => all_encodable(fields),
        ValueView::Variant(index, fields) => 1 <= index <= MAX_COUNT && all_encodable(fields),
        _ => true,
    }
}

/// Whether each of the values can be written.
pub open spec fn all_encodable(items: Seq<ValueView>) -> bool
    decreases items,
{
    items.len() == 0 || (encodable(items.first()) && all_encodable(items.drop_first()))
}

/// Whether each key and each value of the entries can be written.
pub open spec fn entries_encodable(entries: Seq<(Seq<char>, ValueView)>) -> bool
    decreases entries,
{
    entries.len() == 0 || (encode_utf8(entries.first().0).len() <= MAX_COUNT && encodable(
        entries.first().1,
    ) && entries_encodable(entries.drop_first()))
}

/// How many levels of values a value has: one for itself, and as many more
/// as the deepest of the values that it holds.
pub open spec fn depth(v: ValueView) -> nat
    decreases v,
{
    match v {
        ValueView::Optional(Some(inner)) => depth(*inner) + 1,
        ValueView::Sequence(items) => max_depth(items) + 1,
        ValueView::Mapping(entries) => max_entry_depth(entries) + 1,
        ValueView::Record(fields) => max_depth(fields) + 1,
        ValueView::Variant(_, fields) => max_depth(fields) + 1,
        _ => 1,
    }
}

/// The levels of the deepest of the values.
pub open spec fn max_depth(items: Seq<ValueView>) -> nat
    decreases items,
{
    if items.len() == 0 {
        0
    } else {
        let first = depth(items.first());
        let rest = max_depth(items.drop_first());
        if first >= rest {
            first
        } else {
            rest
        }
    }
}

/// The levels of the deepest of the values of the entries.
pub open spec fn max_entry_depth(entries: Seq<(Seq<char>, ValueView)>) -> nat
    decreases entries,
{
    if entries.len() == 0 {
        0
    } else {
        let first = depth(entries.first().1);
        let rest = max_entry_depth(entries.drop_first());
        if first >= rest {
            first
        } else {
            rest
        }
    }
}

} // verus!
