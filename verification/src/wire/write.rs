//! Writing values onto a buffer.

use vstd::prelude::*;
use vstd::string::*;
use vstd::utf8::encode_utf8;
use crate::wire::bytes::lemma_pow256_values;
use crate::wire::bytes::put_be;
use crate::wire::bytes::unsigned_of;
use crate::wire::value::all_encodable;
use crate::wire::value::encodable;
use crate::wire::value::encode_all;
use crate::wire::value::encode_entries;
use crate::wire::value::encoding;
use crate::wire::value::entries_encodable;
use crate::wire::value::entry_views;
use crate::wire::value::MAX_COUNT;
use crate::wire::value::string_encoding;
use crate::wire::value::Value;
use crate::wire::value::value_views;
use crate::wire::value::ValueView;

verus! {

/// Why a value could not be written or read.
#[derive(Clone, Copy, Debug, PartialEq, Eq, Structural)]
pub enum WireError {
    /// A count in the value does not fit in four bytes as a signed number,
    /// or a variant has the number zero.
    Unencodable,
    /// The bytes end before the value does.
    ShortBuffer,
    /// A count is negative.
    InvalidLength,
    /// The bytes of a string are not UTF-8.
    InvalidUtf8,
    /// The number of a variant is none of the variants of its definition.
    InvalidDiscriminant,
    /// The type names a definition that the interface does not declare.
    UnknownDefinition,
    /// The value has more levels than the reader may enter.
    TooDeep,
    /// Bytes are left over behind the value.
    TrailingBytes,
    /// The shape that came across the boundary is not the shape of the type.
    WrongShape,
}

/// Writing one more value adds its bytes at the end.
pub proof fn lemma_encode_all_push(items: Seq<ValueView>, item: ValueView)
    ensures
        encode_all(items.push(item)) == encode_all(items) + encoding(item),
    decreases items.len(),
{
    if items.len() == 0 {
        assert(items.push(item).drop_first() =~= Seq::<ValueView>::empty());
        assert(items.push(item).first() == item);
        assert(encode_all(items.push(item).drop_first()) =~= Seq::<u8>::empty());
        assert(encode_all(items) =~= Seq::<u8>::empty());
        assert(encode_all(items.push(item)) =~= encode_all(items) + encoding(item));
    } else {
        lemma_encode_all_push(items.drop_first(), item);
        assert(items.push(item).drop_first() =~= items.drop_first().push(item));
        assert(items.push(item).first() == items.first());
        assert(encode_all(items.push(item)) =~= encode_all(items) + encoding(item));
    }
}

/// Writing one more entry adds its key and its value at the end.
pub proof fn lemma_encode_entries_push(
    entries: Seq<(Seq<char>, ValueView)>,
    entry: (Seq<char>, ValueView),
)
    ensures
        encode_entries(entries.push(entry)) == encode_entries(entries) + string_encoding(entry.0)
            + encoding(entry.1),
    decreases entries.len(),
{
    if entries.len() == 0 {
        assert(entries.push(entry).drop_first() =~= Seq::<(Seq<char>, ValueView)>::empty());
        assert(entries.push(entry).first() == entry);
        assert(encode_entries(entries.push(entry).drop_first()) =~= Seq::<u8>::empty());
        assert(encode_entries(entries) =~= Seq::<u8>::empty());
        assert(encode_entries(entries.push(entry)) =~= encode_entries(entries) + string_encoding(
            entry.0,
        ) + encoding(entry.1));
    } else {
        lemma_encode_entries_push(entries.drop_first(), entry);
        assert(entries.push(entry).drop_first() =~= entries.drop_first().push(entry));
        assert(entries.push(entry).first() == entries.first());
        assert(encode_entries(entries.push(entry)) =~= encode_entries(entries) + string_encoding(
            entry.0,
        ) + encoding(entry.1));
    }
}

/// What can be written as a whole can be written item by item.
pub proof fn lemma_all_encodable_index(items: Seq<ValueView>, i: int)
    requires
        all_encodable(items),
        0 <= i < items.len(),
    ensures
        encodable(items[i]),
    decreases items.len(),
{
    if i > 0 {
        lemma_all_encodable_index(items.drop_first(), i - 1);
    }
}

/// What can be written item by item can be written as a whole.
pub proof fn lemma_all_encodable_from_items(items: Seq<ValueView>)
    requires
        forall|i: int| 0 <= i < items.len() ==> encodable(#[trigger] items[i]),
    ensures
        all_encodable(items),
    decreases items.len(),
{
    if items.len() > 0 {
        assert(encodable(items[0]));
        assert forall|i: int| 0 <= i < items.drop_first().len() implies encodable(
            #[trigger] items.drop_first()[i],
        ) by {
            assert(items.drop_first()[i] == items[i + 1]);
        }
        lemma_all_encodable_from_items(items.drop_first());
    }
}

/// Entries that can be written as a whole can be written one by one.
pub proof fn lemma_entries_encodable_index(entries: Seq<(Seq<char>, ValueView)>, i: int)
    requires
        entries_encodable(entries),
        0 <= i < entries.len(),
    ensures
        encode_utf8(entries[i].0).len() <= MAX_COUNT,
        encodable(entries[i].1),
    decreases entries.len(),
{
    if i > 0 {
        lemma_entries_encodable_index(entries.drop_first(), i - 1);
    }
}

/// Entries that can be written one by one can be written as a whole.
pub proof fn lemma_entries_encodable_from_items(entries: Seq<(Seq<char>, ValueView)>)
    requires
        forall|i: int|
            0 <= i < entries.len() ==> encode_utf8((#[trigger] entries[i]).0).len() <= MAX_COUNT
                && encodable(entries[i].1),
    ensures
        entries_encodable(entries),
    decreases entries.len(),
{
    if entries.len() > 0 {
        assert(encodable(entries[0].1));
        assert forall|i: int| 0 <= i < entries.drop_first().len() implies encode_utf8(
            (#[trigger] entries.drop_first()[i]).0,
        ).len() <= MAX_COUNT && encodable(entries.drop_first()[i].1) by {
            assert(entries.drop_first()[i] == entries[i + 1]);
        }
        lemma_entries_encodable_from_items(entries.drop_first());
    }
}

/// Whether a string can be written.
fn string_fits(s: &str) -> (r: bool)
    ensures
        r == (encode_utf8(s@).len() <= MAX_COUNT),
{
    s.as_bytes().len() <= MAX_COUNT as usize
}

/// Whether each of the values can be written.
fn all_fit(items: &Vec<Value>) -> (r: bool)
    ensures
        r == all_encodable(value_views(*items)),
    decreases items,
{
    let ghost views = value_views(*items);
    let mut i: usize = 0;
    while i < items.len()
        invariant
            i <= items.len(),
            views == value_views(*items),
            forall|k: int| 0 <= k < i ==> encodable(#[trigger] views[k]),
        decreases items.len() - i,
    {
        if !is_encodable(&items[i]) {
            proof {
                if all_encodable(views) {
                    lemma_all_encodable_index(views, i as int);
                }
            }
            return false;
        }
        i += 1;
    }
    proof {
        lemma_all_encodable_from_items(views);
    }
    true
}

/// Whether each key and each value of the entries can be written.
fn entries_fit(entries: &Vec<(String, Value)>) -> (r: bool)
    ensures
        r == entries_encodable(entry_views(*entries)),
    decreases entries,
{
    let ghost views = entry_views(*entries);
    let mut i: usize = 0;
    while i < entries.len()
        invariant
            i <= entries.len(),
            views == entry_views(*entries),
            forall|k: int|
                0 <= k < i ==> encode_utf8((#[trigger] views[k]).0).len() <= MAX_COUNT
                    && encodable(views[k].1),
        decreases entries.len() - i,
    {
        assert(views[i as int] == (entries[i as int].0@, entries[i as int].1@));
        assert(decreases_to!(*entries => entries[i as int]));
        assert(decreases_to!(entries[i as int] => entries[i as int].1));
        if !string_fits(entries[i].0.as_str()) || !is_encodable(&entries[i].1) {
            proof {
                if entries_encodable(views) {
                    lemma_entries_encodable_index(views, i as int);
                }
            }
            return false;
        }
        i += 1;
    }
    proof {
        lemma_entries_encodable_from_items(views);
    }
    true
}

/// Whether a value can be written: whether every count in it fits in four
/// bytes as a signed number, and every variant has a number from one on.
pub fn is_encodable(value: &Value) -> (r: bool)
    ensures
        r == encodable(value@),
    decreases value,
{
    match value {
        Value::String(s) => string_fits(s.as_str()),
        Value::Optional(Some(inner)) => is_encodable(inner),
        Value::Sequence(items) => items.len() <= MAX_COUNT as usize && all_fit(items),
        Value::Mapping(entries) => entries.len() <= MAX_COUNT as usize && entries_fit(entries),
        Value::Record(fields) => all_fit(fields),
        Value::Variant(index, fields) => 1 <= *index && *index <= MAX_COUNT && all_fit(fields),
        _ => true,
    }
}

/// The bit pattern of a signed number of up to eight bytes.
fn bits_of(i: i64, width: usize) -> (r: u64)
    requires
        width == 1 || width == 2 || width == 4 || width == 8,
        width == 1 ==> -0x80 <= i < 0x80,
        width == 2 ==> -0x8000 <= i < 0x8000,
        width == 4 ==> -0x8000_0000 <= i < 0x8000_0000,
    ensures
        r == unsigned_of(i as int, width as nat),
{
    proof {
        lemma_pow256_values();
    }
    if i >= 0 {
        i as u64
    } else if width == 1 {
        (i + 0x100) as u64
    } else if width == 2 {
        (i + 0x1_0000) as u64
    } else if width == 4 {
        (i + 0x1_0000_0000) as u64
    } else {
        ((i - i64::MIN) as u64) + 0x8000_0000_0000_0000u64
    }
}

/// Appends a string to the buffer: its UTF-8 bytes behind their count.
fn put_string(out: &mut Vec<u8>, s: &str)
    requires
        encode_utf8(s@).len() <= MAX_COUNT,
    ensures
        final(out)@ == old(out)@ + string_encoding(s@),
{
    let bytes = s.as_bytes();
    put_be(out, bytes.len() as u64, 4);
    out.extend_from_slice(bytes);
    assert(out@ =~= old(out)@ + string_encoding(s@));
}

/// Appends values to the buffer, one after the other.
fn put_all(out: &mut Vec<u8>, items: &Vec<Value>)
    requires
        all_encodable(value_views(*items)),
    ensures
        final(out)@ == old(out)@ + encode_all(value_views(*items)),
    decreases items,
{
    let ghost views = value_views(*items);
    let mut i: usize = 0;
    assert(old(out)@ + encode_all(views.take(0)) =~= old(out)@);
    while i < items.len()
        invariant
            i <= items.len(),
            views == value_views(*items),
            all_encodable(views),
            out@ == old(out)@ + encode_all(views.take(i as int)),
        decreases items.len() - i,
    {
        proof {
            lemma_all_encodable_index(views, i as int);
            lemma_encode_all_push(views.take(i as int), views[i as int]);
            assert(views.take(i + 1) =~= views.take(i as int).push(views[i as int]));
        }
        put(out, &items[i]);
        assert(out@ =~= old(out)@ + encode_all(views.take(i + 1)));
        i += 1;
    }
    assert(views.take(i as int) =~= views);
}

/// Appends the entries of a map to the buffer: each key before its value.
fn put_entries(out: &mut Vec<u8>, entries: &Vec<(String, Value)>)
    requires
        entries_encodable(entry_views(*entries)),
    ensures
        final(out)@ == old(out)@ + encode_entries(entry_views(*entries)),
    decreases entries,
{
    let ghost views = entry_views(*entries);
    let mut i: usize = 0;
    assert(old(out)@ + encode_entries(views.take(0)) =~= old(out)@);
    while i < entries.len()
        invariant
            i <= entries.len(),
            views == entry_views(*entries),
            entries_encodable(views),
            out@ == old(out)@ + encode_entries(views.take(i as int)),
        decreases entries.len() - i,
    {
        proof {
            lemma_entries_encodable_index(views, i as int);
            lemma_encode_entries_push(views.take(i as int), views[i as int]);
            assert(views.take(i + 1) =~= views.take(i as int).push(views[i as int]));
            assert(views[i as int] == (entries[i as int].0@, entries[i as int].1@));
            assert(decreases_to!(*entries => entries[i as int]));
            assert(decreases_to!(entries[i as int] => entries[i as int].1));
        }
        put_string(out, entries[i].0.as_str());
        put(out, &entries[i].1);
        assert(out@ =~= old(out)@ + encode_entries(views.take(i + 1)));
        i += 1;
    }
    assert(views.take(i as int) =~= views);
}

/// Appends a value that can be written to the buffer.
fn put(out: &mut Vec<u8>, value: &Value)
    requires
        encodable(value@),
    ensures
        final(out)@ == old(out)@ + encoding(value@),
    decreases value,
{
    match value {
        Value::UInt8(n) => put_be(out, *n as u64, 1),
        Value::Int8(n) => put_be(out, bits_of(*n as i64, 1), 1),
        Value::UInt16(n) => put_be(out, *n as u64, 2),
        Value::Int16(n) => put_be(out, bits_of(*n as i64, 2), 2),
        Value::UInt32(n) => put_be(out, *n as u64, 4),
        Value::Int32(n) => put_be(out, bits_of(*n as i64, 4), 4),
        Value::UInt64(n) => put_be(out, *n, 8),
        Value::Int64(n) => put_be(out, bits_of(*n, 8), 8),
        Value::Float32(bits) => put_be(out, *bits as u64, 4),
        Value::Float64(bits) => put_be(out, *bits, 8),
        Value::Boolean(b) => put_be(
            out,
            if *b {
                1
            } else {
                0
            },
            1,
        ),
        Value::String(s) => put_string(out, s.as_str()),
        Value::Timestamp(seconds, nanos) => {
            put_be(out, bits_of(*seconds, 8), 8);
            put_be(out, *nanos as u64, 4);
            assert(out@ =~= old(out)@ + encoding(value@));
        },
        Value::Duration(seconds, nanos) => {
            put_be(out, *seconds, 8);
            put_be(out, *nanos as u64, 4);
            assert(out@ =~= old(out)@ + encoding(value@));
        },
        Value::Object(handle) => put_be(out, *handle, 8),
        Value::CallbackInterface(handle) => put_be(out, *handle, 8),
        Value::Optional(None) => put_be(out, 0, 1),
        Value::Optional(Some(inner)) => {
            put_be(out, 1, 1);
            put(out, inner);
            assert(out@ =~= old(out)@ + encoding(value@));
        },
        Value::Sequence(items) => {
            put_be(out, items.len() as u64, 4);
            put_all(out, items);
            assert(out@ =~= old(out)@ + encoding(value@));
        },
        Value::Mapping(entries) => {
            put_be(out, entries.len() as u64, 4);
            put_entries(out, entries);
            assert(out@ =~= old(out)@ + encoding(value@));
        },
        Value::Record(fields) => put_all(out, fields),
        Value::Variant(index, fields) => {
            put_be(out, *index as u64, 4);
            put_all(out, fields);
            assert(out@ =~= old(out)@ + encoding(value@));
        },
    }
}

/// Writes a value onto the buffer. A value that cannot be written leaves
/// the buffer as it was.
pub fn write(value: &Value, out: &mut Vec<u8>) -> (r: Result<(), WireError>)
    ensures
        encodable(value@) ==> r is Ok && final(out)@ == old(out)@ + encoding(value@),
        !encodable(value@) ==> r == Err::<(), WireError>(WireError::Unencodable) && final(out)@
            == old(out)@,
{
    if is_encodable(value) {
        put(out, value);
        Ok(())
    } else {
        Err(WireError::Unencodable)
    }
}

/// Writes values onto the buffer, one after the other. If one of them
/// cannot be written, the buffer stays as it was.
pub fn write_all(values: &Vec<Value>, out: &mut Vec<u8>) -> (r: Result<(), WireError>)
    ensures
        all_encodable(value_views(*values)) ==> r is Ok && final(out)@ == old(out)@ + encode_all(
            value_views(*values),
        ),
        !all_encodable(value_views(*values)) ==> r == Err::<(), WireError>(
            WireError::Unencodable,
        ) && final(out)@ == old(out)@,
{
    if all_fit(values) {
        put_all(out, values);
        Ok(())
    } else {
        Err(WireError::Unencodable)
    }
}

} // verus!
