//! What is written is read back.

use vstd::prelude::*;
use vstd::utf8::encode_utf8;
use vstd::utf8::encode_utf8_decode_utf8;
use vstd::utf8::encode_utf8_valid_utf8;
use crate::interface::component::ComponentInterfaceView;
use crate::interface::component::first_named;
use crate::interface::component::Kind;
use crate::interface::definitions::field_types;
use crate::interface::definitions::VariantView;
use crate::interface::types::TypeView;
use crate::wire::bytes::be_bytes;
use crate::wire::bytes::lemma_be_bytes_len;
use crate::wire::bytes::lemma_be_round_trip;
use crate::wire::bytes::lemma_pow256_values;
use crate::wire::bytes::pow256;
use crate::wire::bytes::unsigned_of;
use crate::wire::read::decode;
use crate::wire::read::decode_entries;
use crate::wire::read::decode_fields;
use crate::wire::read::decode_many;
use crate::wire::read::decode_number;
use crate::wire::read::decode_string;
use crate::wire::read::decode_variant;
use crate::wire::value::all_encodable;
use crate::wire::value::depth;
use crate::wire::value::encodable;
use crate::wire::value::encode_all;
use crate::wire::value::encode_entries;
use crate::wire::value::encoding;
use crate::wire::value::entries_encodable;
use crate::wire::value::MAX_COUNT;
use crate::wire::value::max_depth;
use crate::wire::value::max_entry_depth;
use crate::wire::value::string_encoding;
use crate::wire::value::ValueView;
use crate::wire::write::WireError;

verus! {

/// Whether a value is a value of a type of the interface.
pub open spec fn conforms(ci: ComponentInterfaceView, v: ValueView, t: TypeView) -> bool
    decreases v,
{
    match (t, v) {
        (TypeView::UInt8, ValueView::UInt8(_)) => true,
        (TypeView::Int8, ValueView::Int8(_)) => true,
        (TypeView::UInt16, ValueView::UInt16(_)) => true,
        (TypeView::Int16, ValueView::Int16(_)) => true,
        (TypeView::UInt32, ValueView::UInt32(_)) => true,
        (TypeView::Int32, ValueView::Int32(_)) => true,
        (TypeView::UInt64, ValueView::UInt64(_)) => true,
        (TypeView::Int64, ValueView::Int64(_)) => true,
        (TypeView::Float32, ValueView::Float32(_)) => true,
        (TypeView::Float64, ValueView::Float64(_)) => true,
        (TypeView::Boolean, ValueView::Boolean(_)) => true,
        (TypeView::String, ValueView::String(_)) => true,
        (TypeView::Timestamp, ValueView::Timestamp(_, _)) => true,
        (TypeView::Duration, ValueView::Duration(_, _)) => true,
        (TypeView::Object(_), ValueView::Object(_)) => true,
        (TypeView::CallbackInterface(_), ValueView::CallbackInterface(_)) => true,
        (TypeView::Optional(_), ValueView::Optional(None)) => true,
        (TypeView::Optional(inner), ValueView::Optional(Some(x))) => conforms(ci, *x, *inner),
        (TypeView::Sequence(inner), ValueView::Sequence(items)) => all_conform(ci, items, *inner),
        (TypeView::Mapping(inner), ValueView::Mapping(entries)) => entries_conform(
            ci,
            entries,
            *inner,
        ),
        (TypeView::Record(name), ValueView::Record(fields)) => match first_named(
            ci.names(Kind::Record),
            name,
        ) {
            Some(k) => each_conforms(ci, fields, field_types(ci.records[k].fields)),
            None => false,
        },
        (TypeView::Enum(name), ValueView::Variant(index, fields)) => match first_named(
            ci.names(Kind::Enum),
            name,
        ) {
            Some(k) => 1 <= index <= ci.enums[k].variants.len() && each_conforms(
                ci,
                fields,
                field_types(ci.enums[k].variants[index - 1].fields),
            ),
            None => false,
        },
        (TypeView::Error(name), ValueView::Variant(index, fields)) => match first_named(
            ci.names(Kind::Error),
            name,
        ) {
            Some(k) => 1 <= index <= ci.errors[k].variants.len() && each_conforms(
                ci,
                fields,
                field_types(ci.errors[k].variants[index - 1].fields),
            ),
            None => false,
        },
        _ => false,
    }
}

/// Whether each of the values is a value of the type.
pub open spec fn all_conform(ci: ComponentInterfaceView, items: Seq<ValueView>, t: TypeView) -> bool
    decreases items,
{
    items.len() == 0 || (conforms(ci, items.first(), t) && all_conform(ci, items.drop_first(), t))
}

/// Whether the value of each entry is a value of the type.
pub open spec fn entries_conform(
    ci: ComponentInterfaceView,
    entries: Seq<(Seq<char>, ValueView)>,
    t: TypeView,
) -> bool
    decreases entries,
{
    entries.len() == 0 || (conforms(ci, entries.first().1, t) && entries_conform(
        ci,
        entries.drop_first(),
        t,
    ))
}

/// Whether there is one value for each type, and each is a value of its
/// type.
pub open spec fn each_conforms(
    ci: ComponentInterfaceView,
    items: Seq<ValueView>,
    types: Seq<TypeView>,
) -> bool
    decreases items,
{
    items.len() == types.len() && (items.len() == 0 || (conforms(ci, items.first(), types.first())
        && each_conforms(ci, items.drop_first(), types.drop_first())))
}

/// A number that fits in its width is read back, whatever follows it.
pub proof fn lemma_number_read_back(n: nat, width: nat, rest: Seq<u8>)
    requires
        n < pow256(width),
    ensures
        decode_number(be_bytes(n, width) + rest, width) == Ok::<nat, WireError>(n),
        be_bytes(n, width).len() == width,
        (be_bytes(n, width) + rest).skip(width as int) == rest,
{
    lemma_be_bytes_len(n, width);
    lemma_be_round_trip(n, width);
    assert((be_bytes(n, width) + rest).take(width as int) =~= be_bytes(n, width));
    assert((be_bytes(n, width) + rest).skip(width as int) =~= rest);
}

/// A string that can be written is read back, whatever follows it.
pub proof fn lemma_string_read_back(s: Seq<char>, rest: Seq<u8>)
    requires
        encode_utf8(s).len() <= MAX_COUNT,
    ensures
        decode_string(string_encoding(s) + rest) == Ok::<(Seq<char>, nat), WireError>(
            (s, string_encoding(s).len()),
        ),
        (string_encoding(s) + rest).skip(string_encoding(s).len() as int) == rest,
{
    let body = encode_utf8(s);
    let n = body.len();
    lemma_pow256_values();
    let bytes = string_encoding(s) + rest;
    assert(bytes =~= be_bytes(n, 4) + (body + rest));
    lemma_number_read_back(n, 4, body + rest);
    assert(bytes.subrange(4, 4 + n as int) =~= body);
    encode_utf8_valid_utf8(s);
    encode_utf8_decode_utf8(s);
    assert(bytes.skip(string_encoding(s).len() as int) =~= rest);
}

/// Whether a value holds no other value.
pub open spec fn is_flat(v: ValueView) -> bool {
    !(v is Optional || v is Sequence || v is Mapping || v is Record || v is Variant)
}

/// Read after write, for a value that holds no other value.
proof fn lemma_flat_read_back(
    ci: ComponentInterfaceView,
    t: TypeView,
    v: ValueView,
    rest: Seq<u8>,
    fuel: nat,
)
    requires
        conforms(ci, v, t),
        encodable(v),
        is_flat(v),
        fuel >= 1,
    ensures
        decode(ci, t, encoding(v) + rest, fuel) == Ok::<(ValueView, nat), WireError>(
            (v, encoding(v).len()),
        ),
{
    lemma_pow256_values();
    let bytes = encoding(v) + rest;
    match v {
        ValueView::UInt8(n) => {
            lemma_number_read_back(n as nat, 1, rest);
        },
        ValueView::Int8(n) => {
            lemma_number_read_back(unsigned_of(n as int, 1), 1, rest);
        },
        ValueView::UInt16(n) => {
            lemma_number_read_back(n as nat, 2, rest);
        },
        ValueView::Int16(n) => {
            lemma_number_read_back(unsigned_of(n as int, 2), 2, rest);
        },
        ValueView::UInt32(n) => {
            lemma_number_read_back(n as nat, 4, rest);
        },
        ValueView::Int32(n) => {
            lemma_number_read_back(unsigned_of(n as int, 4), 4, rest);
        },
        ValueView::UInt64(n) => {
            lemma_number_read_back(n as nat, 8, rest);
        },
        ValueView::Int64(n) => {
            lemma_number_read_back(unsigned_of(n as int, 8), 8, rest);
        },
        ValueView::Float32(bits) => {
            lemma_number_read_back(bits as nat, 4, rest);
        },
        ValueView::Float64(bits) => {
            lemma_number_read_back(bits as nat, 8, rest);
        },
        ValueView::Boolean(b) => {
            lemma_number_read_back(
                if b {
                    1
                } else {
                    0
                },
                1,
                rest,
            );
        },
        ValueView::String(s) => {
            lemma_string_read_back(s, rest);
        },
        ValueView::Timestamp(seconds, nanos) => {
            let first = be_bytes(unsigned_of(seconds as int, 8), 8);
            let second = be_bytes(nanos as nat, 4);
            assert(bytes =~= first + (second + rest));
            lemma_number_read_back(unsigned_of(seconds as int, 8), 8, second + rest);
            lemma_number_read_back(nanos as nat, 4, rest);
        },
        ValueView::Duration(seconds, nanos) => {
            let first = be_bytes(seconds as nat, 8);
            let second = be_bytes(nanos as nat, 4);
            assert(bytes =~= first + (second + rest));
            lemma_number_read_back(seconds as nat, 8, second + rest);
            lemma_number_read_back(nanos as nat, 4, rest);
        },
        ValueView::Object(handle) => {
            lemma_number_read_back(handle as nat, 8, rest);
        },
        ValueView::CallbackInterface(handle) => {
            lemma_number_read_back(handle as nat, 8, rest);
        },
        _ => {},
    }
}

/// Read after write for an optional value, given that of the value in it.
proof fn lemma_optional_read_back(
    ci: ComponentInterfaceView,
    inner: TypeView,
    v: ValueView,
    rest: Seq<u8>,
    fuel: nat,
)
    requires
        v is Optional,
        fuel >= 1,
        v->Optional_0 matches Some(x) ==> decode(
            ci,
            inner,
            encoding(*x) + rest,
            (fuel - 1) as nat,
        ) == Ok::<(ValueView, nat), WireError>((*x, encoding(*x).len())),
    ensures
        decode(ci, TypeView::Optional(Box::new(inner)), encoding(v) + rest, fuel) == Ok::<
            (ValueView, nat),
            WireError,
        >((v, encoding(v).len())),
{
    lemma_pow256_values();
    let bytes = encoding(v) + rest;
    match v->Optional_0 {
        None => {
            lemma_number_read_back(0, 1, rest);
        },
        Some(x) => {
            assert(bytes =~= be_bytes(1, 1) + (encoding(*x) + rest));
            lemma_number_read_back(1, 1, encoding(*x) + rest);
        },
    }
}

/// Read after write for a sequence, given that of its items.
proof fn lemma_sequence_read_back(
    ci: ComponentInterfaceView,
    inner: TypeView,
    items: Seq<ValueView>,
    rest: Seq<u8>,
    fuel: nat,
)
    requires
        fuel >= 1,
        items.len() <= MAX_COUNT,
        decode_many(ci, inner, encode_all(items) + rest, items.len(), (fuel - 1) as nat) == Ok::<
            (Seq<ValueView>, nat),
            WireError,
        >((items, encode_all(items).len())),
    ensures
        decode(
            ci,
            TypeView::Sequence(Box::new(inner)),
            encoding(ValueView::Sequence(items)) + rest,
            fuel,
        ) == Ok::<(ValueView, nat), WireError>(
            (ValueView::Sequence(items), encoding(ValueView::Sequence(items)).len()),
        ),
{
    lemma_pow256_values();
    let bytes = encoding(ValueView::Sequence(items)) + rest;
    assert(bytes =~= be_bytes(items.len(), 4) + (encode_all(items) + rest));
    lemma_number_read_back(items.len(), 4, encode_all(items) + rest);
}

/// Read after write for a map, given that of its entries.
proof fn lemma_mapping_read_back(
    ci: ComponentInterfaceView,
    inner: TypeView,
    entries: Seq<(Seq<char>, ValueView)>,
    rest: Seq<u8>,
    fuel: nat,
)
    requires
        fuel >= 1,
        entries.len() <= MAX_COUNT,
        decode_entries(
            ci,
            inner,
            encode_entries(entries) + rest,
            entries.len(),
            (fuel - 1) as nat,
        ) == Ok::<(Seq<(Seq<char>, ValueView)>, nat), WireError>(
            (entries, encode_entries(entries).len()),
        ),
    ensures
        decode(
            ci,
            TypeView::Mapping(Box::new(inner)),
            encoding(ValueView::Mapping(entries)) + rest,
            fuel,
        ) == Ok::<(ValueView, nat), WireError>(
            (ValueView::Mapping(entries), encoding(ValueView::Mapping(entries)).len()),
        ),
{
    lemma_pow256_values();
    let bytes = encoding(ValueView::Mapping(entries)) + rest;
    assert(bytes =~= be_bytes(entries.len(), 4) + (encode_entries(entries) + rest));
    lemma_number_read_back(entries.len(), 4, encode_entries(entries) + rest);
}

/// Read after write for a record, given that of its fields.
proof fn lemma_record_read_back(
    ci: ComponentInterfaceView,
    name: Seq<char>,
    fields: Seq<ValueView>,
    rest: Seq<u8>,
    fuel: nat,
)
    requires
        fuel >= 1,
        first_named(ci.names(Kind::Record), name) is Some,
        decode_fields(
            ci,
            field_types(ci.records[first_named(ci.names(Kind::Record), name).unwrap()].fields),
            encode_all(fields) + rest,
            (fuel - 1) as nat,
        ) == Ok::<(Seq<ValueView>, nat), WireError>((fields, encode_all(fields).len())),
    ensures
        decode(ci, TypeView::Record(name), encoding(ValueView::Record(fields)) + rest, fuel)
            == Ok::<(ValueView, nat), WireError>(
            (ValueView::Record(fields), encoding(ValueView::Record(fields)).len()),
        ),
{
}

/// Read after write for a variant, given that of its fields.
proof fn lemma_variant_read_back(
    ci: ComponentInterfaceView,
    variants: Seq<VariantView>,
    index: u32,
    fields: Seq<ValueView>,
    rest: Seq<u8>,
    fuel: nat,
)
    requires
        1 <= index <= variants.len(),
        decode_fields(
            ci,
            field_types(variants[index - 1].fields),
            encode_all(fields) + rest,
            fuel,
        ) == Ok::<(Seq<ValueView>, nat), WireError>((fields, encode_all(fields).len())),
    ensures
        decode_variant(ci, variants, encoding(ValueView::Variant(index, fields)) + rest, fuel)
            == Ok::<(ValueView, nat), WireError>(
            (
                ValueView::Variant(index, fields),
                encoding(ValueView::Variant(index, fields)).len(),
            ),
        ),
{
    lemma_pow256_values();
    let bytes = encoding(ValueView::Variant(index, fields)) + rest;
    assert(bytes =~= be_bytes(index as nat, 4) + (encode_all(fields) + rest));
    lemma_number_read_back(index as nat, 4, encode_all(fields) + rest);
}

/// What is read for an enum or an error is the variant that its bytes hold.
proof fn lemma_named_variant(
    ci: ComponentInterfaceView,
    t: TypeView,
    bytes: Seq<u8>,
    fuel: nat,
)
    requires
        fuel >= 1,
        t is Enum || t is Error,
    ensures
        t matches TypeView::Enum(name) ==> (first_named(ci.names(Kind::Enum), name) matches Some(
            k,
        ) ==> decode(ci, t, bytes, fuel) == decode_variant(
            ci,
            ci.enums[k].variants,
            bytes,
            (fuel - 1) as nat,
        )),
        t matches TypeView::Error(name) ==> (first_named(ci.names(Kind::Error), name) matches Some(
            k,
        ) ==> decode(ci, t, bytes, fuel) == decode_variant(
            ci,
            ci.errors[k].variants,
            bytes,
            (fuel - 1) as nat,
        )),
{
}

/// Read after write: a value of a type that was written is read back as it
/// was, whatever bytes follow it, and the reader stops where the value
/// ends. This holds of every type and of every value of the type that can
/// be written and has no more levels than the reader may enter.
pub proof fn lemma_read_after_write(
    ci: ComponentInterfaceView,
    t: TypeView,
    v: ValueView,
    rest: Seq<u8>,
    fuel: nat,
)
    requires
        conforms(ci, v, t),
        encodable(v),
        fuel >= depth(v),
    ensures
        decode(ci, t, encoding(v) + rest, fuel) == Ok::<(ValueView, nat), WireError>(
            (v, encoding(v).len()),
        ),
        (encoding(v) + rest).skip(encoding(v).len() as int) == rest,
    decreases v, 0nat,
{
    assert((encoding(v) + rest).skip(encoding(v).len() as int) =~= rest);
    match v {
        ValueView::Optional(None) => {
            lemma_optional_read_back(ci, *t->Optional_0, v, rest, fuel);
        },
        ValueView::Optional(Some(inner)) => {
            lemma_read_after_write(ci, *t->Optional_0, *inner, rest, (fuel - 1) as nat);
            lemma_optional_read_back(ci, *t->Optional_0, v, rest, fuel);
        },
        ValueView::Sequence(items) => {
            lemma_many_read_back(ci, *t->Sequence_0, items, rest, (fuel - 1) as nat);
            lemma_sequence_read_back(ci, *t->Sequence_0, items, rest, fuel);
        },
        ValueView::Mapping(entries) => {
            lemma_entries_read_back(ci, *t->Mapping_0, entries, rest, (fuel - 1) as nat);
            lemma_mapping_read_back(ci, *t->Mapping_0, entries, rest, fuel);
        },
        ValueView::Record(fields) => {
            let k = first_named(ci.names(Kind::Record), t->Record_0).unwrap();
            lemma_fields_read_back(
                ci,
                field_types(ci.records[k].fields),
                fields,
                rest,
                (fuel - 1) as nat,
            );
            lemma_record_read_back(ci, t->Record_0, fields, rest, fuel);
        },
        ValueView::Variant(index, fields) => {
            let variants = if t is Enum {
                ci.enums[first_named(ci.names(Kind::Enum), t->Enum_0).unwrap()].variants
            } else {
                ci.errors[first_named(ci.names(Kind::Error), t->Error_0).unwrap()].variants
            };
            lemma_fields_read_back(
                ci,
                field_types(variants[index - 1].fields),
                fields,
                rest,
                (fuel - 1) as nat,
            );
            lemma_variant_read_back(ci, variants, index, fields, rest, (fuel - 1) as nat);
            lemma_named_variant(ci, t, encoding(v) + rest, fuel);
        },
        _ => {
            lemma_flat_read_back(ci, t, v, rest, fuel);
        },
    }
}

/// Values of one type that were written one after the other are read back
/// in their order.
pub proof fn lemma_many_read_back(
    ci: ComponentInterfaceView,
    t: TypeView,
    items: Seq<ValueView>,
    rest: Seq<u8>,
    fuel: nat,
)
    requires
        all_conform(ci, items, t),
        all_encodable(items),
        fuel >= max_depth(items),
    ensures
        decode_many(ci, t, encode_all(items) + rest, items.len(), fuel) == Ok::<
            (Seq<ValueView>, nat),
            WireError,
        >((items, encode_all(items).len())),
        (encode_all(items) + rest).skip(encode_all(items).len() as int) == rest,
    decreases items, 1nat,
{
    let bytes = encode_all(items) + rest;
    assert(bytes.skip(encode_all(items).len() as int) =~= rest);
    if items.len() == 0 {
        assert(items =~= Seq::<ValueView>::empty());
    } else {
        let first = items.first();
        let tail = items.drop_first();
        let behind = encode_all(tail) + rest;
        assert(bytes =~= encoding(first) + behind);
        lemma_read_after_write(ci, t, first, behind, fuel);
        lemma_many_read_back(ci, t, tail, rest, fuel);
        let n = encoding(first).len();
        assert(decode(ci, t, bytes, fuel) == Ok::<(ValueView, nat), WireError>((first, n)));
        assert(bytes.skip(n as int) == behind);
        assert(decode_many(ci, t, behind, tail.len(), fuel) == Ok::<
            (Seq<ValueView>, nat),
            WireError,
        >((tail, encode_all(tail).len())));
        assert((items.len() - 1) as nat == tail.len());
        assert(seq![first] + tail =~= items);
        assert(encode_all(items).len() == n + encode_all(tail).len());
    }
}

/// Values of given types that were written one after the other are read
/// back in their order, and the reader stops where the last one ends.
pub proof fn lemma_fields_read_back(
    ci: ComponentInterfaceView,
    types: Seq<TypeView>,
    items: Seq<ValueView>,
    rest: Seq<u8>,
    fuel: nat,
)
    requires
        each_conforms(ci, items, types),
        all_encodable(items),
        fuel >= max_depth(items),
    ensures
        decode_fields(ci, types, encode_all(items) + rest, fuel) == Ok::<
            (Seq<ValueView>, nat),
            WireError,
        >((items, encode_all(items).len())),
        (encode_all(items) + rest).skip(encode_all(items).len() as int) == rest,
    decreases items, 1nat,
{
    let bytes = encode_all(items) + rest;
    assert(bytes.skip(encode_all(items).len() as int) =~= rest);
    if items.len() == 0 {
        assert(items =~= Seq::<ValueView>::empty());
    } else {
        let first = items.first();
        let tail = items.drop_first();
        let behind = encode_all(tail) + rest;
        assert(bytes =~= encoding(first) + behind);
        lemma_read_after_write(ci, types.first(), first, behind, fuel);
        lemma_fields_read_back(ci, types.drop_first(), tail, rest, fuel);
        let n = encoding(first).len();
        assert(decode(ci, types.first(), bytes, fuel) == Ok::<(ValueView, nat), WireError>(
            (first, n),
        ));
        assert(bytes.skip(n as int) == behind);
        assert(decode_fields(ci, types.drop_first(), behind, fuel) == Ok::<
            (Seq<ValueView>, nat),
            WireError,
        >((tail, encode_all(tail).len())));
        assert(seq![first] + tail =~= items);
        assert(encode_all(items).len() == n + encode_all(tail).len());
    }
}

/// The entries of a map that were written are read back in their order.
pub proof fn lemma_entries_read_back(
    ci: ComponentInterfaceView,
    t: TypeView,
    entries: Seq<(Seq<char>, ValueView)>,
    rest: Seq<u8>,
    fuel: nat,
)
    requires
        entries_conform(ci, entries, t),
        entries_encodable(entries),
        fuel >= max_entry_depth(entries),
    ensures
        decode_entries(ci, t, encode_entries(entries) + rest, entries.len(), fuel) == Ok::<
            (Seq<(Seq<char>, ValueView)>, nat),
            WireError,
        >((entries, encode_entries(entries).len())),
        (encode_entries(entries) + rest).skip(encode_entries(entries).len() as int) == rest,
    decreases entries, 1nat,
{
    let bytes = encode_entries(entries) + rest;
    assert(bytes.skip(encode_entries(entries).len() as int) =~= rest);
    if entries.len() == 0 {
        assert(entries =~= Seq::<(Seq<char>, ValueView)>::empty());
    } else {
        let key = entries.first().0;
        let value = entries.first().1;
        let tail = entries.drop_first();
        let behind = encode_entries(tail) + rest;
        let behind_key = encoding(value) + behind;
        assert(bytes =~= string_encoding(key) + behind_key);
        lemma_string_read_back(key, behind_key);
        lemma_read_after_write(ci, t, value, behind, fuel);
        lemma_entries_read_back(ci, t, tail, rest, fuel);
        let k = string_encoding(key).len();
        let n = encoding(value).len();
        assert(decode_string(bytes) == Ok::<(Seq<char>, nat), WireError>((key, k)));
        assert(bytes.skip(k as int) == behind_key);
        assert(decode(ci, t, behind_key, fuel) == Ok::<(ValueView, nat), WireError>((value, n)));
        assert(bytes.skip((k + n) as int) =~= behind_key.skip(n as int));
        assert(behind_key.skip(n as int) == behind);
        assert(decode_entries(ci, t, behind, tail.len(), fuel) == Ok::<
            (Seq<(Seq<char>, ValueView)>, nat),
            WireError,
        >((tail, encode_entries(tail).len())));
        assert((entries.len() - 1) as nat == tail.len());
        assert(seq![(key, value)] + tail =~= entries);
        assert(encode_entries(entries).len() == k + n + encode_entries(tail).len());
    }
}

/// A value that was written at a place in a buffer is read from that
/// place, whatever stands before it and behind it, and the reader ends
/// exactly where the writing ended: it takes neither fewer bytes nor more.
pub proof fn lemma_read_where_written(
    ci: ComponentInterfaceView,
    t: TypeView,
    v: ValueView,
    before: Seq<u8>,
    rest: Seq<u8>,
    fuel: nat,
)
    requires
        conforms(ci, v, t),
        encodable(v),
        fuel >= depth(v),
    ensures
        decode(ci, t, (before + encoding(v) + rest).skip(before.len() as int), fuel) == Ok::<
            (ValueView, nat),
            WireError,
        >((v, encoding(v).len())),
        before.len() + encoding(v).len() == (before + encoding(v)).len(),
{
    lemma_read_after_write(ci, t, v, rest, fuel);
    assert((before + encoding(v) + rest).skip(before.len() as int) =~= encoding(v) + rest);
}

/// Values that were written one after the other behind what a buffer held
/// are read back from there in the same order, each as it was, and the
/// reader ends at the end of the buffer.
pub proof fn lemma_read_all_where_written(
    ci: ComponentInterfaceView,
    types: Seq<TypeView>,
    items: Seq<ValueView>,
    before: Seq<u8>,
    fuel: nat,
)
    requires
        each_conforms(ci, items, types),
        all_encodable(items),
        fuel >= max_depth(items),
    ensures
        decode_fields(ci, types, (before + encode_all(items)).skip(before.len() as int), fuel)
            == Ok::<(Seq<ValueView>, nat), WireError>((items, encode_all(items).len())),
        before.len() + encode_all(items).len() == (before + encode_all(items)).len(),
{
    lemma_fields_read_back(ci, types, items, Seq::empty(), fuel);
    assert((before + encode_all(items)).skip(before.len() as int) =~= encode_all(items)
        + Seq::<u8>::empty());
}

/// The bytes of a value tell which value it is: two values of one type
/// that are written alike are the same value.
pub proof fn lemma_encoding_unambiguous(
    ci: ComponentInterfaceView,
    t: TypeView,
    a: ValueView,
    b: ValueView,
)
    requires
        conforms(ci, a, t),
        conforms(ci, b, t),
        encodable(a),
        encodable(b),
        encoding(a) == encoding(b),
    ensures
        a == b,
{
    let fuel = if depth(a) >= depth(b) {
        depth(a)
    } else {
        depth(b)
    };
    lemma_read_after_write(ci, t, a, Seq::empty(), fuel);
    lemma_read_after_write(ci, t, b, Seq::empty(), fuel);
}

} // verus!
