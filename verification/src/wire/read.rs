//! Reading values from a buffer.
//!
//! A value is read by its type: the type says how many bytes a number has,
//! which definition a record or a variant follows, and what a compound
//! holds. The reader enters no more levels of values than it is allowed,
//! so that no interface and no bytes can make it run without end.

use vstd::prelude::*;
use vstd::utf8::decode_utf8;
use vstd::utf8::encode_utf8;
use vstd::utf8::encode_utf8_decode_utf8;
use vstd::utf8::encode_utf8_valid_utf8;
use vstd::utf8::valid_utf8;
use crate::interface::component::ComponentInterface;
use crate::interface::component::ComponentInterfaceView;
use crate::interface::component::first_named;
use crate::interface::component::Kind;
use crate::interface::definitions::field_types;
use crate::interface::definitions::Variant;
use crate::interface::definitions::VariantView;
use crate::interface::definitions::views;
use crate::interface::types::Type;
use crate::interface::types::TypeView;
use crate::wire::bytes::be_value;
use crate::wire::bytes::get_be;
use crate::wire::bytes::lemma_be_value_bound;
use crate::wire::bytes::lemma_pow256_values;
use crate::wire::bytes::signed_of;
use crate::wire::value::entry_views;
use crate::wire::value::MAX_COUNT;
use crate::wire::value::Value;
use crate::wire::value::value_views;
use crate::wire::value::ValueView;
use crate::wire::write::WireError;

verus! {

/// The number at the front of the bytes, if there are `width` bytes.
pub open spec fn decode_number(bytes: Seq<u8>, width: nat) -> Result<nat, WireError> {
    if bytes.len() < width {
        Err(WireError::ShortBuffer)
    } else {
        Ok(be_value(bytes.take(width as int)))
    }
}

/// The count at the front of the bytes: a number of four bytes that is not
/// negative as a signed number.
pub open spec fn decode_count(bytes: Seq<u8>) -> Result<nat, WireError> {
    match decode_number(bytes, 4) {
        Err(e) => Err(e),
        Ok(n) => if n > MAX_COUNT {
            Err(WireError::InvalidLength)
        } else {
            Ok(n)
        },
    }
}

/// The string at the front of the bytes, and how many bytes it takes.
pub open spec fn decode_string(bytes: Seq<u8>) -> Result<(Seq<char>, nat), WireError> {
    match decode_count(bytes) {
        Err(e) => Err(e),
        Ok(n) => if bytes.len() < 4 + n {
            Err(WireError::ShortBuffer)
        } else if !valid_utf8(bytes.subrange(4, 4 + n as int)) {
            Err(WireError::InvalidUtf8)
        } else {
            Ok((decode_utf8(bytes.subrange(4, 4 + n as int)), 4 + n))
        },
    }
}

/// The types of the fields of the variant with the number `index`, counted
/// from one.
pub open spec fn variant_fields(variants: Seq<VariantView>, index: nat) -> Result<
    Seq<TypeView>,
    WireError,
> {
    if 1 <= index <= variants.len() {
        Ok(field_types(variants[index - 1].fields))
    } else {
        Err(WireError::InvalidDiscriminant)
    }
}

/// A value that was read, before `n` more bytes.
pub open spec fn after<T>(n: nat, r: Result<(T, nat), WireError>) -> Result<(T, nat), WireError> {
    match r {
        Ok((v, m)) => Ok((v, n + m)),
        Err(e) => Err(e),
    }
}

/// Values that were read, behind `items` that took `n` bytes.
pub open spec fn prepend<T>(items: Seq<T>, n: nat, r: Result<(Seq<T>, nat), WireError>) -> Result<
    (Seq<T>, nat),
    WireError,
> {
    match r {
        Ok((rest, m)) => Ok((items + rest, n + m)),
        Err(e) => Err(e),
    }
}

/// The value of type `t` at the front of the bytes, for a type whose values
/// hold no other values: a number, a boolean, a string, a timestamp, a
/// duration or a handle.
pub open spec fn decode_flat(t: TypeView, bytes: Seq<u8>) -> Result<(ValueView, nat), WireError> {
    match t {
        TypeView::UInt8 => match decode_number(bytes, 1) {
            Ok(n) => Ok((ValueView::UInt8(n as u8), 1)),
            Err(e) => Err(e),
        },
        TypeView::Int8 => match decode_number(bytes, 1) {
            Ok(n) => Ok((ValueView::Int8(signed_of(n, 1) as i8), 1)),
            Err(e) => Err(e),
        },
        TypeView::UInt16 => match decode_number(bytes, 2) {
            Ok(n) => Ok((ValueView::UInt16(n as u16), 2)),
            Err(e) => Err(e),
        },
        TypeView::Int16 => match decode_number(bytes, 2) {
            Ok(n) => Ok((ValueView::Int16(signed_of(n, 2) as i16), 2)),
            Err(e) => Err(e),
        },
        TypeView::UInt32 => match decode_number(bytes, 4) {
            Ok(n) => Ok((ValueView::UInt32(n as u32), 4)),
            Err(e) => Err(e),
        },
        TypeView::Int32 => match decode_number(bytes, 4) {
            Ok(n) => Ok((ValueView::Int32(signed_of(n, 4) as i32), 4)),
            Err(e) => Err(e),
        },
        TypeView::UInt64 => match decode_number(bytes, 8) {
            Ok(n) => Ok((ValueView::UInt64(n as u64), 8)),
            Err(e) => Err(e),
        },
        TypeView::Int64 => match decode_number(bytes, 8) {
            Ok(n) => Ok((ValueView::Int64(signed_of(n, 8) as i64), 8)),
            Err(e) => Err(e),
        },
        TypeView::Float32 => match decode_number(bytes, 4) {
            Ok(n) => Ok((ValueView::Float32(n as u32), 4)),
            Err(e) => Err(e),
        },
        TypeView::Float64 => match decode_number(bytes, 8) {
            Ok(n) => Ok((ValueView::Float64(n as u64), 8)),
            Err(e) => Err(e),
        },
        TypeView::Boolean => match decode_number(bytes, 1) {
            Ok(n) => Ok((ValueView::Boolean(n != 0), 1)),
            Err(e) => Err(e),
        },
        TypeView::String => match decode_string(bytes) {
            Ok((s, n)) => Ok((ValueView::String(s), n)),
            Err(e) => Err(e),
        },
        TypeView::Timestamp => match decode_number(bytes, 8) {
            Err(e) => Err(e),
            Ok(seconds) => match decode_number(bytes.skip(8), 4) {
                Err(e) => Err(e),
                Ok(nanos) => Ok(
                    (ValueView::Timestamp(signed_of(seconds, 8) as i64, nanos as u32), 12),
                ),
            },
        },
        TypeView::Duration => match decode_number(bytes, 8) {
            Err(e) => Err(e),
            Ok(seconds) => match decode_number(bytes.skip(8), 4) {
                Err(e) => Err(e),
                Ok(nanos) => Ok((ValueView::Duration(seconds as u64, nanos as u32), 12)),
            },
        },
        TypeView::Object(_) => match decode_number(bytes, 8) {
            Ok(n) => Ok((ValueView::Object(n as u64), 8)),
            Err(e) => Err(e),
        },
        TypeView::CallbackInterface(_) => match decode_number(bytes, 8) {
            Ok(n) => Ok((ValueView::CallbackInterface(n as u64), 8)),
            Err(e) => Err(e),
        },
        _ => Err(WireError::WrongShape),
    }
}

/// The value of type `t` at the front of the bytes, and how many bytes it
/// takes; or why there is none. The reader may enter `fuel` levels of
/// values.
pub open spec fn decode(ci: ComponentInterfaceView, t: TypeView, bytes: Seq<u8>, fuel: nat) -> Result<
    (ValueView, nat),
    WireError,
>
    decreases fuel, 0nat, 0nat,
{
    if fuel == 0 {
        Err(WireError::TooDeep)
    } else {
        match t {
            TypeView::Optional(inner) => match decode_number(bytes, 1) {
                Err(e) => Err(e),
                Ok(tag) => if tag == 0 {
                    Ok((ValueView::Optional(None), 1))
                } else {
                    match decode(ci, *inner, bytes.skip(1), (fuel - 1) as nat) {
                        Ok((v, n)) => Ok((ValueView::Optional(Some(Box::new(v))), 1 + n)),
                        Err(e) => Err(e),
                    }
                },
            },
            TypeView::Sequence(inner) => match decode_count(bytes) {
                Err(e) => Err(e),
                Ok(count) => match decode_many(
                    ci,
                    *inner,
                    bytes.skip(4),
                    count,
                    (fuel - 1) as nat,
                ) {
                    Ok((items, n)) => Ok((ValueView::Sequence(items), 4 + n)),
                    Err(e) => Err(e),
                },
            },
            TypeView::Mapping(inner) => match decode_count(bytes) {
                Err(e) => Err(e),
                Ok(count) => match decode_entries(
                    ci,
                    *inner,
                    bytes.skip(4),
                    count,
                    (fuel - 1) as nat,
                ) {
                    Ok((entries, n)) => Ok((ValueView::Mapping(entries), 4 + n)),
                    Err(e) => Err(e),
                },
            },
            TypeView::Record(name) => match first_named(ci.names(Kind::Record), name) {
                None => Err(WireError::UnknownDefinition),
                Some(k) => match decode_fields(
                    ci,
                    field_types(ci.records[k].fields),
                    bytes,
                    (fuel - 1) as nat,
                ) {
                    Ok((fields, n)) => Ok((ValueView::Record(fields), n)),
                    Err(e) => Err(e),
                },
            },
            TypeView::Enum(name) => match first_named(ci.names(Kind::Enum), name) {
                None => Err(WireError::UnknownDefinition),
                Some(k) => decode_variant(ci, ci.enums[k].variants, bytes, (fuel - 1) as nat),
            },
            TypeView::Error(name) => match first_named(ci.names(Kind::Error), name) {
                None => Err(WireError::UnknownDefinition),
                Some(k) => decode_variant(ci, ci.errors[k].variants, bytes, (fuel - 1) as nat),
            },
            _ => decode_flat(t, bytes),
        }
    }
}

/// The variant at the front of the bytes: its number, then its fields.
pub open spec fn decode_variant(
    ci: ComponentInterfaceView,
    variants: Seq<VariantView>,
    bytes: Seq<u8>,
    fuel: nat,
) -> Result<(ValueView, nat), WireError>
    decreases fuel, 2nat, 0nat,
{
    match decode_number(bytes, 4) {
        Err(e) => Err(e),
        Ok(index) => match variant_fields(variants, index) {
            Err(e) => Err(e),
            Ok(types) => match decode_fields(ci, types, bytes.skip(4), fuel) {
                Ok((fields, n)) => Ok((ValueView::Variant(index as u32, fields), 4 + n)),
                Err(e) => Err(e),
            },
        },
    }
}

/// `count` values of type `t` at the front of the bytes, one after the
/// other.
pub open spec fn decode_many(
    ci: ComponentInterfaceView,
    t: TypeView,
    bytes: Seq<u8>,
    count: nat,
    fuel: nat,
) -> Result<(Seq<ValueView>, nat), WireError>
    decreases fuel, 1nat, count,
{
    if count == 0 {
        Ok((Seq::empty(), 0))
    } else {
        match decode(ci, t, bytes, fuel) {
            Err(e) => Err(e),
            Ok((v, n)) => prepend(
                seq![v],
                n,
                decode_many(ci, t, bytes.skip(n as int), (count - 1) as nat, fuel),
            ),
        }
    }
}

/// `count` entries of a map at the front of the bytes: each a string and a
/// value of type `t`.
pub open spec fn decode_entries(
    ci: ComponentInterfaceView,
    t: TypeView,
    bytes: Seq<u8>,
    count: nat,
    fuel: nat,
) -> Result<(Seq<(Seq<char>, ValueView)>, nat), WireError>
    decreases fuel, 1nat, count,
{
    if count == 0 {
        Ok((Seq::empty(), 0))
    } else {
        match decode_string(bytes) {
            Err(e) => Err(e),
            Ok((key, k)) => match decode(ci, t, bytes.skip(k as int), fuel) {
                Err(e) => Err(e),
                Ok((v, n)) => prepend(
                    seq![(key, v)],
                    k + n,
                    decode_entries(ci, t, bytes.skip((k + n) as int), (count - 1) as nat, fuel),
                ),
            },
        }
    }
}

/// Values of the given types at the front of the bytes, one after the
/// other.
pub open spec fn decode_fields(
    ci: ComponentInterfaceView,
    types: Seq<TypeView>,
    bytes: Seq<u8>,
    fuel: nat,
) -> Result<(Seq<ValueView>, nat), WireError>
    decreases fuel, 1nat, types.len(),
{
    if types.len() == 0 {
        Ok((Seq::empty(), 0))
    } else {
        match decode(ci, types.first(), bytes, fuel) {
            Err(e) => Err(e),
            Ok((v, n)) => prepend(
                seq![v],
                n,
                decode_fields(ci, types.drop_first(), bytes.skip(n as int), fuel),
            ),
        }
    }
}

/// Calls `String::from_utf8`. The standard library makes a string of the
/// bytes if they are UTF-8, and the string then has exactly those bytes;
/// it makes none if they are not.
#[verifier::external_body]
fn string_from_utf8(bytes: Vec<u8>) -> (r: Option<String>)
    ensures
        match r {
            Some(s) => encode_utf8(s@) == bytes@,
            None => !valid_utf8(bytes@),
        },
{
    match String::from_utf8(bytes) {
        Ok(s) => Some(s),
        Err(_) => None,
    }
}

/// Whether a read gave what was to be read from the bytes behind `pos`.
pub open spec fn reads(
    r: Result<(Value, usize), WireError>,
    pos: usize,
    expected: Result<(ValueView, nat), WireError>,
    len: usize,
) -> bool {
    match expected {
        Ok((v, n)) => r is Ok && r->Ok_0.0@ == v && r->Ok_0.1 == pos + n && pos + n <= len,
        Err(e) => r is Err && r->Err_0 == e,
    }
}

/// Whether a read gave the values that were to be read.
pub open spec fn reads_all(
    r: Result<(Vec<Value>, usize), WireError>,
    pos: usize,
    expected: Result<(Seq<ValueView>, nat), WireError>,
    len: usize,
) -> bool {
    match expected {
        Ok((items, n)) => r is Ok && value_views(r->Ok_0.0) == items && r->Ok_0.1 == pos + n && pos
            + n <= len,
        Err(e) => r is Err && r->Err_0 == e,
    }
}

/// Whether a read gave the entries that were to be read.
pub open spec fn reads_entries(
    r: Result<(Vec<(String, Value)>, usize), WireError>,
    pos: usize,
    expected: Result<(Seq<(Seq<char>, ValueView)>, nat), WireError>,
    len: usize,
) -> bool {
    match expected {
        Ok((entries, n)) => r is Ok && entry_views(r->Ok_0.0) == entries && r->Ok_0.1 == pos + n
            && pos + n <= len,
        Err(e) => r is Err && r->Err_0 == e,
    }
}

/// Reads a number of `width` bytes at `pos`.
fn get_number(buf: &Vec<u8>, pos: usize, width: usize) -> (r: Result<u64, WireError>)
    requires
        pos <= buf.len(),
        width == 1 || width == 2 || width == 4 || width == 8,
    ensures
        match decode_number(buf@.skip(pos as int), width as nat) {
            Ok(n) => r == Ok::<u64, WireError>(n as u64) && n <= u64::MAX && pos + width
                <= buf.len() && (width == 1 ==> n < 0x100) && (width == 2 ==> n < 0x1_0000) && (
            width == 4 ==> n < 0x1_0000_0000),
            Err(e) => r == Err::<u64, WireError>(e),
        },
{
    if buf.len() - pos < width {
        Err(WireError::ShortBuffer)
    } else {
        proof {
            let bytes = buf@.skip(pos as int).take(width as int);
            assert(bytes =~= buf@.subrange(pos as int, pos + width));
            lemma_be_value_bound(bytes);
            lemma_pow256_values();
        }
        Ok(get_be(buf, pos, width))
    }
}

/// Reads a count at `pos`.
fn get_count(buf: &Vec<u8>, pos: usize) -> (r: Result<usize, WireError>)
    requires
        pos <= buf.len(),
    ensures
        match decode_count(buf@.skip(pos as int)) {
            Ok(n) => r == Ok::<usize, WireError>(n as usize) && n <= MAX_COUNT && pos + 4
                <= buf.len(),
            Err(e) => r == Err::<usize, WireError>(e),
        },
{
    match get_number(buf, pos, 4) {
        Err(e) => Err(e),
        Ok(n) => if n > MAX_COUNT as u64 {
            Err(WireError::InvalidLength)
        } else {
            Ok(n as usize)
        },
    }
}

/// Copies the bytes from `from` up to `to`.
fn copy_range(buf: &Vec<u8>, from: usize, to: usize) -> (r: Vec<u8>)
    requires
        from <= to <= buf.len(),
    ensures
        r@ == buf@.subrange(from as int, to as int),
{
    let mut out: Vec<u8> = Vec::new();
    let mut i: usize = from;
    while i < to
        invariant
            from <= i <= to <= buf.len(),
            out@ == buf@.subrange(from as int, i as int),
        decreases to - i,
    {
        out.push(buf[i]);
        i += 1;
        assert(out@ =~= buf@.subrange(from as int, i as int));
    }
    out
}

/// Reads a string at `pos`.
fn get_string(buf: &Vec<u8>, pos: usize) -> (r: Result<(String, usize), WireError>)
    requires
        pos <= buf.len(),
    ensures
        match decode_string(buf@.skip(pos as int)) {
            Ok((s, n)) => r is Ok && r->Ok_0.0@ == s && r->Ok_0.1 == pos + n && pos + n
                <= buf.len(),
            Err(e) => r is Err && r->Err_0 == e,
        },
{
    let count = match get_count(buf, pos) {
        Err(e) => return Err(e),
        Ok(count) => count,
    };
    if buf.len() - (pos + 4) < count {
        return Err(WireError::ShortBuffer);
    }
    let body = copy_range(buf, pos + 4, pos + 4 + count);
    assert(body@ =~= buf@.skip(pos as int).subrange(4, 4 + count as int));
    match string_from_utf8(body) {
        None => Err(WireError::InvalidUtf8),
        Some(s) => {
            proof {
                encode_utf8_valid_utf8(s@);
                encode_utf8_decode_utf8(s@);
            }
            Ok((s, pos + 4 + count))
        },
    }
}

/// The signed number that a bit pattern of `width` bytes stands for.
fn signed_from(n: u64, width: usize) -> (r: i64)
    requires
        width == 1 || width == 2 || width == 4 || width == 8,
        width == 1 ==> n < 0x100,
        width == 2 ==> n < 0x1_0000,
        width == 4 ==> n < 0x1_0000_0000,
    ensures
        r == signed_of(n as nat, width as nat),
        width == 1 ==> -0x80 <= r < 0x80,
        width == 2 ==> -0x8000 <= r < 0x8000,
        width == 4 ==> -0x8000_0000 <= r < 0x8000_0000,
{
    proof {
        lemma_pow256_values();
    }
    if width == 1 {
        if n >= 0x80 {
            n as i64 - 0x100
        } else {
            n as i64
        }
    } else if width == 2 {
        if n >= 0x8000 {
            n as i64 - 0x1_0000
        } else {
            n as i64
        }
    } else if width == 4 {
        if n >= 0x8000_0000 {
            n as i64 - 0x1_0000_0000
        } else {
            n as i64
        }
    } else {
        if n >= 0x8000_0000_0000_0000 {
            ((n - 0x8000_0000_0000_0000) as i64) + i64::MIN
        } else {
            n as i64
        }
    }
}

/// Reads `count` values of type `t`, one after the other.
fn get_many(
    ci: &ComponentInterface,
    t: &Type,
    buf: &Vec<u8>,
    pos: usize,
    count: usize,
    depth: usize,
) -> (r: Result<(Vec<Value>, usize), WireError>)
    requires
        pos <= buf.len(),
    ensures
        reads_all(
            r,
            pos,
            decode_many(ci@, t@, buf@.skip(pos as int), count as nat, depth as nat),
            buf.len(),
        ),
    decreases depth, 1nat,
{
    let ghost whole = decode_many(ci@, t@, buf@.skip(pos as int), count as nat, depth as nat);
    let mut items: Vec<Value> = Vec::new();
    let mut at: usize = pos;
    let mut i: usize = 0;
    assert(Seq::<ValueView>::empty() + whole->Ok_0.0 =~= whole->Ok_0.0);
    while i < count
        invariant
            pos <= at <= buf.len(),
            i <= count,
            whole == decode_many(ci@, t@, buf@.skip(pos as int), count as nat, depth as nat),
            whole == prepend(
                value_views(items),
                (at - pos) as nat,
                decode_many(ci@, t@, buf@.skip(at as int), (count - i) as nat, depth as nat),
            ),
        decreases count - i,
    {
        let ghost before = value_views(items);
        let ghost rest = decode_many(
            ci@,
            t@,
            buf@.skip(at as int),
            (count - i) as nat,
            depth as nat,
        );
        match get(ci, t, buf, at, depth) {
            Err(e) => {
                return Err(e);
            },
            Ok((v, next)) => {
                proof {
                    assert(buf@.skip(at as int).skip(next - at) =~= buf@.skip(next as int));
                    let tail = decode_many(
                        ci@,
                        t@,
                        buf@.skip(next as int),
                        (count - i - 1) as nat,
                        depth as nat,
                    );
                    assert(rest == prepend(seq![v@], (next - at) as nat, tail));
                    if tail is Ok {
                        assert(before + (seq![v@] + tail->Ok_0.0) =~= before.push(v@)
                            + tail->Ok_0.0);
                    }
                }
                items.push(v);
                assert(value_views(items) =~= before.push(v@));
                at = next;
                i += 1;
            },
        }
    }
    assert(value_views(items) + Seq::<ValueView>::empty() =~= value_views(items));
    Ok((items, at))
}

/// Reads values of the given types, one after the other.
fn get_fields(
    ci: &ComponentInterface,
    types: &Vec<Type>,
    buf: &Vec<u8>,
    pos: usize,
    depth: usize,
) -> (r: Result<(Vec<Value>, usize), WireError>)
    requires
        pos <= buf.len(),
    ensures
        reads_all(
            r,
            pos,
            decode_fields(ci@, views(types@), buf@.skip(pos as int), depth as nat),
            buf.len(),
        ),
    decreases depth, 1nat,
{
    let ghost all = views(types@);
    let ghost whole = decode_fields(ci@, all, buf@.skip(pos as int), depth as nat);
    let mut items: Vec<Value> = Vec::new();
    let mut at: usize = pos;
    let mut i: usize = 0;
    assert(Seq::<ValueView>::empty() + whole->Ok_0.0 =~= whole->Ok_0.0);
    assert(all.skip(0) =~= all);
    while i < types.len()
        invariant
            pos <= at <= buf.len(),
            i <= types.len(),
            all == views(types@),
            whole == decode_fields(ci@, all, buf@.skip(pos as int), depth as nat),
            whole == prepend(
                value_views(items),
                (at - pos) as nat,
                decode_fields(ci@, all.skip(i as int), buf@.skip(at as int), depth as nat),
            ),
        decreases types.len() - i,
    {
        let ghost before = value_views(items);
        let ghost rest = decode_fields(ci@, all.skip(i as int), buf@.skip(at as int), depth as nat);
        assert(all.skip(i as int).first() == types[i as int]@);
        assert(all.skip(i as int).drop_first() =~= all.skip(i + 1));
        match get(ci, &types[i], buf, at, depth) {
            Err(e) => {
                return Err(e);
            },
            Ok((v, next)) => {
                proof {
                    assert(buf@.skip(at as int).skip(next - at) =~= buf@.skip(next as int));
                    let tail = decode_fields(
                        ci@,
                        all.skip(i + 1),
                        buf@.skip(next as int),
                        depth as nat,
                    );
                    assert(rest == prepend(seq![v@], (next - at) as nat, tail));
                    if tail is Ok {
                        assert(before + (seq![v@] + tail->Ok_0.0) =~= before.push(v@)
                            + tail->Ok_0.0);
                    }
                }
                items.push(v);
                assert(value_views(items) =~= before.push(v@));
                at = next;
                i += 1;
            },
        }
    }
    assert(value_views(items) + Seq::<ValueView>::empty() =~= value_views(items));
    Ok((items, at))
}

/// Reads `count` entries of a map: each a string and a value of type `t`.
fn get_entries(
    ci: &ComponentInterface,
    t: &Type,
    buf: &Vec<u8>,
    pos: usize,
    count: usize,
    depth: usize,
) -> (r: Result<(Vec<(String, Value)>, usize), WireError>)
    requires
        pos <= buf.len(),
    ensures
        reads_entries(
            r,
            pos,
            decode_entries(ci@, t@, buf@.skip(pos as int), count as nat, depth as nat),
            buf.len(),
        ),
    decreases depth, 1nat,
{
    let ghost whole = decode_entries(ci@, t@, buf@.skip(pos as int), count as nat, depth as nat);
    let mut entries: Vec<(String, Value)> = Vec::new();
    let mut at: usize = pos;
    let mut i: usize = 0;
    assert(Seq::<(Seq<char>, ValueView)>::empty() + whole->Ok_0.0 =~= whole->Ok_0.0);
    while i < count
        invariant
            pos <= at <= buf.len(),
            i <= count,
            whole == decode_entries(ci@, t@, buf@.skip(pos as int), count as nat, depth as nat),
            whole == prepend(
                entry_views(entries),
                (at - pos) as nat,
                decode_entries(ci@, t@, buf@.skip(at as int), (count - i) as nat, depth as nat),
            ),
        decreases count - i,
    {
        let ghost before = entry_views(entries);
        let ghost rest = decode_entries(
            ci@,
            t@,
            buf@.skip(at as int),
            (count - i) as nat,
            depth as nat,
        );
        let (key, middle) = match get_string(buf, at) {
            Err(e) => {
                return Err(e);
            },
            Ok(read) => read,
        };
        assert(buf@.skip(at as int).skip(middle - at) =~= buf@.skip(middle as int));
        match get(ci, t, buf, middle, depth) {
            Err(e) => {
                return Err(e);
            },
            Ok((v, next)) => {
                proof {
                    assert(buf@.skip(at as int).skip(next - at) =~= buf@.skip(next as int));
                    let tail = decode_entries(
                        ci@,
                        t@,
                        buf@.skip(next as int),
                        (count - i - 1) as nat,
                        depth as nat,
                    );
                    assert(rest == prepend(seq![(key@, v@)], (next - at) as nat, tail));
                    if tail is Ok {
                        assert(before + (seq![(key@, v@)] + tail->Ok_0.0) =~= before.push(
                            (key@, v@),
                        ) + tail->Ok_0.0);
                    }
                }
                entries.push((key, v));
                assert(entry_views(entries) =~= before.push((key@, v@)));
                at = next;
                i += 1;
            },
        }
    }
    assert(entry_views(entries) + Seq::<(Seq<char>, ValueView)>::empty() =~= entry_views(entries));
    Ok((entries, at))
}

/// Reads a variant: its number, then its fields.
fn get_variant(
    ci: &ComponentInterface,
    variants: &Vec<Variant>,
    buf: &Vec<u8>,
    pos: usize,
    depth: usize,
) -> (r: Result<(Value, usize), WireError>)
    requires
        pos <= buf.len(),
    ensures
        reads(
            r,
            pos,
            decode_variant(ci@, views(variants@), buf@.skip(pos as int), depth as nat),
            buf.len(),
        ),
    decreases depth, 2nat,
{
    let index = match get_number(buf, pos, 4) {
        Err(e) => return Err(e),
        Ok(index) => index,
    };
    if index < 1 || index > variants.len() as u64 {
        return Err(WireError::InvalidDiscriminant);
    }
    let types = variants[(index - 1) as usize].iter_types();
    assert(buf@.skip(pos as int).skip(4) =~= buf@.skip(pos + 4));
    match get_fields(ci, &types, buf, pos + 4, depth) {
        Err(e) => Err(e),
        Ok((fields, next)) => Ok((Value::Variant(index as u32, fields), next)),
    }
}

/// Reads a value that holds no other values.
fn get_flat(t: &Type, buf: &Vec<u8>, pos: usize) -> (r: Result<(Value, usize), WireError>)
    requires
        pos <= buf.len(),
    ensures
        reads(r, pos, decode_flat(t@, buf@.skip(pos as int)), buf.len()),
{
    match t {
        Type::UInt8 => match get_number(buf, pos, 1) {
            Ok(n) => Ok((Value::UInt8(n as u8), pos + 1)),
            Err(e) => Err(e),
        },
        Type::Int8 => match get_number(buf, pos, 1) {
            Ok(n) => Ok((Value::Int8(signed_from(n, 1) as i8), pos + 1)),
            Err(e) => Err(e),
        },
        Type::UInt16 => match get_number(buf, pos, 2) {
            Ok(n) => Ok((Value::UInt16(n as u16), pos + 2)),
            Err(e) => Err(e),
        },
        Type::Int16 => match get_number(buf, pos, 2) {
            Ok(n) => Ok((Value::Int16(signed_from(n, 2) as i16), pos + 2)),
            Err(e) => Err(e),
        },
        Type::UInt32 => match get_number(buf, pos, 4) {
            Ok(n) => Ok((Value::UInt32(n as u32), pos + 4)),
            Err(e) => Err(e),
        },
        Type::Int32 => match get_number(buf, pos, 4) {
            Ok(n) => Ok((Value::Int32(signed_from(n, 4) as i32), pos + 4)),
            Err(e) => Err(e),
        },
        Type::UInt64 => match get_number(buf, pos, 8) {
            Ok(n) => Ok((Value::UInt64(n), pos + 8)),
            Err(e) => Err(e),
        },
        Type::Int64 => match get_number(buf, pos, 8) {
            Ok(n) => Ok((Value::Int64(signed_from(n, 8)), pos + 8)),
            Err(e) => Err(e),
        },
        Type::Float32 => match get_number(buf, pos, 4) {
            Ok(n) => Ok((Value::Float32(n as u32), pos + 4)),
            Err(e) => Err(e),
        },
        Type::Float64 => match get_number(buf, pos, 8) {
            Ok(n) => Ok((Value::Float64(n), pos + 8)),
            Err(e) => Err(e),
        },
        Type::Boolean => match get_number(buf, pos, 1) {
            Ok(n) => Ok((Value::Boolean(n != 0), pos + 1)),
            Err(e) => Err(e),
        },
        Type::String => match get_string(buf, pos) {
            Ok((s, next)) => Ok((Value::String(s), next)),
            Err(e) => Err(e),
        },
        Type::Timestamp => match get_number(buf, pos, 8) {
            Err(e) => Err(e),
            Ok(seconds) => {
                assert(buf@.skip(pos as int).skip(8) =~= buf@.skip(pos + 8));
                match get_number(buf, pos + 8, 4) {
                    Err(e) => Err(e),
                    Ok(nanos) => Ok(
                        (Value::Timestamp(signed_from(seconds, 8), nanos as u32), pos + 12),
                    ),
                }
            },
        },
        Type::Duration => match get_number(buf, pos, 8) {
            Err(e) => Err(e),
            Ok(seconds) => {
                assert(buf@.skip(pos as int).skip(8) =~= buf@.skip(pos + 8));
                match get_number(buf, pos + 8, 4) {
                    Err(e) => Err(e),
                    Ok(nanos) => Ok((Value::Duration(seconds, nanos as u32), pos + 12)),
                }
            },
        },
        Type::Object(_) => match get_number(buf, pos, 8) {
            Ok(n) => Ok((Value::Object(n), pos + 8)),
            Err(e) => Err(e),
        },
        Type::CallbackInterface(_) => match get_number(buf, pos, 8) {
            Ok(n) => Ok((Value::CallbackInterface(n), pos + 8)),
            Err(e) => Err(e),
        },
        _ => Err(WireError::WrongShape),
    }
}

/// Reads a value of type `t` at `pos`.
fn get(ci: &ComponentInterface, t: &Type, buf: &Vec<u8>, pos: usize, depth: usize) -> (r: Result<
    (Value, usize),
    WireError,
>)
    requires
        pos <= buf.len(),
    ensures
        reads(r, pos, decode(ci@, t@, buf@.skip(pos as int), depth as nat), buf.len()),
    decreases depth, 0nat,
{
    if depth == 0 {
        return Err(WireError::TooDeep);
    }
    match t {
        Type::Optional(inner) => match get_number(buf, pos, 1) {
            Err(e) => Err(e),
            Ok(tag) => if tag == 0 {
                Ok((Value::Optional(None), pos + 1))
            } else {
                assert(buf@.skip(pos as int).skip(1) =~= buf@.skip(pos + 1));
                match get(ci, inner, buf, pos + 1, depth - 1) {
                    Ok((v, next)) => Ok((Value::Optional(Some(Box::new(v))), next)),
                    Err(e) => Err(e),
                }
            },
        },
        Type::Sequence(inner) => match get_count(buf, pos) {
            Err(e) => Err(e),
            Ok(count) => {
                assert(buf@.skip(pos as int).skip(4) =~= buf@.skip(pos + 4));
                match get_many(ci, inner, buf, pos + 4, count, depth - 1) {
                    Ok((items, next)) => Ok((Value::Sequence(items), next)),
                    Err(e) => Err(e),
                }
            },
        },
        Type::Mapping(inner) => match get_count(buf, pos) {
            Err(e) => Err(e),
            Ok(count) => {
                assert(buf@.skip(pos as int).skip(4) =~= buf@.skip(pos + 4));
                match get_entries(ci, inner, buf, pos + 4, count, depth - 1) {
                    Ok((entries, next)) => Ok((Value::Mapping(entries), next)),
                    Err(e) => Err(e),
                }
            },
        },
        Type::Record(name) => match ci.record_position(name) {
            None => Err(WireError::UnknownDefinition),
            Some(k) => {
                let types = ci.records[k].iter_types();
                match get_fields(ci, &types, buf, pos, depth - 1) {
                    Ok((fields, next)) => Ok((Value::Record(fields), next)),
                    Err(e) => Err(e),
                }
            },
        },
        Type::Enum(name) => match ci.enum_position(name) {
            None => Err(WireError::UnknownDefinition),
            Some(k) => get_variant(ci, &ci.enums[k].variants, buf, pos, depth - 1),
        },
        Type::Error(name) => match ci.error_position(name) {
            None => Err(WireError::UnknownDefinition),
            Some(k) => get_variant(ci, &ci.errors[k].variants, buf, pos, depth - 1),
        },
        _ => get_flat(t, buf, pos),
    }
}

/// Reads a value of a type from the buffer, at `pos`, and says where the
/// value ends. The reader enters at most `depth` levels of values. Nothing
/// is read behind the end of the value, and bytes that are no value of the
/// type are refused.
pub fn read(ci: &ComponentInterface, type_: &Type, buf: &Vec<u8>, pos: usize, depth: usize) -> (r:
    Result<(Value, usize), WireError>)
    ensures
        pos <= buf.len() ==> reads(
            r,
            pos,
            decode(ci@, type_@, buf@.skip(pos as int), depth as nat),
            buf.len(),
        ),
        pos > buf.len() ==> r is Err && r->Err_0 == WireError::ShortBuffer,
{
    if pos > buf.len() {
        Err(WireError::ShortBuffer)
    } else {
        get(ci, type_, buf, pos, depth)
    }
}

/// Reads values of the given types from the buffer, one after the other,
/// and says where the last one ends.
pub fn read_all(
    ci: &ComponentInterface,
    types: &Vec<Type>,
    buf: &Vec<u8>,
    pos: usize,
    depth: usize,
) -> (r: Result<(Vec<Value>, usize), WireError>)
    ensures
        pos <= buf.len() ==> reads_all(
            r,
            pos,
            decode_fields(ci@, views(types@), buf@.skip(pos as int), depth as nat),
            buf.len(),
        ),
        pos > buf.len() ==> r is Err && r->Err_0 == WireError::ShortBuffer,
{
    if pos > buf.len() {
        Err(WireError::ShortBuffer)
    } else {
        get_fields(ci, types, buf, pos, depth)
    }
}

} // verus!
