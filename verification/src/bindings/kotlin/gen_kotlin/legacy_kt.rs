//! Kotlin text for a type, written straight from the shape of the type.
//!
//! These functions are what the handlers of the plain types fall back on.

use vstd::prelude::*;
use vstd::string::*;
use crate::bindings::backend::BindingsError;
use crate::bindings::backend::BindingsErrorView;
use crate::bindings::backend::rendered;
use crate::bindings::kotlin::gen_kotlin::camel_case;
use crate::bindings::kotlin::gen_kotlin::mixed_case;
use crate::bindings::kotlin::gen_kotlin::shouty_snake_case;
use crate::bindings::kotlin::gen_kotlin::to_camel_case;
use crate::bindings::kotlin::gen_kotlin::to_mixed_case;
use crate::bindings::kotlin::gen_kotlin::to_shouty_snake_case;
use crate::interface::literal::Literal;
use crate::interface::literal::LiteralView;
use crate::interface::literal::Radix;
use crate::interface::types::Type;
use crate::interface::types::TypeView;
use crate::numerals::decimal_i64;
use crate::numerals::decimal_text;
use crate::numerals::decimal_u64;
use crate::numerals::hex_i64;
use crate::numerals::hex_text;
use crate::numerals::hex_u64;

verus! {

/// The Kotlin name of a type.
pub open spec fn type_kt_spec(t: TypeView) -> Seq<char>
    decreases t,
{
    match t {
        TypeView::UInt8 => "UByte"@,
        TypeView::UInt16 => "UShort"@,
        TypeView::UInt32 => "UInt"@,
        TypeView::UInt64 => "ULong"@,
        TypeView::Int8 => "Byte"@,
        TypeView::Int16 => "Short"@,
        TypeView::Int32 => "Int"@,
        TypeView::Int64 => "Long"@,
        TypeView::Float32 => "Float"@,
        TypeView::Float64 => "Double"@,
        TypeView::Boolean => "Boolean"@,
        TypeView::String => "String"@,
        TypeView::Timestamp => "java.time.Instant"@,
        TypeView::Duration => "java.time.Duration"@,
        TypeView::Enum(name) => camel_case(name),
        TypeView::Record(name) => camel_case(name),
        TypeView::Object(name) => camel_case(name),
        TypeView::Error(name) => camel_case(name),
        TypeView::CallbackInterface(name) => camel_case(name),
        TypeView::Optional(t) => type_kt_spec(*t) + "?"@,
        TypeView::Sequence(t) => "List<"@ + type_kt_spec(*t) + ">"@,
        TypeView::Mapping(t) => "Map<String, "@ + type_kt_spec(*t) + ">"@,
    }
}

/// Whether values of the type are passed through helper functions that are
/// named after the type's canonical name, rather than through methods.
pub open spec fn uses_named_helpers(t: TypeView) -> bool {
    t is Optional || t is Sequence || t is Mapping || t is Timestamp || t is Duration
}

/// The expression that lowers the value named `nm`.
pub open spec fn lower_kt_spec(nm: Seq<char>, t: TypeView) -> Seq<char> {
    if t is CallbackInterface {
        camel_case(t.canonical_name()) + "Internals.lower("@ + mixed_case(nm) + ")"@
    } else if uses_named_helpers(t) {
        "lower"@ + camel_case(t.canonical_name()) + "("@ + mixed_case(nm) + ")"@
    } else {
        mixed_case(nm) + ".lower()"@
    }
}

/// The statement that writes the value named `nm` into `target`.
pub open spec fn write_kt_spec(nm: Seq<char>, target: Seq<char>, t: TypeView) -> Seq<char> {
    if t is CallbackInterface {
        camel_case(t.canonical_name()) + "Internals.write("@ + mixed_case(nm) + ", "@ + target
            + ")"@
    } else if uses_named_helpers(t) {
        "write"@ + camel_case(t.canonical_name()) + "("@ + mixed_case(nm) + ", "@ + target + ")"@
    } else {
        mixed_case(nm) + ".write("@ + target + ")"@
    }
}

/// The expression that lifts a value out of `nm`.
pub open spec fn lift_kt_spec(nm: Seq<char>, t: TypeView) -> Seq<char> {
    if t is CallbackInterface {
        camel_case(t.canonical_name()) + "Internals.lift("@ + nm + ")"@
    } else if uses_named_helpers(t) {
        "lift"@ + camel_case(t.canonical_name()) + "("@ + nm + ")"@
    } else {
        type_kt_spec(t) + ".lift("@ + nm + ")"@
    }
}

/// The expression that reads a value from the buffer `nm`.
pub open spec fn read_kt_spec(nm: Seq<char>, t: TypeView) -> Seq<char> {
    if t is CallbackInterface {
        camel_case(t.canonical_name()) + "Internals.read("@ + nm + ")"@
    } else if uses_named_helpers(t) {
        "read"@ + camel_case(t.canonical_name()) + "("@ + nm + ")"@
    } else {
        type_kt_spec(t) + ".read("@ + nm + ")"@
    }
}

/// A number with the suffix that Kotlin wants for its type: none where the
/// type can be inferred, `L` for 64 bits, `u` for unsigned, `f` for a
/// 32-bit float. A type that is no number has no such constant.
pub open spec fn typed_number_spec(t: TypeView, num: Seq<char>) -> Result<
    Seq<char>,
    BindingsErrorView,
> {
    match t {
        TypeView::Int8 | TypeView::Int16 | TypeView::Int32 => Ok(num),
        TypeView::Int64 => Ok(num + "L"@),
        TypeView::UInt8 | TypeView::UInt16 | TypeView::UInt32 => Ok(num + "u"@),
        TypeView::UInt64 => Ok(num + "uL"@),
        TypeView::Float32 => Ok(num + "f"@),
        TypeView::Float64 => Ok(num),
        _ => Err(BindingsErrorView::NotANumber(num)),
    }
}

/// An integer in the base it was written in. Kotlin has no octal constants,
/// so an octal number is written in hexadecimal, as a hexadecimal one is.
pub open spec fn integer_text(i: int, radix: Radix) -> Seq<char> {
    match radix {
        Radix::Decimal => decimal_text(i),
        Radix::Octal => hex_text(i),
        Radix::Hexadecimal => hex_text(i),
    }
}

/// The Kotlin constant for a literal.
pub open spec fn literal_kt_spec(literal: LiteralView) -> Result<Seq<char>, BindingsErrorView> {
    match literal {
        LiteralView::Boolean(v) => Ok(
            if v {
                "true"@
            } else {
                "false"@
            },
        ),
        LiteralView::String(s) => Ok("\""@ + s + "\""@),
        LiteralView::Null => Ok("null"@),
        LiteralView::EmptySequence => Ok("listOf()"@),
        LiteralView::EmptyMap => Ok("mapOf()"@),
        LiteralView::Enum(v, t) => Ok(type_kt_spec(t) + "."@ + shouty_snake_case(v)),
        LiteralView::Int(i, radix, t) => typed_number_spec(t, integer_text(i, radix)),
        LiteralView::UInt(i, radix, t) => typed_number_spec(t, integer_text(i, radix)),
        LiteralView::Float(s, t) => typed_number_spec(t, s),
    }
}

/// The Kotlin spelling of a class name (enums, records, errors and the like).
pub fn class_name_kt(nm: &str) -> (r: Result<String, BindingsError>)
    ensures
        rendered(r) == Ok::<Seq<char>, BindingsErrorView>(camel_case(nm@)),
{
    Ok(to_camel_case(nm))
}

/// The Kotlin spelling of a variable name.
pub fn var_name_kt(nm: &str) -> (r: Result<String, BindingsError>)
    ensures
        rendered(r) == Ok::<Seq<char>, BindingsErrorView>(mixed_case(nm@)),
{
    Ok(to_mixed_case(nm))
}

/// The Kotlin spelling of one variant of an enum.
pub fn enum_variant_kt(nm: &str) -> (r: Result<String, BindingsError>)
    ensures
        rendered(r) == Ok::<Seq<char>, BindingsErrorView>(shouty_snake_case(nm@)),
{
    Ok(to_shouty_snake_case(nm))
}

/// The Kotlin name of a type of the interface.
pub fn type_kt(type_: &Type) -> (r: Result<String, BindingsError>)
    ensures
        rendered(r) == Ok::<Seq<char>, BindingsErrorView>(type_kt_spec(type_@)),
    decreases type_,
{
    Ok(
        match type_ {
            Type::UInt8 => String::from_str("UByte"),
            Type::UInt16 => String::from_str("UShort"),
            Type::UInt32 => String::from_str("UInt"),
            Type::UInt64 => String::from_str("ULong"),
            Type::Int8 => String::from_str("Byte"),
            Type::Int16 => String::from_str("Short"),
            Type::Int32 => String::from_str("Int"),
            Type::Int64 => String::from_str("Long"),
            Type::Float32 => String::from_str("Float"),
            Type::Float64 => String::from_str("Double"),
            Type::Boolean => String::from_str("Boolean"),
            Type::String => String::from_str("String"),
            Type::Timestamp => String::from_str("java.time.Instant"),
            Type::Duration => String::from_str("java.time.Duration"),
            Type::Enum(name)
            | Type::Record(name)
            | Type::Object(name)
            | Type::Error(name)
            | Type::CallbackInterface(name) => class_name_kt(name.as_str())?,
            Type::Optional(t) => type_kt(t)?.concat("?"),
            Type::Sequence(t) => String::from_str("List<").concat(type_kt(t)?.as_str()).concat(
                ">",
            ),
            Type::Mapping(t) => String::from_str("Map<String, ").concat(
                type_kt(t)?.as_str(),
            ).concat(">"),
        },
    )
}

/// Whether values of the type are passed through named helper functions.
fn named_helpers(type_: &Type) -> (r: bool)
    ensures
        r == uses_named_helpers(type_@),
{
    match type_ {
        Type::Optional(_) | Type::Sequence(_) | Type::Mapping(_) | Type::Timestamp | Type::Duration => true,
        _ => false,
    }
}

/// Whether the type is a callback interface.
fn is_callback(type_: &Type) -> (r: bool)
    ensures
        r == (type_@ is CallbackInterface),
{
    match type_ {
        Type::CallbackInterface(_) => true,
        _ => false,
    }
}

/// A Kotlin expression that lowers a value into something that can be passed
/// across the boundary. Most types have a `lower()` method; compound types,
/// timestamps and durations go through a helper named after the type, and a
/// callback interface through its table of handles.
pub fn lower_kt(nm: &str, type_: &Type) -> (r: Result<String, BindingsError>)
    ensures
        rendered(r) == Ok::<Seq<char>, BindingsErrorView>(lower_kt_spec(nm@, type_@)),
{
    let nm = var_name_kt(nm)?;
    Ok(
        if is_callback(type_) {
            class_name_kt(type_.canonical_name().as_str())?.concat("Internals.lower(").concat(
                nm.as_str(),
            ).concat(")")
        } else if named_helpers(type_) {
            String::from_str("lower").concat(
                class_name_kt(type_.canonical_name().as_str())?.as_str(),
            ).concat("(").concat(nm.as_str()).concat(")")
        } else {
            nm.concat(".lower()")
        },
    )
}

/// A Kotlin statement that writes a value into a byte buffer.
pub fn write_kt(nm: &str, target: &str, type_: &Type) -> (r: Result<String, BindingsError>)
    ensures
        rendered(r) == Ok::<Seq<char>, BindingsErrorView>(write_kt_spec(nm@, target@, type_@)),
{
    let nm = var_name_kt(nm)?;
    Ok(
        if is_callback(type_) {
            class_name_kt(type_.canonical_name().as_str())?.concat("Internals.write(").concat(
                nm.as_str(),
            ).concat(", ").concat(target).concat(")")
        } else if named_helpers(type_) {
            String::from_str("write").concat(
                class_name_kt(type_.canonical_name().as_str())?.as_str(),
            ).concat("(").concat(nm.as_str()).concat(", ").concat(target).concat(")")
        } else {
            nm.concat(".write(").concat(target).concat(")")
        },
    )
}

/// A Kotlin expression that lifts a value from what came across the boundary.
pub fn lift_kt(nm: &str, type_: &Type) -> (r: Result<String, BindingsError>)
    ensures
        rendered(r) == Ok::<Seq<char>, BindingsErrorView>(lift_kt_spec(nm@, type_@)),
{
    Ok(
        if is_callback(type_) {
            class_name_kt(type_.canonical_name().as_str())?.concat("Internals.lift(").concat(
                nm,
            ).concat(")")
        } else if named_helpers(type_) {
            String::from_str("lift").concat(
                class_name_kt(type_.canonical_name().as_str())?.as_str(),
            ).concat("(").concat(nm).concat(")")
        } else {
            type_kt(type_)?.concat(".lift(").concat(nm).concat(")")
        },
    )
}

/// A Kotlin expression that reads a value from a byte buffer.
pub fn read_kt(nm: &str, type_: &Type) -> (r: Result<String, BindingsError>)
    ensures
        rendered(r) == Ok::<Seq<char>, BindingsErrorView>(read_kt_spec(nm@, type_@)),
{
    Ok(
        if is_callback(type_) {
            class_name_kt(type_.canonical_name().as_str())?.concat("Internals.read(").concat(
                nm,
            ).concat(")")
        } else if named_helpers(type_) {
            String::from_str("read").concat(
                class_name_kt(type_.canonical_name().as_str())?.as_str(),
            ).concat("(").concat(nm).concat(")")
        } else {
            type_kt(type_)?.concat(".read(").concat(nm).concat(")")
        },
    )
}

/// A number with the suffix of its type, or the error that says that the
/// type is no number.
pub fn typed_number(type_: &Type, num_str: String) -> (r: Result<String, BindingsError>)
    ensures
        rendered(r) == typed_number_spec(type_@, num_str@),
{
    match type_ {
        Type::Int8 | Type::Int16 | Type::Int32 => Ok(num_str),
        Type::Int64 => Ok(num_str.concat("L")),
        Type::UInt8 | Type::UInt16 | Type::UInt32 => Ok(num_str.concat("u")),
        Type::UInt64 => Ok(num_str.concat("uL")),
        Type::Float32 => Ok(num_str.concat("f")),
        Type::Float64 => Ok(num_str),
        _ => Err(BindingsError::NotANumber(num_str)),
    }
}

/// A signed integer in the base it was written in.
pub fn signed_text(i: i64, radix: Radix) -> (r: String)
    ensures
        r@ == integer_text(i as int, radix),
{
    match radix {
        Radix::Octal => hex_i64(i),
        Radix::Decimal => decimal_i64(i),
        Radix::Hexadecimal => hex_i64(i),
    }
}

/// An unsigned integer in the base it was written in.
pub fn unsigned_text(i: u64, radix: Radix) -> (r: String)
    ensures
        r@ == integer_text(i as int, radix),
{
    match radix {
        Radix::Octal => hex_u64(i),
        Radix::Decimal => decimal_u64(i),
        Radix::Hexadecimal => hex_u64(i),
    }
}

/// The Kotlin constant for a literal. It fails exactly when a number is
/// attached to a type that is no number.
pub fn literal_kt(literal: &Literal) -> (r: Result<String, BindingsError>)
    ensures
        rendered(r) == literal_kt_spec(literal@),
{
    match literal {
        Literal::Boolean(v) => Ok(
            if *v {
                String::from_str("true")
            } else {
                String::from_str("false")
            },
        ),
        Literal::String(s) => Ok(String::from_str("\"").concat(s.as_str()).concat("\"")),
        Literal::Null => Ok(String::from_str("null")),
        Literal::EmptySequence => Ok(String::from_str("listOf()")),
        Literal::EmptyMap => Ok(String::from_str("mapOf()")),
        Literal::Enum(v, type_) => Ok(
            type_kt(type_)?.concat(".").concat(enum_variant_kt(v.as_str())?.as_str()),
        ),
        Literal::Int(i, radix, type_) => typed_number(type_, signed_text(*i, *radix)),
        Literal::UInt(i, radix, type_) => typed_number(type_, unsigned_text(*i, *radix)),
        Literal::Float(string, type_) => typed_number(type_, string.clone()),
    }
}

} // verus!
