//! The functions that templates call on a type, a literal or a name.
//!
//! Each one finds the handler of the type and asks it; none of them fails
//! but the rendering of a literal that does not fit its type.

use vstd::prelude::*;
use crate::bindings::backend::BindingsError;
use crate::bindings::backend::BindingsErrorView;
use crate::bindings::backend::CodeType;
use crate::bindings::backend::LanguageOracle;
use crate::bindings::backend::rendered;
use crate::bindings::kotlin::gen_kotlin::camel_case;
use crate::bindings::kotlin::gen_kotlin::dispatch::helper_code_of;
use crate::bindings::kotlin::gen_kotlin::dispatch::lemma_find_agrees;
use crate::bindings::kotlin::gen_kotlin::dispatch::lift_of;
use crate::bindings::kotlin::gen_kotlin::dispatch::literal_of;
use crate::bindings::kotlin::gen_kotlin::dispatch::lower_of;
use crate::bindings::kotlin::gen_kotlin::dispatch::read_of;
use crate::bindings::kotlin::gen_kotlin::dispatch::type_label_of;
use crate::bindings::kotlin::gen_kotlin::dispatch::write_of;
use crate::bindings::kotlin::gen_kotlin::exception_name_of;
use crate::bindings::kotlin::gen_kotlin::ffi_type_label_of;
use crate::bindings::kotlin::gen_kotlin::KotlinLanguageOracle;
use crate::bindings::kotlin::gen_kotlin::legacy_kt::literal_kt_spec;
use crate::bindings::kotlin::gen_kotlin::legacy_kt;
use crate::bindings::kotlin::gen_kotlin::mixed_case;
use crate::bindings::kotlin::gen_kotlin::shouty_snake_case;
use crate::interface::ffi::FFIType;
use crate::interface::literal::Literal;
use crate::interface::literal::LiteralView;
use crate::interface::types::Type;

verus! {

fn oracle() -> (r: KotlinLanguageOracle) {
    KotlinLanguageOracle
}

/// The constant for a literal. A literal that names its type is rendered by
/// the handler of that type; the others need no type.
pub open spec fn literal_filter_spec(literal: LiteralView) -> Result<Seq<char>, BindingsErrorView> {
    match literal {
        LiteralView::Enum(_, t) => literal_of(&KotlinLanguageOracle, literal, t),
        LiteralView::Int(_, _, t) => literal_of(&KotlinLanguageOracle, literal, t),
        LiteralView::UInt(_, _, t) => literal_of(&KotlinLanguageOracle, literal, t),
        LiteralView::Float(_, t) => literal_of(&KotlinLanguageOracle, literal, t),
        _ => literal_kt_spec(literal),
    }
}

/// The code that has to be emitted once for the type, if any.
pub fn helper_code(type_: &Type) -> (r: Result<Option<String>, BindingsError>)
    ensures
        r is Ok,
        r->Ok_0.deep_view() == helper_code_of(&KotlinLanguageOracle, type_@),
{
    let oracle = oracle();
    let handler = oracle.find(type_);
    proof {
        lemma_find_agrees(handler, &oracle);
    }
    Ok(handler.helper_code(&oracle))
}

/// The Kotlin name of the type.
pub fn type_kt(type_: &Type) -> (r: Result<String, BindingsError>)
    ensures
        rendered(r) == Ok::<Seq<char>, BindingsErrorView>(
            type_label_of(&KotlinLanguageOracle, type_@),
        ),
{
    let oracle = oracle();
    let handler = oracle.find(type_);
    proof {
        lemma_find_agrees(handler, &oracle);
    }
    Ok(handler.type_label(&oracle))
}

/// A Kotlin expression that lowers the value named `nm`.
pub fn lower_kt(nm: &str, type_: &Type) -> (r: Result<String, BindingsError>)
    ensures
        rendered(r) == Ok::<Seq<char>, BindingsErrorView>(
            lower_of(&KotlinLanguageOracle, nm@, type_@),
        ),
{
    let oracle = oracle();
    let handler = oracle.find(type_);
    proof {
        lemma_find_agrees(handler, &oracle);
    }
    Ok(handler.lower(&oracle, nm))
}

/// A Kotlin statement that writes the value named `nm` into `target`.
pub fn write_kt(nm: &str, target: &str, type_: &Type) -> (r: Result<String, BindingsError>)
    ensures
        rendered(r) == Ok::<Seq<char>, BindingsErrorView>(
            write_of(&KotlinLanguageOracle, nm@, target@, type_@),
        ),
{
    let oracle = oracle();
    let handler = oracle.find(type_);
    proof {
        lemma_find_agrees(handler, &oracle);
    }
    Ok(handler.write(&oracle, nm, target))
}

/// A Kotlin expression that lifts a value out of what `nm` received.
pub fn lift_kt(nm: &str, type_: &Type) -> (r: Result<String, BindingsError>)
    ensures
        rendered(r) == Ok::<Seq<char>, BindingsErrorView>(
            lift_of(&KotlinLanguageOracle, nm@, type_@),
        ),
{
    let oracle = oracle();
    let handler = oracle.find(type_);
    proof {
        lemma_find_agrees(handler, &oracle);
    }
    Ok(handler.lift(&oracle, nm))
}

/// The Kotlin constant for a literal, or the reason why there is none.
pub fn literal_kt(literal: &Literal) -> (r: Result<String, BindingsError>)
    ensures
        rendered(r) == literal_filter_spec(literal@),
{
    let type_ = match literal {
        Literal::Enum(_, type_) => type_,
        Literal::Int(_, _, type_) => type_,
        Literal::UInt(_, _, type_) => type_,
        Literal::Float(_, type_) => type_,
        _ => return legacy_kt::literal_kt(literal),
    };
    let oracle = oracle();
    let handler = oracle.find(type_);
    proof {
        lemma_find_agrees(handler, &oracle);
    }
    handler.literal(&oracle, literal)
}

/// A Kotlin expression that reads a value from the buffer `nm`.
pub fn read_kt(nm: &str, type_: &Type) -> (r: Result<String, BindingsError>)
    ensures
        rendered(r) == Ok::<Seq<char>, BindingsErrorView>(
            read_of(&KotlinLanguageOracle, nm@, type_@),
        ),
{
    let oracle = oracle();
    let handler = oracle.find(type_);
    proof {
        lemma_find_agrees(handler, &oracle);
    }
    Ok(handler.read(&oracle, nm))
}

/// The Kotlin type that carries a transport shape.
pub fn type_ffi(type_: &FFIType) -> (r: Result<String, BindingsError>)
    ensures
        rendered(r) == Ok::<Seq<char>, BindingsErrorView>(ffi_type_label_of(*type_)),
{
    Ok(oracle().ffi_type_label(type_))
}

/// The Kotlin spelling of a class name (enums, records, errors and the like).
pub fn class_name_kt(nm: &str) -> (r: Result<String, BindingsError>)
    ensures
        rendered(r) == Ok::<Seq<char>, BindingsErrorView>(camel_case(nm@)),
{
    Ok(oracle().class_name(nm))
}

/// The Kotlin spelling of a function name.
pub fn fn_name_kt(nm: &str) -> (r: Result<String, BindingsError>)
    ensures
        rendered(r) == Ok::<Seq<char>, BindingsErrorView>(mixed_case(nm@)),
{
    Ok(oracle().fn_name(nm))
}

/// The Kotlin spelling of a variable name.
pub fn var_name_kt(nm: &str) -> (r: Result<String, BindingsError>)
    ensures
        rendered(r) == Ok::<Seq<char>, BindingsErrorView>(mixed_case(nm@)),
{
    Ok(oracle().var_name(nm))
}

/// The Kotlin spelling of one variant of an enum.
pub fn enum_variant_kt(nm: &str) -> (r: Result<String, BindingsError>)
    ensures
        rendered(r) == Ok::<Seq<char>, BindingsErrorView>(shouty_snake_case(nm@)),
{
    Ok(oracle().enum_variant(nm))
}

/// The Kotlin name of an exception class: a trailing `Error` becomes
/// `Exception`, since Kotlin keeps `Error` for what cannot be recovered from.
pub fn exception_name_kt(nm: &str) -> (r: Result<String, BindingsError>)
    ensures
        rendered(r) == Ok::<Seq<char>, BindingsErrorView>(exception_name_of(nm@)),
{
    Ok(oracle().exception_name(nm))
}

} // verus!
