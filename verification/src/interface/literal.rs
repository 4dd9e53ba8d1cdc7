//! Typed constants: default values of fields and arguments.

use vstd::prelude::*;
use vstd::string::*;
use crate::interface::types::Type;
use crate::interface::types::TypeView;

verus! {

/// The base in which a numeric literal was written.
#[derive(Clone, Copy, Debug, PartialEq, Eq, Structural)]
pub enum Radix {
    Decimal,
    Octal,
    Hexadecimal,
}

/// A constant of the interface. A number carries the base it was written in
/// and the numeric type it is meant for; a float carries its text.
#[derive(Debug)]
pub enum Literal {
    Boolean(bool),
    String(String),
    Null,
    EmptySequence,
    EmptyMap,
    Enum(String, Type),
    Int(i64, Radix, Type),
    UInt(u64, Radix, Type),
    Float(String, Type),
}

/// The mathematical value of a [`Literal`].
pub enum LiteralView {
    Boolean(bool),
    String(Seq<char>),
    Null,
    EmptySequence,
    EmptyMap,
    Enum(Seq<char>, TypeView),
    Int(int, Radix, TypeView),
    UInt(int, Radix, TypeView),
    Float(Seq<char>, TypeView),
}

impl View for Literal {
    type V = LiteralView;

    open spec fn view(&self) -> LiteralView {
        match self {
            Literal::Boolean(b) => LiteralView::Boolean(*b),
            Literal::String(s) => LiteralView::String(s@),
            Literal::Null => LiteralView::Null,
            Literal::EmptySequence => LiteralView::EmptySequence,
            Literal::EmptyMap => LiteralView::EmptyMap,
            Literal::Enum(v, t) => LiteralView::Enum(v@, t@),
            Literal::Int(i, radix, t) => LiteralView::Int(*i as int, *radix, t@),
            Literal::UInt(i, radix, t) => LiteralView::UInt(*i as int, *radix, t@),
            Literal::Float(s, t) => LiteralView::Float(s@, t@),
        }
    }
}

impl LiteralView {
    /// The name of the literal's kind.
    pub open spec fn kind(self) -> Seq<char> {
        match self {
            LiteralView::Boolean(_) => "Boolean"@,
            LiteralView::String(_) => "String"@,
            LiteralView::Null => "Null"@,
            LiteralView::EmptySequence => "EmptySequence"@,
            LiteralView::EmptyMap => "EmptyMap"@,
            LiteralView::Enum(_, _) => "Enum"@,
            LiteralView::Int(_, _, _) => "Int"@,
            LiteralView::UInt(_, _, _) => "UInt"@,
            LiteralView::Float(_, _) => "Float"@,
        }
    }
}

impl Literal {
    /// The name of the literal's kind, for diagnostics.
    pub fn kind(&self) -> (r: String)
        ensures
            r@ == self@.kind(),
    {
        match self {
            Literal::Boolean(_) => String::from_str("Boolean"),
            Literal::String(_) => String::from_str("String"),
            Literal::Null => String::from_str("Null"),
            Literal::EmptySequence => String::from_str("EmptySequence"),
            Literal::EmptyMap => String::from_str("EmptyMap"),
            Literal::Enum(_, _) => String::from_str("Enum"),
            Literal::Int(_, _, _) => String::from_str("Int"),
            Literal::UInt(_, _, _) => String::from_str("UInt"),
            Literal::Float(_, _) => String::from_str("Float"),
        }
    }
}

} // verus!
