//! What every target language has to supply: an oracle that spells names,
//! and for each type a handler that writes the target's expressions for
//! passing a value of that type across the boundary.

use vstd::prelude::*;
use vstd::string::*;
use crate::interface::definitions::option_view;
use crate::interface::ffi::FFIType;
use crate::interface::literal::Literal;
use crate::interface::literal::LiteralView;
use crate::interface::types::Type;
use crate::interface::types::TypeView;

verus! {

pub type TypeIdentifier = Type;

pub type StringReturn = String;

/// Why a piece of generated text could not be produced. Either one means
/// that the interface model contradicts itself, and generation stops.
#[derive(Debug)]
pub enum BindingsError {
    /// A number was attached to a type that is not numeric. Holds the text
    /// of the number.
    NotANumber(String),
    /// A literal was attached to a type that has no constant of that kind.
    /// Holds the kind of the literal.
    UnexpectedLiteral(String),
    /// Two types of the interface are filed under one canonical name, so
    /// that the helper code of the one would stand for the other. Holds the
    /// name.
    NameCollision(String),
    /// A value of a type would have to hold a value of the same type in
    /// itself, with no optional, sequence or map in between, and so would
    /// have no end. Holds the canonical name of the type.
    UnboundedType(String),
    /// Two different names of one scope are spelled alike in the bindings,
    /// so that the generated code would name two things alike. Holds the
    /// spelling.
    SpellingCollision(String),
    /// A name does not keep its spelling when what was spelled is spelled
    /// again, so that generated code could name one thing in two ways.
    /// Holds the name.
    UnstableSpelling(String),
}

/// The mathematical value of a [`BindingsError`].
pub enum BindingsErrorView {
    NotANumber(Seq<char>),
    UnexpectedLiteral(Seq<char>),
    NameCollision(Seq<char>),
    UnboundedType(Seq<char>),
    SpellingCollision(Seq<char>),
    UnstableSpelling(Seq<char>),
}

impl View for BindingsError {
    type V = BindingsErrorView;

    open spec fn view(&self) -> BindingsErrorView {
        match self {
            BindingsError::NotANumber(s) => BindingsErrorView::NotANumber(s@),
            BindingsError::UnexpectedLiteral(s) => BindingsErrorView::UnexpectedLiteral(s@),
            BindingsError::NameCollision(s) => BindingsErrorView::NameCollision(s@),
            BindingsError::UnboundedType(s) => BindingsErrorView::UnboundedType(s@),
            BindingsError::SpellingCollision(s) => BindingsErrorView::SpellingCollision(s@),
            BindingsError::UnstableSpelling(s) => BindingsErrorView::UnstableSpelling(s@),
        }
    }
}

/// What an error says to the one who reads it.
pub open spec fn message_of(e: BindingsErrorView) -> Seq<char> {
    match e {
        BindingsErrorView::NotANumber(text) => "Unexpected literal: "@ + text
            + " is not a number"@,
        BindingsErrorView::UnexpectedLiteral(kind) => {
            "Unexpected literal: the type has no constant of the kind "@ + kind
        },
        BindingsErrorView::NameCollision(name) => {
            "Two different types come under the canonical name "@ + name
        },
        BindingsErrorView::UnboundedType(name) => "A value of the type "@ + name
            + " would have to hold a value of the same type in itself"@,
        BindingsErrorView::SpellingCollision(spelling) => {
            "Two different names of one scope are spelled "@ + spelling
        },
        BindingsErrorView::UnstableSpelling(name) => {
            "A name is spelled otherwise when its spelling is spelled again: "@ + name
        },
    }
}

impl BindingsError {
    /// What the error says, with the name of what it is about.
    pub fn message(&self) -> (r: String)
        ensures
            r@ == message_of(self@),
    {
        match self {
            BindingsError::NotANumber(text) => String::from_str("Unexpected literal: ").concat(
                text.as_str(),
            ).concat(" is not a number"),
            BindingsError::UnexpectedLiteral(kind) => String::from_str(
                "Unexpected literal: the type has no constant of the kind ",
            ).concat(kind.as_str()),
            BindingsError::NameCollision(name) => String::from_str(
                "Two different types come under the canonical name ",
            ).concat(name.as_str()),
            BindingsError::UnboundedType(name) => String::from_str(
                "A value of the type ",
            ).concat(name.as_str()).concat(
                " would have to hold a value of the same type in itself",
            ),
            BindingsError::SpellingCollision(spelling) => String::from_str(
                "Two different names of one scope are spelled ",
            ).concat(spelling.as_str()),
            BindingsError::UnstableSpelling(name) => String::from_str(
                "A name is spelled otherwise when its spelling is spelled again: ",
            ).concat(name.as_str()),
        }
    }
}

/// The value of a rendering that may fail.
pub open spec fn rendered(r: Result<String, BindingsError>) -> Result<Seq<char>, BindingsErrorView> {
    match r {
        Ok(s) => Ok(s@),
        Err(e) => Err(e@),
    }
}

/// Spells the names of an interface the way the target language writes them.
pub trait LanguageOracle {
    /// The spelling of a class name (enums, records, errors and the like).
    spec fn class_name_spec(&self, nm: Seq<char>) -> Seq<char>;

    /// The spelling of a function name.
    spec fn fn_name_spec(&self, nm: Seq<char>) -> Seq<char>;

    /// The spelling of a variable name.
    spec fn var_name_spec(&self, nm: Seq<char>) -> Seq<char>;

    /// The spelling of one variant of an enum.
    spec fn enum_variant_spec(&self, nm: Seq<char>) -> Seq<char>;

    /// The spelling of the name of an exception class.
    spec fn exception_name_spec(&self, nm: Seq<char>) -> Seq<char>;

    /// The target's name for a transport shape.
    spec fn ffi_type_label_spec(&self, ffi_type: FFIType) -> Seq<char>;

    fn class_name(&self, nm: &str) -> (r: String)
        ensures
            r@ == self.class_name_spec(nm@),
    ;

    fn fn_name(&self, nm: &str) -> (r: String)
        ensures
            r@ == self.fn_name_spec(nm@),
    ;

    fn var_name(&self, nm: &str) -> (r: String)
        ensures
            r@ == self.var_name_spec(nm@),
    ;

    fn enum_variant(&self, nm: &str) -> (r: String)
        ensures
            r@ == self.enum_variant_spec(nm@),
    ;

    fn exception_name(&self, nm: &str) -> (r: String)
        ensures
            r@ == self.exception_name_spec(nm@),
    ;

    fn ffi_type_label(&self, ffi_type: &FFIType) -> (r: String)
        ensures
            r@ == self.ffi_type_label_spec(*ffi_type),
    ;
}

/// The handler of one type: how the target language names the type, writes
/// a constant of it, and passes a value of it across the boundary.
///
/// Each operation has a specification function that says which text it
/// produces; the text depends on the handler, the oracle and the arguments
/// alone.
pub trait CodeType<O: LanguageOracle> {
    /// The target's name for the type.
    spec fn type_label_spec(&self, oracle: &O) -> Seq<char>;

    /// The name under which helper code for the type is filed.
    spec fn canonical_name_spec(&self, oracle: &O) -> Seq<char>;

    /// A constant of the type, or the reason why the literal is none.
    spec fn literal_spec(&self, oracle: &O, literal: LiteralView) -> Result<
        Seq<char>,
        BindingsErrorView,
    >;

    /// An expression that lowers the value named `nm` into something that
    /// can be passed across the boundary.
    spec fn lower_spec(&self, oracle: &O, nm: Seq<char>) -> Seq<char>;

    /// A statement that writes the value named `nm` into the buffer `target`.
    spec fn write_spec(&self, oracle: &O, nm: Seq<char>, target: Seq<char>) -> Seq<char>;

    /// An expression that lifts a value out of what `nm` received.
    spec fn lift_spec(&self, oracle: &O, nm: Seq<char>) -> Seq<char>;

    /// An expression that reads a value from the buffer `nm`.
    spec fn read_spec(&self, oracle: &O, nm: Seq<char>) -> Seq<char>;

    /// Code that has to be emitted once for the type, if any.
    spec fn helper_code_spec(&self, oracle: &O) -> Option<Seq<char>>;

    /// What the emitted code has to import, if anything.
    spec fn import_code_spec(&self, oracle: &O) -> Option<Seq<Seq<char>>>;

    fn type_label(&self, oracle: &O) -> (r: StringReturn)
        ensures
            r@ == self.type_label_spec(oracle),
    ;

    fn canonical_name(&self, oracle: &O) -> (r: StringReturn)
        ensures
            r@ == self.canonical_name_spec(oracle),
    ;

    fn literal(&self, oracle: &O, literal: &Literal) -> (r: Result<StringReturn, BindingsError>)
        ensures
            rendered(r) == self.literal_spec(oracle, literal@),
    ;

    fn lower(&self, oracle: &O, nm: &str) -> (r: StringReturn)
        ensures
            r@ == self.lower_spec(oracle, nm@),
    ;

    fn write(&self, oracle: &O, nm: &str, target: &str) -> (r: StringReturn)
        ensures
            r@ == self.write_spec(oracle, nm@, target@),
    ;

    fn lift(&self, oracle: &O, nm: &str) -> (r: StringReturn)
        ensures
            r@ == self.lift_spec(oracle, nm@),
    ;

    fn read(&self, oracle: &O, nm: &str) -> (r: StringReturn)
        ensures
            r@ == self.read_spec(oracle, nm@),
    ;

    fn helper_code(&self, oracle: &O) -> (r: Option<String>)
        ensures
            r.deep_view() == self.helper_code_spec(oracle),
    ;

    fn import_code(&self, oracle: &O) -> (r: Option<Vec<String>>)
        ensures
            r.deep_view() == self.import_code_spec(oracle),
    ;
}

/// A member of the generated bindings: a definition of the interface, or a
/// piece of runtime that the bindings carry.
///
/// The text of a member's definition is rendered from a template, outside
/// this library; a member says which template that is.
pub trait MemberDeclaration {
    /// The type that the member defines, if it defines one.
    spec fn type_identifier_spec(&self) -> Option<TypeView>;

    /// What the member has to import, if anything.
    spec fn import_code_spec(&self) -> Option<Seq<char>>;

    /// What has to run before the member is used, if anything.
    spec fn initialization_code_spec(&self) -> Option<Seq<char>>;

    /// The name of the template that renders the member, if there is
    /// anything to render.
    spec fn definition_template_spec(&self) -> Option<Seq<char>>;

    fn type_identifier(&self) -> (r: Option<TypeIdentifier>)
        ensures
            option_view(r) == self.type_identifier_spec(),
    ;

    fn import_code<O: LanguageOracle>(&self, oracle: &O) -> (r: Option<String>)
        ensures
            r.deep_view() == self.import_code_spec(),
    ;

    fn initialization_code<O: LanguageOracle>(&self, oracle: &O) -> (r: Option<String>)
        ensures
            r.deep_view() == self.initialization_code_spec(),
    ;

    fn definition_template(&self) -> (r: Option<&'static str>)
        ensures
            match r {
                Some(name) => self.definition_template_spec() == Some(name@),
                None => self.definition_template_spec() is None,
            },
    ;
}

} // verus!
