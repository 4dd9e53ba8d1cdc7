//! The plain handler: the types that need no handler of their own.

use vstd::prelude::*;
use vstd::string::*;
use crate::bindings::backend::BindingsError;
use crate::bindings::backend::BindingsErrorView;
use crate::bindings::backend::CodeType;
use crate::bindings::backend::LanguageOracle;
use crate::bindings::backend::StringReturn;
use crate::bindings::backend::TypeIdentifier;
use crate::bindings::kotlin::gen_kotlin::legacy_kt::lift_kt_spec;
use crate::bindings::kotlin::gen_kotlin::legacy_kt::literal_kt_spec;
use crate::bindings::kotlin::gen_kotlin::legacy_kt::lower_kt_spec;
use crate::bindings::kotlin::gen_kotlin::legacy_kt::read_kt_spec;
use crate::bindings::kotlin::gen_kotlin::legacy_kt::type_kt_spec;
use crate::bindings::kotlin::gen_kotlin::legacy_kt::write_kt_spec;
use crate::bindings::kotlin::gen_kotlin::legacy_kt;
use crate::interface::literal::Literal;
use crate::interface::literal::LiteralView;
use crate::interface::types::TypeView;

verus! {

/// The handler of a type that has none of its own. It writes what the shape
/// of the type alone gives, and spells names the Kotlin way whatever oracle
/// it is handed.
pub struct FallbackCodeType {
    type_: TypeIdentifier,
}

impl FallbackCodeType {
    /// The type that the handler is bound to.
    pub closed spec fn type_view(&self) -> TypeView {
        self.type_@
    }

    pub fn new(type_: TypeIdentifier) -> (r: Self)
        ensures
            r.type_view() == type_@,
    {
        Self { type_ }
    }

    fn type_identifier<O: LanguageOracle>(&self, _oracle: &O) -> (r: &TypeIdentifier)
        ensures
            r@ == self.type_view(),
    {
        &self.type_
    }
}

impl<O: LanguageOracle> CodeType<O> for FallbackCodeType {
    open spec fn type_label_spec(&self, oracle: &O) -> Seq<char> {
        type_kt_spec(self.type_view())
    }

    open spec fn canonical_name_spec(&self, oracle: &O) -> Seq<char> {
        self.type_view().canonical_name()
    }

    open spec fn literal_spec(&self, oracle: &O, literal: LiteralView) -> Result<
        Seq<char>,
        BindingsErrorView,
    > {
        literal_kt_spec(literal)
    }

    open spec fn lower_spec(&self, oracle: &O, nm: Seq<char>) -> Seq<char> {
        lower_kt_spec(nm, self.type_view())
    }

    open spec fn write_spec(&self, oracle: &O, nm: Seq<char>, target: Seq<char>) -> Seq<char> {
        write_kt_spec(nm, target, self.type_view())
    }

    open spec fn lift_spec(&self, oracle: &O, nm: Seq<char>) -> Seq<char> {
        lift_kt_spec(nm, self.type_view())
    }

    open spec fn read_spec(&self, oracle: &O, nm: Seq<char>) -> Seq<char> {
        read_kt_spec(nm, self.type_view())
    }

    open spec fn helper_code_spec(&self, oracle: &O) -> Option<Seq<char>> {
        None
    }

    open spec fn import_code_spec(&self, oracle: &O) -> Option<Seq<Seq<char>>> {
        None
    }

    fn type_label(&self, oracle: &O) -> (r: StringReturn) {
        let type_ = self.type_identifier(oracle);
        legacy_kt::type_kt(type_).unwrap()
    }

    fn canonical_name(&self, oracle: &O) -> (r: StringReturn) {
        let type_ = self.type_identifier(oracle);
        type_.canonical_name()
    }

    fn literal(&self, _oracle: &O, literal: &Literal) -> (r: Result<StringReturn, BindingsError>) {
        legacy_kt::literal_kt(literal)
    }

    fn lower(&self, oracle: &O, nm: &str) -> (r: StringReturn) {
        legacy_kt::lower_kt(nm, self.type_identifier(oracle)).unwrap()
    }

    fn write(&self, oracle: &O, nm: &str, target: &str) -> (r: StringReturn) {
        legacy_kt::write_kt(nm, target, self.type_identifier(oracle)).unwrap()
    }

    fn lift(&self, oracle: &O, nm: &str) -> (r: StringReturn) {
        legacy_kt::lift_kt(nm, self.type_identifier(oracle)).unwrap()
    }

    fn read(&self, oracle: &O, nm: &str) -> (r: StringReturn) {
        legacy_kt::read_kt(nm, self.type_identifier(oracle)).unwrap()
    }

    fn helper_code(&self, _oracle: &O) -> (r: Option<String>) {
        None
    }

    fn import_code(&self, _oracle: &O) -> (r: Option<Vec<String>>) {
        None
    }
}

} // verus!
