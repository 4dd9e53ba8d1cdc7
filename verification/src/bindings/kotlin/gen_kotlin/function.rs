//! Functions at the top level of the interface.

use vstd::prelude::*;
use crate::bindings::backend::LanguageOracle;
use crate::bindings::backend::MemberDeclaration;
use crate::bindings::backend::TypeIdentifier;
use crate::interface::component::ComponentInterface;
use crate::interface::definitions::Function;
use crate::interface::definitions::FunctionView;
use crate::interface::types::TypeView;

verus! {

/// A function of the interface as a member of the bindings, with what the
/// template needs to know of the types that it is made of.
pub struct KotlinFunction {
    inner: Function,
    contains_unsigned_types: bool,
}

impl KotlinFunction {
    /// The function that the member renders.
    pub closed spec fn definition(&self) -> FunctionView {
        self.inner@
    }

    /// Whether the function mentions an unsigned integer at any depth.
    pub closed spec fn has_unsigned_types(&self) -> bool {
        self.contains_unsigned_types
    }

    pub fn new(inner: Function, ci: &ComponentInterface) -> (r: Self)
        ensures
            r.definition() == inner@,
            r.has_unsigned_types() == ci@.any_contains_unsigned_types(inner@.member_types()),
    {
        Self {
            contains_unsigned_types: inner.contains_unsigned_types(ci),
            inner,
        }
    }

    pub fn inner(&self) -> (r: &Function)
        ensures
            r@ == self.definition(),
    {
        &self.inner
    }

    pub fn contains_unsigned_types(&self) -> (r: bool)
        ensures
            r == self.has_unsigned_types(),
    {
        self.contains_unsigned_types
    }
}

impl MemberDeclaration for KotlinFunction {
    open spec fn type_identifier_spec(&self) -> Option<TypeView> {
        None
    }

    /// The member imports nothing.
    open spec fn import_code_spec(&self) -> Option<Seq<char>> {
        None
    }

    /// Nothing has to run before the member is used.
    open spec fn initialization_code_spec(&self) -> Option<Seq<char>> {
        None
    }

    open spec fn definition_template_spec(&self) -> Option<Seq<char>> {
        Some("TopLevelFunctionTemplate.kt"@)
    }

    fn type_identifier(&self) -> (r: Option<TypeIdentifier>) {
        None
    }

    fn import_code<O: LanguageOracle>(&self, _oracle: &O) -> (r: Option<String>) {
        None
    }

    fn initialization_code<O: LanguageOracle>(&self, _oracle: &O) -> (r: Option<String>) {
        None
    }

    fn definition_template(&self) -> (r: Option<&'static str>) {
        Some("TopLevelFunctionTemplate.kt")
    }
}

} // verus!
