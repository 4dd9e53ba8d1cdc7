//! Objects: the handler of an object type and the object as a member of the bindings.

use vstd::prelude::*;
use vstd::string::*;
use crate::bindings::backend::BindingsError;
use crate::bindings::backend::BindingsErrorView;
use crate::bindings::backend::CodeType;
use crate::bindings::backend::LanguageOracle;
use crate::bindings::backend::MemberDeclaration;
use crate::bindings::backend::StringReturn;
use crate::bindings::backend::TypeIdentifier;
use crate::bindings::kotlin::gen_kotlin::dispatch::canonical_name_of;
use crate::bindings::kotlin::gen_kotlin::dispatch::helper_code_of;
use crate::bindings::kotlin::gen_kotlin::dispatch::import_code_of;
use crate::bindings::kotlin::gen_kotlin::dispatch::lift_of;
use crate::bindings::kotlin::gen_kotlin::dispatch::literal_of;
use crate::bindings::kotlin::gen_kotlin::dispatch::lower_of;
use crate::bindings::kotlin::gen_kotlin::dispatch::read_of;
use crate::bindings::kotlin::gen_kotlin::dispatch::type_label_of;
use crate::bindings::kotlin::gen_kotlin::dispatch::write_of;
use crate::interface::component::ComponentInterface;
use crate::interface::definitions::Object;
use crate::interface::definitions::ObjectView;
use crate::interface::literal::Literal;
use crate::interface::literal::LiteralView;
use crate::interface::types::TypeView;

verus! {

/// The handler of an object, bound to its name.
pub struct ObjectCodeType {
    id: String,
}

impl ObjectCodeType {
    /// The name of the object that the handler is bound to.
    pub closed spec fn name(&self) -> Seq<char> {
        self.id@
    }

    pub fn new(id: String) -> (r: Self)
        ensures
            r.name() == id@,
    {
        Self { id }
    }
}

impl<O: LanguageOracle> CodeType<O> for ObjectCodeType {
    open spec fn type_label_spec(&self, oracle: &O) -> Seq<char> {
        type_label_of(oracle, TypeView::Object(self.name()))
    }

    open spec fn canonical_name_spec(&self, oracle: &O) -> Seq<char> {
        canonical_name_of(oracle, TypeView::Object(self.name()))
    }

    open spec fn literal_spec(&self, oracle: &O, literal: LiteralView) -> Result<
        Seq<char>,
        BindingsErrorView,
    > {
        literal_of(oracle, literal, TypeView::Object(self.name()))
    }

    open spec fn lower_spec(&self, oracle: &O, nm: Seq<char>) -> Seq<char> {
        lower_of(oracle, nm, TypeView::Object(self.name()))
    }

    open spec fn write_spec(&self, oracle: &O, nm: Seq<char>, target: Seq<char>) -> Seq<char> {
        write_of(oracle, nm, target, TypeView::Object(self.name()))
    }

    open spec fn lift_spec(&self, oracle: &O, nm: Seq<char>) -> Seq<char> {
        lift_of(oracle, nm, TypeView::Object(self.name()))
    }

    open spec fn read_spec(&self, oracle: &O, nm: Seq<char>) -> Seq<char> {
        read_of(oracle, nm, TypeView::Object(self.name()))
    }

    open spec fn helper_code_spec(&self, oracle: &O) -> Option<Seq<char>> {
        helper_code_of(oracle, TypeView::Object(self.name()))
    }

    open spec fn import_code_spec(&self, oracle: &O) -> Option<Seq<Seq<char>>> {
        import_code_of(TypeView::Object(self.name()))
    }

    fn type_label(&self, oracle: &O) -> (r: StringReturn) {
        oracle.class_name(self.id.as_str())
    }

    fn canonical_name(&self, oracle: &O) -> (r: StringReturn) {
        String::from_str("Object").concat(self.type_label(oracle).as_str())
    }

    /// A value of this type has no constant: every literal is refused.
    fn literal(&self, _oracle: &O, literal: &Literal) -> (r: Result<StringReturn, BindingsError>) {
        Err(BindingsError::UnexpectedLiteral(literal.kind()))
    }

    fn lower(&self, oracle: &O, nm: &str) -> (r: StringReturn) {
        oracle.var_name(nm).concat(".lower()")
    }

    fn write(&self, oracle: &O, nm: &str, target: &str) -> (r: StringReturn) {
        oracle.var_name(nm).concat(".write(").concat(target).concat(")")
    }

    fn lift(&self, oracle: &O, nm: &str) -> (r: StringReturn) {
        self.type_label(oracle).concat(".lift(").concat(nm).concat(")")
    }

    fn read(&self, oracle: &O, nm: &str) -> (r: StringReturn) {
        self.type_label(oracle).concat(".read(").concat(nm).concat(")")
    }

    fn helper_code(&self, oracle: &O) -> (r: Option<String>) {
        Some(
            String::from_str("// Helper code for ").concat(
                self.type_label(oracle).as_str(),
            ).concat(" class is found in ObjectTemplate.kt"),
        )
    }

    fn import_code(&self, _oracle: &O) -> (r: Option<Vec<String>>) {
        let mut imports: Vec<String> = Vec::new();
        imports.push(String::from_str("java.util.concurrent.atomic.AtomicLong"));
        imports.push(String::from_str("java.util.concurrent.atomic.AtomicBoolean"));
        assert(imports.deep_view() =~= seq![
            "java.util.concurrent.atomic.AtomicLong"@,
            "java.util.concurrent.atomic.AtomicBoolean"@,
        ]);
        Some(imports)
    }
}

/// An object of the interface as a member of the bindings, with what the
/// template needs to know of the types that it is made of.
pub struct KotlinObject {
    inner: Object,
    contains_unsigned_types: bool,
}

impl KotlinObject {
    /// The object that the member renders.
    pub closed spec fn definition(&self) -> ObjectView {
        self.inner@
    }

    /// Whether the object mentions an unsigned integer at any depth.
    pub closed spec fn has_unsigned_types(&self) -> bool {
        self.contains_unsigned_types
    }

    pub fn new(inner: Object, ci: &ComponentInterface) -> (r: Self)
        ensures
            r.definition() == inner@,
            r.has_unsigned_types() == ci@.any_contains_unsigned_types(inner@.member_types()),
    {
        Self {
            contains_unsigned_types: inner.contains_unsigned_types(ci),
            inner,
        }
    }

    pub fn inner(&self) -> (r: &Object)
        ensures
            r@ == self.definition(),
    {
        &self.inner
    }

    pub fn contains_unsigned_types(&self) -> (r: bool)
        ensures
            r == self.has_unsigned_types(),
    {
        self.contains_unsigned_types
    }
}

impl MemberDeclaration for KotlinObject {
    open spec fn type_identifier_spec(&self) -> Option<TypeView> {
        Some(TypeView::Object(self.definition().name))
    }

    /// The member imports nothing.
    open spec fn import_code_spec(&self) -> Option<Seq<char>> {
        None
    }

    /// Nothing has to run before the member is used.
    open spec fn initialization_code_spec(&self) -> Option<Seq<char>> {
        None
    }

    open spec fn definition_template_spec(&self) -> Option<Seq<char>> {
        Some("ObjectTemplate.kt"@)
    }

    fn type_identifier(&self) -> (r: Option<TypeIdentifier>) {
        Some(TypeIdentifier::Object(self.inner.name.clone()))
    }

    fn import_code<O: LanguageOracle>(&self, _oracle: &O) -> (r: Option<String>) {
        None
    }

    fn initialization_code<O: LanguageOracle>(&self, _oracle: &O) -> (r: Option<String>) {
        None
    }

    fn definition_template(&self) -> (r: Option<&'static str>) {
        Some("ObjectTemplate.kt")
    }
}

/// The runtime that the objects of the bindings share. It is rendered only
/// where the interface declares an object.
pub struct KotlinObjectRuntime {
    is_needed: bool,
}

impl KotlinObjectRuntime {
    /// Whether the interface declares an object.
    pub closed spec fn needed(&self) -> bool {
        self.is_needed
    }

    pub fn new(ci: &ComponentInterface) -> (r: Self)
        ensures
            r.needed() == (ci@.objects.len() > 0),
    {
        Self { is_needed: ci.objects.len() > 0 }
    }

    pub fn is_needed(&self) -> (r: bool)
        ensures
            r == self.needed(),
    {
        self.is_needed
    }
}

impl MemberDeclaration for KotlinObjectRuntime {
    open spec fn type_identifier_spec(&self) -> Option<TypeView> {
        None
    }

    /// The member imports nothing.
    open spec fn import_code_spec(&self) -> Option<Seq<char>> {
        None
    }

    /// Nothing has to run before the member is used.
    open spec fn initialization_code_spec(&self) -> Option<Seq<char>> {
        None
    }

    open spec fn definition_template_spec(&self) -> Option<Seq<char>> {
        if self.needed() {
            Some("ObjectRuntime.kt"@)
        } else {
            None
        }
    }

    /// The runtime defines no type.
    fn type_identifier(&self) -> (r: Option<TypeIdentifier>) {
        None
    }

    fn import_code<O: LanguageOracle>(&self, _oracle: &O) -> (r: Option<String>) {
        None
    }

    fn initialization_code<O: LanguageOracle>(&self, _oracle: &O) -> (r: Option<String>) {
        None
    }

    fn definition_template(&self) -> (r: Option<&'static str>) {
        if self.is_needed {
            Some("ObjectRuntime.kt")
        } else {
            None
        }
    }
}

} // verus!
