//! Primitive types with a handler of their own.

use vstd::prelude::*;
use vstd::string::*;
use crate::bindings::backend::BindingsError;
use crate::bindings::backend::BindingsErrorView;
use crate::bindings::backend::CodeType;
use crate::bindings::backend::LanguageOracle;
use crate::bindings::backend::rendered;
use crate::bindings::backend::StringReturn;
use crate::bindings::kotlin::gen_kotlin::dispatch::canonical_name_of;
use crate::bindings::kotlin::gen_kotlin::dispatch::helper_code_of;
use crate::bindings::kotlin::gen_kotlin::dispatch::import_code_of;
use crate::bindings::kotlin::gen_kotlin::dispatch::lift_of;
use crate::bindings::kotlin::gen_kotlin::dispatch::literal_of;
use crate::bindings::kotlin::gen_kotlin::dispatch::lower_of;
use crate::bindings::kotlin::gen_kotlin::dispatch::read_of;
use crate::bindings::kotlin::gen_kotlin::dispatch::type_label_of;
use crate::bindings::kotlin::gen_kotlin::dispatch::write_of;
use crate::bindings::kotlin::gen_kotlin::legacy_kt::integer_text;
use crate::bindings::kotlin::gen_kotlin::legacy_kt::signed_text;
use crate::bindings::kotlin::gen_kotlin::legacy_kt::typed_number;
use crate::bindings::kotlin::gen_kotlin::legacy_kt::typed_number_spec;
use crate::bindings::kotlin::gen_kotlin::legacy_kt::unsigned_text;
use crate::interface::literal::Literal;
use crate::interface::literal::LiteralView;
use crate::interface::types::TypeView;

verus! {

/// The Kotlin object that passes booleans across the boundary: as one byte,
/// one for true and zero for false; on the way back every byte but zero is
/// true.
pub const BOOL_HELPER_CODE: &'static str = r#"
internal object BoolInternals {

    fun lift(v: Byte): Boolean {
        return v.toInt() != 0
    }

    fun read(buf: ByteBuffer): Boolean {
        return BoolInternals.lift(buf.get())
    }

    fun lower(b: Boolean): Byte {
        return if (b) 1.toByte() else 0.toByte()
    }

    fun write(b: Boolean, buf: RustBufferBuilder) {
        buf.putByte(BoolInternals.lower(b))
    }
}
"#;

/// The constant for a literal of a primitive type: a boolean, a quoted
/// string, or a number with the suffix of its type. The literals that stand
/// for the absence or emptiness of a compound value, and the variants of
/// enums, are no constants of a primitive type.
pub open spec fn primitive_literal_spec(literal: LiteralView) -> Result<
    Seq<char>,
    BindingsErrorView,
> {
    match literal {
        LiteralView::Boolean(v) => Ok(
            if v {
                "true"@
            } else {
                "false"@
            },
        ),
        LiteralView::String(s) => Ok("\""@ + s + "\""@),
        LiteralView::Int(i, radix, t) => typed_number_spec(t, integer_text(i, radix)),
        LiteralView::UInt(i, radix, t) => typed_number_spec(t, integer_text(i, radix)),
        LiteralView::Float(s, t) => typed_number_spec(t, s),
        _ => Err(BindingsErrorView::UnexpectedLiteral(literal.kind())),
    }
}

/// Renders a literal of a primitive type.
pub fn render_literal<O: LanguageOracle>(_oracle: &O, literal: &Literal) -> (r: Result<
    String,
    BindingsError,
>)
    ensures
        rendered(r) == primitive_literal_spec(literal@),
{
    match literal {
        Literal::Boolean(v) => Ok(
            if *v {
                String::from_str("true")
            } else {
                String::from_str("false")
            },
        ),
        Literal::String(s) => Ok(String::from_str("\"").concat(s.as_str()).concat("\"")),
        Literal::Int(i, radix, type_) => typed_number(type_, signed_text(*i, *radix)),
        Literal::UInt(i, radix, type_) => typed_number(type_, unsigned_text(*i, *radix)),
        Literal::Float(string, type_) => typed_number(type_, string.clone()),
        _ => Err(BindingsError::UnexpectedLiteral(literal.kind())),
    }
}

/// The handler of the boolean type.
pub struct BoolCodeType;

impl<O: LanguageOracle> CodeType<O> for BoolCodeType {
    open spec fn type_label_spec(&self, oracle: &O) -> Seq<char> {
        type_label_of(oracle, TypeView::Boolean)
    }

    open spec fn canonical_name_spec(&self, oracle: &O) -> Seq<char> {
        canonical_name_of(oracle, TypeView::Boolean)
    }

    open spec fn literal_spec(&self, oracle: &O, literal: LiteralView) -> Result<
        Seq<char>,
        BindingsErrorView,
    > {
        literal_of(oracle, literal, TypeView::Boolean)
    }

    open spec fn lower_spec(&self, oracle: &O, nm: Seq<char>) -> Seq<char> {
        lower_of(oracle, nm, TypeView::Boolean)
    }

    open spec fn write_spec(&self, oracle: &O, nm: Seq<char>, target: Seq<char>) -> Seq<char> {
        write_of(oracle, nm, target, TypeView::Boolean)
    }

    open spec fn lift_spec(&self, oracle: &O, nm: Seq<char>) -> Seq<char> {
        lift_of(oracle, nm, TypeView::Boolean)
    }

    open spec fn read_spec(&self, oracle: &O, nm: Seq<char>) -> Seq<char> {
        read_of(oracle, nm, TypeView::Boolean)
    }

    open spec fn helper_code_spec(&self, oracle: &O) -> Option<Seq<char>> {
        helper_code_of(oracle, TypeView::Boolean)
    }

    open spec fn import_code_spec(&self, oracle: &O) -> Option<Seq<Seq<char>>> {
        import_code_of(TypeView::Boolean)
    }

    fn type_label(&self, _oracle: &O) -> (r: StringReturn) {
        String::from_str("Boolean")
    }

    fn canonical_name(&self, oracle: &O) -> (r: StringReturn) {
        self.type_label(oracle)
    }

    fn literal(&self, oracle: &O, literal: &Literal) -> (r: Result<StringReturn, BindingsError>) {
        render_literal(oracle, literal)
    }

    fn lower(&self, oracle: &O, nm: &str) -> (r: StringReturn) {
        String::from_str("BoolInternals.lower(").concat(
            oracle.var_name(nm).as_str(),
        ).concat(")")
    }

    fn write(&self, oracle: &O, nm: &str, target: &str) -> (r: StringReturn) {
        String::from_str("BoolInternals.write(").concat(
            oracle.var_name(nm).as_str(),
        ).concat(", ").concat(target).concat(")")
    }

    fn lift(&self, _oracle: &O, nm: &str) -> (r: StringReturn) {
        String::from_str("BoolInternals.lift(").concat(nm).concat(")")
    }

    fn read(&self, _oracle: &O, nm: &str) -> (r: StringReturn) {
        String::from_str("BoolInternals.read(").concat(nm).concat(")")
    }

    fn helper_code(&self, _oracle: &O) -> (r: Option<String>) {
        Some(String::from_str(BOOL_HELPER_CODE))
    }

    fn import_code(&self, _oracle: &O) -> (r: Option<Vec<String>>) {
        None
    }
}

} // verus!
