//! Strings.

use vstd::prelude::*;
use vstd::string::*;
use crate::bindings::backend::BindingsError;
use crate::bindings::backend::BindingsErrorView;
use crate::bindings::backend::CodeType;
use crate::bindings::backend::LanguageOracle;
use crate::bindings::backend::StringReturn;
use crate::bindings::kotlin::gen_kotlin::dispatch::canonical_name_of;
use crate::bindings::kotlin::gen_kotlin::dispatch::helper_code_of;
use crate::bindings::kotlin::gen_kotlin::dispatch::import_code_of;
use crate::bindings::kotlin::gen_kotlin::dispatch::lift_of;
use crate::bindings::kotlin::gen_kotlin::dispatch::literal_of;
use crate::bindings::kotlin::gen_kotlin::dispatch::lower_of;
use crate::bindings::kotlin::gen_kotlin::dispatch::read_of;
use crate::bindings::kotlin::gen_kotlin::dispatch::type_label_of;
use crate::bindings::kotlin::gen_kotlin::dispatch::write_of;
use crate::interface::literal::Literal;
use crate::interface::literal::LiteralView;
use crate::interface::types::TypeView;

verus! {

/// The Kotlin object that passes strings across the boundary. Written, a
/// string is its UTF-8 bytes behind their count in four bytes, the count
/// being that of the bytes and not of the characters; read, it is taken
/// back from that layout. Lowered, a string is a buffer of its own that
/// this same `write` has filled, and it is lifted by this same `read` from
/// a buffer that is given up when it has been read.
pub const HELPER_CODE: &'static str = r#"
    internal class StringInternals {
        companion object {
            fun lower(s: String): RustBuffer.ByValue {
                return lowerIntoRustBuffer(s) { s, buf ->
                    StringInternals.write(s, buf)
                }
            }

            fun write(s: String, buf: RustBufferBuilder) {
                val byteArr = s.toByteArray(Charsets.UTF_8)
                buf.putInt(byteArr.size)
                buf.put(byteArr)
            }

            fun lift(rbuf: RustBuffer.ByValue): String {
                return liftFromRustBuffer(rbuf) { buf ->
                    StringInternals.read(buf)
                }
            }

            fun read(buf: ByteBuffer): String {
                val len = buf.getInt()
                val byteArr = ByteArray(len)
                buf.get(byteArr)
                return byteArr.toString(Charsets.UTF_8)
            }
        }
    }
    "#;

/// The handler of the string type.
pub struct StringCodeType;

impl<O: LanguageOracle> CodeType<O> for StringCodeType {
    open spec fn type_label_spec(&self, oracle: &O) -> Seq<char> {
        type_label_of(oracle, TypeView::String)
    }

    open spec fn canonical_name_spec(&self, oracle: &O) -> Seq<char> {
        canonical_name_of(oracle, TypeView::String)
    }

    open spec fn literal_spec(&self, oracle: &O, literal: LiteralView) -> Result<
        Seq<char>,
        BindingsErrorView,
    > {
        literal_of(oracle, literal, TypeView::String)
    }

    open spec fn lower_spec(&self, oracle: &O, nm: Seq<char>) -> Seq<char> {
        lower_of(oracle, nm, TypeView::String)
    }

    open spec fn write_spec(&self, oracle: &O, nm: Seq<char>, target: Seq<char>) -> Seq<char> {
        write_of(oracle, nm, target, TypeView::String)
    }

    open spec fn lift_spec(&self, oracle: &O, nm: Seq<char>) -> Seq<char> {
        lift_of(oracle, nm, TypeView::String)
    }

    open spec fn read_spec(&self, oracle: &O, nm: Seq<char>) -> Seq<char> {
        read_of(oracle, nm, TypeView::String)
    }

    open spec fn helper_code_spec(&self, oracle: &O) -> Option<Seq<char>> {
        helper_code_of(oracle, TypeView::String)
    }

    open spec fn import_code_spec(&self, oracle: &O) -> Option<Seq<Seq<char>>> {
        import_code_of(TypeView::String)
    }

    fn type_label(&self, _oracle: &O) -> (r: StringReturn) {
        String::from_str("String")
    }

    fn canonical_name(&self, oracle: &O) -> (r: StringReturn) {
        self.type_label(oracle)
    }

    /// A string constant is the text between double quotes; any other
    /// literal is refused.
    fn literal(&self, _oracle: &O, literal: &Literal) -> (r: Result<StringReturn, BindingsError>) {
        if let Literal::String(v) = literal {
            Ok(String::from_str("\"").concat(v.as_str()).concat("\""))
        } else {
            Err(BindingsError::UnexpectedLiteral(literal.kind()))
        }
    }

    fn lower(&self, oracle: &O, nm: &str) -> (r: StringReturn) {
        String::from_str("StringInternals.lower(").concat(oracle.var_name(nm).as_str()).concat(")")
    }

    fn write(&self, oracle: &O, nm: &str, target: &str) -> (r: StringReturn) {
        String::from_str("StringInternals.write(").concat(oracle.var_name(nm).as_str()).concat(
            ", ",
        ).concat(target).concat(")")
    }

    fn lift(&self, _oracle: &O, nm: &str) -> (r: StringReturn) {
        String::from_str("StringInternals.lift(").concat(nm).concat(")")
    }

    fn read(&self, _oracle: &O, nm: &str) -> (r: StringReturn) {
        String::from_str("StringInternals.read(").concat(nm).concat(")")
    }

    fn helper_code(&self, _oracle: &O) -> (r: Option<String>) {
        Some(String::from_str(HELPER_CODE))
    }

    fn import_code(&self, _oracle: &O) -> (r: Option<Vec<String>>) {
        None
    }
}

} // verus!
