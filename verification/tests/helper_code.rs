use uniffi_bindgen::bindings::backend::CodeType;
use uniffi_bindgen::bindings::kotlin::gen_kotlin::compounds::MapCodeType;
use uniffi_bindgen::bindings::kotlin::gen_kotlin::compounds::OptionalCodeType;
use uniffi_bindgen::bindings::kotlin::gen_kotlin::compounds::SequenceCodeType;
use uniffi_bindgen::bindings::kotlin::gen_kotlin::filters;
use uniffi_bindgen::bindings::kotlin::gen_kotlin::primitives::BOOL_HELPER_CODE;
use uniffi_bindgen::bindings::kotlin::gen_kotlin::string_::HELPER_CODE;
use uniffi_bindgen::bindings::kotlin::gen_kotlin::KotlinLanguageOracle;
use uniffi_bindgen::interface::component::ComponentInterface;
use uniffi_bindgen::interface::types::Type;
use uniffi_bindgen::wire::lower::lift;
use uniffi_bindgen::wire::lower::lower;
use uniffi_bindgen::wire::lower::Lowered;
use uniffi_bindgen::wire::read::read;
use uniffi_bindgen::wire::value::Value;

const OPTIONAL: &str = r#"

    // Helper functions for pasing values of type <OUTER>
    @ExperimentalUnsignedTypes
    internal fun lower<NAME>(v: <INNER>?): RustBuffer.ByValue {
        return lowerIntoRustBuffer(v) { v, buf ->
            write<NAME>(v, buf)
        }
    }

    @ExperimentalUnsignedTypes
    internal fun write<NAME>(v: <INNER>?, buf: RustBufferBuilder) {
        if (v == null) {
            buf.putByte(0)
        } else {
            buf.putByte(1)
            <WRITE_V>
        }
    }

    @ExperimentalUnsignedTypes
    internal fun lift<NAME>(rbuf: RustBuffer.ByValue): <INNER>? {
        return liftFromRustBuffer(rbuf) { buf ->
            read<NAME>(buf)
        }
    }

    @ExperimentalUnsignedTypes
    internal fun read<NAME>(buf: ByteBuffer): <INNER>? {
        if (buf.get().toInt() == 0) {
            return null
        }
        return <READ>
    }
 "#;

const SEQUENCE: &str = r#"

    // Helper functions for pasing values of type <OUTER>
    @ExperimentalUnsignedTypes
    internal fun lower<NAME>(v: List<<INNER>>): RustBuffer.ByValue {
        return lowerIntoRustBuffer(v) { v, buf ->
            write<NAME>(v, buf)
        }
    }

    @ExperimentalUnsignedTypes
    internal fun write<NAME>(v: List<<INNER>>, buf: RustBufferBuilder) {
        buf.putInt(v.size)
        v.forEach {
            <WRITE_IT>
        }
    }

    @ExperimentalUnsignedTypes
    internal fun lift<NAME>(rbuf: RustBuffer.ByValue): List<<INNER>> {
        return liftFromRustBuffer(rbuf) { buf ->
            read<NAME>(buf)
        }
    }

    @ExperimentalUnsignedTypes
    internal fun read<NAME>(buf: ByteBuffer): List<<INNER>> {
        val len = buf.getInt()
        return List<<INNER>>(len) {
            <READ>
        }
    }
"#;

const MAP: &str = r#"

    // Helper functions for pasing values of type <OUTER>
    @ExperimentalUnsignedTypes
    internal fun lower<NAME>(m: Map<String, <INNER>>): RustBuffer.ByValue {
        return lowerIntoRustBuffer(m) { m, buf ->
            write<NAME>(m, buf)
        }
    }

    @ExperimentalUnsignedTypes
    internal fun write<NAME>(v: Map<String, <INNER>>, buf: RustBufferBuilder) {
        buf.putInt(v.size)
        // The parens on `(k, v)` here ensure we're calling the right method,
        // which is important for compatibility with older android devices.
        // Ref https://blog.danlew.net/2017/03/16/kotlin-puzzler-whose-line-is-it-anyways/
        v.forEach { (k, v) ->
            <WRITE_K>
            <WRITE_V>
        }
    }

    @ExperimentalUnsignedTypes
    internal fun lift<NAME>(rbuf: RustBuffer.ByValue): Map<String, <INNER>> {
        return liftFromRustBuffer(rbuf) { buf ->
            read<NAME>(buf)
        }
    }

    @ExperimentalUnsignedTypes
    internal fun read<NAME>(buf: ByteBuffer): Map<String, <INNER>> {
        // TODO: Once Kotlin's `buildMap` API is stabilized we should use it here.
        val items : MutableMap<String, <INNER>> = mutableMapOf()
        val len = buf.getInt()
        repeat(len) {
            val k = <READ_K>
            val v = <READ>
            items[k] = v
        }
        return items
    }
"#;

fn fill(template: &str, outer: &str, name: &str, inner: &str, write: &str, read: &str) -> String {
    template
        .replace("<OUTER>", outer)
        .replace("<NAME>", name)
        .replace("<INNER>", inner)
        .replace("<WRITE_V>", &write.replace("<VAR>", "v"))
        .replace("<WRITE_IT>", &write.replace("<VAR>", "it"))
        .replace("<WRITE_K>", "StringInternals.write(k, buf)")
        .replace("<READ_K>", "StringInternals.read(buf)")
        .replace("<READ>", read)
}

#[test]
fn optional_helper_functions() {
    let t = Type::Optional(Box::new(Type::String));
    let expected = fill(
        OPTIONAL,
        "String?",
        "OptionalString",
        "String",
        "StringInternals.write(<VAR>, buf)",
        "StringInternals.read(buf)",
    );
    assert_eq!(filters::helper_code(&t).unwrap().unwrap(), expected);
}

#[test]
fn sequence_helper_functions() {
    let t = Type::Sequence(Box::new(Type::Record("point".to_string())));
    let expected =
        fill(SEQUENCE, "List<Point>", "SequenceRecordPoint", "Point", "<VAR>.write(buf)", "Point.read(buf)");
    assert_eq!(filters::helper_code(&t).unwrap().unwrap(), expected);
}

#[test]
fn map_helper_functions() {
    let t = Type::Mapping(Box::new(Type::Optional(Box::new(Type::Int32))));
    let expected = fill(
        MAP,
        "Map<String, Int?>",
        "MapOptionali32",
        "Int?",
        "writeOptionali32(<VAR>, buf)",
        "readOptionali32(buf)",
    );
    assert_eq!(filters::helper_code(&t).unwrap().unwrap(), expected);
}

#[test]
fn every_annotation_of_the_helpers_is_spelled_alike() {
    for t in [
        Type::Optional(Box::new(Type::String)),
        Type::Sequence(Box::new(Type::String)),
        Type::Mapping(Box::new(Type::String)),
    ] {
        let code = filters::helper_code(&t).unwrap().unwrap();
        assert_eq!(code.matches("@ExperimentalUnsignedTypes\n").count(), 4);
        assert_eq!(code.matches("@ExperimentalUnsignedTypes").count(), 4);
    }
}

#[test]
fn a_compound_handler_names_its_helpers_after_its_compound_type() {
    let oracle = KotlinLanguageOracle;
    let inner = Type::Boolean;
    let outer = Type::Optional(Box::new(Type::Boolean));
    let handler = OptionalCodeType::new(inner, outer);
    let code = handler.helper_code(&oracle).unwrap();
    assert!(code.contains("internal fun lowerOptionalBoolean(v: Boolean?): RustBuffer.ByValue {"));
    assert!(code.contains("            BoolInternals.write(v, buf)\n"));
    assert!(code.contains("        return BoolInternals.read(buf)\n"));
    let handler = SequenceCodeType::new(Type::Int8, Type::Sequence(Box::new(Type::Int8)));
    let code = handler.helper_code(&oracle).unwrap();
    assert!(code.contains("internal fun readSequencei8(buf: ByteBuffer): List<Byte> {"));
    assert!(code.contains("            it.write(buf)\n"));
    let handler = MapCodeType::new(Type::Int8, Type::Mapping(Box::new(Type::Int8)));
    let code = handler.helper_code(&oracle).unwrap();
    assert!(code.contains("internal fun writeMapi8(v: Map<String, Byte>, buf: RustBufferBuilder) {"));
    assert!(code.contains("            val v = Byte.read(buf)\n"));
}

#[test]
fn string_and_boolean_helpers_are_fixed_texts() {
    assert_eq!(filters::helper_code(&Type::String).unwrap().unwrap(), HELPER_CODE);
    assert_eq!(filters::helper_code(&Type::Boolean).unwrap().unwrap(), BOOL_HELPER_CODE);
    assert!(HELPER_CODE.contains("internal class StringInternals {"));
    assert!(HELPER_CODE.contains("buf.putInt(byteArr.size)"));
    assert!(BOOL_HELPER_CODE.contains("internal object BoolInternals {"));
    assert!(BOOL_HELPER_CODE.contains("return if (b) 1.toByte() else 0.toByte()"));
}

fn function_body<'a>(code: &'a str, header: &str) -> &'a str {
    let start = code.find(header).expect("the helper has the function") + header.len();
    let rest = &code[start..];
    let end = rest.find("\n            }\n").expect("the function ends");
    &rest[..end]
}

fn squeezed(text: &str) -> String {
    text.split_whitespace().collect::<Vec<&str>>().join(" ")
}

#[test]
fn the_string_helper_lowers_through_its_own_write_and_lifts_through_its_own_read() {
    let lower_body = function_body(HELPER_CODE, "fun lower(s: String): RustBuffer.ByValue {");
    assert_eq!(
        squeezed(lower_body),
        "return lowerIntoRustBuffer(s) { s, buf -> StringInternals.write(s, buf) }"
    );
    let lift_body = function_body(HELPER_CODE, "fun lift(rbuf: RustBuffer.ByValue): String {");
    assert_eq!(
        squeezed(lift_body),
        "return liftFromRustBuffer(rbuf) { buf -> StringInternals.read(buf) }"
    );
    assert!(!HELPER_CODE.contains("RustBuffer.alloc"));
    assert!(!HELPER_CODE.contains("ByteArray(rbuf.len)"));
}

#[test]
fn the_string_helper_and_the_wire_format_lay_a_string_out_alike() {
    let write_body = function_body(HELPER_CODE, "fun write(s: String, buf: RustBufferBuilder) {");
    assert_eq!(
        squeezed(write_body),
        "val byteArr = s.toByteArray(Charsets.UTF_8) buf.putInt(byteArr.size) buf.put(byteArr)"
    );
    let read_body = function_body(HELPER_CODE, "fun read(buf: ByteBuffer): String {");
    assert_eq!(
        squeezed(read_body),
        "val len = buf.getInt() val byteArr = ByteArray(len) buf.get(byteArr) \
         return byteArr.toString(Charsets.UTF_8)"
    );
    let ci = ComponentInterface {
        namespace: "s".to_string(),
        enums: vec![],
        records: vec![],
        errors: vec![],
        objects: vec![],
        callback_interfaces: vec![],
        functions: vec![],
    };
    for text in ["", "ab", "größer", "日本語", "🦀"] {
        let value = Value::String(text.to_string());
        let utf8 = text.as_bytes();
        let mut laid_out = (utf8.len() as i32).to_be_bytes().to_vec();
        laid_out.extend_from_slice(utf8);
        let mut written: Vec<u8> = Vec::new();
        uniffi_bindgen::wire::write::write(&value, &mut written).unwrap();
        assert_eq!(written, laid_out);
        assert_eq!(lower(&value), Ok(Lowered::Buffer(laid_out.clone())));
        assert_eq!(read(&ci, &Type::String, &laid_out, 0, 1), Ok((value, laid_out.len())));
        assert_eq!(
            lift(&ci, &Type::String, Lowered::Buffer(laid_out), 1),
            Ok(Value::String(text.to_string()))
        );
        assert!(lift(&ci, &Type::String, Lowered::Buffer(utf8.to_vec()), 1).is_err());
    }
}
