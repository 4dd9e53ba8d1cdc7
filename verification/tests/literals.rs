use uniffi_bindgen::bindings::backend::BindingsError;
use uniffi_bindgen::bindings::backend::CodeType;
use uniffi_bindgen::bindings::kotlin::gen_kotlin::compounds;
use uniffi_bindgen::bindings::kotlin::gen_kotlin::filters;
use uniffi_bindgen::bindings::kotlin::gen_kotlin::legacy_kt;
use uniffi_bindgen::bindings::kotlin::gen_kotlin::primitives;
use uniffi_bindgen::bindings::kotlin::gen_kotlin::KotlinLanguageOracle;
use uniffi_bindgen::interface::literal::Literal;
use uniffi_bindgen::interface::literal::Radix;
use uniffi_bindgen::interface::types::Type;

fn not_a_number(r: Result<String, BindingsError>) -> String {
    match r {
        Err(BindingsError::NotANumber(text)) => text,
        other => panic!("expected a number that fits no type, got {:?}", other),
    }
}

fn unexpected(r: Result<String, BindingsError>) -> String {
    match r {
        Err(BindingsError::UnexpectedLiteral(kind)) => kind,
        other => panic!("expected a refused literal, got {:?}", other),
    }
}

#[test]
fn hexadecimal_int_has_a_prefix_and_no_suffix() {
    let literal = Literal::Int(255, Radix::Hexadecimal, Type::Int32);
    assert_eq!(filters::literal_kt(&literal).unwrap(), "0xff");
    assert_eq!(legacy_kt::literal_kt(&literal).unwrap(), "0xff");
}

#[test]
fn decimal_unsigned_long_has_both_suffixes() {
    let literal = Literal::UInt(255, Radix::Decimal, Type::UInt64);
    assert_eq!(filters::literal_kt(&literal).unwrap(), "255uL");
    assert_eq!(legacy_kt::literal_kt(&literal).unwrap(), "255uL");
}

#[test]
fn float_of_32_bits_has_a_suffix() {
    let literal = Literal::Float("1.5".to_string(), Type::Float32);
    assert_eq!(filters::literal_kt(&literal).unwrap(), "1.5f");
    let literal = Literal::Float("1.5".to_string(), Type::Float64);
    assert_eq!(filters::literal_kt(&literal).unwrap(), "1.5");
}

#[test]
fn octal_numbers_are_written_in_hexadecimal() {
    let literal = Literal::Int(8, Radix::Octal, Type::Int16);
    assert_eq!(filters::literal_kt(&literal).unwrap(), "0x8");
    let literal = Literal::UInt(64, Radix::Octal, Type::UInt8);
    assert_eq!(filters::literal_kt(&literal).unwrap(), "0x40u");
}

#[test]
fn every_numeric_type_has_its_suffix() {
    let cases = vec![
        (Type::Int8, "7"),
        (Type::Int16, "7"),
        (Type::Int32, "7"),
        (Type::Int64, "7L"),
        (Type::UInt8, "7u"),
        (Type::UInt16, "7u"),
        (Type::UInt32, "7u"),
        (Type::UInt64, "7uL"),
        (Type::Float32, "7f"),
        (Type::Float64, "7"),
    ];
    for (type_, expected) in cases {
        assert_eq!(legacy_kt::typed_number(&type_, "7".to_string()).unwrap(), expected);
        let literal = Literal::Int(7, Radix::Decimal, type_);
        assert_eq!(filters::literal_kt(&literal).unwrap(), expected);
    }
}

#[test]
fn negative_numbers_keep_their_sign_in_decimal() {
    let literal = Literal::Int(-12, Radix::Decimal, Type::Int64);
    assert_eq!(filters::literal_kt(&literal).unwrap(), "-12L");
    let literal = Literal::Int(-1, Radix::Hexadecimal, Type::Int64);
    assert_eq!(filters::literal_kt(&literal).unwrap(), "0xffffffffffffffffL");
}

#[test]
fn a_number_for_a_type_that_is_no_number_is_refused() {
    let literal = Literal::Int(3, Radix::Decimal, Type::Timestamp);
    assert_eq!(not_a_number(filters::literal_kt(&literal)), "3");
    assert_eq!(not_a_number(legacy_kt::literal_kt(&literal)), "3");
    let literal = Literal::UInt(16, Radix::Hexadecimal, Type::Duration);
    assert_eq!(not_a_number(filters::literal_kt(&literal)), "0x10");
    let literal = Literal::Float("2.5".to_string(), Type::Boolean);
    assert_eq!(not_a_number(filters::literal_kt(&literal)), "2.5");
    assert_eq!(
        not_a_number(legacy_kt::typed_number(&Type::String, "9".to_string())),
        "9"
    );
}

#[test]
fn a_number_for_a_type_without_constants_is_refused() {
    let literal = Literal::Int(3, Radix::Decimal, Type::String);
    assert_eq!(unexpected(filters::literal_kt(&literal)), "Int");
    let literal = Literal::UInt(3, Radix::Decimal, Type::Record("Point".to_string()));
    assert_eq!(unexpected(filters::literal_kt(&literal)), "UInt");
    let literal = Literal::Float("1".to_string(), Type::Optional(Box::new(Type::Float32)));
    assert_eq!(unexpected(filters::literal_kt(&literal)), "Float");
    let literal = Literal::Int(3, Radix::Decimal, Type::Enum("Colour".to_string()));
    assert_eq!(unexpected(filters::literal_kt(&literal)), "Int");
}

#[test]
fn literals_that_need_no_type() {
    assert_eq!(filters::literal_kt(&Literal::Boolean(true)).unwrap(), "true");
    assert_eq!(filters::literal_kt(&Literal::Boolean(false)).unwrap(), "false");
    assert_eq!(filters::literal_kt(&Literal::String("hi".to_string())).unwrap(), "\"hi\"");
    assert_eq!(filters::literal_kt(&Literal::Null).unwrap(), "null");
    assert_eq!(filters::literal_kt(&Literal::EmptySequence).unwrap(), "listOf()");
}

#[test]
fn the_empty_map_is_written_like_the_empty_list() {
    assert_eq!(filters::literal_kt(&Literal::EmptyMap).unwrap(), "mapOf()");
    assert_eq!(legacy_kt::literal_kt(&Literal::EmptyMap).unwrap(), "mapOf()");
    let oracle = KotlinLanguageOracle;
    assert_eq!(compounds::render_literal(&oracle, &Literal::EmptyMap).unwrap(), "mapOf()");
}

#[test]
fn enum_literals_name_the_class_and_the_variant() {
    let literal = Literal::Enum("dark_red".to_string(), Type::Enum("my_colour".to_string()));
    assert_eq!(filters::literal_kt(&literal).unwrap(), "MyColour.DARK_RED");
    assert_eq!(legacy_kt::literal_kt(&literal).unwrap(), "MyColour.DARK_RED");
}

#[test]
fn an_enum_literal_for_another_type_is_refused() {
    let literal = Literal::Enum("red".to_string(), Type::String);
    assert_eq!(unexpected(filters::literal_kt(&literal)), "Enum");
    let literal = Literal::Enum("red".to_string(), Type::Boolean);
    assert_eq!(unexpected(filters::literal_kt(&literal)), "Enum");
    let literal = Literal::Enum("red".to_string(), Type::Object("Door".to_string()));
    assert_eq!(unexpected(filters::literal_kt(&literal)), "Enum");
}

#[test]
fn handlers_refuse_literals_of_other_kinds() {
    let oracle = KotlinLanguageOracle;
    let string = oracle.find(&Type::String);
    assert_eq!(string.literal(&oracle, &Literal::String("a\"b".to_string())).unwrap(), "\"a\"b\"");
    assert_eq!(unexpected(string.literal(&oracle, &Literal::Boolean(true))), "Boolean");
    assert_eq!(unexpected(string.literal(&oracle, &Literal::Null)), "Null");
    let record = oracle.find(&Type::Record("Point".to_string()));
    assert_eq!(unexpected(record.literal(&oracle, &Literal::EmptyMap)), "EmptyMap");
    let error = oracle.find(&Type::Error("Oops".to_string()));
    assert_eq!(unexpected(error.literal(&oracle, &Literal::EmptySequence)), "EmptySequence");
    let callback = oracle.find(&Type::CallbackInterface("Listener".to_string()));
    assert_eq!(unexpected(callback.literal(&oracle, &Literal::String("x".to_string()))), "String");
}

#[test]
fn compound_types_have_the_constants_of_absence_and_emptiness() {
    let oracle = KotlinLanguageOracle;
    let optional = oracle.find(&Type::Optional(Box::new(Type::Int32)));
    assert_eq!(optional.literal(&oracle, &Literal::Null).unwrap(), "null");
    let sequence = oracle.find(&Type::Sequence(Box::new(Type::Int32)));
    assert_eq!(sequence.literal(&oracle, &Literal::EmptySequence).unwrap(), "listOf()");
    let map = oracle.find(&Type::Mapping(Box::new(Type::Int32)));
    assert_eq!(map.literal(&oracle, &Literal::EmptyMap).unwrap(), "mapOf()");
    assert_eq!(unexpected(map.literal(&oracle, &Literal::Boolean(true))), "Boolean");
    assert_eq!(
        unexpected(compounds::render_literal(&oracle, &Literal::String("x".to_string()))),
        "String"
    );
}

#[test]
fn the_boolean_handler_renders_primitive_literals() {
    let oracle = KotlinLanguageOracle;
    let boolean = oracle.find(&Type::Boolean);
    assert_eq!(boolean.literal(&oracle, &Literal::Boolean(true)).unwrap(), "true");
    assert_eq!(boolean.literal(&oracle, &Literal::Boolean(false)).unwrap(), "false");
    assert_eq!(unexpected(boolean.literal(&oracle, &Literal::Null)), "Null");
    assert_eq!(
        primitives::render_literal(&oracle, &Literal::String("s".to_string())).unwrap(),
        "\"s\""
    );
    assert_eq!(
        primitives::render_literal(&oracle, &Literal::Int(5, Radix::Decimal, Type::Int64))
            .unwrap(),
        "5L"
    );
    assert_eq!(
        primitives::render_literal(&oracle, &Literal::UInt(5, Radix::Hexadecimal, Type::UInt32))
            .unwrap(),
        "0x5u"
    );
    assert_eq!(
        primitives::render_literal(&oracle, &Literal::Float("0.5".to_string(), Type::Float32))
            .unwrap(),
        "0.5f"
    );
    assert_eq!(
        unexpected(primitives::render_literal(
            &oracle,
            &Literal::Enum("a".to_string(), Type::Enum("E".to_string()))
        )),
        "Enum"
    );
}

#[test]
fn literal_kinds_are_named() {
    assert_eq!(Literal::Boolean(true).kind(), "Boolean");
    assert_eq!(Literal::String(String::new()).kind(), "String");
    assert_eq!(Literal::Null.kind(), "Null");
    assert_eq!(Literal::EmptySequence.kind(), "EmptySequence");
    assert_eq!(Literal::EmptyMap.kind(), "EmptyMap");
    assert_eq!(Literal::Enum(String::new(), Type::String).kind(), "Enum");
    assert_eq!(Literal::Int(0, Radix::Decimal, Type::Int8).kind(), "Int");
    assert_eq!(Literal::UInt(0, Radix::Decimal, Type::UInt8).kind(), "UInt");
    assert_eq!(Literal::Float(String::new(), Type::Float32).kind(), "Float");
}

#[test]
fn errors_say_what_they_are_about() {
    assert_eq!(
        BindingsError::NotANumber("0x10".to_string()).message(),
        "Unexpected literal: 0x10 is not a number"
    );
    assert_eq!(
        BindingsError::UnexpectedLiteral("Null".to_string()).message(),
        "Unexpected literal: the type has no constant of the kind Null"
    );
    assert_eq!(
        BindingsError::NameCollision("EnumFooBar".to_string()).message(),
        "Two different types come under the canonical name EnumFooBar"
    );
    assert_eq!(
        BindingsError::UnboundedType("RecordNode".to_string()).message(),
        "A value of the type RecordNode would have to hold a value of the same type in itself"
    );
    let literal = Literal::Int(3, Radix::Decimal, Type::Timestamp);
    assert_eq!(
        filters::literal_kt(&literal).unwrap_err().message(),
        "Unexpected literal: 3 is not a number"
    );
}
