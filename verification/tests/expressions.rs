use uniffi_bindgen::bindings::backend::CodeType;
use uniffi_bindgen::bindings::kotlin::gen_kotlin::dispatch::KotlinCodeType;
use uniffi_bindgen::bindings::kotlin::gen_kotlin::fallback::FallbackCodeType;
use uniffi_bindgen::bindings::kotlin::gen_kotlin::filters;
use uniffi_bindgen::bindings::kotlin::gen_kotlin::legacy_kt;
use uniffi_bindgen::bindings::kotlin::gen_kotlin::KotlinLanguageOracle;
use uniffi_bindgen::interface::types::Type;

fn optional(t: Type) -> Type {
    Type::Optional(Box::new(t))
}

fn sequence(t: Type) -> Type {
    Type::Sequence(Box::new(t))
}

fn mapping(t: Type) -> Type {
    Type::Mapping(Box::new(t))
}

#[test]
fn plain_type_names() {
    let cases = vec![
        (Type::UInt8, "UByte"),
        (Type::UInt16, "UShort"),
        (Type::UInt32, "UInt"),
        (Type::UInt64, "ULong"),
        (Type::Int8, "Byte"),
        (Type::Int16, "Short"),
        (Type::Int32, "Int"),
        (Type::Int64, "Long"),
        (Type::Float32, "Float"),
        (Type::Float64, "Double"),
        (Type::Boolean, "Boolean"),
        (Type::String, "String"),
        (Type::Timestamp, "java.time.Instant"),
        (Type::Duration, "java.time.Duration"),
        (Type::Enum("my_enum".to_string()), "MyEnum"),
        (Type::Record("my_record".to_string()), "MyRecord"),
        (Type::Object("my_object".to_string()), "MyObject"),
        (Type::Error("my_error".to_string()), "MyError"),
        (Type::CallbackInterface("my_listener".to_string()), "MyListener"),
        (optional(Type::Int32), "Int?"),
        (sequence(Type::String), "List<String>"),
        (mapping(Type::Float64), "Map<String, Double>"),
        (
            sequence(optional(mapping(Type::Record("point".to_string())))),
            "List<Map<String, Point>?>",
        ),
    ];
    for (type_, expected) in cases {
        assert_eq!(legacy_kt::type_kt(&type_).unwrap(), expected);
        assert_eq!(filters::type_kt(&type_).unwrap(), expected);
    }
}

#[test]
fn plain_expressions_for_types_with_methods() {
    let t = Type::Int32;
    assert_eq!(legacy_kt::lower_kt("the_value", &t).unwrap(), "theValue.lower()");
    assert_eq!(legacy_kt::write_kt("the_value", "buf", &t).unwrap(), "theValue.write(buf)");
    assert_eq!(legacy_kt::lift_kt("ret", &t).unwrap(), "Int.lift(ret)");
    assert_eq!(legacy_kt::read_kt("buf", &t).unwrap(), "Int.read(buf)");
    let t = Type::Record("my_point".to_string());
    assert_eq!(legacy_kt::lower_kt("p", &t).unwrap(), "p.lower()");
    assert_eq!(legacy_kt::lift_kt("ret", &t).unwrap(), "MyPoint.lift(ret)");
}

#[test]
fn plain_expressions_for_types_with_named_helpers() {
    let t = Type::Timestamp;
    assert_eq!(legacy_kt::lower_kt("when", &t).unwrap(), "lowerTimestamp(when)");
    assert_eq!(legacy_kt::write_kt("when", "buf", &t).unwrap(), "writeTimestamp(when, buf)");
    assert_eq!(legacy_kt::lift_kt("ret", &t).unwrap(), "liftTimestamp(ret)");
    assert_eq!(legacy_kt::read_kt("buf", &t).unwrap(), "readTimestamp(buf)");
    let t = Type::Duration;
    assert_eq!(legacy_kt::lower_kt("d", &t).unwrap(), "lowerDuration(d)");
    let t = optional(Type::String);
    assert_eq!(legacy_kt::lower_kt("v", &t).unwrap(), "lowerOptionalstring(v)");
    assert_eq!(legacy_kt::write_kt("v", "b", &t).unwrap(), "writeOptionalstring(v, b)");
    assert_eq!(legacy_kt::lift_kt("v", &t).unwrap(), "liftOptionalstring(v)");
    assert_eq!(legacy_kt::read_kt("b", &t).unwrap(), "readOptionalstring(b)");
}

#[test]
fn plain_expressions_for_callback_interfaces() {
    let t = Type::CallbackInterface("Listener".to_string());
    assert_eq!(
        legacy_kt::lower_kt("the_cb", &t).unwrap(),
        "CallbackInterfaceListenerInternals.lower(theCb)"
    );
    assert_eq!(
        legacy_kt::write_kt("the_cb", "buf", &t).unwrap(),
        "CallbackInterfaceListenerInternals.write(theCb, buf)"
    );
    assert_eq!(
        legacy_kt::lift_kt("ret", &t).unwrap(),
        "CallbackInterfaceListenerInternals.lift(ret)"
    );
    assert_eq!(
        legacy_kt::read_kt("buf", &t).unwrap(),
        "CallbackInterfaceListenerInternals.read(buf)"
    );
}

#[test]
fn the_handler_is_found_by_the_kind_of_the_type() {
    let oracle = KotlinLanguageOracle;
    assert!(matches!(oracle.find(&Type::String), KotlinCodeType::String(_)));
    assert!(matches!(oracle.find(&Type::Boolean), KotlinCodeType::Boolean(_)));
    assert!(matches!(oracle.find(&Type::Enum("e".to_string())), KotlinCodeType::Enum(_)));
    assert!(matches!(oracle.find(&Type::Record("r".to_string())), KotlinCodeType::Record(_)));
    assert!(matches!(oracle.find(&Type::Object("o".to_string())), KotlinCodeType::Object(_)));
    assert!(matches!(oracle.find(&Type::Error("e".to_string())), KotlinCodeType::Error(_)));
    assert!(matches!(
        oracle.find(&Type::CallbackInterface("c".to_string())),
        KotlinCodeType::CallbackInterface(_)
    ));
    assert!(matches!(oracle.find(&optional(Type::Int8)), KotlinCodeType::Optional(_)));
    assert!(matches!(oracle.find(&sequence(Type::Int8)), KotlinCodeType::Sequence(_)));
    assert!(matches!(oracle.find(&mapping(Type::Int8)), KotlinCodeType::Mapping(_)));
    for plain in [
        Type::UInt8,
        Type::Int8,
        Type::UInt16,
        Type::Int16,
        Type::UInt32,
        Type::Int32,
        Type::UInt64,
        Type::Int64,
        Type::Float32,
        Type::Float64,
        Type::Timestamp,
        Type::Duration,
    ] {
        assert!(matches!(oracle.find(&plain), KotlinCodeType::Fallback(_)));
    }
}

#[test]
fn string_expressions() {
    let t = Type::String;
    assert_eq!(filters::lower_kt("the_name", &t).unwrap(), "StringInternals.lower(theName)");
    assert_eq!(
        filters::write_kt("the_name", "buf", &t).unwrap(),
        "StringInternals.write(theName, buf)"
    );
    assert_eq!(filters::lift_kt("ret_val", &t).unwrap(), "StringInternals.lift(ret_val)");
    assert_eq!(filters::read_kt("buf", &t).unwrap(), "StringInternals.read(buf)");
    let oracle = KotlinLanguageOracle;
    assert_eq!(oracle.find(&t).canonical_name(&oracle), "String");
    assert_eq!(oracle.find(&t).import_code(&oracle), None);
}

#[test]
fn boolean_expressions() {
    let t = Type::Boolean;
    assert_eq!(filters::lower_kt("is_on", &t).unwrap(), "BoolInternals.lower(isOn)");
    assert_eq!(filters::write_kt("is_on", "buf", &t).unwrap(), "BoolInternals.write(isOn, buf)");
    assert_eq!(filters::lift_kt("ret", &t).unwrap(), "BoolInternals.lift(ret)");
    assert_eq!(filters::read_kt("buf", &t).unwrap(), "BoolInternals.read(buf)");
    let oracle = KotlinLanguageOracle;
    assert_eq!(oracle.find(&t).canonical_name(&oracle), "Boolean");
    assert_eq!(oracle.find(&t).type_label(&oracle), "Boolean");
}

#[test]
fn nominal_expressions() {
    let oracle = KotlinLanguageOracle;
    let cases = vec![
        (Type::Enum("my_thing".to_string()), "EnumMyThing", "enum", "EnumTemplate.kt"),
        (Type::Record("my_thing".to_string()), "RecordMyThing", "record", "RecordTemplate.kt"),
        (Type::Object("my_thing".to_string()), "ObjectMyThing", "class", "ObjectTemplate.kt"),
        (Type::Error("my_thing".to_string()), "ErrorMyThing", "enum", "ErrorTemplate.kt"),
    ];
    for (t, canonical, word, template) in cases {
        let handler = oracle.find(&t);
        assert_eq!(handler.type_label(&oracle), "MyThing");
        assert_eq!(handler.canonical_name(&oracle), canonical);
        assert_eq!(handler.lower(&oracle, "the_arg"), "theArg.lower()");
        assert_eq!(handler.write(&oracle, "the_arg", "buf"), "theArg.write(buf)");
        assert_eq!(handler.lift(&oracle, "ret"), "MyThing.lift(ret)");
        assert_eq!(handler.read(&oracle, "buf"), "MyThing.read(buf)");
        assert_eq!(
            handler.helper_code(&oracle).unwrap(),
            format!("// Helper code for MyThing {} is found in {}", word, template)
        );
        assert_eq!(filters::lower_kt("the_arg", &t).unwrap(), "theArg.lower()");
        assert_eq!(filters::write_kt("the_arg", "buf", &t).unwrap(), "theArg.write(buf)");
        assert_eq!(filters::lift_kt("ret", &t).unwrap(), "MyThing.lift(ret)");
        assert_eq!(filters::read_kt("buf", &t).unwrap(), "MyThing.read(buf)");
    }
}

#[test]
fn only_objects_import_something() {
    let oracle = KotlinLanguageOracle;
    assert_eq!(
        oracle.find(&Type::Object("Door".to_string())).import_code(&oracle),
        Some(vec![
            "java.util.concurrent.atomic.AtomicLong".to_string(),
            "java.util.concurrent.atomic.AtomicBoolean".to_string(),
        ])
    );
    assert_eq!(oracle.find(&Type::Record("Door".to_string())).import_code(&oracle), None);
    assert_eq!(oracle.find(&Type::Enum("Door".to_string())).import_code(&oracle), None);
    assert_eq!(oracle.find(&optional(Type::Object("Door".to_string()))).import_code(&oracle), None);
    assert_eq!(oracle.find(&Type::Int32).import_code(&oracle), None);
}

#[test]
fn callback_interface_expressions() {
    let oracle = KotlinLanguageOracle;
    let t = Type::CallbackInterface("on_event".to_string());
    let handler = oracle.find(&t);
    assert_eq!(handler.type_label(&oracle), "OnEvent");
    assert_eq!(handler.canonical_name(&oracle), "CallbackInterfaceOnEvent");
    assert_eq!(
        handler.lower(&oracle, "the_cb"),
        "CallbackInterfaceOnEventInternals.lower(theCb)"
    );
    assert_eq!(
        handler.write(&oracle, "the_cb", "buf"),
        "CallbackInterfaceOnEventInternals.write(theCb, buf)"
    );
    assert_eq!(
        handler.lift(&oracle, "ret"),
        "CallbackInterfaceOnEventInternals.lift(OnEvent, ret)"
    );
    assert_eq!(
        handler.read(&oracle, "buf"),
        "CallbackInterfaceOnEventInternals.read(OnEvent, buf)"
    );
    assert_eq!(
        handler.helper_code(&oracle).unwrap(),
        "// Helper code for OnEvent callback interface is found in CallbackInterfaceTemplate.kt"
    );
}

#[test]
fn compound_expressions_compose_with_the_wrapped_type() {
    let oracle = KotlinLanguageOracle;
    let cases = vec![
        (optional(Type::String), "String?", "OptionalString"),
        (sequence(Type::Boolean), "List<Boolean>", "SequenceBoolean"),
        (mapping(Type::Int32), "Map<String, Int>", "Mapi32"),
        (
            sequence(optional(Type::Record("point".to_string()))),
            "List<Point?>",
            "SequenceOptionalRecordPoint",
        ),
        (
            optional(mapping(sequence(Type::Enum("colour".to_string())))),
            "Map<String, List<Colour>>?",
            "OptionalMapSequenceEnumColour",
        ),
        (
            mapping(optional(sequence(mapping(Type::Timestamp)))),
            "Map<String, List<Map<String, java.time.Instant>>?>",
            "MapOptionalSequenceMapTimestamp",
        ),
    ];
    for (t, label, canonical) in cases {
        let handler = oracle.find(&t);
        assert_eq!(handler.type_label(&oracle), label);
        assert_eq!(handler.canonical_name(&oracle), canonical);
        assert_eq!(handler.lower(&oracle, "the_arg"), format!("lower{}(theArg)", canonical));
        assert_eq!(
            handler.write(&oracle, "the_arg", "buf"),
            format!("write{}(theArg, buf)", canonical)
        );
        assert_eq!(handler.lift(&oracle, "ret"), format!("lift{}(ret)", canonical));
        assert_eq!(handler.read(&oracle, "buf"), format!("read{}(buf)", canonical));
        assert_eq!(filters::lower_kt("the_arg", &t).unwrap(), format!("lower{}(theArg)", canonical));
    }
}

#[test]
fn the_plain_handler_writes_what_the_shape_gives() {
    let oracle = KotlinLanguageOracle;
    let handler = FallbackCodeType::new(Type::UInt16);
    assert_eq!(handler.type_label(&oracle), "UShort");
    assert_eq!(handler.canonical_name(&oracle), "u16");
    assert_eq!(handler.lower(&oracle, "the_n"), "theN.lower()");
    assert_eq!(handler.write(&oracle, "the_n", "buf"), "theN.write(buf)");
    assert_eq!(handler.lift(&oracle, "ret"), "UShort.lift(ret)");
    assert_eq!(handler.read(&oracle, "buf"), "UShort.read(buf)");
    assert_eq!(handler.helper_code(&oracle), None);
    assert_eq!(handler.import_code(&oracle), None);
    assert_eq!(filters::helper_code(&Type::UInt16).unwrap(), None);
}
