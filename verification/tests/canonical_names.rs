use uniffi_bindgen::bindings::backend::CodeType;
use uniffi_bindgen::bindings::kotlin::gen_kotlin::KotlinLanguageOracle;
use uniffi_bindgen::interface::types::same_type;
use uniffi_bindgen::interface::types::Type;

fn optional(t: Type) -> Type {
    Type::Optional(Box::new(t))
}

fn sequence(t: Type) -> Type {
    Type::Sequence(Box::new(t))
}

fn mapping(t: Type) -> Type {
    Type::Mapping(Box::new(t))
}

#[test]
fn canonical_names_of_leaves() {
    assert_eq!(Type::UInt8.canonical_name(), "u8");
    assert_eq!(Type::Int8.canonical_name(), "i8");
    assert_eq!(Type::UInt16.canonical_name(), "u16");
    assert_eq!(Type::Int16.canonical_name(), "i16");
    assert_eq!(Type::UInt32.canonical_name(), "u32");
    assert_eq!(Type::Int32.canonical_name(), "i32");
    assert_eq!(Type::UInt64.canonical_name(), "u64");
    assert_eq!(Type::Int64.canonical_name(), "i64");
    assert_eq!(Type::Float32.canonical_name(), "f32");
    assert_eq!(Type::Float64.canonical_name(), "f64");
    assert_eq!(Type::Boolean.canonical_name(), "bool");
    assert_eq!(Type::String.canonical_name(), "string");
    assert_eq!(Type::Timestamp.canonical_name(), "Timestamp");
    assert_eq!(Type::Duration.canonical_name(), "Duration");
}

#[test]
fn canonical_names_of_nominal_and_compound_types() {
    assert_eq!(Type::Object("Door".to_string()).canonical_name(), "ObjectDoor");
    assert_eq!(Type::Record("Point".to_string()).canonical_name(), "RecordPoint");
    assert_eq!(Type::Enum("Colour".to_string()).canonical_name(), "EnumColour");
    assert_eq!(Type::Error("Oops".to_string()).canonical_name(), "ErrorOops");
    assert_eq!(
        Type::CallbackInterface("Listener".to_string()).canonical_name(),
        "CallbackInterfaceListener"
    );
    assert_eq!(optional(Type::Int32).canonical_name(), "Optionali32");
    assert_eq!(sequence(Type::String).canonical_name(), "Sequencestring");
    assert_eq!(mapping(Type::Boolean).canonical_name(), "Mapbool");
    assert_eq!(
        sequence(optional(mapping(Type::Record("Point".to_string())))).canonical_name(),
        "SequenceOptionalMapRecordPoint"
    );
}

#[test]
fn a_record_that_looks_like_a_compound_keeps_its_own_name() {
    let types = vec![
        optional(Type::String),
        sequence(Type::String),
        optional(optional(Type::String)),
        Type::Record("Optionalstring".to_string()),
    ];
    let names: Vec<String> = types.iter().map(|t| t.canonical_name()).collect();
    for i in 0..names.len() {
        for j in 0..names.len() {
            if i != j {
                assert_ne!(names[i], names[j]);
            }
        }
    }
}

#[test]
fn handlers_keep_compound_and_nominal_names_apart() {
    let oracle = KotlinLanguageOracle;
    let types = vec![
        optional(Type::String),
        sequence(Type::String),
        optional(optional(Type::String)),
        Type::Record("OptionalString".to_string()),
    ];
    let names: Vec<String> =
        types.iter().map(|t| oracle.find(t).canonical_name(&oracle)).collect();
    assert_eq!(
        names,
        vec![
            "OptionalString".to_string(),
            "SequenceString".to_string(),
            "OptionalOptionalString".to_string(),
            "RecordOptionalString".to_string(),
        ]
    );
    for i in 0..names.len() {
        for j in 0..names.len() {
            if i != j {
                assert_ne!(names[i], names[j]);
            }
        }
    }
}

#[test]
fn cloning_a_type_keeps_its_canonical_name() {
    let t = mapping(sequence(optional(Type::Enum("Colour".to_string()))));
    assert_eq!(t.clone().canonical_name(), t.canonical_name());
    assert_eq!(t.clone(), t);
}

#[test]
fn types_are_the_same_by_their_shape_and_names() {
    let a = mapping(sequence(optional(Type::Enum("Colour".to_string()))));
    assert!(same_type(&a, &a.clone()));
    assert!(!same_type(&a, &mapping(sequence(optional(Type::Enum("Color".to_string()))))));
    assert!(!same_type(&a, &mapping(sequence(optional(Type::Record("Colour".to_string()))))));
    assert!(!same_type(&a, &mapping(optional(sequence(Type::Enum("Colour".to_string()))))));
    assert!(same_type(&Type::UInt8, &Type::UInt8));
    assert!(!same_type(&Type::UInt8, &Type::Int8));
    assert!(!same_type(&Type::String, &optional(Type::String)));
    assert!(same_type(&Type::Timestamp, &Type::Timestamp));
}
