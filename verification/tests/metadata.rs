use uniffi_bindgen::interface::component::ComponentInterface;
use uniffi_bindgen::interface::definitions::Argument;
use uniffi_bindgen::interface::definitions::CallbackInterface;
use uniffi_bindgen::interface::definitions::Constructor;
use uniffi_bindgen::interface::definitions::Enum;
use uniffi_bindgen::interface::definitions::Error;
use uniffi_bindgen::interface::definitions::Field;
use uniffi_bindgen::interface::definitions::Function;
use uniffi_bindgen::interface::definitions::Method;
use uniffi_bindgen::interface::definitions::Object;
use uniffi_bindgen::interface::definitions::Record;
use uniffi_bindgen::interface::definitions::Variant;
use uniffi_bindgen::interface::types::Type;

fn empty(namespace: &str) -> ComponentInterface {
    ComponentInterface {
        namespace: namespace.to_string(),
        enums: vec![],
        records: vec![],
        errors: vec![],
        objects: vec![],
        callback_interfaces: vec![],
        functions: vec![],
    }
}

fn field(name: &str, type_: Type) -> Field {
    Field { name: name.to_string(), type_ }
}

fn argument(name: &str, type_: Type) -> Argument {
    Argument { name: name.to_string(), type_ }
}

fn record(name: &str, fields: Vec<Field>) -> Record {
    Record { name: name.to_string(), fields }
}

fn optional(t: Type) -> Type {
    Type::Optional(Box::new(t))
}

fn sequence(t: Type) -> Type {
    Type::Sequence(Box::new(t))
}

fn mapping(t: Type) -> Type {
    Type::Mapping(Box::new(t))
}

fn named(kind: fn(String) -> Type, name: &str) -> Type {
    kind(name.to_string())
}

#[test]
fn a_record_that_holds_itself_behind_an_optional() {
    let mut ci = empty("loop");
    ci.records.push(record("Node", vec![field("next", optional(named(Type::Record, "Node")))]));
    let node = &ci.records[0];
    assert!(!node.contains_unsigned_types(&ci));
    assert!(!node.contains_object_references(&ci));
    assert!(!ci.type_contains_unsigned_types(&named(Type::Record, "Node")));
    assert!(!ci.type_contains_object_references(&named(Type::Record, "Node")));
}

#[test]
fn a_record_that_holds_itself_and_an_object() {
    let mut ci = empty("loop");
    ci.records.push(record(
        "Node",
        vec![
            field("next", optional(named(Type::Record, "Node"))),
            field("door", named(Type::Object, "Door")),
            field("count", Type::UInt32),
        ],
    ));
    let node = &ci.records[0];
    assert!(node.contains_unsigned_types(&ci));
    assert!(node.contains_object_references(&ci));
}

#[test]
fn two_records_that_hold_each_other() {
    let mut ci = empty("pair");
    ci.records.push(record("A", vec![field("b", sequence(named(Type::Record, "B")))]));
    ci.records.push(record(
        "B",
        vec![field("a", mapping(named(Type::Record, "A"))), field("n", Type::UInt8)],
    ));
    assert!(ci.records[0].contains_unsigned_types(&ci));
    assert!(ci.records[1].contains_unsigned_types(&ci));
    assert!(!ci.records[0].contains_object_references(&ci));
    assert!(!ci.records[1].contains_object_references(&ci));
}

#[test]
fn a_record_that_holds_itself_directly_ends_the_walk_too() {
    let mut ci = empty("direct");
    ci.records.push(record("Selfish", vec![field("me", named(Type::Record, "Selfish"))]));
    assert!(!ci.records[0].contains_unsigned_types(&ci));
    assert!(!ci.records[0].contains_object_references(&ci));
}

#[test]
fn unsigned_types_are_found_at_any_depth() {
    let ci = empty("deep");
    assert!(ci.type_contains_unsigned_types(&Type::UInt8));
    assert!(ci.type_contains_unsigned_types(&Type::UInt16));
    assert!(ci.type_contains_unsigned_types(&Type::UInt32));
    assert!(ci.type_contains_unsigned_types(&Type::UInt64));
    assert!(ci.type_contains_unsigned_types(&optional(sequence(mapping(Type::UInt64)))));
    assert!(!ci.type_contains_unsigned_types(&Type::Int8));
    assert!(!ci.type_contains_unsigned_types(&Type::Float64));
    assert!(!ci.type_contains_unsigned_types(&Type::String));
    assert!(!ci.type_contains_unsigned_types(&optional(sequence(mapping(Type::Int64)))));
}

#[test]
fn an_object_reference_is_found_through_a_chain_of_definitions() {
    let mut ci = empty("chain");
    ci.records.push(record("Outer", vec![field("inner", named(Type::Enum, "Middle"))]));
    ci.enums.push(Enum {
        name: "Middle".to_string(),
        variants: vec![
            Variant { name: "Nothing".to_string(), fields: vec![] },
            Variant {
                name: "Something".to_string(),
                fields: vec![field("what", sequence(named(Type::Record, "Inner")))],
            },
        ],
    });
    ci.records.push(record("Inner", vec![field("door", optional(named(Type::Object, "Door")))]));
    assert!(ci.records[0].contains_object_references(&ci));
    assert!(ci.enums[0].contains_object_references(&ci));
    assert!(ci.records[1].contains_object_references(&ci));
    assert!(!ci.records[0].contains_unsigned_types(&ci));
    assert!(!ci.enums[0].contains_unsigned_types(&ci));
}

#[test]
fn an_object_type_is_a_reference_to_an_object() {
    let ci = empty("o");
    assert!(ci.type_contains_object_references(&named(Type::Object, "Door")));
    assert!(ci.type_contains_object_references(&optional(named(Type::Object, "Door"))));
    assert!(!ci.type_contains_object_references(&named(Type::Record, "Door")));
    assert!(!ci.type_contains_object_references(&named(Type::CallbackInterface, "Door")));
}

#[test]
fn a_name_that_is_not_declared_stands_for_nothing() {
    let mut ci = empty("dangling");
    ci.records.push(record("Holder", vec![field("ghost", named(Type::Record, "Ghost"))]));
    assert!(!ci.records[0].contains_unsigned_types(&ci));
    assert!(!ci.records[0].contains_object_references(&ci));
    let loose = record("Loose", vec![field("n", Type::UInt8)]);
    assert!(loose.contains_unsigned_types(&ci));
    assert!(!loose.contains_object_references(&ci));
}

#[test]
fn of_two_definitions_with_one_name_the_first_counts() {
    let mut ci = empty("twice");
    ci.records.push(record("Same", vec![field("n", Type::Int8)]));
    ci.records.push(record("Same", vec![field("n", Type::UInt8)]));
    assert!(!ci.type_contains_unsigned_types(&named(Type::Record, "Same")));
    assert_eq!(ci.get_record_definition(&"Same".to_string()).unwrap().fields[0].type_, Type::Int8);
}

#[test]
fn kinds_do_not_share_names() {
    let mut ci = empty("kinds");
    ci.records.push(record("Thing", vec![field("n", Type::UInt8)]));
    ci.enums.push(Enum { name: "Thing".to_string(), variants: vec![] });
    assert!(ci.type_contains_unsigned_types(&named(Type::Record, "Thing")));
    assert!(!ci.type_contains_unsigned_types(&named(Type::Enum, "Thing")));
    assert!(!ci.type_contains_unsigned_types(&named(Type::Error, "Thing")));
}

#[test]
fn errors_objects_callbacks_and_functions_are_walked() {
    let mut ci = empty("all");
    ci.errors.push(Error {
        name: "Oops".to_string(),
        variants: vec![Variant {
            name: "Bad".to_string(),
            fields: vec![field("door", named(Type::Object, "Door"))],
        }],
    });
    ci.objects.push(Object {
        name: "Door".to_string(),
        constructors: vec![Constructor {
            name: "new".to_string(),
            arguments: vec![argument("width", Type::Int32)],
        }],
        methods: vec![Method {
            name: "open".to_string(),
            arguments: vec![argument("how_far", Type::Float32)],
            return_type: Some(optional(Type::UInt16)),
        }],
    });
    ci.callback_interfaces.push(CallbackInterface {
        name: "Listener".to_string(),
        methods: vec![Method {
            name: "heard".to_string(),
            arguments: vec![argument("what", sequence(Type::UInt8))],
            return_type: None,
        }],
    });
    ci.functions.push(Function {
        name: "knock".to_string(),
        arguments: vec![argument("door", named(Type::Object, "Door"))],
        return_type: None,
    });
    ci.functions.push(Function {
        name: "count".to_string(),
        arguments: vec![],
        return_type: Some(Type::Int64),
    });
    assert!(ci.errors[0].contains_object_references(&ci));
    assert!(ci.objects[0].contains_unsigned_types(&ci));
    assert!(ci.callback_interfaces[0].contains_unsigned_types(&ci));
    assert!(ci.functions[0].contains_unsigned_types(&ci));
    assert!(!ci.functions[1].contains_unsigned_types(&ci));
    assert!(ci.type_contains_unsigned_types(&named(Type::Error, "Oops")));
    assert!(ci.type_contains_unsigned_types(&named(Type::CallbackInterface, "Listener")));
}

#[test]
fn definitions_are_found_by_name() {
    let mut ci = empty("names");
    ci.enums.push(Enum { name: "E".to_string(), variants: vec![] });
    ci.records.push(record("R", vec![]));
    ci.errors.push(Error { name: "X".to_string(), variants: vec![] });
    ci.objects.push(Object { name: "O".to_string(), constructors: vec![], methods: vec![] });
    ci.callback_interfaces.push(CallbackInterface { name: "C".to_string(), methods: vec![] });
    assert_eq!(ci.namespace(), "names");
    assert_eq!(ci.get_enum_definition(&"E".to_string()).unwrap().name(), "E");
    assert_eq!(ci.get_record_definition(&"R".to_string()).unwrap().name(), "R");
    assert_eq!(ci.get_error_definition(&"X".to_string()).unwrap().name(), "X");
    assert_eq!(ci.get_object_definition(&"O".to_string()).unwrap().name(), "O");
    assert_eq!(ci.get_callback_interface_definition(&"C".to_string()).unwrap().name(), "C");
    assert!(ci.get_enum_definition(&"R".to_string()).is_none());
    assert!(ci.get_record_definition(&"E".to_string()).is_none());
    assert!(ci.get_error_definition(&"O".to_string()).is_none());
    assert!(ci.get_object_definition(&"X".to_string()).is_none());
    assert!(ci.get_callback_interface_definition(&"c".to_string()).is_none());
}

#[test]
fn the_types_of_a_definition_come_in_their_order() {
    let e = Enum {
        name: "E".to_string(),
        variants: vec![
            Variant { name: "A".to_string(), fields: vec![field("x", Type::Int8), field("y", Type::Int16)] },
            Variant { name: "B".to_string(), fields: vec![] },
            Variant { name: "C".to_string(), fields: vec![field("z", Type::String)] },
        ],
    };
    assert_eq!(e.iter_types(), vec![Type::Int8, Type::Int16, Type::String]);
    let o = Object {
        name: "O".to_string(),
        constructors: vec![Constructor { name: "new".to_string(), arguments: vec![argument("a", Type::Boolean)] }],
        methods: vec![
            Method { name: "m".to_string(), arguments: vec![argument("b", Type::Int32)], return_type: Some(Type::String) },
            Method { name: "n".to_string(), arguments: vec![], return_type: None },
        ],
    };
    assert_eq!(o.iter_types(), vec![Type::Boolean, Type::Int32, Type::String]);
    let f = Function {
        name: "f".to_string(),
        arguments: vec![argument("a", Type::Float32), argument("b", Type::Float64)],
        return_type: Some(Type::Timestamp),
    };
    assert_eq!(f.iter_types(), vec![Type::Float32, Type::Float64, Type::Timestamp]);
    assert_eq!(f.arguments[0].name(), "a");
    assert_eq!(f.arguments[0].type_(), Type::Float32);
    assert_eq!(field("q", Type::Int8).name(), "q");
    assert_eq!(field("q", Type::Int8).type_(), Type::Int8);
}

#[test]
fn every_type_of_an_interface_in_the_order_of_declaration() {
    let mut ci = empty("u");
    ci.records.push(record(
        "R",
        vec![field("a", optional(sequence(Type::String))), field("b", Type::Int8)],
    ));
    ci.enums.push(Enum { name: "E".to_string(), variants: vec![] });
    ci.functions.push(Function {
        name: "f".to_string(),
        arguments: vec![argument("x", mapping(Type::Boolean))],
        return_type: Some(named(Type::Record, "R")),
    });
    assert_eq!(
        ci.iter_types(),
        vec![
            named(Type::Enum, "E"),
            named(Type::Record, "R"),
            Type::String,
            sequence(Type::String),
            optional(sequence(Type::String)),
            Type::Int8,
            Type::Boolean,
            mapping(Type::Boolean),
            named(Type::Record, "R"),
        ]
    );
}

#[test]
fn a_record_that_holds_itself_directly_has_no_end() {
    let mut ci = empty("direct");
    ci.records.push(record("Fine", vec![field("n", Type::Int8)]));
    ci.records.push(record("Selfish", vec![field("me", named(Type::Record, "Selfish"))]));
    assert!(!ci.type_holds_itself(&named(Type::Record, "Fine")));
    assert!(ci.type_holds_itself(&named(Type::Record, "Selfish")));
    assert_eq!(ci.first_holding_itself(), Some(named(Type::Record, "Selfish")));
}

#[test]
fn a_record_that_holds_itself_behind_a_compound_has_an_end() {
    let mut ci = empty("behind");
    ci.records.push(record("A", vec![field("next", optional(named(Type::Record, "A")))]));
    ci.records.push(record("B", vec![field("all", sequence(named(Type::Record, "B")))]));
    ci.records.push(record("C", vec![field("by_name", mapping(named(Type::Record, "C")))]));
    ci.records.push(record("D", vec![field("door", named(Type::Object, "D"))]));
    assert!(!ci.type_holds_itself(&named(Type::Record, "A")));
    assert!(!ci.type_holds_itself(&named(Type::Record, "B")));
    assert!(!ci.type_holds_itself(&named(Type::Record, "C")));
    assert!(!ci.type_holds_itself(&named(Type::Record, "D")));
    assert_eq!(ci.first_holding_itself(), None);
}

#[test]
fn a_ring_of_definitions_without_a_compound_has_no_end() {
    let mut ci = empty("ring");
    ci.records.push(record("A", vec![field("e", named(Type::Enum, "E"))]));
    ci.enums.push(Enum {
        name: "E".to_string(),
        variants: vec![
            Variant { name: "None".to_string(), fields: vec![] },
            Variant { name: "Some".to_string(), fields: vec![field("x", named(Type::Error, "X"))] },
        ],
    });
    ci.errors.push(Error {
        name: "X".to_string(),
        variants: vec![Variant {
            name: "Bad".to_string(),
            fields: vec![field("a", named(Type::Record, "A"))],
        }],
    });
    ci.records.push(record("Outside", vec![field("a", named(Type::Record, "A"))]));
    assert!(ci.type_holds_itself(&named(Type::Record, "A")));
    assert!(ci.type_holds_itself(&named(Type::Enum, "E")));
    assert!(ci.type_holds_itself(&named(Type::Error, "X")));
    assert!(!ci.type_holds_itself(&named(Type::Record, "Outside")));
    assert_eq!(ci.first_holding_itself(), Some(named(Type::Enum, "E")));
}

#[test]
fn a_ring_that_a_compound_breaks_has_an_end() {
    let mut ci = empty("broken ring");
    ci.records.push(record("A", vec![field("b", named(Type::Record, "B"))]));
    ci.records.push(record("B", vec![field("a", optional(named(Type::Record, "A")))]));
    assert!(!ci.type_holds_itself(&named(Type::Record, "A")));
    assert!(!ci.type_holds_itself(&named(Type::Record, "B")));
    assert!(!ci.type_holds_itself(&Type::Int8));
    assert!(!ci.type_holds_itself(&optional(named(Type::Record, "A"))));
    assert!(!ci.type_holds_itself(&named(Type::Record, "Ghost")));
    assert_eq!(ci.first_holding_itself(), None);
}
