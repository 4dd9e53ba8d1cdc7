use uniffi_bindgen::bindings::backend::BindingsError;
use uniffi_bindgen::bindings::backend::MemberDeclaration;
use uniffi_bindgen::bindings::kotlin::gen_kotlin::callback_interface::KotlinCallbackInterface;
use uniffi_bindgen::bindings::kotlin::gen_kotlin::enum_::KotlinEnum;
use uniffi_bindgen::bindings::kotlin::gen_kotlin::error::KotlinError;
use uniffi_bindgen::bindings::kotlin::gen_kotlin::function::KotlinFunction;
use uniffi_bindgen::bindings::kotlin::gen_kotlin::object::KotlinObject;
use uniffi_bindgen::bindings::kotlin::gen_kotlin::object::KotlinObjectRuntime;
use uniffi_bindgen::bindings::kotlin::gen_kotlin::record::KotlinRecord;
use uniffi_bindgen::bindings::kotlin::gen_kotlin::Config;
use uniffi_bindgen::bindings::kotlin::gen_kotlin::helpers::HelperBlock;
use uniffi_bindgen::bindings::kotlin::gen_kotlin::KotlinLanguageOracle;
use uniffi_bindgen::bindings::kotlin::gen_kotlin::members::KotlinMember;
use uniffi_bindgen::bindings::kotlin::gen_kotlin::KotlinWrapper;
use uniffi_bindgen::interface::component::ComponentInterface;
use uniffi_bindgen::interface::definitions::Argument;
use uniffi_bindgen::interface::definitions::CallbackInterface;
use uniffi_bindgen::interface::definitions::Enum;
use uniffi_bindgen::interface::definitions::Error;
use uniffi_bindgen::interface::definitions::Field;
use uniffi_bindgen::interface::definitions::Function;
use uniffi_bindgen::interface::definitions::Method;
use uniffi_bindgen::interface::definitions::Object;
use uniffi_bindgen::interface::definitions::Record;
use uniffi_bindgen::interface::definitions::Variant;
use uniffi_bindgen::interface::types::Type;
use uniffi_bindgen::MergeWith;

fn sample() -> ComponentInterface {
    ComponentInterface {
        namespace: "geometry".to_string(),
        enums: vec![
            Enum {
                name: "Colour".to_string(),
                variants: vec![Variant { name: "Red".to_string(), fields: vec![] }],
            },
            Enum {
                name: "Shape".to_string(),
                variants: vec![Variant {
                    name: "Circle".to_string(),
                    fields: vec![Field { name: "r".to_string(), type_: Type::UInt32 }],
                }],
            },
        ],
        records: vec![Record {
            name: "Point".to_string(),
            fields: vec![
                Field { name: "x".to_string(), type_: Type::Float64 },
                Field { name: "label".to_string(), type_: Type::Optional(Box::new(Type::String)) },
                Field { name: "owner".to_string(), type_: Type::Object("Canvas".to_string()) },
            ],
        }],
        errors: vec![Error {
            name: "DrawError".to_string(),
            variants: vec![Variant {
                name: "OffCanvas".to_string(),
                fields: vec![Field { name: "at".to_string(), type_: Type::Record("Point".to_string()) }],
            }],
        }],
        objects: vec![Object {
            name: "Canvas".to_string(),
            constructors: vec![],
            methods: vec![Method {
                name: "draw".to_string(),
                arguments: vec![Argument {
                    name: "points".to_string(),
                    type_: Type::Sequence(Box::new(Type::Record("Point".to_string()))),
                }],
                return_type: Some(Type::Optional(Box::new(Type::String))),
            }],
        }],
        callback_interfaces: vec![CallbackInterface {
            name: "Watcher".to_string(),
            methods: vec![Method {
                name: "seen".to_string(),
                arguments: vec![Argument { name: "n".to_string(), type_: Type::UInt64 }],
                return_type: None,
            }],
        }],
        functions: vec![Function {
            name: "origin".to_string(),
            arguments: vec![],
            return_type: Some(Type::Record("Point".to_string())),
        }],
    }
}

fn describe(member: &KotlinMember) -> String {
    match member {
        KotlinMember::Enum(m) => format!(
            "enum {} unsigned={} objects={}",
            m.inner().name(),
            m.contains_unsigned_types(),
            m.contains_object_references()
        ),
        KotlinMember::Record(m) => format!(
            "record {} unsigned={} objects={}",
            m.inner().name(),
            m.contains_unsigned_types(),
            m.contains_object_references()
        ),
        KotlinMember::Error(m) => {
            format!("error {} objects={}", m.inner().name(), m.contains_object_references())
        }
        KotlinMember::Object(m) => {
            format!("object {} unsigned={}", m.inner().name(), m.contains_unsigned_types())
        }
        KotlinMember::CallbackInterface(m) => {
            format!("callback {} unsigned={}", m.inner().name(), m.contains_unsigned_types())
        }
        KotlinMember::Function(m) => {
            format!("function {} unsigned={}", m.inner().name(), m.contains_unsigned_types())
        }
    }
}

#[test]
fn members_come_kind_by_kind_in_the_order_of_declaration() {
    let ci = sample();
    let wrapper = KotlinWrapper::new(Config::from(&ci), &ci);
    let described: Vec<String> = wrapper.members().iter().map(describe).collect();
    assert_eq!(
        described,
        vec![
            "enum Colour unsigned=false objects=false",
            "enum Shape unsigned=true objects=false",
            "record Point unsigned=false objects=true",
            "error DrawError objects=true",
            "object Canvas unsigned=false",
            "callback Watcher unsigned=true",
            "function origin unsigned=false",
        ]
    );
}

#[test]
fn members_name_their_types_and_templates() {
    let ci = sample();
    let wrapper = KotlinWrapper::new(Config::default(), &ci);
    let members = wrapper.members();
    let types: Vec<Option<Type>> = members.iter().map(|m| m.type_identifier()).collect();
    assert_eq!(
        types,
        vec![
            Some(Type::Enum("Colour".to_string())),
            Some(Type::Enum("Shape".to_string())),
            Some(Type::Record("Point".to_string())),
            Some(Type::Error("DrawError".to_string())),
            Some(Type::Object("Canvas".to_string())),
            Some(Type::CallbackInterface("Watcher".to_string())),
            None,
        ]
    );
    let templates: Vec<Option<&str>> = members.iter().map(|m| m.definition_template()).collect();
    assert_eq!(
        templates,
        vec![
            Some("EnumTemplate.kt"),
            Some("EnumTemplate.kt"),
            Some("RecordTemplate.kt"),
            Some("ErrorTemplate.kt"),
            Some("ObjectTemplate.kt"),
            Some("CallbackInterfaceTemplate.kt"),
            Some("TopLevelFunctionTemplate.kt"),
        ]
    );
    let oracle = KotlinLanguageOracle;
    for member in &members {
        assert_eq!(member.import_code(&oracle), None);
        assert_eq!(member.initialization_code(&oracle), None);
    }
}

#[test]
fn single_members_know_what_they_are_made_of() {
    let ci = sample();
    let e = KotlinEnum::new(ci.enums[1].clone(), &ci);
    assert_eq!(e.inner().name(), "Shape");
    assert!(e.contains_unsigned_types());
    assert!(!e.contains_object_references());
    assert_eq!(e.type_identifier(), Some(Type::Enum("Shape".to_string())));
    let r = KotlinRecord::new(ci.records[0].clone(), &ci);
    assert!(!r.contains_unsigned_types());
    assert!(r.contains_object_references());
    let x = KotlinError::new(ci.errors[0].clone(), &ci);
    assert!(x.contains_object_references());
    assert_eq!(x.inner().name(), "DrawError");
    let o = KotlinObject::new(ci.objects[0].clone(), &ci);
    assert!(!o.contains_unsigned_types());
    assert_eq!(o.inner().name(), "Canvas");
    let c = KotlinCallbackInterface::new(ci.callback_interfaces[0].clone(), &ci);
    assert!(c.contains_unsigned_types());
    assert_eq!(c.inner().name(), "Watcher");
    let f = KotlinFunction::new(ci.functions[0].clone(), &ci);
    assert!(!f.contains_unsigned_types());
    assert_eq!(f.inner().name(), "origin");
    assert_eq!(f.type_identifier(), None);
    assert_eq!(f.definition_template(), Some("TopLevelFunctionTemplate.kt"));
}

#[test]
fn the_object_runtime_is_rendered_only_where_there_are_objects() {
    let mut ci = sample();
    let runtime = KotlinObjectRuntime::new(&ci);
    assert!(runtime.is_needed());
    assert_eq!(runtime.definition_template(), Some("ObjectRuntime.kt"));
    assert_eq!(runtime.type_identifier(), None);
    assert!(KotlinWrapper::new(Config::default(), &ci).object_runtime().is_needed());
    ci.objects.clear();
    let runtime = KotlinObjectRuntime::new(&ci);
    assert!(!runtime.is_needed());
    assert_eq!(runtime.definition_template(), None);
    assert!(!KotlinWrapper::new(Config::default(), &ci).object_runtime().is_needed());
}

fn names(blocks: &[HelperBlock]) -> Vec<String> {
    blocks.iter().map(|b| b.canonical_name.clone()).collect()
}

#[test]
fn helper_code_is_emitted_once_for_each_canonical_name() {
    let ci = sample();
    let wrapper = KotlinWrapper::new(Config::default(), &ci);
    let blocks = wrapper.helper_code().unwrap();
    assert_eq!(
        names(&blocks),
        vec![
            "EnumColour",
            "EnumShape",
            "RecordPoint",
            "String",
            "OptionalString",
            "ObjectCanvas",
            "ErrorDrawError",
            "SequenceRecordPoint",
            "CallbackInterfaceWatcher",
        ]
    );
    let found = names(&blocks);
    for i in 0..found.len() {
        for j in (i + 1)..found.len() {
            assert_ne!(found[i], found[j]);
        }
    }
    assert_eq!(blocks[0].code, "// Helper code for Colour enum is found in EnumTemplate.kt");
    assert_eq!(blocks[0].type_, Type::Enum("Colour".to_string()));
    assert_eq!(blocks[4].type_, Type::Optional(Box::new(Type::String)));
    assert!(blocks[4].code.contains("internal fun lowerOptionalString(v: String?)"));
}

#[test]
fn two_runs_on_one_interface_give_the_same_output() {
    let ci = sample();
    let first = KotlinWrapper::new(Config::from(&ci), &ci);
    let second = KotlinWrapper::new(Config::from(&ci), &ci);
    let a: Vec<String> = first.members().iter().map(describe).collect();
    let b: Vec<String> = second.members().iter().map(describe).collect();
    assert_eq!(a, b);
    let a: Vec<(String, String)> =
        first.helper_code().unwrap().into_iter().map(|h| (h.canonical_name, h.code)).collect();
    let b: Vec<(String, String)> =
        second.helper_code().unwrap().into_iter().map(|h| (h.canonical_name, h.code)).collect();
    assert_eq!(a, b);
    assert_eq!(first.config().package_name(), second.config().package_name());
}

#[test]
fn an_empty_interface_has_no_members_and_no_helper_code() {
    let ci = ComponentInterface {
        namespace: "nothing".to_string(),
        enums: vec![],
        records: vec![],
        errors: vec![],
        objects: vec![],
        callback_interfaces: vec![],
        functions: vec![],
    };
    let wrapper = KotlinWrapper::new(Config::default(), &ci);
    assert!(wrapper.members().is_empty());
    assert!(wrapper.helper_code().unwrap().is_empty());
}

#[test]
fn settings_default_to_fixed_names() {
    let config = Config::default();
    assert_eq!(config.package_name(), "uniffi");
    assert_eq!(config.cdylib_name(), "uniffi");
    let config = Config::new(None, Some("libgeo".to_string()));
    assert_eq!(config.package_name(), "uniffi");
    assert_eq!(config.cdylib_name(), "libgeo");
}

#[test]
fn settings_of_an_interface_are_derived_from_its_namespace() {
    let ci = sample();
    let config = Config::from(&ci);
    assert_eq!(config.package_name(), "uniffi.geometry");
    assert_eq!(config.cdylib_name(), "uniffi_geometry");
}

#[test]
fn merged_settings_prefer_their_own() {
    let ci = sample();
    let own = Config::new(Some("org.example".to_string()), None);
    let merged = own.merge_with(&Config::from(&ci));
    assert_eq!(merged.package_name(), "org.example");
    assert_eq!(merged.cdylib_name(), "uniffi_geometry");
    let merged = Config::default().merge_with(&Config::default());
    assert_eq!(merged.package_name(), "uniffi");
    assert_eq!(merged.cdylib_name(), "uniffi");
    let merged = Config::from(&ci).merge_with(&own);
    assert_eq!(merged.package_name(), "uniffi.geometry");
    assert_eq!(merged.cdylib_name(), "uniffi_geometry");
}

#[test]
fn two_types_under_one_canonical_name_stop_the_helper_code() {
    let mut ci = sample();
    ci.enums.push(Enum { name: "point_kind".to_string(), variants: vec![] });
    ci.enums.push(Enum { name: "PointKind".to_string(), variants: vec![] });
    let wrapper = KotlinWrapper::new(Config::default(), &ci);
    match wrapper.helper_code() {
        Err(BindingsError::NameCollision(name)) => assert_eq!(name, "EnumPointKind"),
        other => panic!("expected a collision, got {:?}", other),
    }
}

#[test]
fn the_first_collision_is_the_one_that_is_reported() {
    let mut ci = sample();
    ci.records.push(Record { name: "a_b".to_string(), fields: vec![] });
    ci.records.push(Record { name: "AB".to_string(), fields: vec![] });
    ci.records.push(Record { name: "a__b".to_string(), fields: vec![] });
    ci.enums.push(Enum { name: "x_y".to_string(), variants: vec![] });
    ci.errors.push(Error { name: "xY".to_string(), variants: vec![] });
    ci.objects.push(Object { name: "q_r".to_string(), constructors: vec![], methods: vec![] });
    ci.objects.push(Object { name: "QR".to_string(), constructors: vec![], methods: vec![] });
    let wrapper = KotlinWrapper::new(Config::default(), &ci);
    match wrapper.helper_code() {
        Err(BindingsError::NameCollision(name)) => assert_eq!(name, "RecordAB"),
        other => panic!("expected a collision, got {:?}", other),
    }
}

#[test]
fn a_type_that_is_mentioned_twice_is_no_collision() {
    let mut ci = sample();
    ci.functions.push(Function {
        name: "again".to_string(),
        arguments: vec![Argument {
            name: "a".to_string(),
            type_: Type::Optional(Box::new(Type::String)),
        }],
        return_type: Some(Type::Optional(Box::new(Type::String))),
    });
    let wrapper = KotlinWrapper::new(Config::default(), &ci);
    let blocks = wrapper.helper_code().unwrap();
    assert_eq!(names(&blocks).iter().filter(|n| n.as_str() == "OptionalString").count(), 1);
}

#[test]
fn a_sound_interface_passes_the_check() {
    let ci = sample();
    let wrapper = KotlinWrapper::new(Config::default(), &ci);
    assert!(wrapper.check().is_ok());
}

#[test]
fn a_type_without_an_end_fails_the_check_before_a_collision_does() {
    let mut ci = sample();
    ci.enums.push(Enum { name: "point_kind".to_string(), variants: vec![] });
    ci.enums.push(Enum { name: "PointKind".to_string(), variants: vec![] });
    let wrapper = KotlinWrapper::new(Config::default(), &ci);
    match wrapper.check() {
        Err(BindingsError::NameCollision(name)) => assert_eq!(name, "EnumPointKind"),
        other => panic!("expected a collision, got {:?}", other),
    }
    ci.records.push(Record {
        name: "Selfish".to_string(),
        fields: vec![Field { name: "me".to_string(), type_: Type::Record("Selfish".to_string()) }],
    });
    let wrapper = KotlinWrapper::new(Config::default(), &ci);
    match wrapper.check() {
        Err(BindingsError::UnboundedType(name)) => assert_eq!(name, "RecordSelfish"),
        other => panic!("expected a type without an end, got {:?}", other),
    }
}

#[test]
fn cloned_settings_are_the_same_settings() {
    let config = Config::new(Some("org.example".to_string()), None);
    let copy = config.clone();
    assert_eq!(copy.package_name(), "org.example");
    assert_eq!(copy.cdylib_name(), "uniffi");
    assert_eq!(copy.configured_package_name(), config.configured_package_name());
    assert_eq!(copy.configured_cdylib_name(), config.configured_cdylib_name());
}
