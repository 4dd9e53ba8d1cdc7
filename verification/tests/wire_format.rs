use uniffi_bindgen::interface::component::ComponentInterface;
use uniffi_bindgen::interface::definitions::Enum;
use uniffi_bindgen::interface::definitions::Error;
use uniffi_bindgen::interface::definitions::Field;
use uniffi_bindgen::interface::definitions::Record;
use uniffi_bindgen::interface::definitions::Variant;
use uniffi_bindgen::interface::ffi::FFIType;
use uniffi_bindgen::interface::types::Type;
use uniffi_bindgen::wire::bytes::get_be;
use uniffi_bindgen::wire::bytes::put_be;
use uniffi_bindgen::wire::lower::ffi_type;
use uniffi_bindgen::wire::lower::lift;
use uniffi_bindgen::wire::lower::lower;
use uniffi_bindgen::wire::lower::Lowered;
use uniffi_bindgen::wire::read::read;
use uniffi_bindgen::wire::read::read_all;
use uniffi_bindgen::wire::value::Value;
use uniffi_bindgen::wire::write::is_encodable;
use uniffi_bindgen::wire::write::write_all;
use uniffi_bindgen::wire::write::WireError;

const DEPTH: usize = 16;

fn write(value: &Value, out: &mut Vec<u8>) -> Result<(), WireError> {
    uniffi_bindgen::wire::write::write(value, out)
}

fn field(name: &str, type_: Type) -> Field {
    Field { name: name.to_string(), type_ }
}

fn optional(t: Type) -> Type {
    Type::Optional(Box::new(t))
}

fn sequence(t: Type) -> Type {
    Type::Sequence(Box::new(t))
}

fn mapping(t: Type) -> Type {
    Type::Mapping(Box::new(t))
}

fn some(v: Value) -> Value {
    Value::Optional(Some(Box::new(v)))
}

fn text(s: &str) -> Value {
    Value::String(s.to_string())
}

fn interface() -> ComponentInterface {
    ComponentInterface {
        namespace: "wire".to_string(),
        enums: vec![Enum {
            name: "Shape".to_string(),
            variants: vec![
                Variant { name: "Dot".to_string(), fields: vec![] },
                Variant {
                    name: "Circle".to_string(),
                    fields: vec![field("r", Type::Float64)],
                },
                Variant {
                    name: "Rect".to_string(),
                    fields: vec![field("w", Type::UInt16), field("h", Type::UInt16)],
                },
            ],
        }],
        records: vec![
            Record {
                name: "Point".to_string(),
                fields: vec![field("x", Type::Int32), field("label", optional(Type::String))],
            },
            Record {
                name: "Node".to_string(),
                fields: vec![
                    field("value", Type::UInt8),
                    field("next", optional(Type::Record("Node".to_string()))),
                ],
            },
            Record { name: "Unit".to_string(), fields: vec![] },
        ],
        errors: vec![Error {
            name: "Oops".to_string(),
            variants: vec![Variant {
                name: "Bad".to_string(),
                fields: vec![field("why", Type::String)],
            }],
        }],
        objects: vec![],
        callback_interfaces: vec![],
        functions: vec![],
    }
}

fn bytes_of(v: &Value) -> Vec<u8> {
    let mut out = Vec::new();
    write(v, &mut out).unwrap();
    out
}

fn round_trip(ci: &ComponentInterface, t: &Type, v: &Value) {
    let mut buf = vec![0xAA, 0xBB];
    write(v, &mut buf).unwrap();
    let end = buf.len();
    buf.extend_from_slice(&[0xCC, 0xDD, 0xEE]);
    let (back, stop) = read(ci, t, &buf, 2, DEPTH).unwrap();
    assert_eq!(&back, v);
    assert_eq!(stop, end);
    let passed = lower(v).unwrap();
    assert_eq!(passed.shape(), ffi_type(t));
    assert_eq!(&lift(ci, t, passed, DEPTH).unwrap(), v);
}

#[test]
fn numbers_are_written_most_significant_byte_first() {
    assert_eq!(bytes_of(&Value::UInt8(0xAB)), vec![0xAB]);
    assert_eq!(bytes_of(&Value::Int8(-1)), vec![0xFF]);
    assert_eq!(bytes_of(&Value::UInt16(0x0102)), vec![1, 2]);
    assert_eq!(bytes_of(&Value::Int16(-2)), vec![0xFF, 0xFE]);
    assert_eq!(bytes_of(&Value::UInt32(0x01020304)), vec![1, 2, 3, 4]);
    assert_eq!(bytes_of(&Value::Int32(-0x01020304)), (-0x01020304i32).to_be_bytes().to_vec());
    assert_eq!(bytes_of(&Value::UInt64(0x0102030405060708)), vec![1, 2, 3, 4, 5, 6, 7, 8]);
    assert_eq!(bytes_of(&Value::Int64(i64::MIN)), i64::MIN.to_be_bytes().to_vec());
    assert_eq!(bytes_of(&Value::Int64(-1)), vec![0xFF; 8]);
    assert_eq!(bytes_of(&Value::Float32(1.5f32.to_bits())), 1.5f32.to_be_bytes().to_vec());
    assert_eq!(bytes_of(&Value::Float64((-2.25f64).to_bits())), (-2.25f64).to_be_bytes().to_vec());
}

#[test]
fn booleans_and_handles() {
    assert_eq!(bytes_of(&Value::Boolean(true)), vec![1]);
    assert_eq!(bytes_of(&Value::Boolean(false)), vec![0]);
    assert_eq!(bytes_of(&Value::Object(0x10)), vec![0, 0, 0, 0, 0, 0, 0, 0x10]);
    assert_eq!(bytes_of(&Value::CallbackInterface(3)), vec![0, 0, 0, 0, 0, 0, 0, 3]);
}

#[test]
fn strings_stand_behind_their_count() {
    assert_eq!(bytes_of(&text("")), vec![0, 0, 0, 0]);
    assert_eq!(bytes_of(&text("hi")), vec![0, 0, 0, 2, b'h', b'i']);
    assert_eq!(bytes_of(&text("é")), vec![0, 0, 0, 2, 0xC3, 0xA9]);
}

#[test]
fn timestamps_and_durations() {
    assert_eq!(
        bytes_of(&Value::Timestamp(-1, 5)),
        vec![0xFF, 0xFF, 0xFF, 0xFF, 0xFF, 0xFF, 0xFF, 0xFF, 0, 0, 0, 5]
    );
    assert_eq!(bytes_of(&Value::Duration(2, 0x0100)), vec![0, 0, 0, 0, 0, 0, 0, 2, 0, 0, 1, 0]);
}

#[test]
fn optionals_have_a_tag() {
    assert_eq!(bytes_of(&Value::Optional(None)), vec![0]);
    assert_eq!(bytes_of(&some(Value::UInt8(7))), vec![1, 7]);
    assert_eq!(bytes_of(&some(some(Value::Optional(None)))), vec![1, 1, 0]);
}

#[test]
fn sequences_and_maps_stand_behind_their_count() {
    let v = Value::Sequence(vec![Value::UInt8(1), Value::UInt8(2), Value::UInt8(3)]);
    assert_eq!(bytes_of(&v), vec![0, 0, 0, 3, 1, 2, 3]);
    assert_eq!(bytes_of(&Value::Sequence(vec![])), vec![0, 0, 0, 0]);
    let v = Value::Mapping(vec![
        ("b".to_string(), Value::UInt8(2)),
        ("a".to_string(), Value::UInt8(1)),
    ]);
    assert_eq!(bytes_of(&v), vec![0, 0, 0, 2, 0, 0, 0, 1, b'b', 2, 0, 0, 0, 1, b'a', 1]);
}

#[test]
fn records_and_variants() {
    let v = Value::Record(vec![Value::Int32(1), some(text("p"))]);
    assert_eq!(bytes_of(&v), vec![0, 0, 0, 1, 1, 0, 0, 0, 1, b'p']);
    assert_eq!(bytes_of(&Value::Record(vec![])), Vec::<u8>::new());
    let v = Value::Variant(3, vec![Value::UInt16(4), Value::UInt16(5)]);
    assert_eq!(bytes_of(&v), vec![0, 0, 0, 3, 0, 4, 0, 5]);
    assert_eq!(bytes_of(&Value::Variant(1, vec![])), vec![0, 0, 0, 1]);
}

#[test]
fn every_primitive_is_read_back() {
    let ci = interface();
    let cases = vec![
        (Type::UInt8, Value::UInt8(0)),
        (Type::UInt8, Value::UInt8(255)),
        (Type::Int8, Value::Int8(-128)),
        (Type::Int8, Value::Int8(127)),
        (Type::UInt16, Value::UInt16(65535)),
        (Type::Int16, Value::Int16(-32768)),
        (Type::Int16, Value::Int16(-1)),
        (Type::UInt32, Value::UInt32(u32::MAX)),
        (Type::Int32, Value::Int32(i32::MIN)),
        (Type::Int32, Value::Int32(i32::MAX)),
        (Type::UInt64, Value::UInt64(u64::MAX)),
        (Type::Int64, Value::Int64(i64::MIN)),
        (Type::Int64, Value::Int64(i64::MAX)),
        (Type::Int64, Value::Int64(-1)),
        (Type::Float32, Value::Float32(3.25f32.to_bits())),
        (Type::Float32, Value::Float32(f32::NAN.to_bits())),
        (Type::Float64, Value::Float64((-0.0f64).to_bits())),
        (Type::Float64, Value::Float64(f64::INFINITY.to_bits())),
        (Type::Boolean, Value::Boolean(true)),
        (Type::Boolean, Value::Boolean(false)),
        (Type::String, text("")),
        (Type::String, text("plain")),
        (Type::String, text("größer – 日本語 🦀")),
        (Type::Timestamp, Value::Timestamp(-5, 999_999_999)),
        (Type::Timestamp, Value::Timestamp(i64::MAX, 0)),
        (Type::Duration, Value::Duration(u64::MAX, 1)),
        (Type::Object("Door".to_string()), Value::Object(0xdead_beef)),
        (Type::CallbackInterface("L".to_string()), Value::CallbackInterface(42)),
    ];
    for (t, v) in cases {
        round_trip(&ci, &t, &v);
    }
}

#[test]
fn compounds_are_read_back_at_any_nesting() {
    let ci = interface();
    round_trip(&ci, &optional(Type::Int16), &Value::Optional(None));
    round_trip(&ci, &optional(Type::Int16), &some(Value::Int16(-3)));
    round_trip(&ci, &sequence(Type::String), &Value::Sequence(vec![]));
    round_trip(&ci, &sequence(Type::String), &Value::Sequence(vec![text("a"), text(""), text("ccc")]));
    round_trip(
        &ci,
        &mapping(Type::Boolean),
        &Value::Mapping(vec![
            ("yes".to_string(), Value::Boolean(true)),
            ("no".to_string(), Value::Boolean(false)),
            ("yes".to_string(), Value::Boolean(false)),
        ]),
    );
    let t = sequence(optional(mapping(sequence(Type::UInt32))));
    let v = Value::Sequence(vec![
        Value::Optional(None),
        some(Value::Mapping(vec![
            ("k".to_string(), Value::Sequence(vec![Value::UInt32(1), Value::UInt32(2)])),
            ("l".to_string(), Value::Sequence(vec![])),
        ])),
        some(Value::Mapping(vec![])),
    ]);
    round_trip(&ci, &t, &v);
    let t = optional(optional(optional(optional(Type::Boolean))));
    round_trip(&ci, &t, &some(some(some(some(Value::Boolean(true))))));
    round_trip(&ci, &t, &some(some(Value::Optional(None))));
}

#[test]
fn every_nominal_kind_is_read_back() {
    let ci = interface();
    let point = Type::Record("Point".to_string());
    round_trip(&ci, &point, &Value::Record(vec![Value::Int32(-7), Value::Optional(None)]));
    round_trip(&ci, &point, &Value::Record(vec![Value::Int32(7), some(text("here"))]));
    round_trip(&ci, &Type::Record("Unit".to_string()), &Value::Record(vec![]));
    let shape = Type::Enum("Shape".to_string());
    round_trip(&ci, &shape, &Value::Variant(1, vec![]));
    round_trip(&ci, &shape, &Value::Variant(2, vec![Value::Float64(2.5f64.to_bits())]));
    round_trip(&ci, &shape, &Value::Variant(3, vec![Value::UInt16(3), Value::UInt16(4)]));
    let oops = Type::Error("Oops".to_string());
    round_trip(&ci, &oops, &Value::Variant(1, vec![text("because")]));
    round_trip(
        &ci,
        &sequence(shape),
        &Value::Sequence(vec![Value::Variant(1, vec![]), Value::Variant(1, vec![])]),
    );
    round_trip(
        &ci,
        &sequence(Type::Record("Unit".to_string())),
        &Value::Sequence(vec![Value::Record(vec![]), Value::Record(vec![])]),
    );
}

#[test]
fn a_record_that_holds_itself_is_read_back() {
    let ci = interface();
    let node = Type::Record("Node".to_string());
    let v = Value::Record(vec![
        Value::UInt8(1),
        some(Value::Record(vec![
            Value::UInt8(2),
            some(Value::Record(vec![Value::UInt8(3), Value::Optional(None)])),
        ])),
    ]);
    round_trip(&ci, &node, &v);
    assert_eq!(bytes_of(&v), vec![1, 1, 2, 1, 3, 0]);
}

#[test]
fn values_written_one_after_the_other_are_read_back_in_order() {
    let ci = interface();
    let types = vec![
        Type::UInt8,
        Type::String,
        optional(Type::Int64),
        Type::Record("Point".to_string()),
        sequence(Type::Boolean),
    ];
    let values = vec![
        Value::UInt8(9),
        text("two"),
        some(Value::Int64(-3)),
        Value::Record(vec![Value::Int32(4), Value::Optional(None)]),
        Value::Sequence(vec![Value::Boolean(true)]),
    ];
    let mut buf = vec![7u8];
    write_all(&values, &mut buf).unwrap();
    let end = buf.len();
    buf.push(0x55);
    let (back, stop) = read_all(&ci, &types, &buf, 1, DEPTH).unwrap();
    assert_eq!(back, values);
    assert_eq!(stop, end);
    let mut at = 1;
    for (t, v) in types.iter().zip(values.iter()) {
        let (one, next) = read(&ci, t, &buf, at, DEPTH).unwrap();
        assert_eq!(&one, v);
        at = next;
    }
    assert_eq!(at, end);
    let (nothing, stop) = read_all(&ci, &vec![], &buf, 3, DEPTH).unwrap();
    assert!(nothing.is_empty());
    assert_eq!(stop, 3);
}

#[test]
fn bytes_that_end_too_early_are_refused() {
    let ci = interface();
    assert_eq!(read(&ci, &Type::UInt8, &vec![], 0, DEPTH), Err(WireError::ShortBuffer));
    assert_eq!(read(&ci, &Type::UInt32, &vec![0, 0, 1], 0, DEPTH), Err(WireError::ShortBuffer));
    assert_eq!(read(&ci, &Type::Int64, &vec![0; 7], 0, DEPTH), Err(WireError::ShortBuffer));
    assert_eq!(read(&ci, &Type::Timestamp, &vec![0; 11], 0, DEPTH), Err(WireError::ShortBuffer));
    assert_eq!(read(&ci, &Type::Duration, &vec![0; 8], 0, DEPTH), Err(WireError::ShortBuffer));
    assert_eq!(read(&ci, &Type::String, &vec![0, 0, 0, 2, b'a'], 0, DEPTH), Err(WireError::ShortBuffer));
    assert_eq!(read(&ci, &optional(Type::UInt8), &vec![1], 0, DEPTH), Err(WireError::ShortBuffer));
    assert_eq!(
        read(&ci, &sequence(Type::UInt8), &vec![0, 0, 0, 2, 5], 0, DEPTH),
        Err(WireError::ShortBuffer)
    );
    assert_eq!(read(&ci, &Type::UInt8, &vec![1, 2], 3, DEPTH), Err(WireError::ShortBuffer));
    assert_eq!(read(&ci, &Type::UInt8, &vec![1, 2], 2, DEPTH), Err(WireError::ShortBuffer));
    assert_eq!(read_all(&ci, &vec![Type::UInt8], &vec![1, 2], 3, DEPTH), Err(WireError::ShortBuffer));
    assert_eq!(
        read_all(&ci, &vec![Type::UInt8, Type::UInt16], &vec![1, 2], 0, DEPTH),
        Err(WireError::ShortBuffer)
    );
}

#[test]
fn a_negative_count_is_refused() {
    let ci = interface();
    let buf = vec![0x80, 0, 0, 0];
    assert_eq!(read(&ci, &Type::String, &buf, 0, DEPTH), Err(WireError::InvalidLength));
    assert_eq!(read(&ci, &sequence(Type::UInt8), &buf, 0, DEPTH), Err(WireError::InvalidLength));
    assert_eq!(read(&ci, &mapping(Type::UInt8), &buf, 0, DEPTH), Err(WireError::InvalidLength));
    let buf = vec![0xFF, 0xFF, 0xFF, 0xFF];
    assert_eq!(read(&ci, &Type::String, &buf, 0, DEPTH), Err(WireError::InvalidLength));
}

#[test]
fn bytes_that_are_no_text_are_refused() {
    let ci = interface();
    let buf = vec![0, 0, 0, 2, 0xC3, 0x28];
    assert_eq!(read(&ci, &Type::String, &buf, 0, DEPTH), Err(WireError::InvalidUtf8));
    let buf = vec![0, 0, 0, 1, 0, 0, 0, 1, 0xFF, 7];
    assert_eq!(read(&ci, &mapping(Type::UInt8), &buf, 0, DEPTH), Err(WireError::InvalidUtf8));
}

#[test]
fn a_number_that_is_no_variant_is_refused() {
    let ci = interface();
    let shape = Type::Enum("Shape".to_string());
    assert_eq!(read(&ci, &shape, &vec![0, 0, 0, 0], 0, DEPTH), Err(WireError::InvalidDiscriminant));
    assert_eq!(read(&ci, &shape, &vec![0, 0, 0, 4], 0, DEPTH), Err(WireError::InvalidDiscriminant));
    assert_eq!(
        read(&ci, &shape, &vec![0xFF, 0xFF, 0xFF, 0xFF], 0, DEPTH),
        Err(WireError::InvalidDiscriminant)
    );
    let oops = Type::Error("Oops".to_string());
    assert_eq!(read(&ci, &oops, &vec![0, 0, 0, 2], 0, DEPTH), Err(WireError::InvalidDiscriminant));
    assert_eq!(read(&ci, &shape, &vec![0, 0, 0], 0, DEPTH), Err(WireError::ShortBuffer));
}

#[test]
fn a_name_that_is_not_declared_is_refused() {
    let ci = interface();
    let buf = vec![0; 16];
    assert_eq!(
        read(&ci, &Type::Record("Ghost".to_string()), &buf, 0, DEPTH),
        Err(WireError::UnknownDefinition)
    );
    assert_eq!(
        read(&ci, &Type::Enum("Point".to_string()), &buf, 0, DEPTH),
        Err(WireError::UnknownDefinition)
    );
    assert_eq!(
        read(&ci, &Type::Error("Shape".to_string()), &buf, 0, DEPTH),
        Err(WireError::UnknownDefinition)
    );
}

#[test]
fn the_reader_enters_no_more_levels_than_it_may() {
    let ci = interface();
    assert_eq!(read(&ci, &Type::UInt8, &vec![1], 0, 0), Err(WireError::TooDeep));
    assert_eq!(read(&ci, &Type::UInt8, &vec![1], 0, 1), Ok((Value::UInt8(1), 1)));
    let t = optional(optional(Type::UInt8));
    let buf = vec![1, 1, 9];
    assert_eq!(read(&ci, &t, &buf, 0, 2), Err(WireError::TooDeep));
    assert_eq!(read(&ci, &t, &buf, 0, 3), Ok((some(some(Value::UInt8(9))), 3)));
    assert_eq!(read(&ci, &t, &vec![0], 0, 1), Ok((Value::Optional(None), 1)));
    assert_eq!(read(&ci, &sequence(Type::UInt8), &vec![0, 0, 0, 0], 0, 1), Ok((Value::Sequence(vec![]), 4)));
    assert_eq!(read(&ci, &sequence(Type::UInt8), &vec![0, 0, 0, 1, 5], 0, 1), Err(WireError::TooDeep));
    let direct = ComponentInterface {
        namespace: "direct".to_string(),
        enums: vec![],
        records: vec![Record {
            name: "Selfish".to_string(),
            fields: vec![field("me", Type::Record("Selfish".to_string()))],
        }],
        errors: vec![],
        objects: vec![],
        callback_interfaces: vec![],
        functions: vec![],
    };
    assert_eq!(
        read(&direct, &Type::Record("Selfish".to_string()), &vec![], 0, 1000),
        Err(WireError::TooDeep)
    );
}

#[test]
fn any_byte_but_zero_is_true_and_present() {
    let ci = interface();
    assert_eq!(read(&ci, &Type::Boolean, &vec![2], 0, DEPTH), Ok((Value::Boolean(true), 1)));
    assert_eq!(read(&ci, &Type::Boolean, &vec![0], 0, DEPTH), Ok((Value::Boolean(false), 1)));
    assert_eq!(
        read(&ci, &optional(Type::UInt8), &vec![0xFF, 3], 0, DEPTH),
        Ok((some(Value::UInt8(3)), 2))
    );
}

#[test]
fn a_value_with_a_variant_without_a_number_is_not_written() {
    let v = Value::Variant(0, vec![]);
    assert!(!is_encodable(&v));
    let mut buf = vec![1, 2, 3];
    assert_eq!(write(&v, &mut buf), Err(WireError::Unencodable));
    assert_eq!(buf, vec![1, 2, 3]);
    let v = Value::Sequence(vec![Value::UInt8(1), some(Value::Variant(0x8000_0000, vec![]))]);
    assert!(!is_encodable(&v));
    assert_eq!(write(&v, &mut buf), Err(WireError::Unencodable));
    assert_eq!(buf, vec![1, 2, 3]);
    assert_eq!(write_all(&vec![Value::UInt8(1), v], &mut buf), Err(WireError::Unencodable));
    assert_eq!(buf, vec![1, 2, 3]);
    assert_eq!(lower(&Value::Record(vec![Value::Variant(0, vec![])])), Err(WireError::Unencodable));
    let v = Value::Mapping(vec![("k".to_string(), Value::Variant(0, vec![]))]);
    assert!(!is_encodable(&v));
    assert!(is_encodable(&Value::Variant(0x7fff_ffff, vec![])));
    assert!(is_encodable(&Value::Mapping(vec![("k".to_string(), Value::Variant(1, vec![]))])));
}

#[test]
fn each_type_crosses_in_one_shape() {
    assert_eq!(ffi_type(&Type::UInt8), FFIType::UInt8);
    assert_eq!(ffi_type(&Type::Int8), FFIType::Int8);
    assert_eq!(ffi_type(&Type::UInt16), FFIType::UInt16);
    assert_eq!(ffi_type(&Type::Int16), FFIType::Int16);
    assert_eq!(ffi_type(&Type::UInt32), FFIType::UInt32);
    assert_eq!(ffi_type(&Type::Int32), FFIType::Int32);
    assert_eq!(ffi_type(&Type::UInt64), FFIType::UInt64);
    assert_eq!(ffi_type(&Type::Int64), FFIType::Int64);
    assert_eq!(ffi_type(&Type::Float32), FFIType::Float32);
    assert_eq!(ffi_type(&Type::Float64), FFIType::Float64);
    assert_eq!(ffi_type(&Type::Boolean), FFIType::Int8);
    assert_eq!(ffi_type(&Type::String), FFIType::RustBuffer);
    assert_eq!(ffi_type(&Type::Timestamp), FFIType::RustBuffer);
    assert_eq!(ffi_type(&Type::Duration), FFIType::RustBuffer);
    assert_eq!(ffi_type(&Type::Object("o".to_string())), FFIType::RustArcPtr);
    assert_eq!(ffi_type(&Type::CallbackInterface("c".to_string())), FFIType::UInt64);
    assert_eq!(ffi_type(&Type::Record("r".to_string())), FFIType::RustBuffer);
    assert_eq!(ffi_type(&Type::Enum("e".to_string())), FFIType::RustBuffer);
    assert_eq!(ffi_type(&Type::Error("e".to_string())), FFIType::RustBuffer);
    assert_eq!(ffi_type(&optional(Type::UInt8)), FFIType::RustBuffer);
    assert_eq!(ffi_type(&sequence(Type::UInt8)), FFIType::RustBuffer);
    assert_eq!(ffi_type(&mapping(Type::UInt8)), FFIType::RustBuffer);
}

#[test]
fn lowered_values() {
    assert_eq!(lower(&Value::Int16(-4)), Ok(Lowered::Int16(-4)));
    assert_eq!(lower(&Value::Boolean(true)), Ok(Lowered::Int8(1)));
    assert_eq!(lower(&Value::Boolean(false)), Ok(Lowered::Int8(0)));
    assert_eq!(lower(&Value::Object(77)), Ok(Lowered::Pointer(77)));
    assert_eq!(lower(&Value::CallbackInterface(78)), Ok(Lowered::UInt64(78)));
    assert_eq!(lower(&text("ab")), Ok(Lowered::Buffer(vec![0, 0, 0, 2, b'a', b'b'])));
    assert_eq!(lower(&some(Value::UInt8(1))), Ok(Lowered::Buffer(vec![1, 1])));
    assert_eq!(Lowered::Buffer(vec![]).shape(), FFIType::RustBuffer);
    assert_eq!(Lowered::Pointer(1).shape(), FFIType::RustArcPtr);
    assert_eq!(Lowered::Float32(1).shape(), FFIType::Float32);
}

#[test]
fn what_was_passed_in_another_shape_is_refused() {
    let ci = interface();
    assert_eq!(lift(&ci, &Type::UInt8, Lowered::Int8(1), DEPTH), Err(WireError::WrongShape));
    assert_eq!(lift(&ci, &Type::Boolean, Lowered::UInt8(1), DEPTH), Err(WireError::WrongShape));
    assert_eq!(lift(&ci, &Type::Boolean, Lowered::Int8(-1), DEPTH), Ok(Value::Boolean(true)));
    assert_eq!(
        lift(&ci, &Type::Object("o".to_string()), Lowered::UInt64(1), DEPTH),
        Err(WireError::WrongShape)
    );
    assert_eq!(
        lift(&ci, &Type::CallbackInterface("c".to_string()), Lowered::Pointer(1), DEPTH),
        Err(WireError::WrongShape)
    );
    assert_eq!(lift(&ci, &Type::String, Lowered::UInt64(1), DEPTH), Err(WireError::WrongShape));
    assert_eq!(
        lift(&ci, &Type::Float64, Lowered::Buffer(vec![0; 8]), DEPTH),
        Err(WireError::WrongShape)
    );
}

#[test]
fn a_buffer_holds_one_value_and_nothing_behind_it() {
    let ci = interface();
    assert_eq!(
        lift(&ci, &Type::String, Lowered::Buffer(vec![0, 0, 0, 1, b'a', b'b']), DEPTH),
        Err(WireError::TrailingBytes)
    );
    assert_eq!(
        lift(&ci, &Type::String, Lowered::Buffer(vec![0, 0, 0, 1, b'a']), DEPTH),
        Ok(text("a"))
    );
    assert_eq!(
        lift(&ci, &optional(Type::UInt8), Lowered::Buffer(vec![0, 0]), DEPTH),
        Err(WireError::TrailingBytes)
    );
    assert_eq!(
        lift(&ci, &optional(Type::UInt8), Lowered::Buffer(vec![]), DEPTH),
        Err(WireError::ShortBuffer)
    );
    assert_eq!(
        lift(&ci, &Type::Record("Unit".to_string()), Lowered::Buffer(vec![]), DEPTH),
        Ok(Value::Record(vec![]))
    );
}

#[test]
fn big_endian_helpers() {
    let mut out = vec![9];
    put_be(&mut out, 0x0102, 2);
    put_be(&mut out, 0x0102, 1);
    put_be(&mut out, 5, 0);
    put_be(&mut out, 0x0A0B0C0D, 8);
    assert_eq!(out, vec![9, 1, 2, 2, 0, 0, 0, 0, 0x0A, 0x0B, 0x0C, 0x0D]);
    assert_eq!(get_be(&out, 1, 2), 0x0102);
    assert_eq!(get_be(&out, 4, 8), 0x0A0B0C0D);
    assert_eq!(get_be(&out, 0, 0), 0);
    assert_eq!(get_be(&vec![0xFF; 8], 0, 8), u64::MAX);
}
