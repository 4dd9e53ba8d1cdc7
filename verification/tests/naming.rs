use uniffi_bindgen::bindings::backend::LanguageOracle;
use uniffi_bindgen::bindings::kotlin::gen_kotlin::filters;
use uniffi_bindgen::bindings::kotlin::gen_kotlin::legacy_kt;
use uniffi_bindgen::bindings::kotlin::gen_kotlin::KotlinLanguageOracle;
use uniffi_bindgen::interface::ffi::FFIType;

#[test]
fn class_names_are_camel_case() {
    let oracle = KotlinLanguageOracle;
    assert_eq!(oracle.class_name("my_record"), "MyRecord");
    assert_eq!(oracle.class_name("MyRecord"), "MyRecord");
    assert_eq!(oracle.class_name("XMLHttpRequest"), "XmlHttpRequest");
}

#[test]
fn function_and_variable_names_are_mixed_case() {
    let oracle = KotlinLanguageOracle;
    assert_eq!(oracle.fn_name("do_the_thing"), "doTheThing");
    assert_eq!(oracle.var_name("the_value"), "theValue");
    assert_eq!(oracle.var_name("v"), "v");
}

#[test]
fn enum_variants_are_shouty_snake_case() {
    let oracle = KotlinLanguageOracle;
    assert_eq!(oracle.enum_variant("fooBar"), "FOO_BAR");
    assert_eq!(oracle.enum_variant("Red"), "RED");
}

#[test]
fn a_name_in_its_own_case_is_left_alone() {
    let oracle = KotlinLanguageOracle;
    let class = oracle.class_name("some_long_name");
    assert_eq!(oracle.class_name(&class), class);
    let var = oracle.var_name("some_long_name");
    assert_eq!(oracle.var_name(&var), var);
    let variant = oracle.enum_variant("some_long_name");
    assert_eq!(oracle.enum_variant(&variant), variant);
}

#[test]
fn exception_name_replaces_the_error_suffix() {
    let oracle = KotlinLanguageOracle;
    assert_eq!(oracle.exception_name("ArithmeticError"), "ArithmeticException");
    assert_eq!(oracle.exception_name("Error"), "Exception");
}

#[test]
fn exception_name_keeps_a_name_without_the_suffix() {
    let oracle = KotlinLanguageOracle;
    assert_eq!(oracle.exception_name("Arithmetic"), "Arithmetic");
    assert_eq!(oracle.exception_name("Err"), "Err");
    assert_eq!(oracle.exception_name(""), "");
    assert_eq!(oracle.exception_name("ErrorCode"), "ErrorCode");
    assert_eq!(oracle.exception_name("error"), "error");
}

#[test]
fn exception_name_counts_characters_not_bytes() {
    let oracle = KotlinLanguageOracle;
    assert_eq!(oracle.exception_name("ÜberError"), "ÜberException");
    assert_eq!(oracle.exception_name("Ünï"), "Ünï");
}

#[test]
fn exception_name_is_idempotent() {
    let oracle = KotlinLanguageOracle;
    let once = oracle.exception_name("NetworkError");
    assert_eq!(oracle.exception_name(&once), once);
}

#[test]
fn ffi_labels_cover_every_shape() {
    let oracle = KotlinLanguageOracle;
    assert_eq!(oracle.ffi_type_label(&FFIType::Int8), "Byte");
    assert_eq!(oracle.ffi_type_label(&FFIType::UInt8), "Byte");
    assert_eq!(oracle.ffi_type_label(&FFIType::Int16), "Short");
    assert_eq!(oracle.ffi_type_label(&FFIType::UInt16), "Short");
    assert_eq!(oracle.ffi_type_label(&FFIType::Int32), "Int");
    assert_eq!(oracle.ffi_type_label(&FFIType::UInt32), "Int");
    assert_eq!(oracle.ffi_type_label(&FFIType::Int64), "Long");
    assert_eq!(oracle.ffi_type_label(&FFIType::UInt64), "Long");
    assert_eq!(oracle.ffi_type_label(&FFIType::Float32), "Float");
    assert_eq!(oracle.ffi_type_label(&FFIType::Float64), "Double");
    assert_eq!(oracle.ffi_type_label(&FFIType::RustArcPtr), "Pointer");
    assert_eq!(oracle.ffi_type_label(&FFIType::RustBuffer), "RustBuffer.ByValue");
    assert_eq!(oracle.ffi_type_label(&FFIType::ForeignBytes), "ForeignBytes.ByValue");
    assert_eq!(oracle.ffi_type_label(&FFIType::ForeignCallback), "ForeignCallback");
}

#[test]
fn name_filters_agree_with_the_oracle() {
    assert_eq!(filters::class_name_kt("my_record").unwrap(), "MyRecord");
    assert_eq!(filters::fn_name_kt("do_the_thing").unwrap(), "doTheThing");
    assert_eq!(filters::var_name_kt("the_value").unwrap(), "theValue");
    assert_eq!(filters::enum_variant_kt("fooBar").unwrap(), "FOO_BAR");
    assert_eq!(filters::exception_name_kt("IoError").unwrap(), "IoException");
    assert_eq!(filters::type_ffi(&FFIType::RustBuffer).unwrap(), "RustBuffer.ByValue");
}

#[test]
fn plain_name_functions_spell_names() {
    assert_eq!(legacy_kt::class_name_kt("my_record").unwrap(), "MyRecord");
    assert_eq!(legacy_kt::var_name_kt("the_value").unwrap(), "theValue");
    assert_eq!(legacy_kt::enum_variant_kt("fooBar").unwrap(), "FOO_BAR");
}
