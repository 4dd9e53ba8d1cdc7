//! The Kotlin spelling of names and types.

use vstd::prelude::*;
use vstd::string::*;
use heck::CamelCase;
use heck::MixedCase;
use heck::ShoutySnakeCase;
use crate::bindings::backend::BindingsError;
use crate::bindings::backend::BindingsErrorView;
use crate::bindings::backend::CodeType;
use crate::bindings::backend::LanguageOracle;
use crate::bindings::backend::MemberDeclaration;
use crate::bindings::backend::TypeIdentifier;
use crate::bindings::kotlin::gen_kotlin::callback_interface::CallbackInterfaceCodeType;
use crate::bindings::kotlin::gen_kotlin::callback_interface::KotlinCallbackInterface;
use crate::bindings::kotlin::gen_kotlin::compounds::MapCodeType;
use crate::bindings::kotlin::gen_kotlin::compounds::OptionalCodeType;
use crate::bindings::kotlin::gen_kotlin::compounds::SequenceCodeType;
use crate::bindings::kotlin::gen_kotlin::dispatch::KotlinCodeType;
use crate::bindings::kotlin::gen_kotlin::dispatch::lemma_find_agrees;
use crate::bindings::kotlin::gen_kotlin::enum_::EnumCodeType;
use crate::bindings::kotlin::gen_kotlin::enum_::KotlinEnum;
use crate::bindings::kotlin::gen_kotlin::error::ErrorCodeType;
use crate::bindings::kotlin::gen_kotlin::error::KotlinError;
use crate::bindings::kotlin::gen_kotlin::fallback::FallbackCodeType;
use crate::bindings::kotlin::gen_kotlin::function::KotlinFunction;
use crate::bindings::kotlin::gen_kotlin::helpers::emitted_helpers;
use crate::bindings::kotlin::gen_kotlin::helpers::filed_at;
use crate::bindings::kotlin::gen_kotlin::helpers::helper_entry;
use crate::bindings::kotlin::gen_kotlin::helpers::HelperBlock;
use crate::bindings::kotlin::gen_kotlin::helpers::HelperBlockView;
use crate::bindings::kotlin::gen_kotlin::helpers::lemma_errors_stay;
use crate::bindings::kotlin::gen_kotlin::members::callback_interface_members;
use crate::bindings::kotlin::gen_kotlin::members::enum_members;
use crate::bindings::kotlin::gen_kotlin::members::error_members;
use crate::bindings::kotlin::gen_kotlin::members::expected_members;
use crate::bindings::kotlin::gen_kotlin::members::function_members;
use crate::bindings::kotlin::gen_kotlin::members::KotlinMember;
use crate::bindings::kotlin::gen_kotlin::members::MemberView;
use crate::bindings::kotlin::gen_kotlin::members::object_members;
use crate::bindings::kotlin::gen_kotlin::members::record_members;
use crate::bindings::kotlin::gen_kotlin::names::first_spelling_clash;
use crate::bindings::kotlin::gen_kotlin::names::first_unstable_name;
use crate::bindings::kotlin::gen_kotlin::names::is_first_clash_of;
use crate::bindings::kotlin::gen_kotlin::names::is_first_unstable_of;
use crate::bindings::kotlin::gen_kotlin::names::spelled_apart;
use crate::bindings::kotlin::gen_kotlin::names::spelled_for_good;
use crate::bindings::kotlin::gen_kotlin::object::KotlinObject;
use crate::bindings::kotlin::gen_kotlin::object::KotlinObjectRuntime;
use crate::bindings::kotlin::gen_kotlin::object::ObjectCodeType;
use crate::bindings::kotlin::gen_kotlin::primitives::BoolCodeType;
use crate::bindings::kotlin::gen_kotlin::record::KotlinRecord;
use crate::bindings::kotlin::gen_kotlin::record::RecordCodeType;
use crate::bindings::kotlin::gen_kotlin::string_::StringCodeType;
use crate::interface::component::ComponentInterface;
use crate::interface::component::ComponentInterfaceView;
use crate::interface::definitions::views;
use crate::interface::ffi::FFIType;
use crate::interface::types::same_type;
use crate::interface::types::Type;
use crate::MergeWith;

pub mod callback_interface;
pub mod compounds;
pub mod dispatch;
pub mod enum_;
pub mod error;
pub mod fallback;
pub mod filters;
pub mod function;
pub mod helpers;
pub mod legacy_kt;
pub mod members;
pub mod names;
pub mod object;
pub mod primitives;
pub mod record;
pub mod string_;

verus! {

/// What `heck` makes of a name in CamelCase: every word capitalised, the
/// words joined without a separator.
pub uninterp spec fn camel_case(nm: Seq<char>) -> Seq<char>;

/// What `heck` makes of a name in mixedCase: as CamelCase, but the first
/// word in lower case.
pub uninterp spec fn mixed_case(nm: Seq<char>) -> Seq<char>;

/// What `heck` makes of a name in SHOUTY_SNAKE_CASE: every word in upper
/// case, the words joined by underscores.
pub uninterp spec fn shouty_snake_case(nm: Seq<char>) -> Seq<char>;

/// Calls `heck::CamelCase::to_camel_case` on a string slice. The conversion
/// reads nothing but its argument, so its result is named `camel_case` of
/// the argument; nothing more is claimed of it.
#[verifier::external_body]
pub(crate) fn to_camel_case(nm: &str) -> (r: String)
    ensures
        r@ == camel_case(nm@),
{
    nm.to_camel_case()
}

/// Calls `heck::MixedCase::to_mixed_case` on a string slice. The conversion
/// reads nothing but its argument, so its result is named `mixed_case` of
/// the argument; nothing more is claimed of it.
#[verifier::external_body]
pub(crate) fn to_mixed_case(nm: &str) -> (r: String)
    ensures
        r@ == mixed_case(nm@),
{
    nm.to_mixed_case()
}

/// Calls `heck::ShoutySnakeCase::to_shouty_snake_case` on a string slice.
/// The conversion reads nothing but its argument, so its result is named
/// `shouty_snake_case` of the argument; nothing more is claimed of it.
#[verifier::external_body]
pub(crate) fn to_shouty_snake_case(nm: &str) -> (r: String)
    ensures
        r@ == shouty_snake_case(nm@),
{
    nm.to_shouty_snake_case()
}

/// Whether `s` ends with `suffix`.
pub open spec fn ends_with(s: Seq<char>, suffix: Seq<char>) -> bool {
    s.len() >= suffix.len() && s.subrange(s.len() - suffix.len(), s.len() as int) == suffix
}

/// The name of the exception class for an error: a trailing `Error` becomes
/// `Exception`, and a name that does not end in `Error` stays as it is.
pub open spec fn exception_name_of(nm: Seq<char>) -> Seq<char> {
    if ends_with(nm, "Error"@) {
        nm.subrange(0, nm.len() - "Error"@.len()) + "Exception"@
    } else {
        nm
    }
}

/// The Kotlin type that carries each transport shape. Kotlin's unsigned
/// integers cannot be put into a byte buffer, so both signednesses of a
/// width travel as the signed type.
pub open spec fn ffi_type_label_of(ffi_type: FFIType) -> Seq<char> {
    match ffi_type {
        FFIType::Int8 | FFIType::UInt8 => "Byte"@,
        FFIType::Int16 | FFIType::UInt16 => "Short"@,
        FFIType::Int32 | FFIType::UInt32 => "Int"@,
        FFIType::Int64 | FFIType::UInt64 => "Long"@,
        FFIType::Float32 => "Float"@,
        FFIType::Float64 => "Double"@,
        FFIType::RustArcPtr => "Pointer"@,
        FFIType::RustBuffer => "RustBuffer.ByValue"@,
        FFIType::ForeignBytes => "ForeignBytes.ByValue"@,
        FFIType::ForeignCallback => "ForeignCallback"@,
    }
}

/// The oracle for Kotlin.
#[derive(Clone, Copy, Debug)]
pub struct KotlinLanguageOracle;

impl Default for KotlinLanguageOracle {
    fn default() -> (r: KotlinLanguageOracle) {
        KotlinLanguageOracle
    }
}

impl KotlinLanguageOracle {
    /// Makes the handler of a type, by the kind of the type.
    fn create_code_type(&self, type_: TypeIdentifier) -> (r: KotlinCodeType)
        ensures
            r.type_id() == type_@,
            r.resolved(),
    {
        match type_ {
            Type::String => KotlinCodeType::String(StringCodeType),
            Type::Boolean => KotlinCodeType::Boolean(BoolCodeType),
            Type::Enum(id) => KotlinCodeType::Enum(EnumCodeType::new(id)),
            Type::Record(id) => KotlinCodeType::Record(RecordCodeType::new(id)),
            Type::Object(id) => KotlinCodeType::Object(ObjectCodeType::new(id)),
            Type::Error(id) => KotlinCodeType::Error(ErrorCodeType::new(id)),
            Type::CallbackInterface(id) => KotlinCodeType::CallbackInterface(
                CallbackInterfaceCodeType::new(id),
            ),
            Type::Optional(inner) => {
                let outer = Type::Optional(Box::new((*inner).clone()));
                KotlinCodeType::Optional(OptionalCodeType::new(*inner, outer))
            },
            Type::Sequence(inner) => {
                let outer = Type::Sequence(Box::new((*inner).clone()));
                KotlinCodeType::Sequence(SequenceCodeType::new(*inner, outer))
            },
            Type::Mapping(inner) => {
                let outer = Type::Mapping(Box::new((*inner).clone()));
                KotlinCodeType::Mapping(MapCodeType::new(*inner, outer))
            },
            plain => KotlinCodeType::Fallback(FallbackCodeType::new(plain)),
        }
    }

    /// Finds the handler of a type. Every type has one: the string and the
    /// boolean a fixed one, a nominal type the handler of its kind, a
    /// compound type the generic handler of its kind around the type that it
    /// wraps, and any other type the plain handler.
    pub fn find(&self, type_: &TypeIdentifier) -> (r: KotlinCodeType)
        ensures
            r.type_id() == type_@,
            r.resolved(),
    {
        self.create_code_type(type_.clone())
    }
}

impl LanguageOracle for KotlinLanguageOracle {
    open spec fn class_name_spec(&self, nm: Seq<char>) -> Seq<char> {
        camel_case(nm)
    }

    open spec fn fn_name_spec(&self, nm: Seq<char>) -> Seq<char> {
        mixed_case(nm)
    }

    open spec fn var_name_spec(&self, nm: Seq<char>) -> Seq<char> {
        mixed_case(nm)
    }

    open spec fn enum_variant_spec(&self, nm: Seq<char>) -> Seq<char> {
        shouty_snake_case(nm)
    }

    open spec fn exception_name_spec(&self, nm: Seq<char>) -> Seq<char> {
        exception_name_of(nm)
    }

    open spec fn ffi_type_label_spec(&self, ffi_type: FFIType) -> Seq<char> {
        ffi_type_label_of(ffi_type)
    }

    /// The Kotlin spelling of a class name.
    fn class_name(&self, nm: &str) -> (r: String) {
        to_camel_case(nm)
    }

    /// The Kotlin spelling of a function name.
    fn fn_name(&self, nm: &str) -> (r: String) {
        to_mixed_case(nm)
    }

    /// The Kotlin spelling of a variable name.
    fn var_name(&self, nm: &str) -> (r: String) {
        to_mixed_case(nm)
    }

    /// The Kotlin spelling of one variant of an enum.
    fn enum_variant(&self, nm: &str) -> (r: String) {
        to_shouty_snake_case(nm)
    }

    /// The Kotlin name of an exception class. Kotlin keeps `Error` for what
    /// cannot be recovered from, so an error of the interface is named as an
    /// exception.
    fn exception_name(&self, nm: &str) -> (r: String) {
        let n = nm.unicode_len();
        if n >= 5 {
            proof {
                reveal_strlit("Error");
            }
            let tail = String::from_str(nm.substring_char(n - 5, n));
            if tail == String::from_str("Error") {
                return String::from_str(nm.substring_char(0, n - 5)).concat("Exception");
            }
        }
        proof {
            reveal_strlit("Error");
        }
        String::from_str(nm)
    }

    fn ffi_type_label(&self, ffi_type: &FFIType) -> (r: String) {
        match ffi_type {
            FFIType::Int8 | FFIType::UInt8 => String::from_str("Byte"),
            FFIType::Int16 | FFIType::UInt16 => String::from_str("Short"),
            FFIType::Int32 | FFIType::UInt32 => String::from_str("Int"),
            FFIType::Int64 | FFIType::UInt64 => String::from_str("Long"),
            FFIType::Float32 => String::from_str("Float"),
            FFIType::Float64 => String::from_str("Double"),
            FFIType::RustArcPtr => String::from_str("Pointer"),
            FFIType::RustBuffer => String::from_str("RustBuffer.ByValue"),
            FFIType::ForeignBytes => String::from_str("ForeignBytes.ByValue"),
            FFIType::ForeignCallback => String::from_str("ForeignCallback"),
        }
    }
}

/// Naming an exception twice changes nothing: the name of an exception
/// never ends in `Error`.
pub proof fn lemma_exception_name_idempotent(nm: Seq<char>)
    ensures
        exception_name_of(exception_name_of(nm)) == exception_name_of(nm),
{
    reveal_strlit("Error");
    reveal_strlit("Exception");
    let once = exception_name_of(nm);
    if ends_with(nm, "Error"@) {
        let n = once.len() as int;
        assert(once[n - 1] == 'n');
        assert(once.subrange(n - 5, n)[4] == 'n');
        assert("Error"@[4] == 'r');
    }
}

/// Two names get the same exception name only if they are the same name, or
/// one of them is the other's exception name already.
pub proof fn lemma_exception_name_collisions(a: Seq<char>, b: Seq<char>)
    requires
        exception_name_of(a) == exception_name_of(b),
    ensures
        a == b || a == exception_name_of(b) || b == exception_name_of(a),
{
    reveal_strlit("Error");
    reveal_strlit("Exception");
    if ends_with(a, "Error"@) && ends_with(b, "Error"@) {
        let stem_a = a.subrange(0, a.len() - 5);
        let stem_b = b.subrange(0, b.len() - 5);
        assert(stem_a =~= exception_name_of(a).subrange(0, stem_a.len() as int));
        assert(stem_b =~= exception_name_of(b).subrange(0, stem_b.len() as int));
        assert(a =~= stem_a + a.subrange(a.len() - 5, a.len() as int));
        assert(b =~= stem_b + b.subrange(b.len() - 5, b.len() as int));
    }
}

/// The two signednesses of each integer width travel as one Kotlin type.
pub proof fn lemma_ffi_labels_ignore_signedness()
    ensures
        ffi_type_label_of(FFIType::UInt8) == ffi_type_label_of(FFIType::Int8),
        ffi_type_label_of(FFIType::UInt16) == ffi_type_label_of(FFIType::Int16),
        ffi_type_label_of(FFIType::UInt32) == ffi_type_label_of(FFIType::Int32),
        ffi_type_label_of(FFIType::UInt64) == ffi_type_label_of(FFIType::Int64),
{
}

/// What the generated Kotlin is to be called. These settings change nothing
/// of the component that the bindings are for.
#[derive(Debug)]
pub struct Config {
    package_name: Option<String>,
    cdylib_name: Option<String>,
}

/// The name that is used where no setting names the package or the library.
pub open spec fn default_name() -> Seq<char> {
    "uniffi"@
}

/// A setting where it is made, that of `other` where it is not.
pub open spec fn preferred(this: Option<Seq<char>>, other: Option<Seq<char>>) -> Option<Seq<char>> {
    if this is Some {
        this
    } else {
        other
    }
}

fn merge_names(this: &Option<String>, other: &Option<String>) -> (r: Option<String>)
    ensures
        r.deep_view() == preferred(this.deep_view(), other.deep_view()),
{
    match (this, other) {
        (Some(name), _) => Some(name.clone()),
        (None, Some(name)) => Some(name.clone()),
        (None, None) => None,
    }
}

impl Config {
    /// The package that was set, if one was.
    pub closed spec fn package(&self) -> Option<Seq<char>> {
        self.package_name.deep_view()
    }

    /// The native library that was set, if one was.
    pub closed spec fn cdylib(&self) -> Option<Seq<char>> {
        self.cdylib_name.deep_view()
    }

    pub fn new(package_name: Option<String>, cdylib_name: Option<String>) -> (r: Config)
        ensures
            r.package() == package_name.deep_view(),
            r.cdylib() == cdylib_name.deep_view(),
    {
        Config { package_name, cdylib_name }
    }

    /// The package that was set, if one was.
    pub fn configured_package_name(&self) -> (r: Option<String>)
        ensures
            r.deep_view() == self.package(),
    {
        self.package_name.clone()
    }

    /// The native library that was set, if one was.
    pub fn configured_cdylib_name(&self) -> (r: Option<String>)
        ensures
            r.deep_view() == self.cdylib(),
    {
        self.cdylib_name.clone()
    }

    /// The name of the Kotlin package: the one that was set, or `uniffi`.
    pub fn package_name(&self) -> (r: String)
        ensures
            r@ == match self.package() {
                Some(name) => name,
                None => default_name(),
            },
    {
        if let Some(package_name) = &self.package_name {
            package_name.clone()
        } else {
            String::from_str("uniffi")
        }
    }

    /// The name of the native library: the one that was set, or `uniffi`.
    pub fn cdylib_name(&self) -> (r: String)
        ensures
            r@ == match self.cdylib() {
                Some(name) => name,
                None => default_name(),
            },
    {
        if let Some(cdylib_name) = &self.cdylib_name {
            cdylib_name.clone()
        } else {
            String::from_str("uniffi")
        }
    }

    /// The settings that an interface has where nothing else is said: the
    /// package `uniffi.` and the library `uniffi_`, each followed by the
    /// namespace of the interface.
    pub fn from(ci: &ComponentInterface) -> (r: Config)
        ensures
            r.package() == Some("uniffi."@ + ci@.namespace),
            r.cdylib() == Some("uniffi_"@ + ci@.namespace),
    {
        Config {
            package_name: Some(String::from_str("uniffi.").concat(ci.namespace())),
            cdylib_name: Some(String::from_str("uniffi_").concat(ci.namespace())),
        }
    }
}

impl Clone for Config {
    fn clone(&self) -> (r: Config)
        ensures
            r.package() == self.package(),
            r.cdylib() == self.cdylib(),
    {
        Config {
            package_name: self.package_name.clone(),
            cdylib_name: self.cdylib_name.clone(),
        }
    }
}

impl Default for Config {
    fn default() -> (r: Config)
        ensures
            r.package() is None,
            r.cdylib() is None,
    {
        Config { package_name: None, cdylib_name: None }
    }
}

impl MergeWith for Config {
    open spec fn merges(&self, other: &Self, merged: &Self) -> bool {
        &&& merged.package() == preferred(self.package(), other.package())
        &&& merged.cdylib() == preferred(self.cdylib(), other.cdylib())
    }

    fn merge_with(&self, other: &Self) -> (r: Self) {
        Config {
            package_name: merge_names(&self.package_name, &other.package_name),
            cdylib_name: merge_names(&self.cdylib_name, &other.cdylib_name),
        }
    }
}

/// Everything that is needed to write the Kotlin bindings of an interface.
pub struct KotlinWrapper<'a> {
    config: Config,
    ci: &'a ComponentInterface,
    oracle: KotlinLanguageOracle,
}

impl<'a> KotlinWrapper<'a> {
    /// The interface that the bindings are for.
    pub closed spec fn interface(&self) -> ComponentInterfaceView {
        self.ci@
    }

    /// The package that was set, if one was.
    pub closed spec fn package(&self) -> Option<Seq<char>> {
        self.config.package()
    }

    /// The native library that was set, if one was.
    pub closed spec fn cdylib(&self) -> Option<Seq<char>> {
        self.config.cdylib()
    }

    pub fn new(config: Config, ci: &'a ComponentInterface) -> (r: Self)
        ensures
            r.interface() == ci@,
            r.package() == config.package(),
            r.cdylib() == config.cdylib(),
    {
        Self { config, ci, oracle: KotlinLanguageOracle }
    }

    pub fn config(&self) -> (r: &Config)
        ensures
            r.package() == self.package(),
            r.cdylib() == self.cdylib(),
    {
        &self.config
    }

    fn push_enum_members(&self, out: &mut Vec<KotlinMember>)
        ensures
            views(final(out)@) == views(old(out)@) + enum_members(self.interface()),
    {
        let ghost all = enum_members(self.ci@);
        let mut i: usize = 0;
        assert(views(out@) =~= views(old(out)@) + all.take(0));
        while i < self.ci.enums.len()
            invariant
                i <= self.ci.enums.len(),
                all == enum_members(self.ci@),
                views(out@) == views(old(out)@) + all.take(i as int),
            decreases self.ci.enums.len() - i,
        {
            let ghost before = views(out@);
            let member = KotlinMember::Enum(KotlinEnum::new(self.ci.enums[i].clone(), self.ci));
            assert(member@ == all[i as int]);
            out.push(member);
            proof {
                assert(views(out@) =~= before.push(all[i as int]));
                assert(all.take(i + 1) =~= all.take(i as int).push(all[i as int]));
                assert(views(out@) =~= views(old(out)@) + all.take(i + 1));
            }
            i += 1;
        }
        assert(all.take(i as int) =~= all);
    }

    fn push_record_members(&self, out: &mut Vec<KotlinMember>)
        ensures
            views(final(out)@) == views(old(out)@) + record_members(self.interface()),
    {
        let ghost all = record_members(self.ci@);
        let mut i: usize = 0;
        assert(views(out@) =~= views(old(out)@) + all.take(0));
        while i < self.ci.records.len()
            invariant
                i <= self.ci.records.len(),
                all == record_members(self.ci@),
                views(out@) == views(old(out)@) + all.take(i as int),
            decreases self.ci.records.len() - i,
        {
            let ghost before = views(out@);
            let member = KotlinMember::Record(KotlinRecord::new(self.ci.records[i].clone(), self.ci));
            assert(member@ == all[i as int]);
            out.push(member);
            proof {
                assert(views(out@) =~= before.push(all[i as int]));
                assert(all.take(i + 1) =~= all.take(i as int).push(all[i as int]));
                assert(views(out@) =~= views(old(out)@) + all.take(i + 1));
            }
            i += 1;
        }
        assert(all.take(i as int) =~= all);
    }

    fn push_error_members(&self, out: &mut Vec<KotlinMember>)
        ensures
            views(final(out)@) == views(old(out)@) + error_members(self.interface()),
    {
        let ghost all = error_members(self.ci@);
        let mut i: usize = 0;
        assert(views(out@) =~= views(old(out)@) + all.take(0));
        while i < self.ci.errors.len()
            invariant
                i <= self.ci.errors.len(),
                all == error_members(self.ci@),
                views(out@) == views(old(out)@) + all.take(i as int),
            decreases self.ci.errors.len() - i,
        {
            let ghost before = views(out@);
            let member = KotlinMember::Error(KotlinError::new(self.ci.errors[i].clone(), self.ci));
            assert(member@ == all[i as int]);
            out.push(member);
            proof {
                assert(views(out@) =~= before.push(all[i as int]));
                assert(all.take(i + 1) =~= all.take(i as int).push(all[i as int]));
                assert(views(out@) =~= views(old(out)@) + all.take(i + 1));
            }
            i += 1;
        }
        assert(all.take(i as int) =~= all);
    }

    fn push_object_members(&self, out: &mut Vec<KotlinMember>)
        ensures
            views(final(out)@) == views(old(out)@) + object_members(self.interface()),
    {
        let ghost all = object_members(self.ci@);
        let mut i: usize = 0;
        assert(views(out@) =~= views(old(out)@) + all.take(0));
        while i < self.ci.objects.len()
            invariant
                i <= self.ci.objects.len(),
                all == object_members(self.ci@),
                views(out@) == views(old(out)@) + all.take(i as int),
            decreases self.ci.objects.len() - i,
        {
            let ghost before = views(out@);
            let member = KotlinMember::Object(KotlinObject::new(self.ci.objects[i].clone(), self.ci));
            assert(member@ == all[i as int]);
            out.push(member);
            proof {
                assert(views(out@) =~= before.push(all[i as int]));
                assert(all.take(i + 1) =~= all.take(i as int).push(all[i as int]));
                assert(views(out@) =~= views(old(out)@) + all.take(i + 1));
            }
            i += 1;
        }
        assert(all.take(i as int) =~= all);
    }

    fn push_callback_interface_members(&self, out: &mut Vec<KotlinMember>)
        ensures
            views(final(out)@) == views(old(out)@) + callback_interface_members(self.interface()),
    {
        let ghost all = callback_interface_members(self.ci@);
        let mut i: usize = 0;
        assert(views(out@) =~= views(old(out)@) + all.take(0));
        while i < self.ci.callback_interfaces.len()
            invariant
                i <= self.ci.callback_interfaces.len(),
                all == callback_interface_members(self.ci@),
                views(out@) == views(old(out)@) + all.take(i as int),
            decreases self.ci.callback_interfaces.len() - i,
        {
            let ghost before = views(out@);
            let member = KotlinMember::CallbackInterface(KotlinCallbackInterface::new(self.ci.callback_interfaces[i].clone(), self.ci));
            assert(member@ == all[i as int]);
            out.push(member);
            proof {
                assert(views(out@) =~= before.push(all[i as int]));
                assert(all.take(i + 1) =~= all.take(i as int).push(all[i as int]));
                assert(views(out@) =~= views(old(out)@) + all.take(i + 1));
            }
            i += 1;
        }
        assert(all.take(i as int) =~= all);
    }

    fn push_function_members(&self, out: &mut Vec<KotlinMember>)
        ensures
            views(final(out)@) == views(old(out)@) + function_members(self.interface()),
    {
        let ghost all = function_members(self.ci@);
        let mut i: usize = 0;
        assert(views(out@) =~= views(old(out)@) + all.take(0));
        while i < self.ci.functions.len()
            invariant
                i <= self.ci.functions.len(),
                all == function_members(self.ci@),
                views(out@) == views(old(out)@) + all.take(i as int),
            decreases self.ci.functions.len() - i,
        {
            let ghost before = views(out@);
            let member = KotlinMember::Function(KotlinFunction::new(self.ci.functions[i].clone(), self.ci));
            assert(member@ == all[i as int]);
            out.push(member);
            proof {
                assert(views(out@) =~= before.push(all[i as int]));
                assert(all.take(i + 1) =~= all.take(i as int).push(all[i as int]));
                assert(views(out@) =~= views(old(out)@) + all.take(i + 1));
            }
            i += 1;
        }
        assert(all.take(i as int) =~= all);
    }

    /// The members of the bindings, one for each definition of the
    /// interface, in an order that the interface alone decides.
    pub fn members(&self) -> (r: Vec<KotlinMember>)
        ensures
            views(r@) == expected_members(self.interface()),
    {
        let mut out: Vec<KotlinMember> = Vec::new();
        self.push_enum_members(&mut out);
        self.push_record_members(&mut out);
        self.push_error_members(&mut out);
        self.push_object_members(&mut out);
        self.push_callback_interface_members(&mut out);
        self.push_function_members(&mut out);
        assert(views(out@) =~= expected_members(self.interface()));
        out
    }

    /// The runtime that the objects of the bindings share.
    pub fn object_runtime(&self) -> (r: KotlinObjectRuntime)
        ensures
            r.needed() == (self.interface().objects.len() > 0),
    {
        KotlinObjectRuntime::new(self.ci)
    }

    /// Whether the interface is one that bindings can be generated for. It
    /// is none if a value of one of its types would have no end, if two of
    /// its types come under one canonical name, if two different names of
    /// one scope are spelled alike, or if a name does not keep its spelling
    /// when it is spelled again. What is reported is the first type without
    /// an end; or else the first name that two types share; or else the
    /// first spelling that two names share; or else the first name without
    /// a lasting spelling.
    pub fn check(&self) -> (r: Result<(), BindingsError>)
        ensures
            match r {
                Ok(()) => {
                    &&& self.interface().all_values_end()
                    &&& emitted_helpers(self.interface().universe()) is Ok
                    &&& spelled_apart(self.interface().name_scopes())
                    &&& spelled_for_good(self.interface().name_scopes())
                },
                Err(BindingsError::UnboundedType(name)) => exists|k: int|
                    {
                        &&& 0 <= k < self.interface().held_types().len()
                        &&& (#[trigger] self.interface().held_types()[k]).canonical_name()
                            == name@
                        &&& self.interface().holds_itself(self.interface().held_types()[k])
                        &&& forall|j: int|
                            0 <= j < k ==> !self.interface().holds_itself(
                                #[trigger] self.interface().held_types()[j],
                            )
                    },
                Err(BindingsError::NameCollision(name)) => {
                    &&& self.interface().all_values_end()
                    &&& emitted_helpers(self.interface().universe()) == Err::<
                        Seq<HelperBlockView>,
                        Seq<char>,
                    >(name@)
                },
                Err(BindingsError::SpellingCollision(spelling)) => {
                    &&& self.interface().all_values_end()
                    &&& emitted_helpers(self.interface().universe()) is Ok
                    &&& is_first_clash_of(self.interface().name_scopes(), spelling@)
                },
                Err(BindingsError::UnstableSpelling(name)) => {
                    &&& self.interface().all_values_end()
                    &&& emitted_helpers(self.interface().universe()) is Ok
                    &&& spelled_apart(self.interface().name_scopes())
                    &&& is_first_unstable_of(self.interface().name_scopes(), name@)
                },
                Err(_) => false,
            },
    {
        match self.ci.first_holding_itself() {
            Some(t) => Err(BindingsError::UnboundedType(t.canonical_name())),
            None => match self.helper_code() {
                Err(e) => Err(e),
                Ok(_) => match first_spelling_clash(self.ci) {
                    Some(spelling) => Err(BindingsError::SpellingCollision(spelling)),
                    None => match first_unstable_name(self.ci) {
                        Some(name) => Err(BindingsError::UnstableSpelling(name)),
                        None => Ok(()),
                    },
                },
            },
        }
    }

    /// The helper code of the bindings: for every type of the interface
    /// that has helper code, that code, once for each canonical name however
    /// often the interface mentions the type. Where two different types of
    /// the interface come under one canonical name, no helper code is
    /// handed out, and the name is reported.
    pub fn helper_code(&self) -> (r: Result<Vec<HelperBlock>, BindingsError>)
        ensures
            match emitted_helpers(self.interface().universe()) {
                Ok(blocks) => r is Ok && views(r->Ok_0@) == blocks,
                Err(name) => r is Err && r->Err_0@ == BindingsErrorView::NameCollision(name),
            },
    {
        let types = self.ci.iter_types();
        let ghost all = views(types@);
        let mut out: Vec<HelperBlock> = Vec::new();
        let mut i: usize = 0;
        assert(views(out@) =~= Seq::<HelperBlockView>::empty());
        while i < types.len()
            invariant
                i <= types.len(),
                all == views(types@),
                all == self.interface().universe(),
                emitted_helpers(all.take(i as int)) == Ok::<Seq<HelperBlockView>, Seq<char>>(
                    views(out@),
                ),
            decreases types.len() - i,
        {
            let ghost before = views(out@);
            let handler = self.oracle.find(&types[i]);
            proof {
                lemma_find_agrees(handler, &self.oracle);
                assert(all.take(i + 1).drop_last() =~= all.take(i as int));
                assert(all.take(i + 1).last() == all[i as int]);
            }
            if let Some(code) = handler.helper_code(&self.oracle) {
                let canonical_name = handler.canonical_name(&self.oracle);
                match filed_at(&out, &canonical_name) {
                    None => {
                        out.push(HelperBlock { type_: types[i].clone(), canonical_name, code });
                        assert(views(out@) =~= before.push(helper_entry(all[i as int])->Some_0));
                    },
                    Some(k) => {
                        if !same_type(&out[k].type_, &types[i]) {
                            proof {
                                assert(before[k as int].type_ == out[k as int].type_@);
                                assert(helper_entry(all[i as int])->Some_0.canonical_name
                                    == canonical_name@);
                                assert(emitted_helpers(all.take(i + 1)) == Err::<
                                    Seq<HelperBlockView>,
                                    Seq<char>,
                                >(canonical_name@));
                                lemma_errors_stay(all, i + 1);
                                assert(all.take(all.len() as int) =~= all);
                                assert(emitted_helpers(all.take(all.len() as int))
                                    == emitted_helpers(all.take(i + 1)));
                            }
                            return Err(BindingsError::NameCollision(canonical_name));
                        }
                    },
                }
            }
            i += 1;
        }
        assert(all.take(i as int) =~= all);
        Ok(out)
    }
}

/// Two runs on one interface give the same output. Whatever lists of
/// members and of helper code two runs hand back, each as its run promises
/// it: if the two interfaces say the same, the lists are the same, item for
/// item and in the same order.
pub proof fn lemma_same_interface_same_output(
    first: ComponentInterfaceView,
    second: ComponentInterfaceView,
    first_members: Seq<MemberView>,
    second_members: Seq<MemberView>,
    first_helpers: Result<Seq<HelperBlockView>, Seq<char>>,
    second_helpers: Result<Seq<HelperBlockView>, Seq<char>>,
)
    requires
        first == second,
        first_members == expected_members(first),
        second_members == expected_members(second),
        first_helpers == emitted_helpers(first.universe()),
        second_helpers == emitted_helpers(second.universe()),
    ensures
        first_members == second_members,
        first_helpers == second_helpers,
{
}

} // verus!
