//! What the handler of each type yields, stated by the type alone.
//!
//! A handler is found by the kind of the type: the string and the boolean
//! have fixed handlers, a nominal type has the handler of its kind bound to
//! its name, a compound type has a generic handler that composes with
//! whatever is found for the type it wraps, and every other type has the
//! plain handler. The functions here say, for each operation, what the
//! handler found for a type produces.

use vstd::prelude::*;
use crate::bindings::backend::BindingsError;
use crate::bindings::backend::BindingsErrorView;
use crate::bindings::backend::CodeType;
use crate::bindings::backend::LanguageOracle;
use crate::bindings::backend::StringReturn;
use crate::bindings::kotlin::gen_kotlin::callback_interface::CallbackInterfaceCodeType;
use crate::bindings::kotlin::gen_kotlin::compounds::compound_literal_spec;
use crate::bindings::kotlin::gen_kotlin::compounds::map_helper_text;
use crate::bindings::kotlin::gen_kotlin::compounds::MapCodeType;
use crate::bindings::kotlin::gen_kotlin::compounds::optional_helper_text;
use crate::bindings::kotlin::gen_kotlin::compounds::OptionalCodeType;
use crate::bindings::kotlin::gen_kotlin::compounds::sequence_helper_text;
use crate::bindings::kotlin::gen_kotlin::compounds::SequenceCodeType;
use crate::bindings::kotlin::gen_kotlin::enum_::EnumCodeType;
use crate::bindings::kotlin::gen_kotlin::error::ErrorCodeType;
use crate::bindings::kotlin::gen_kotlin::fallback::FallbackCodeType;
use crate::bindings::kotlin::gen_kotlin::KotlinLanguageOracle;
use crate::bindings::kotlin::gen_kotlin::legacy_kt::lift_kt_spec;
use crate::bindings::kotlin::gen_kotlin::legacy_kt::literal_kt_spec;
use crate::bindings::kotlin::gen_kotlin::legacy_kt::lower_kt_spec;
use crate::bindings::kotlin::gen_kotlin::legacy_kt::read_kt_spec;
use crate::bindings::kotlin::gen_kotlin::legacy_kt::type_kt_spec;
use crate::bindings::kotlin::gen_kotlin::legacy_kt::write_kt_spec;
use crate::bindings::kotlin::gen_kotlin::object::ObjectCodeType;
use crate::bindings::kotlin::gen_kotlin::primitives::BOOL_HELPER_CODE;
use crate::bindings::kotlin::gen_kotlin::primitives::BoolCodeType;
use crate::bindings::kotlin::gen_kotlin::primitives::primitive_literal_spec;
use crate::bindings::kotlin::gen_kotlin::record::RecordCodeType;
use crate::bindings::kotlin::gen_kotlin::string_::HELPER_CODE;
use crate::bindings::kotlin::gen_kotlin::string_::StringCodeType;
use crate::interface::literal::Literal;
use crate::interface::literal::LiteralView;
use crate::interface::types::lemma_canonical_name_injective;
use crate::interface::types::lemma_name_head;
use crate::interface::types::lemma_prefix_cancel;
use crate::interface::types::name_head;
use crate::interface::types::TypeView;

verus! {

/// Whether the type has no handler of its own and is left to the plain one:
/// the integers, the floats, the timestamp and the duration.
pub open spec fn is_plain(t: TypeView) -> bool {
    !(t is String || t is Boolean || t is Enum || t is Record || t is Object || t is Error
        || t is CallbackInterface || t is Optional || t is Sequence || t is Mapping)
}

/// How deeply compound types nest in a type.
pub open spec fn nesting(t: TypeView) -> nat
    decreases t,
{
    match t {
        TypeView::Optional(inner) => nesting(*inner) + 1,
        TypeView::Sequence(inner) => nesting(*inner) + 1,
        TypeView::Mapping(inner) => nesting(*inner) + 1,
        _ => 0,
    }
}

/// The Kotlin name of the type.
pub open spec fn type_label_of<O: LanguageOracle>(oracle: &O, t: TypeView) -> Seq<char>
    decreases t,
{
    match t {
        TypeView::String => "String"@,
        TypeView::Boolean => "Boolean"@,
        TypeView::Enum(id) => oracle.class_name_spec(id),
        TypeView::Record(id) => oracle.class_name_spec(id),
        TypeView::Object(id) => oracle.class_name_spec(id),
        TypeView::Error(id) => oracle.class_name_spec(id),
        TypeView::CallbackInterface(id) => oracle.class_name_spec(id),
        TypeView::Optional(inner) => type_label_of(oracle, *inner) + "?"@,
        TypeView::Sequence(inner) => "List<"@ + type_label_of(oracle, *inner) + ">"@,
        TypeView::Mapping(inner) => "Map<String, "@ + type_label_of(oracle, *inner) + ">"@,
        _ => type_kt_spec(t),
    }
}

/// The name under which the helper code of the type is filed. The name of a
/// compound type is a prefix before the name of the type it wraps, so that
/// no two nestings share a name.
pub open spec fn canonical_name_of<O: LanguageOracle>(oracle: &O, t: TypeView) -> Seq<char>
    decreases t,
{
    match t {
        TypeView::String => "String"@,
        TypeView::Boolean => "Boolean"@,
        TypeView::Enum(id) => "Enum"@ + oracle.class_name_spec(id),
        TypeView::Record(id) => "Record"@ + oracle.class_name_spec(id),
        TypeView::Object(id) => "Object"@ + oracle.class_name_spec(id),
        TypeView::Error(id) => "Error"@ + oracle.class_name_spec(id),
        TypeView::CallbackInterface(id) => "CallbackInterface"@ + oracle.class_name_spec(id),
        TypeView::Optional(inner) => "Optional"@ + canonical_name_of(oracle, *inner),
        TypeView::Sequence(inner) => "Sequence"@ + canonical_name_of(oracle, *inner),
        TypeView::Mapping(inner) => "Map"@ + canonical_name_of(oracle, *inner),
        _ => t.canonical_name(),
    }
}

/// A constant of the type, or why the literal is none.
pub open spec fn literal_of<O: LanguageOracle>(
    oracle: &O,
    literal: LiteralView,
    t: TypeView,
) -> Result<Seq<char>, BindingsErrorView> {
    match t {
        TypeView::String => match literal {
            LiteralView::String(v) => Ok("\""@ + v + "\""@),
            _ => Err(BindingsErrorView::UnexpectedLiteral(literal.kind())),
        },
        TypeView::Boolean => primitive_literal_spec(literal),
        TypeView::Enum(id) => match literal {
            LiteralView::Enum(v, _) => Ok(
                oracle.class_name_spec(id) + "."@ + oracle.enum_variant_spec(v),
            ),
            _ => Err(BindingsErrorView::UnexpectedLiteral(literal.kind())),
        },
        TypeView::Record(_) => Err(BindingsErrorView::UnexpectedLiteral(literal.kind())),
        TypeView::Object(_) => Err(BindingsErrorView::UnexpectedLiteral(literal.kind())),
        TypeView::Error(_) => Err(BindingsErrorView::UnexpectedLiteral(literal.kind())),
        TypeView::CallbackInterface(_) => Err(
            BindingsErrorView::UnexpectedLiteral(literal.kind()),
        ),
        TypeView::Optional(_) => compound_literal_spec(literal),
        TypeView::Sequence(_) => compound_literal_spec(literal),
        TypeView::Mapping(_) => compound_literal_spec(literal),
        _ => literal_kt_spec(literal),
    }
}

/// The expression that lowers the value named `nm`.
pub open spec fn lower_of<O: LanguageOracle>(oracle: &O, nm: Seq<char>, t: TypeView) -> Seq<char> {
    match t {
        TypeView::String => "StringInternals.lower("@ + oracle.var_name_spec(nm) + ")"@,
        TypeView::Boolean => "BoolInternals.lower("@ + oracle.var_name_spec(nm) + ")"@,
        TypeView::Enum(_) => oracle.var_name_spec(nm) + ".lower()"@,
        TypeView::Record(_) => oracle.var_name_spec(nm) + ".lower()"@,
        TypeView::Object(_) => oracle.var_name_spec(nm) + ".lower()"@,
        TypeView::Error(_) => oracle.var_name_spec(nm) + ".lower()"@,
        TypeView::CallbackInterface(_) => canonical_name_of(oracle, t) + "Internals"@ + ".lower("@
            + oracle.var_name_spec(nm) + ")"@,
        TypeView::Optional(_) => "lower"@ + canonical_name_of(oracle, t) + "("@
            + oracle.var_name_spec(nm) + ")"@,
        TypeView::Sequence(_) => "lower"@ + canonical_name_of(oracle, t) + "("@
            + oracle.var_name_spec(nm) + ")"@,
        TypeView::Mapping(_) => "lower"@ + canonical_name_of(oracle, t) + "("@
            + oracle.var_name_spec(nm) + ")"@,
        _ => lower_kt_spec(nm, t),
    }
}

/// The statement that writes the value named `nm` into the buffer `target`.
pub open spec fn write_of<O: LanguageOracle>(
    oracle: &O,
    nm: Seq<char>,
    target: Seq<char>,
    t: TypeView,
) -> Seq<char> {
    match t {
        TypeView::String => "StringInternals.write("@ + oracle.var_name_spec(nm) + ", "@ + target
            + ")"@,
        TypeView::Boolean => "BoolInternals.write("@ + oracle.var_name_spec(nm) + ", "@ + target
            + ")"@,
        TypeView::Enum(_) => oracle.var_name_spec(nm) + ".write("@ + target + ")"@,
        TypeView::Record(_) => oracle.var_name_spec(nm) + ".write("@ + target + ")"@,
        TypeView::Object(_) => oracle.var_name_spec(nm) + ".write("@ + target + ")"@,
        TypeView::Error(_) => oracle.var_name_spec(nm) + ".write("@ + target + ")"@,
        TypeView::CallbackInterface(_) => canonical_name_of(oracle, t) + "Internals"@ + ".write("@
            + oracle.var_name_spec(nm) + ", "@ + target + ")"@,
        TypeView::Optional(_) => "write"@ + canonical_name_of(oracle, t) + "("@
            + oracle.var_name_spec(nm) + ", "@ + target + ")"@,
        TypeView::Sequence(_) => "write"@ + canonical_name_of(oracle, t) + "("@
            + oracle.var_name_spec(nm) + ", "@ + target + ")"@,
        TypeView::Mapping(_) => "write"@ + canonical_name_of(oracle, t) + "("@
            + oracle.var_name_spec(nm) + ", "@ + target + ")"@,
        _ => write_kt_spec(nm, target, t),
    }
}

/// The expression that lifts a value out of what `nm` received.
pub open spec fn lift_of<O: LanguageOracle>(oracle: &O, nm: Seq<char>, t: TypeView) -> Seq<char> {
    match t {
        TypeView::String => "StringInternals.lift("@ + nm + ")"@,
        TypeView::Boolean => "BoolInternals.lift("@ + nm + ")"@,
        TypeView::Enum(_) => type_label_of(oracle, t) + ".lift("@ + nm + ")"@,
        TypeView::Record(_) => type_label_of(oracle, t) + ".lift("@ + nm + ")"@,
        TypeView::Object(_) => type_label_of(oracle, t) + ".lift("@ + nm + ")"@,
        TypeView::Error(_) => type_label_of(oracle, t) + ".lift("@ + nm + ")"@,
        TypeView::CallbackInterface(_) => canonical_name_of(oracle, t) + "Internals"@ + ".lift("@
            + type_label_of(oracle, t) + ", "@ + nm + ")"@,
        TypeView::Optional(_) => "lift"@ + canonical_name_of(oracle, t) + "("@ + nm + ")"@,
        TypeView::Sequence(_) => "lift"@ + canonical_name_of(oracle, t) + "("@ + nm + ")"@,
        TypeView::Mapping(_) => "lift"@ + canonical_name_of(oracle, t) + "("@ + nm + ")"@,
        _ => lift_kt_spec(nm, t),
    }
}

/// The expression that reads a value from the buffer `nm`.
pub open spec fn read_of<O: LanguageOracle>(oracle: &O, nm: Seq<char>, t: TypeView) -> Seq<char> {
    match t {
        TypeView::String => "StringInternals.read("@ + nm + ")"@,
        TypeView::Boolean => "BoolInternals.read("@ + nm + ")"@,
        TypeView::Enum(_) => type_label_of(oracle, t) + ".read("@ + nm + ")"@,
        TypeView::Record(_) => type_label_of(oracle, t) + ".read("@ + nm + ")"@,
        TypeView::Object(_) => type_label_of(oracle, t) + ".read("@ + nm + ")"@,
        TypeView::Error(_) => type_label_of(oracle, t) + ".read("@ + nm + ")"@,
        TypeView::CallbackInterface(_) => canonical_name_of(oracle, t) + "Internals"@ + ".read("@
            + type_label_of(oracle, t) + ", "@ + nm + ")"@,
        TypeView::Optional(_) => "read"@ + canonical_name_of(oracle, t) + "("@ + nm + ")"@,
        TypeView::Sequence(_) => "read"@ + canonical_name_of(oracle, t) + "("@ + nm + ")"@,
        TypeView::Mapping(_) => "read"@ + canonical_name_of(oracle, t) + "("@ + nm + ")"@,
        _ => read_kt_spec(nm, t),
    }
}

/// The code that is emitted once for the type. The plain types have none:
/// theirs is part of the runtime that every binding carries.
pub open spec fn helper_code_of<O: LanguageOracle>(oracle: &O, t: TypeView) -> Option<Seq<char>> {
    match t {
        TypeView::String => Some(HELPER_CODE@),
        TypeView::Boolean => Some(BOOL_HELPER_CODE@),
        TypeView::Enum(_) => Some(
            "// Helper code for "@ + type_label_of(oracle, t) + " enum is found in EnumTemplate.kt"@,
        ),
        TypeView::Record(_) => Some(
            "// Helper code for "@ + type_label_of(oracle, t)
                + " record is found in RecordTemplate.kt"@,
        ),
        TypeView::Object(_) => Some(
            "// Helper code for "@ + type_label_of(oracle, t)
                + " class is found in ObjectTemplate.kt"@,
        ),
        TypeView::Error(_) => Some(
            "// Helper code for "@ + type_label_of(oracle, t)
                + " enum is found in ErrorTemplate.kt"@,
        ),
        TypeView::CallbackInterface(_) => Some(
            "// Helper code for "@ + type_label_of(oracle, t)
                + " callback interface is found in CallbackInterfaceTemplate.kt"@,
        ),
        TypeView::Optional(inner) => Some(optional_helper_text(*inner, t)),
        TypeView::Sequence(inner) => Some(sequence_helper_text(*inner, t)),
        TypeView::Mapping(inner) => Some(map_helper_text(*inner, t)),
        _ => None,
    }
}

/// What the code of the type imports: an object keeps its state in two
/// atomics, and no other type imports anything.
pub open spec fn import_code_of(t: TypeView) -> Option<Seq<Seq<char>>> {
    match t {
        TypeView::Object(_) => Some(
            seq![
                "java.util.concurrent.atomic.AtomicLong"@,
                "java.util.concurrent.atomic.AtomicBoolean"@,
            ],
        ),
        _ => None,
    }
}

/// The handler found for a type: one of the handlers of this module, by the
/// kind of the type.
pub enum KotlinCodeType {
    String(StringCodeType),
    Boolean(BoolCodeType),
    Enum(EnumCodeType),
    Record(RecordCodeType),
    Object(ObjectCodeType),
    Error(ErrorCodeType),
    CallbackInterface(CallbackInterfaceCodeType),
    Optional(OptionalCodeType),
    Sequence(SequenceCodeType),
    Mapping(MapCodeType),
    Fallback(FallbackCodeType),
}

impl KotlinCodeType {
    /// The type that the handler is for.
    pub open spec fn type_id(&self) -> TypeView {
        match self {
            KotlinCodeType::String(_) => TypeView::String,
            KotlinCodeType::Boolean(_) => TypeView::Boolean,
            KotlinCodeType::Enum(h) => TypeView::Enum(h.name()),
            KotlinCodeType::Record(h) => TypeView::Record(h.name()),
            KotlinCodeType::Object(h) => TypeView::Object(h.name()),
            KotlinCodeType::Error(h) => TypeView::Error(h.name()),
            KotlinCodeType::CallbackInterface(h) => TypeView::CallbackInterface(h.name()),
            KotlinCodeType::Optional(h) => TypeView::Optional(Box::new(h.inner_view())),
            KotlinCodeType::Sequence(h) => TypeView::Sequence(Box::new(h.inner_view())),
            KotlinCodeType::Mapping(h) => TypeView::Mapping(Box::new(h.inner_view())),
            KotlinCodeType::Fallback(h) => h.type_view(),
        }
    }

    /// Whether the handler is one that is found for some type: a compound
    /// handler holds the compound of the type that it wraps, and the plain
    /// handler is bound to a type that has no handler of its own.
    pub open spec fn resolved(&self) -> bool {
        match self {
            KotlinCodeType::Optional(h) => h.wf(),
            KotlinCodeType::Sequence(h) => h.wf(),
            KotlinCodeType::Mapping(h) => h.wf(),
            KotlinCodeType::Fallback(h) => is_plain(h.type_view()),
            _ => true,
        }
    }
}

impl<O: LanguageOracle> CodeType<O> for KotlinCodeType {
    open spec fn type_label_spec(&self, oracle: &O) -> Seq<char> {
        match self {
            KotlinCodeType::String(h) => h.type_label_spec(oracle),
            KotlinCodeType::Boolean(h) => h.type_label_spec(oracle),
            KotlinCodeType::Enum(h) => h.type_label_spec(oracle),
            KotlinCodeType::Record(h) => h.type_label_spec(oracle),
            KotlinCodeType::Object(h) => h.type_label_spec(oracle),
            KotlinCodeType::Error(h) => h.type_label_spec(oracle),
            KotlinCodeType::CallbackInterface(h) => h.type_label_spec(oracle),
            KotlinCodeType::Optional(h) => h.type_label_spec(oracle),
            KotlinCodeType::Sequence(h) => h.type_label_spec(oracle),
            KotlinCodeType::Mapping(h) => h.type_label_spec(oracle),
            KotlinCodeType::Fallback(h) => h.type_label_spec(oracle),
        }
    }

    open spec fn canonical_name_spec(&self, oracle: &O) -> Seq<char> {
        match self {
            KotlinCodeType::String(h) => h.canonical_name_spec(oracle),
            KotlinCodeType::Boolean(h) => h.canonical_name_spec(oracle),
            KotlinCodeType::Enum(h) => h.canonical_name_spec(oracle),
            KotlinCodeType::Record(h) => h.canonical_name_spec(oracle),
            KotlinCodeType::Object(h) => h.canonical_name_spec(oracle),
            KotlinCodeType::Error(h) => h.canonical_name_spec(oracle),
            KotlinCodeType::CallbackInterface(h) => h.canonical_name_spec(oracle),
            KotlinCodeType::Optional(h) => h.canonical_name_spec(oracle),
            KotlinCodeType::Sequence(h) => h.canonical_name_spec(oracle),
            KotlinCodeType::Mapping(h) => h.canonical_name_spec(oracle),
            KotlinCodeType::Fallback(h) => h.canonical_name_spec(oracle),
        }
    }

    open spec fn literal_spec(&self, oracle: &O, literal: LiteralView) -> Result<
        Seq<char>,
        BindingsErrorView,
    > {
        match self {
            KotlinCodeType::String(h) => h.literal_spec(oracle, literal),
            KotlinCodeType::Boolean(h) => h.literal_spec(oracle, literal),
            KotlinCodeType::Enum(h) => h.literal_spec(oracle, literal),
            KotlinCodeType::Record(h) => h.literal_spec(oracle, literal),
            KotlinCodeType::Object(h) => h.literal_spec(oracle, literal),
            KotlinCodeType::Error(h) => h.literal_spec(oracle, literal),
            KotlinCodeType::CallbackInterface(h) => h.literal_spec(oracle, literal),
            KotlinCodeType::Optional(h) => h.literal_spec(oracle, literal),
            KotlinCodeType::Sequence(h) => h.literal_spec(oracle, literal),
            KotlinCodeType::Mapping(h) => h.literal_spec(oracle, literal),
            KotlinCodeType::Fallback(h) => h.literal_spec(oracle, literal),
        }
    }

    open spec fn lower_spec(&self, oracle: &O, nm: Seq<char>) -> Seq<char> {
        match self {
            KotlinCodeType::String(h) => h.lower_spec(oracle, nm),
            KotlinCodeType::Boolean(h) => h.lower_spec(oracle, nm),
            KotlinCodeType::Enum(h) => h.lower_spec(oracle, nm),
            KotlinCodeType::Record(h) => h.lower_spec(oracle, nm),
            KotlinCodeType::Object(h) => h.lower_spec(oracle, nm),
            KotlinCodeType::Error(h) => h.lower_spec(oracle, nm),
            KotlinCodeType::CallbackInterface(h) => h.lower_spec(oracle, nm),
            KotlinCodeType::Optional(h) => h.lower_spec(oracle, nm),
            KotlinCodeType::Sequence(h) => h.lower_spec(oracle, nm),
            KotlinCodeType::Mapping(h) => h.lower_spec(oracle, nm),
            KotlinCodeType::Fallback(h) => h.lower_spec(oracle, nm),
        }
    }

    open spec fn write_spec(&self, oracle: &O, nm: Seq<char>, target: Seq<char>) -> Seq<char> {
        match self {
            KotlinCodeType::String(h) => h.write_spec(oracle, nm, target),
            KotlinCodeType::Boolean(h) => h.write_spec(oracle, nm, target),
            KotlinCodeType::Enum(h) => h.write_spec(oracle, nm, target),
            KotlinCodeType::Record(h) => h.write_spec(oracle, nm, target),
            KotlinCodeType::Object(h) => h.write_spec(oracle, nm, target),
            KotlinCodeType::Error(h) => h.write_spec(oracle, nm, target),
            KotlinCodeType::CallbackInterface(h) => h.write_spec(oracle, nm, target),
            KotlinCodeType::Optional(h) => h.write_spec(oracle, nm, target),
            KotlinCodeType::Sequence(h) => h.write_spec(oracle, nm, target),
            KotlinCodeType::Mapping(h) => h.write_spec(oracle, nm, target),
            KotlinCodeType::Fallback(h) => h.write_spec(oracle, nm, target),
        }
    }

    open spec fn lift_spec(&self, oracle: &O, nm: Seq<char>) -> Seq<char> {
        match self {
            KotlinCodeType::String(h) => h.lift_spec(oracle, nm),
            KotlinCodeType::Boolean(h) => h.lift_spec(oracle, nm),
            KotlinCodeType::Enum(h) => h.lift_spec(oracle, nm),
            KotlinCodeType::Record(h) => h.lift_spec(oracle, nm),
            KotlinCodeType::Object(h) => h.lift_spec(oracle, nm),
            KotlinCodeType::Error(h) => h.lift_spec(oracle, nm),
            KotlinCodeType::CallbackInterface(h) => h.lift_spec(oracle, nm),
            KotlinCodeType::Optional(h) => h.lift_spec(oracle, nm),
            KotlinCodeType::Sequence(h) => h.lift_spec(oracle, nm),
            KotlinCodeType::Mapping(h) => h.lift_spec(oracle, nm),
            KotlinCodeType::Fallback(h) => h.lift_spec(oracle, nm),
        }
    }

    open spec fn read_spec(&self, oracle: &O, nm: Seq<char>) -> Seq<char> {
        match self {
            KotlinCodeType::String(h) => h.read_spec(oracle, nm),
            KotlinCodeType::Boolean(h) => h.read_spec(oracle, nm),
            KotlinCodeType::Enum(h) => h.read_spec(oracle, nm),
            KotlinCodeType::Record(h) => h.read_spec(oracle, nm),
            KotlinCodeType::Object(h) => h.read_spec(oracle, nm),
            KotlinCodeType::Error(h) => h.read_spec(oracle, nm),
            KotlinCodeType::CallbackInterface(h) => h.read_spec(oracle, nm),
            KotlinCodeType::Optional(h) => h.read_spec(oracle, nm),
            KotlinCodeType::Sequence(h) => h.read_spec(oracle, nm),
            KotlinCodeType::Mapping(h) => h.read_spec(oracle, nm),
            KotlinCodeType::Fallback(h) => h.read_spec(oracle, nm),
        }
    }

    open spec fn helper_code_spec(&self, oracle: &O) -> Option<Seq<char>> {
        match self {
            KotlinCodeType::String(h) => h.helper_code_spec(oracle),
            KotlinCodeType::Boolean(h) => h.helper_code_spec(oracle),
            KotlinCodeType::Enum(h) => h.helper_code_spec(oracle),
            KotlinCodeType::Record(h) => h.helper_code_spec(oracle),
            KotlinCodeType::Object(h) => h.helper_code_spec(oracle),
            KotlinCodeType::Error(h) => h.helper_code_spec(oracle),
            KotlinCodeType::CallbackInterface(h) => h.helper_code_spec(oracle),
            KotlinCodeType::Optional(h) => h.helper_code_spec(oracle),
            KotlinCodeType::Sequence(h) => h.helper_code_spec(oracle),
            KotlinCodeType::Mapping(h) => h.helper_code_spec(oracle),
            KotlinCodeType::Fallback(h) => h.helper_code_spec(oracle),
        }
    }

    open spec fn import_code_spec(&self, oracle: &O) -> Option<Seq<Seq<char>>> {
        match self {
            KotlinCodeType::String(h) => h.import_code_spec(oracle),
            KotlinCodeType::Boolean(h) => h.import_code_spec(oracle),
            KotlinCodeType::Enum(h) => h.import_code_spec(oracle),
            KotlinCodeType::Record(h) => h.import_code_spec(oracle),
            KotlinCodeType::Object(h) => h.import_code_spec(oracle),
            KotlinCodeType::Error(h) => h.import_code_spec(oracle),
            KotlinCodeType::CallbackInterface(h) => h.import_code_spec(oracle),
            KotlinCodeType::Optional(h) => h.import_code_spec(oracle),
            KotlinCodeType::Sequence(h) => h.import_code_spec(oracle),
            KotlinCodeType::Mapping(h) => h.import_code_spec(oracle),
            KotlinCodeType::Fallback(h) => h.import_code_spec(oracle),
        }
    }

    fn type_label(&self, oracle: &O) -> (r: StringReturn)
        decreases nesting(self.type_id()), 0nat,
    {
        match self {
            KotlinCodeType::String(h) => h.type_label(oracle),
            KotlinCodeType::Boolean(h) => h.type_label(oracle),
            KotlinCodeType::Enum(h) => h.type_label(oracle),
            KotlinCodeType::Record(h) => h.type_label(oracle),
            KotlinCodeType::Object(h) => h.type_label(oracle),
            KotlinCodeType::Error(h) => h.type_label(oracle),
            KotlinCodeType::CallbackInterface(h) => h.type_label(oracle),
            KotlinCodeType::Optional(h) => h.type_label(oracle),
            KotlinCodeType::Sequence(h) => h.type_label(oracle),
            KotlinCodeType::Mapping(h) => h.type_label(oracle),
            KotlinCodeType::Fallback(h) => h.type_label(oracle),
        }
    }

    fn canonical_name(&self, oracle: &O) -> (r: StringReturn)
        decreases nesting(self.type_id()), 0nat,
    {
        match self {
            KotlinCodeType::String(h) => h.canonical_name(oracle),
            KotlinCodeType::Boolean(h) => h.canonical_name(oracle),
            KotlinCodeType::Enum(h) => h.canonical_name(oracle),
            KotlinCodeType::Record(h) => h.canonical_name(oracle),
            KotlinCodeType::Object(h) => h.canonical_name(oracle),
            KotlinCodeType::Error(h) => h.canonical_name(oracle),
            KotlinCodeType::CallbackInterface(h) => h.canonical_name(oracle),
            KotlinCodeType::Optional(h) => h.canonical_name(oracle),
            KotlinCodeType::Sequence(h) => h.canonical_name(oracle),
            KotlinCodeType::Mapping(h) => h.canonical_name(oracle),
            KotlinCodeType::Fallback(h) => h.canonical_name(oracle),
        }
    }

    fn literal(&self, oracle: &O, literal: &Literal) -> (r: Result<StringReturn, BindingsError>) {
        match self {
            KotlinCodeType::String(h) => h.literal(oracle, literal),
            KotlinCodeType::Boolean(h) => h.literal(oracle, literal),
            KotlinCodeType::Enum(h) => h.literal(oracle, literal),
            KotlinCodeType::Record(h) => h.literal(oracle, literal),
            KotlinCodeType::Object(h) => h.literal(oracle, literal),
            KotlinCodeType::Error(h) => h.literal(oracle, literal),
            KotlinCodeType::CallbackInterface(h) => h.literal(oracle, literal),
            KotlinCodeType::Optional(h) => h.literal(oracle, literal),
            KotlinCodeType::Sequence(h) => h.literal(oracle, literal),
            KotlinCodeType::Mapping(h) => h.literal(oracle, literal),
            KotlinCodeType::Fallback(h) => h.literal(oracle, literal),
        }
    }

    fn lower(&self, oracle: &O, nm: &str) -> (r: StringReturn) {
        match self {
            KotlinCodeType::String(h) => h.lower(oracle, nm),
            KotlinCodeType::Boolean(h) => h.lower(oracle, nm),
            KotlinCodeType::Enum(h) => h.lower(oracle, nm),
            KotlinCodeType::Record(h) => h.lower(oracle, nm),
            KotlinCodeType::Object(h) => h.lower(oracle, nm),
            KotlinCodeType::Error(h) => h.lower(oracle, nm),
            KotlinCodeType::CallbackInterface(h) => h.lower(oracle, nm),
            KotlinCodeType::Optional(h) => h.lower(oracle, nm),
            KotlinCodeType::Sequence(h) => h.lower(oracle, nm),
            KotlinCodeType::Mapping(h) => h.lower(oracle, nm),
            KotlinCodeType::Fallback(h) => h.lower(oracle, nm),
        }
    }

    fn write(&self, oracle: &O, nm: &str, target: &str) -> (r: StringReturn) {
        match self {
            KotlinCodeType::String(h) => h.write(oracle, nm, target),
            KotlinCodeType::Boolean(h) => h.write(oracle, nm, target),
            KotlinCodeType::Enum(h) => h.write(oracle, nm, target),
            KotlinCodeType::Record(h) => h.write(oracle, nm, target),
            KotlinCodeType::Object(h) => h.write(oracle, nm, target),
            KotlinCodeType::Error(h) => h.write(oracle, nm, target),
            KotlinCodeType::CallbackInterface(h) => h.write(oracle, nm, target),
            KotlinCodeType::Optional(h) => h.write(oracle, nm, target),
            KotlinCodeType::Sequence(h) => h.write(oracle, nm, target),
            KotlinCodeType::Mapping(h) => h.write(oracle, nm, target),
            KotlinCodeType::Fallback(h) => h.write(oracle, nm, target),
        }
    }

    fn lift(&self, oracle: &O, nm: &str) -> (r: StringReturn) {
        match self {
            KotlinCodeType::String(h) => h.lift(oracle, nm),
            KotlinCodeType::Boolean(h) => h.lift(oracle, nm),
            KotlinCodeType::Enum(h) => h.lift(oracle, nm),
            KotlinCodeType::Record(h) => h.lift(oracle, nm),
            KotlinCodeType::Object(h) => h.lift(oracle, nm),
            KotlinCodeType::Error(h) => h.lift(oracle, nm),
            KotlinCodeType::CallbackInterface(h) => h.lift(oracle, nm),
            KotlinCodeType::Optional(h) => h.lift(oracle, nm),
            KotlinCodeType::Sequence(h) => h.lift(oracle, nm),
            KotlinCodeType::Mapping(h) => h.lift(oracle, nm),
            KotlinCodeType::Fallback(h) => h.lift(oracle, nm),
        }
    }

    fn read(&self, oracle: &O, nm: &str) -> (r: StringReturn) {
        match self {
            KotlinCodeType::String(h) => h.read(oracle, nm),
            KotlinCodeType::Boolean(h) => h.read(oracle, nm),
            KotlinCodeType::Enum(h) => h.read(oracle, nm),
            KotlinCodeType::Record(h) => h.read(oracle, nm),
            KotlinCodeType::Object(h) => h.read(oracle, nm),
            KotlinCodeType::Error(h) => h.read(oracle, nm),
            KotlinCodeType::CallbackInterface(h) => h.read(oracle, nm),
            KotlinCodeType::Optional(h) => h.read(oracle, nm),
            KotlinCodeType::Sequence(h) => h.read(oracle, nm),
            KotlinCodeType::Mapping(h) => h.read(oracle, nm),
            KotlinCodeType::Fallback(h) => h.read(oracle, nm),
        }
    }

    fn helper_code(&self, oracle: &O) -> (r: Option<String>) {
        match self {
            KotlinCodeType::String(h) => h.helper_code(oracle),
            KotlinCodeType::Boolean(h) => h.helper_code(oracle),
            KotlinCodeType::Enum(h) => h.helper_code(oracle),
            KotlinCodeType::Record(h) => h.helper_code(oracle),
            KotlinCodeType::Object(h) => h.helper_code(oracle),
            KotlinCodeType::Error(h) => h.helper_code(oracle),
            KotlinCodeType::CallbackInterface(h) => h.helper_code(oracle),
            KotlinCodeType::Optional(h) => h.helper_code(oracle),
            KotlinCodeType::Sequence(h) => h.helper_code(oracle),
            KotlinCodeType::Mapping(h) => h.helper_code(oracle),
            KotlinCodeType::Fallback(h) => h.helper_code(oracle),
        }
    }

    fn import_code(&self, oracle: &O) -> (r: Option<Vec<String>>) {
        match self {
            KotlinCodeType::String(h) => h.import_code(oracle),
            KotlinCodeType::Boolean(h) => h.import_code(oracle),
            KotlinCodeType::Enum(h) => h.import_code(oracle),
            KotlinCodeType::Record(h) => h.import_code(oracle),
            KotlinCodeType::Object(h) => h.import_code(oracle),
            KotlinCodeType::Error(h) => h.import_code(oracle),
            KotlinCodeType::CallbackInterface(h) => h.import_code(oracle),
            KotlinCodeType::Optional(h) => h.import_code(oracle),
            KotlinCodeType::Sequence(h) => h.import_code(oracle),
            KotlinCodeType::Mapping(h) => h.import_code(oracle),
            KotlinCodeType::Fallback(h) => h.import_code(oracle),
        }
    }
}

/// A handler that was found for a type yields, in every operation, what is
/// stated of that type.
pub proof fn lemma_find_agrees<O: LanguageOracle>(h: KotlinCodeType, oracle: &O)
    requires
        h.resolved(),
    ensures
        h.type_label_spec(oracle) == type_label_of(oracle, h.type_id()),
        h.canonical_name_spec(oracle) == canonical_name_of(oracle, h.type_id()),
        forall|literal: LiteralView| #[trigger]
            h.literal_spec(oracle, literal) == literal_of(oracle, literal, h.type_id()),
        forall|nm: Seq<char>| #[trigger]
            h.lower_spec(oracle, nm) == lower_of(oracle, nm, h.type_id()),
        forall|nm: Seq<char>, target: Seq<char>| #[trigger]
            h.write_spec(oracle, nm, target) == write_of(oracle, nm, target, h.type_id()),
        forall|nm: Seq<char>| #[trigger]
            h.lift_spec(oracle, nm) == lift_of(oracle, nm, h.type_id()),
        forall|nm: Seq<char>| #[trigger]
            h.read_spec(oracle, nm) == read_of(oracle, nm, h.type_id()),
        h.helper_code_spec(oracle) == helper_code_of(oracle, h.type_id()),
        h.import_code_spec(oracle) == import_code_of(h.type_id()),
{
}

/// Whether two types are the same but for the spelling of the names in
/// them: the same leaf, nominal types of one kind whose names the oracle
/// spells alike, or compound types of one kind around two such types.
pub open spec fn same_but_for_spelling<O: LanguageOracle>(oracle: &O, a: TypeView, b: TypeView) -> bool
    decreases a,
{
    match a {
        TypeView::Enum(id) => b is Enum && oracle.class_name_spec(id) == oracle.class_name_spec(
            b->Enum_0,
        ),
        TypeView::Record(id) => b is Record && oracle.class_name_spec(id)
            == oracle.class_name_spec(b->Record_0),
        TypeView::Object(id) => b is Object && oracle.class_name_spec(id)
            == oracle.class_name_spec(b->Object_0),
        TypeView::Error(id) => b is Error && oracle.class_name_spec(id) == oracle.class_name_spec(
            b->Error_0,
        ),
        TypeView::CallbackInterface(id) => b is CallbackInterface && oracle.class_name_spec(id)
            == oracle.class_name_spec(b->CallbackInterface_0),
        TypeView::Optional(inner) => b is Optional && same_but_for_spelling(
            oracle,
            *inner,
            *b->Optional_0,
        ),
        TypeView::Sequence(inner) => b is Sequence && same_but_for_spelling(
            oracle,
            *inner,
            *b->Sequence_0,
        ),
        TypeView::Mapping(inner) => b is Mapping && same_but_for_spelling(
            oracle,
            *inner,
            *b->Mapping_0,
        ),
        _ => a == b,
    }
}

/// The first two characters of the name under which a type's helper code is
/// filed. They differ between any two kinds of types.
pub open spec fn filed_name_head(t: TypeView) -> (char, char) {
    match t {
        TypeView::String => ('S', 't'),
        TypeView::Boolean => ('B', 'o'),
        TypeView::Enum(_) => ('E', 'n'),
        TypeView::Record(_) => ('R', 'e'),
        TypeView::Object(_) => ('O', 'b'),
        TypeView::Error(_) => ('E', 'r'),
        TypeView::CallbackInterface(_) => ('C', 'a'),
        TypeView::Optional(_) => ('O', 'p'),
        TypeView::Sequence(_) => ('S', 'e'),
        TypeView::Mapping(_) => ('M', 'a'),
        _ => name_head(t),
    }
}

proof fn lemma_filed_name_head<O: LanguageOracle>(oracle: &O, t: TypeView)
    ensures
        canonical_name_of(oracle, t).len() >= 2,
        canonical_name_of(oracle, t)[0] == filed_name_head(t).0,
        canonical_name_of(oracle, t)[1] == filed_name_head(t).1,
{
    reveal_strlit("String");
    reveal_strlit("Boolean");
    reveal_strlit("Enum");
    reveal_strlit("Record");
    reveal_strlit("Object");
    reveal_strlit("Error");
    reveal_strlit("CallbackInterface");
    reveal_strlit("Optional");
    reveal_strlit("Sequence");
    reveal_strlit("Map");
    lemma_name_head(t);
}

/// The names under which helper code is filed keep the types apart: two
/// types that are filed under one name are the same type, but for names
/// that the oracle spells alike. So no compound type shares a name with
/// another nesting or with a nominal type, whatever the nominal type is
/// called.
pub proof fn lemma_filed_names_keep_types_apart<O: LanguageOracle>(
    oracle: &O,
    a: TypeView,
    b: TypeView,
)
    requires
        canonical_name_of(oracle, a) == canonical_name_of(oracle, b),
    ensures
        same_but_for_spelling(oracle, a, b),
    decreases a,
{
    lemma_filed_name_head(oracle, a);
    lemma_filed_name_head(oracle, b);
    match a {
        TypeView::Enum(id) => {
            lemma_prefix_cancel(
                "Enum"@,
                oracle.class_name_spec(id),
                oracle.class_name_spec(b->Enum_0),
            );
        },
        TypeView::Record(id) => {
            lemma_prefix_cancel(
                "Record"@,
                oracle.class_name_spec(id),
                oracle.class_name_spec(b->Record_0),
            );
        },
        TypeView::Object(id) => {
            lemma_prefix_cancel(
                "Object"@,
                oracle.class_name_spec(id),
                oracle.class_name_spec(b->Object_0),
            );
        },
        TypeView::Error(id) => {
            lemma_prefix_cancel(
                "Error"@,
                oracle.class_name_spec(id),
                oracle.class_name_spec(b->Error_0),
            );
        },
        TypeView::CallbackInterface(id) => {
            lemma_prefix_cancel(
                "CallbackInterface"@,
                oracle.class_name_spec(id),
                oracle.class_name_spec(b->CallbackInterface_0),
            );
        },
        TypeView::Optional(inner) => {
            lemma_prefix_cancel(
                "Optional"@,
                canonical_name_of(oracle, *inner),
                canonical_name_of(oracle, *b->Optional_0),
            );
            lemma_filed_names_keep_types_apart(oracle, *inner, *b->Optional_0);
        },
        TypeView::Sequence(inner) => {
            lemma_prefix_cancel(
                "Sequence"@,
                canonical_name_of(oracle, *inner),
                canonical_name_of(oracle, *b->Sequence_0),
            );
            lemma_filed_names_keep_types_apart(oracle, *inner, *b->Sequence_0);
        },
        TypeView::Mapping(inner) => {
            lemma_prefix_cancel(
                "Map"@,
                canonical_name_of(oracle, *inner),
                canonical_name_of(oracle, *b->Mapping_0),
            );
            lemma_filed_names_keep_types_apart(oracle, *inner, *b->Mapping_0);
        },
        TypeView::String => {},
        TypeView::Boolean => {},
        _ => {
            lemma_canonical_name_injective(a, b);
        },
    }
}

/// With the Kotlin oracle, the handler found for a type names the type as
/// the plain functions do.
pub proof fn lemma_labels_agree(t: TypeView)
    ensures
        type_label_of(&KotlinLanguageOracle, t) == type_kt_spec(t),
    decreases t,
{
    match t {
        TypeView::Optional(inner) => lemma_labels_agree(*inner),
        TypeView::Sequence(inner) => lemma_labels_agree(*inner),
        TypeView::Mapping(inner) => lemma_labels_agree(*inner),
        _ => {},
    }
}

} // verus!
