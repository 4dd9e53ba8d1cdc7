//! The members of the bindings: one for each definition of the interface.

use vstd::prelude::*;
use crate::bindings::backend::LanguageOracle;
use crate::bindings::backend::MemberDeclaration;
use crate::bindings::backend::TypeIdentifier;
use crate::bindings::kotlin::gen_kotlin::callback_interface::KotlinCallbackInterface;
use crate::bindings::kotlin::gen_kotlin::enum_::KotlinEnum;
use crate::bindings::kotlin::gen_kotlin::error::KotlinError;
use crate::bindings::kotlin::gen_kotlin::function::KotlinFunction;
use crate::bindings::kotlin::gen_kotlin::object::KotlinObject;
use crate::bindings::kotlin::gen_kotlin::record::KotlinRecord;
use crate::interface::component::ComponentInterfaceView;
use crate::interface::definitions::CallbackInterfaceView;
use crate::interface::definitions::EnumView;
use crate::interface::definitions::ErrorView;
use crate::interface::definitions::FunctionView;
use crate::interface::definitions::ObjectView;
use crate::interface::definitions::RecordView;
use crate::interface::types::TypeView;

verus! {

/// A member of the Kotlin bindings.
pub enum KotlinMember {
    Enum(KotlinEnum),
    Record(KotlinRecord),
    Error(KotlinError),
    Object(KotlinObject),
    CallbackInterface(KotlinCallbackInterface),
    Function(KotlinFunction),
}

/// The mathematical value of a [`KotlinMember`]: the definition that it
/// renders and what is known of the types that the definition is made of.
#[allow(inconsistent_fields)]
pub enum MemberView {
    Enum { definition: EnumView, unsigned: bool, objects: bool },
    Record { definition: RecordView, unsigned: bool, objects: bool },
    Error { definition: ErrorView, objects: bool },
    Object { definition: ObjectView, unsigned: bool },
    CallbackInterface { definition: CallbackInterfaceView, unsigned: bool },
    Function { definition: FunctionView, unsigned: bool },
}

impl View for KotlinMember {
    type V = MemberView;

    open spec fn view(&self) -> MemberView {
        match self {
            KotlinMember::Enum(m) => MemberView::Enum {
                definition: m.definition(),
                unsigned: m.has_unsigned_types(),
                objects: m.has_object_references(),
            },
            KotlinMember::Record(m) => MemberView::Record {
                definition: m.definition(),
                unsigned: m.has_unsigned_types(),
                objects: m.has_object_references(),
            },
            KotlinMember::Error(m) => MemberView::Error {
                definition: m.definition(),
                objects: m.has_object_references(),
            },
            KotlinMember::Object(m) => MemberView::Object {
                definition: m.definition(),
                unsigned: m.has_unsigned_types(),
            },
            KotlinMember::CallbackInterface(m) => MemberView::CallbackInterface {
                definition: m.definition(),
                unsigned: m.has_unsigned_types(),
            },
            KotlinMember::Function(m) => MemberView::Function {
                definition: m.definition(),
                unsigned: m.has_unsigned_types(),
            },
        }
    }
}

impl MemberDeclaration for KotlinMember {
    open spec fn type_identifier_spec(&self) -> Option<TypeView> {
        match self {
            KotlinMember::Enum(m) => m.type_identifier_spec(),
            KotlinMember::Record(m) => m.type_identifier_spec(),
            KotlinMember::Error(m) => m.type_identifier_spec(),
            KotlinMember::Object(m) => m.type_identifier_spec(),
            KotlinMember::CallbackInterface(m) => m.type_identifier_spec(),
            KotlinMember::Function(m) => m.type_identifier_spec(),
        }
    }

    open spec fn import_code_spec(&self) -> Option<Seq<char>> {
        None
    }

    open spec fn initialization_code_spec(&self) -> Option<Seq<char>> {
        None
    }

    open spec fn definition_template_spec(&self) -> Option<Seq<char>> {
        match self {
            KotlinMember::Enum(m) => m.definition_template_spec(),
            KotlinMember::Record(m) => m.definition_template_spec(),
            KotlinMember::Error(m) => m.definition_template_spec(),
            KotlinMember::Object(m) => m.definition_template_spec(),
            KotlinMember::CallbackInterface(m) => m.definition_template_spec(),
            KotlinMember::Function(m) => m.definition_template_spec(),
        }
    }

    fn type_identifier(&self) -> (r: Option<TypeIdentifier>) {
        match self {
            KotlinMember::Enum(m) => m.type_identifier(),
            KotlinMember::Record(m) => m.type_identifier(),
            KotlinMember::Error(m) => m.type_identifier(),
            KotlinMember::Object(m) => m.type_identifier(),
            KotlinMember::CallbackInterface(m) => m.type_identifier(),
            KotlinMember::Function(m) => m.type_identifier(),
        }
    }

    fn import_code<O: LanguageOracle>(&self, oracle: &O) -> (r: Option<String>) {
        match self {
            KotlinMember::Enum(m) => m.import_code(oracle),
            KotlinMember::Record(m) => m.import_code(oracle),
            KotlinMember::Error(m) => m.import_code(oracle),
            KotlinMember::Object(m) => m.import_code(oracle),
            KotlinMember::CallbackInterface(m) => m.import_code(oracle),
            KotlinMember::Function(m) => m.import_code(oracle),
        }
    }

    fn initialization_code<O: LanguageOracle>(&self, oracle: &O) -> (r: Option<String>) {
        match self {
            KotlinMember::Enum(m) => m.initialization_code(oracle),
            KotlinMember::Record(m) => m.initialization_code(oracle),
            KotlinMember::Error(m) => m.initialization_code(oracle),
            KotlinMember::Object(m) => m.initialization_code(oracle),
            KotlinMember::CallbackInterface(m) => m.initialization_code(oracle),
            KotlinMember::Function(m) => m.initialization_code(oracle),
        }
    }

    fn definition_template(&self) -> (r: Option<&'static str>) {
        match self {
            KotlinMember::Enum(m) => m.definition_template(),
            KotlinMember::Record(m) => m.definition_template(),
            KotlinMember::Error(m) => m.definition_template(),
            KotlinMember::Object(m) => m.definition_template(),
            KotlinMember::CallbackInterface(m) => m.definition_template(),
            KotlinMember::Function(m) => m.definition_template(),
        }
    }
}

/// The member for the enum at place `i` of the interface.
pub open spec fn enum_member(ci: ComponentInterfaceView, i: int) -> MemberView {
    MemberView::Enum {
        definition: ci.enums[i],
        unsigned: ci.any_contains_unsigned_types(ci.enums[i].member_types()),
        objects: ci.type_contains_object_references(TypeView::Enum(ci.enums[i].name)),
    }
}

/// The members for the enums of the interface, in the order of declaration.
pub open spec fn enum_members(ci: ComponentInterfaceView) -> Seq<MemberView> {
    Seq::new(ci.enums.len(), |i: int| enum_member(ci, i))
}

/// The member for the record at place `i` of the interface.
pub open spec fn record_member(ci: ComponentInterfaceView, i: int) -> MemberView {
    MemberView::Record {
        definition: ci.records[i],
        unsigned: ci.any_contains_unsigned_types(ci.records[i].member_types()),
        objects: ci.type_contains_object_references(TypeView::Record(ci.records[i].name)),
    }
}

/// The members for the records of the interface, in the order of declaration.
pub open spec fn record_members(ci: ComponentInterfaceView) -> Seq<MemberView> {
    Seq::new(ci.records.len(), |i: int| record_member(ci, i))
}

/// The member for the error at place `i` of the interface.
pub open spec fn error_member(ci: ComponentInterfaceView, i: int) -> MemberView {
    MemberView::Error {
        definition: ci.errors[i],
        objects: ci.type_contains_object_references(TypeView::Error(ci.errors[i].name)),
    }
}

/// The members for the errors of the interface, in the order of declaration.
pub open spec fn error_members(ci: ComponentInterfaceView) -> Seq<MemberView> {
    Seq::new(ci.errors.len(), |i: int| error_member(ci, i))
}

/// The member for the object at place `i` of the interface.
pub open spec fn object_member(ci: ComponentInterfaceView, i: int) -> MemberView {
    MemberView::Object {
        definition: ci.objects[i],
        unsigned: ci.any_contains_unsigned_types(ci.objects[i].member_types()),
    }
}

/// The members for the objects of the interface, in the order of declaration.
pub open spec fn object_members(ci: ComponentInterfaceView) -> Seq<MemberView> {
    Seq::new(ci.objects.len(), |i: int| object_member(ci, i))
}

/// The member for the callback interface at place `i` of the interface.
pub open spec fn callback_interface_member(ci: ComponentInterfaceView, i: int) -> MemberView {
    MemberView::CallbackInterface {
        definition: ci.callback_interfaces[i],
        unsigned: ci.any_contains_unsigned_types(ci.callback_interfaces[i].member_types()),
    }
}

/// The members for the callback interfaces of the interface, in the order of declaration.
pub open spec fn callback_interface_members(ci: ComponentInterfaceView) -> Seq<MemberView> {
    Seq::new(ci.callback_interfaces.len(), |i: int| callback_interface_member(ci, i))
}

/// The member for the function at place `i` of the interface.
pub open spec fn function_member(ci: ComponentInterfaceView, i: int) -> MemberView {
    MemberView::Function {
        definition: ci.functions[i],
        unsigned: ci.any_contains_unsigned_types(ci.functions[i].member_types()),
    }
}

/// The members for the functions of the interface, in the order of declaration.
pub open spec fn function_members(ci: ComponentInterfaceView) -> Seq<MemberView> {
    Seq::new(ci.functions.len(), |i: int| function_member(ci, i))
}

/// The members of the bindings for an interface: one for each definition,
/// kind by kind and within a kind in the order of declaration. The list is
/// a function of the interface alone, so two runs on one interface give the
/// same members in the same order.
pub open spec fn expected_members(ci: ComponentInterfaceView) -> Seq<MemberView> {
    enum_members(ci) + record_members(ci) + error_members(ci) + object_members(ci)
        + callback_interface_members(ci) + function_members(ci)
}

} // verus!
