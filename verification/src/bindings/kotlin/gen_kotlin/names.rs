//! The names of an interface as the bindings spell them, and whether two
//! of them come out alike.
//!
//! Generated code is named by these spellings, so two different names of
//! one scope that are spelled alike would make code that does not build.
//! A scope is a set of names that must stay apart: the classes of the
//! interface, its functions, the variants of one enum, the fields of one
//! record or variant, the methods of one object, the arguments of one call.

use vstd::prelude::*;
use crate::bindings::kotlin::gen_kotlin::camel_case;
use crate::bindings::kotlin::gen_kotlin::mixed_case;
use crate::bindings::kotlin::gen_kotlin::shouty_snake_case;
use crate::bindings::kotlin::gen_kotlin::to_camel_case;
use crate::bindings::kotlin::gen_kotlin::to_mixed_case;
use crate::bindings::kotlin::gen_kotlin::to_shouty_snake_case;
use crate::interface::component::ComponentInterface;
use crate::interface::component::ComponentInterfaceView;
use crate::interface::component::Kind;
use crate::interface::definitions::Argument;
use crate::interface::definitions::ArgumentView;
use crate::interface::definitions::CallbackInterface;
use crate::interface::definitions::Constructor;
use crate::interface::definitions::ConstructorView;
use crate::interface::definitions::Enum;
use crate::interface::definitions::Error;
use crate::interface::definitions::Field;
use crate::interface::definitions::FieldView;
use crate::interface::definitions::Function;
use crate::interface::definitions::FunctionView;
use crate::interface::definitions::Method;
use crate::interface::definitions::MethodView;
use crate::interface::definitions::Object;
use crate::interface::definitions::ObjectView;
use crate::interface::definitions::Record;
use crate::interface::definitions::Variant;
use crate::interface::definitions::VariantView;
use crate::interface::definitions::views;

verus! {

/// The ways in which the bindings spell a name.
#[derive(Clone, Copy, Debug, PartialEq, Eq, Structural)]
pub enum Spelling {
    /// As the name of a class.
    Class,
    /// As the name of a function or of a method.
    Function,
    /// As the name of a variable, a field or an argument.
    Variable,
    /// As the name of a variant of an enum.
    Variant,
}

/// A name as the Kotlin bindings spell it.
pub open spec fn spelled(how: Spelling, nm: Seq<char>) -> Seq<char> {
    match how {
        Spelling::Class => camel_case(nm),
        Spelling::Function => mixed_case(nm),
        Spelling::Variable => mixed_case(nm),
        Spelling::Variant => shouty_snake_case(nm),
    }
}

/// Spells a name.
pub fn spell(how: Spelling, nm: &str) -> (r: String)
    ensures
        r@ == spelled(how, nm@),
{
    match how {
        Spelling::Class => to_camel_case(nm),
        Spelling::Function => to_mixed_case(nm),
        Spelling::Variable => to_mixed_case(nm),
        Spelling::Variant => to_shouty_snake_case(nm),
    }
}

/// Names that must stay apart, and the way in which they are spelled.
#[derive(Debug)]
pub struct NameScope {
    pub how: Spelling,
    pub names: Vec<String>,
}

/// The mathematical value of a [`NameScope`].
pub struct NameScopeView {
    pub how: Spelling,
    pub names: Seq<Seq<char>>,
}

impl View for NameScope {
    type V = NameScopeView;

    open spec fn view(&self) -> NameScopeView {
        NameScopeView { how: self.how, names: views(self.names@) }
    }
}

/// Whether the names at `i` and at `j`, the later one, are two different
/// names that are spelled alike.
pub open spec fn clash(scope: NameScopeView, i: int, j: int) -> bool {
    &&& 0 <= i < j < scope.names.len()
    &&& scope.names[i] != scope.names[j]
    &&& spelled(scope.how, scope.names[i]) == spelled(scope.how, scope.names[j])
}

/// Whether two different names of the scope are spelled alike.
pub open spec fn has_clash(scope: NameScopeView) -> bool {
    exists|i: int, j: int| clash(scope, i, j)
}

/// Whether `spelling` is the first spelling that two different names of the
/// scope share: that of the first name, in the order of the scope, that is
/// spelled like a different name before it.
pub open spec fn is_first_clash(scope: NameScopeView, spelling: Seq<char>) -> bool {
    exists|i: int, j: int|
        {
            &&& #[trigger] clash(scope, i, j)
            &&& spelling == spelled(scope.how, scope.names[j])
            &&& forall|a: int, b: int| b < j ==> !#[trigger] clash(scope, a, b)
        }
}

/// The first spelling that two different names of the scope share, if there
/// is one.
pub fn first_clash(scope: &NameScope) -> (r: Option<String>)
    ensures
        match r {
            None => !has_clash(scope@),
            Some(spelling) => is_first_clash(scope@, spelling@),
        },
{
    let mut spellings: Vec<String> = Vec::new();
    let mut j: usize = 0;
    while j < scope.names.len()
        invariant
            j <= scope.names.len(),
            spellings.len() == j,
            forall|k: int|
                0 <= k < j ==> (#[trigger] spellings[k])@ == spelled(scope@.how, scope@.names[k]),
            forall|a: int, b: int| b < j ==> !#[trigger] clash(scope@, a, b),
        decreases scope.names.len() - j,
    {
        let spelling = spell(scope.how, scope.names[j].as_str());
        let mut i: usize = 0;
        while i < j
            invariant
                i <= j < scope.names.len(),
                spellings.len() == j,
                spelling@ == spelled(scope@.how, scope@.names[j as int]),
                forall|k: int|
                    0 <= k < j ==> (#[trigger] spellings[k])@ == spelled(
                        scope@.how,
                        scope@.names[k],
                    ),
                forall|a: int, b: int| b < j ==> !#[trigger] clash(scope@, a, b),
                forall|a: int| a < i ==> !#[trigger] clash(scope@, a, j as int),
            decreases j - i,
        {
            if scope.names[i] != scope.names[j] && spellings[i] == spelling {
                assert(clash(scope@, i as int, j as int));
                return Some(spelling);
            }
            i += 1;
        }
        spellings.push(spelling);
        j += 1;
    }
    None
}

/// Whether a name keeps its spelling when what was spelled is spelled
/// again.
pub open spec fn is_stable(how: Spelling, nm: Seq<char>) -> bool {
    spelled(how, spelled(how, nm)) == spelled(how, nm)
}

/// Whether every name of the scope keeps its spelling when it is spelled
/// again.
pub open spec fn all_stable(scope: NameScopeView) -> bool {
    forall|k: int| 0 <= k < scope.names.len() ==> is_stable(scope.how, #[trigger] scope.names[k])
}

/// Whether `name` is the first name of the scope that does not keep its
/// spelling.
pub open spec fn is_first_unstable(scope: NameScopeView, name: Seq<char>) -> bool {
    exists|k: int|
        {
            &&& 0 <= k < scope.names.len()
            &&& #[trigger] scope.names[k] == name
            &&& !is_stable(scope.how, name)
            &&& forall|m: int| 0 <= m < k ==> is_stable(scope.how, #[trigger] scope.names[m])
        }
}

/// The first name of the scope whose spelling changes when it is spelled
/// again, if there is one.
pub fn first_unstable(scope: &NameScope) -> (r: Option<String>)
    ensures
        match r {
            None => all_stable(scope@),
            Some(name) => is_first_unstable(scope@, name@),
        },
{
    let mut k: usize = 0;
    while k < scope.names.len()
        invariant
            k <= scope.names.len(),
            forall|m: int| 0 <= m < k ==> is_stable(scope@.how, #[trigger] scope@.names[m]),
        decreases scope.names.len() - k,
    {
        let once = spell(scope.how, scope.names[k].as_str());
        let twice = spell(scope.how, once.as_str());
        if once != twice {
            let name = scope.names[k].clone();
            assert(scope@.names[k as int] == name@);
            return Some(name);
        }
        k += 1;
    }
    None
}

/// All the scopes of `parts`, one after the other.
pub open spec fn concat_scopes(parts: Seq<Seq<NameScopeView>>) -> Seq<NameScopeView>
    decreases parts.len(),
{
    if parts.len() == 0 {
        Seq::empty()
    } else {
        concat_scopes(parts.drop_last()) + parts.last()
    }
}

proof fn lemma_concat_scopes_push(parts: Seq<Seq<NameScopeView>>, part: Seq<NameScopeView>)
    ensures
        concat_scopes(parts.push(part)) == concat_scopes(parts) + part,
{
    assert(parts.push(part).drop_last() =~= parts);
}

/// The names of fields, in their order.
pub open spec fn field_names(fields: Seq<FieldView>) -> Seq<Seq<char>> {
    Seq::new(fields.len(), |i: int| fields[i].name)
}

fn names_of_fields(fields: &Vec<Field>) -> (r: Vec<String>)
    ensures
        views(r@) == field_names(views(fields@)),
{
    let mut out: Vec<String> = Vec::new();
    let mut i: usize = 0;
    while i < fields.len()
        invariant
            i <= fields.len(),
            out.len() == i,
            forall|k: int| 0 <= k < i ==> (#[trigger] out[k])@ == fields[k]@.name,
        decreases fields.len() - i,
    {
        out.push(fields[i].name.clone());
        i += 1;
    }
    assert(views(out@) =~= field_names(views(fields@)));
    out
}

/// The names of arguments, in their order.
pub open spec fn argument_names(arguments: Seq<ArgumentView>) -> Seq<Seq<char>> {
    Seq::new(arguments.len(), |i: int| arguments[i].name)
}

fn names_of_arguments(arguments: &Vec<Argument>) -> (r: Vec<String>)
    ensures
        views(r@) == argument_names(views(arguments@)),
{
    let mut out: Vec<String> = Vec::new();
    let mut i: usize = 0;
    while i < arguments.len()
        invariant
            i <= arguments.len(),
            out.len() == i,
            forall|k: int| 0 <= k < i ==> (#[trigger] out[k])@ == arguments[k]@.name,
        decreases arguments.len() - i,
    {
        out.push(arguments[i].name.clone());
        i += 1;
    }
    assert(views(out@) =~= argument_names(views(arguments@)));
    out
}

/// The names of variants, in their order.
pub open spec fn variant_names(variants: Seq<VariantView>) -> Seq<Seq<char>> {
    Seq::new(variants.len(), |i: int| variants[i].name)
}

fn names_of_variants(variants: &Vec<Variant>) -> (r: Vec<String>)
    ensures
        views(r@) == variant_names(views(variants@)),
{
    let mut out: Vec<String> = Vec::new();
    let mut i: usize = 0;
    while i < variants.len()
        invariant
            i <= variants.len(),
            out.len() == i,
            forall|k: int| 0 <= k < i ==> (#[trigger] out[k])@ == variants[k]@.name,
        decreases variants.len() - i,
    {
        out.push(variants[i].name.clone());
        i += 1;
    }
    assert(views(out@) =~= variant_names(views(variants@)));
    out
}

/// The names of methods, in their order.
pub open spec fn method_names(methods: Seq<MethodView>) -> Seq<Seq<char>> {
    Seq::new(methods.len(), |i: int| methods[i].name)
}

fn names_of_methods(methods: &Vec<Method>) -> (r: Vec<String>)
    ensures
        views(r@) == method_names(views(methods@)),
{
    let mut out: Vec<String> = Vec::new();
    let mut i: usize = 0;
    while i < methods.len()
        invariant
            i <= methods.len(),
            out.len() == i,
            forall|k: int| 0 <= k < i ==> (#[trigger] out[k])@ == methods[k]@.name,
        decreases methods.len() - i,
    {
        out.push(methods[i].name.clone());
        i += 1;
    }
    assert(views(out@) =~= method_names(views(methods@)));
    out
}

/// The names of constructors, in their order.
pub open spec fn constructor_names(constructors: Seq<ConstructorView>) -> Seq<Seq<char>> {
    Seq::new(constructors.len(), |i: int| constructors[i].name)
}

fn names_of_constructors(constructors: &Vec<Constructor>) -> (r: Vec<String>)
    ensures
        views(r@) == constructor_names(views(constructors@)),
{
    let mut out: Vec<String> = Vec::new();
    let mut i: usize = 0;
    while i < constructors.len()
        invariant
            i <= constructors.len(),
            out.len() == i,
            forall|k: int| 0 <= k < i ==> (#[trigger] out[k])@ == constructors[k]@.name,
        decreases constructors.len() - i,
    {
        out.push(constructors[i].name.clone());
        i += 1;
    }
    assert(views(out@) =~= constructor_names(views(constructors@)));
    out
}

/// The names of functions, in their order.
pub open spec fn function_names(functions: Seq<FunctionView>) -> Seq<Seq<char>> {
    Seq::new(functions.len(), |i: int| functions[i].name)
}

fn names_of_functions(functions: &Vec<Function>) -> (r: Vec<String>)
    ensures
        views(r@) == function_names(views(functions@)),
{
    let mut out: Vec<String> = Vec::new();
    let mut i: usize = 0;
    while i < functions.len()
        invariant
            i <= functions.len(),
            out.len() == i,
            forall|k: int| 0 <= k < i ==> (#[trigger] out[k])@ == functions[k]@.name,
        decreases functions.len() - i,
    {
        out.push(functions[i].name.clone());
        i += 1;
    }
    assert(views(out@) =~= function_names(views(functions@)));
    out
}

/// The scopes of the variants of an enum or of an error, then for each variant
/// its fields.
pub open spec fn variant_scopes(variants: Seq<VariantView>) -> Seq<NameScopeView> {
    seq![NameScopeView { how: Spelling::Variant, names: variant_names(variants) }] + Seq::new(
        variants.len(),
        |i: int| NameScopeView { how: Spelling::Variable, names: field_names(variants[i].fields) },
    )
}

fn push_variant_scopes(out: &mut Vec<NameScope>, variants: &Vec<Variant>)
    ensures
        views(final(out)@) == views(old(out)@) + variant_scopes(views(variants@)),
{
    let ghost all = variant_scopes(views(variants@));
    out.push(NameScope { how: Spelling::Variant, names: names_of_variants(variants) });
    assert(views(out@) =~= views(old(out)@) + all.take(1));
    let mut i: usize = 0;
    while i < variants.len()
        invariant
            i <= variants.len(),
            all == variant_scopes(views(variants@)),
            views(out@) == views(old(out)@) + all.take(i + 1),
        decreases variants.len() - i,
    {
        let ghost before = views(out@);
        out.push(
            NameScope { how: Spelling::Variable, names: names_of_fields(&variants[i].fields) },
        );
        proof {
            assert(views(out@) =~= before.push(all[i + 1]));
            assert(all.take(i + 2) =~= all.take(i + 1).push(all[i + 1]));
            assert(views(out@) =~= views(old(out)@) + all.take(i + 2));
        }
        i += 1;
    }
    assert(all.take(i + 1) =~= all);
}

/// The scopes of the methods of an object or of a callback interface, then for
/// each method its arguments.
pub open spec fn method_scopes(methods: Seq<MethodView>) -> Seq<NameScopeView> {
    seq![NameScopeView { how: Spelling::Function, names: method_names(methods) }] + Seq::new(
        methods.len(),
        |i: int|
            NameScopeView {
                how: Spelling::Variable,
                names: argument_names(methods[i].arguments),
            },
    )
}

fn push_method_scopes(out: &mut Vec<NameScope>, methods: &Vec<Method>)
    ensures
        views(final(out)@) == views(old(out)@) + method_scopes(views(methods@)),
{
    let ghost all = method_scopes(views(methods@));
    out.push(NameScope { how: Spelling::Function, names: names_of_methods(methods) });
    assert(views(out@) =~= views(old(out)@) + all.take(1));
    let mut i: usize = 0;
    while i < methods.len()
        invariant
            i <= methods.len(),
            all == method_scopes(views(methods@)),
            views(out@) == views(old(out)@) + all.take(i + 1),
        decreases methods.len() - i,
    {
        let ghost before = views(out@);
        out.push(
            NameScope { how: Spelling::Variable, names: names_of_arguments(&methods[i].arguments) },
        );
        proof {
            assert(views(out@) =~= before.push(all[i + 1]));
            assert(all.take(i + 2) =~= all.take(i + 1).push(all[i + 1]));
            assert(views(out@) =~= views(old(out)@) + all.take(i + 2));
        }
        i += 1;
    }
    assert(all.take(i + 1) =~= all);
}

/// The scopes of the constructors of an object, then for each constructor its
/// arguments.
pub open spec fn constructor_scopes(constructors: Seq<ConstructorView>) -> Seq<NameScopeView> {
    seq![
        NameScopeView { how: Spelling::Function, names: constructor_names(constructors) },
    ] + Seq::new(
        constructors.len(),
        |i: int|
            NameScopeView {
                how: Spelling::Variable,
                names: argument_names(constructors[i].arguments),
            },
    )
}

fn push_constructor_scopes(out: &mut Vec<NameScope>, constructors: &Vec<Constructor>)
    ensures
        views(final(out)@) == views(old(out)@) + constructor_scopes(views(constructors@)),
{
    let ghost all = constructor_scopes(views(constructors@));
    out.push(NameScope { how: Spelling::Function, names: names_of_constructors(constructors) });
    assert(views(out@) =~= views(old(out)@) + all.take(1));
    let mut i: usize = 0;
    while i < constructors.len()
        invariant
            i <= constructors.len(),
            all == constructor_scopes(views(constructors@)),
            views(out@) == views(old(out)@) + all.take(i + 1),
        decreases constructors.len() - i,
    {
        let ghost before = views(out@);
        out.push(
            NameScope {
                how: Spelling::Variable,
                names: names_of_arguments(&constructors[i].arguments),
            },
        );
        proof {
            assert(views(out@) =~= before.push(all[i + 1]));
            assert(all.take(i + 2) =~= all.take(i + 1).push(all[i + 1]));
            assert(views(out@) =~= views(old(out)@) + all.take(i + 2));
        }
        i += 1;
    }
    assert(all.take(i + 1) =~= all);
}

/// The scopes of one object: those of its constructors, then those of its
/// methods.
pub open spec fn object_scopes(object: ObjectView) -> Seq<NameScopeView> {
    constructor_scopes(object.constructors) + method_scopes(object.methods)
}

impl ComponentInterfaceView {
    /// The names of the classes of the interface: those of its enums,
    /// records, errors, objects and callback interfaces.
    pub open spec fn class_names(self) -> Seq<Seq<char>> {
        self.names(Kind::Enum) + self.names(Kind::Record) + self.names(Kind::Error) + self.names(
            Kind::Object,
        ) + self.names(Kind::CallbackInterface)
    }

    /// For each enum, its scopes.
    pub open spec fn enum_scope_parts(self) -> Seq<Seq<NameScopeView>> {
        Seq::new(self.enums.len(), |i: int| variant_scopes(self.enums[i].variants))
    }

    /// For each record, the scope of its fields.
    pub open spec fn record_scopes(self) -> Seq<NameScopeView> {
        Seq::new(
            self.records.len(),
            |i: int|
                NameScopeView {
                    how: Spelling::Variable,
                    names: field_names(self.records[i].fields),
                },
        )
    }

    /// For each error, its scopes.
    pub open spec fn error_scope_parts(self) -> Seq<Seq<NameScopeView>> {
        Seq::new(self.errors.len(), |i: int| variant_scopes(self.errors[i].variants))
    }

    /// For each object, its scopes.
    pub open spec fn object_scope_parts(self) -> Seq<Seq<NameScopeView>> {
        Seq::new(self.objects.len(), |i: int| object_scopes(self.objects[i]))
    }

    /// For each callback interface, its scopes.
    pub open spec fn callback_scope_parts(self) -> Seq<Seq<NameScopeView>> {
        Seq::new(
            self.callback_interfaces.len(),
            |i: int| method_scopes(self.callback_interfaces[i].methods),
        )
    }

    /// For each function, the scope of its arguments.
    pub open spec fn function_argument_scopes(self) -> Seq<NameScopeView> {
        Seq::new(
            self.functions.len(),
            |i: int|
                NameScopeView {
                    how: Spelling::Variable,
                    names: argument_names(self.functions[i].arguments),
                },
        )
    }

    /// Every scope of the interface: its classes, its functions, then the
    /// scopes inside its enums, records, errors, objects, callback
    /// interfaces and functions, each kind in the order of declaration.
    pub open spec fn name_scopes(self) -> Seq<NameScopeView> {
        seq![
            NameScopeView { how: Spelling::Class, names: self.class_names() },
            NameScopeView { how: Spelling::Function, names: function_names(self.functions) },
        ] + concat_scopes(self.enum_scope_parts()) + self.record_scopes() + concat_scopes(
            self.error_scope_parts(),
        ) + concat_scopes(self.object_scope_parts()) + concat_scopes(self.callback_scope_parts())
            + self.function_argument_scopes()
    }
}

/// Appends the names of the definitions of each kind to `out`.
fn class_names(ci: &ComponentInterface) -> (r: Vec<String>)
    ensures
        views(r@) == ci@.class_names(),
{
    let mut out: Vec<String> = Vec::new();
    let ghost start = views(out@);
    let mut i: usize = 0;
    assert(views(out@) =~= start + ci@.names(Kind::Enum).take(0));
    while i < ci.enums.len()
        invariant
            i <= ci.enums.len(),
            views(out@) == start + ci@.names(Kind::Enum).take(i as int),
        decreases ci.enums.len() - i,
    {
        let ghost before = views(out@);
        let ghost all = ci@.names(Kind::Enum);
        out.push(ci.enums[i].name.clone());
        proof {
            assert(views(out@) =~= before.push(all[i as int]));
            assert(all.take(i + 1) =~= all.take(i as int).push(all[i as int]));
            assert(views(out@) =~= start + all.take(i + 1));
        }
        i += 1;
    }
    assert(ci@.names(Kind::Enum).take(i as int) =~= ci@.names(Kind::Enum));
    let ghost start = views(out@);
    let mut i: usize = 0;
    assert(views(out@) =~= start + ci@.names(Kind::Record).take(0));
    while i < ci.records.len()
        invariant
            i <= ci.records.len(),
            views(out@) == start + ci@.names(Kind::Record).take(i as int),
        decreases ci.records.len() - i,
    {
        let ghost before = views(out@);
        let ghost all = ci@.names(Kind::Record);
        out.push(ci.records[i].name.clone());
        proof {
            assert(views(out@) =~= before.push(all[i as int]));
            assert(all.take(i + 1) =~= all.take(i as int).push(all[i as int]));
            assert(views(out@) =~= start + all.take(i + 1));
        }
        i += 1;
    }
    assert(ci@.names(Kind::Record).take(i as int) =~= ci@.names(Kind::Record));
    let ghost start = views(out@);
    let mut i: usize = 0;
    assert(views(out@) =~= start + ci@.names(Kind::Error).take(0));
    while i < ci.errors.len()
        invariant
            i <= ci.errors.len(),
            views(out@) == start + ci@.names(Kind::Error).take(i as int),
        decreases ci.errors.len() - i,
    {
        let ghost before = views(out@);
        let ghost all = ci@.names(Kind::Error);
        out.push(ci.errors[i].name.clone());
        proof {
            assert(views(out@) =~= before.push(all[i as int]));
            assert(all.take(i + 1) =~= all.take(i as int).push(all[i as int]));
            assert(views(out@) =~= start + all.take(i + 1));
        }
        i += 1;
    }
    assert(ci@.names(Kind::Error).take(i as int) =~= ci@.names(Kind::Error));
    let ghost start = views(out@);
    let mut i: usize = 0;
    assert(views(out@) =~= start + ci@.names(Kind::Object).take(0));
    while i < ci.objects.len()
        invariant
            i <= ci.objects.len(),
            views(out@) == start + ci@.names(Kind::Object).take(i as int),
        decreases ci.objects.len() - i,
    {
        let ghost before = views(out@);
        let ghost all = ci@.names(Kind::Object);
        out.push(ci.objects[i].name.clone());
        proof {
            assert(views(out@) =~= before.push(all[i as int]));
            assert(all.take(i + 1) =~= all.take(i as int).push(all[i as int]));
            assert(views(out@) =~= start + all.take(i + 1));
        }
        i += 1;
    }
    assert(ci@.names(Kind::Object).take(i as int) =~= ci@.names(Kind::Object));
    let ghost start = views(out@);
    let mut i: usize = 0;
    assert(views(out@) =~= start + ci@.names(Kind::CallbackInterface).take(0));
    while i < ci.callback_interfaces.len()
        invariant
            i <= ci.callback_interfaces.len(),
            views(out@) == start + ci@.names(Kind::CallbackInterface).take(i as int),
        decreases ci.callback_interfaces.len() - i,
    {
        let ghost before = views(out@);
        let ghost all = ci@.names(Kind::CallbackInterface);
        out.push(ci.callback_interfaces[i].name.clone());
        proof {
            assert(views(out@) =~= before.push(all[i as int]));
            assert(all.take(i + 1) =~= all.take(i as int).push(all[i as int]));
            assert(views(out@) =~= start + all.take(i + 1));
        }
        i += 1;
    }
    assert(ci@.names(Kind::CallbackInterface).take(i as int)
        =~= ci@.names(Kind::CallbackInterface));
    assert(views(out@) =~= ci@.class_names());
    out
}

fn push_enum_scopes(out: &mut Vec<NameScope>, ci: &ComponentInterface)
    ensures
        views(final(out)@) == views(old(out)@) + concat_scopes(ci@.enum_scope_parts()),
{
    let ghost parts = ci@.enum_scope_parts();
    let mut i: usize = 0;
    assert(parts.take(0) =~= Seq::<Seq<NameScopeView>>::empty());
    assert(views(out@) =~= views(old(out)@) + concat_scopes(parts.take(0)));
    while i < ci.enums.len()
        invariant
            i <= ci.enums.len(),
            parts == ci@.enum_scope_parts(),
            views(out@) == views(old(out)@) + concat_scopes(parts.take(i as int)),
        decreases ci.enums.len() - i,
    {
        let ghost before = views(out@);
        push_variant_scopes(out, &ci.enums[i].variants);
        proof {
            assert(views(out@) =~= before + parts[i as int]);
            assert(parts.take(i + 1) =~= parts.take(i as int).push(parts[i as int]));
            lemma_concat_scopes_push(parts.take(i as int), parts[i as int]);
            assert(views(out@) =~= views(old(out)@) + concat_scopes(parts.take(i + 1)));
        }
        i += 1;
    }
    assert(parts.take(i as int) =~= parts);
}

fn push_error_scopes(out: &mut Vec<NameScope>, ci: &ComponentInterface)
    ensures
        views(final(out)@) == views(old(out)@) + concat_scopes(ci@.error_scope_parts()),
{
    let ghost parts = ci@.error_scope_parts();
    let mut i: usize = 0;
    assert(parts.take(0) =~= Seq::<Seq<NameScopeView>>::empty());
    assert(views(out@) =~= views(old(out)@) + concat_scopes(parts.take(0)));
    while i < ci.errors.len()
        invariant
            i <= ci.errors.len(),
            parts == ci@.error_scope_parts(),
            views(out@) == views(old(out)@) + concat_scopes(parts.take(i as int)),
        decreases ci.errors.len() - i,
    {
        let ghost before = views(out@);
        push_variant_scopes(out, &ci.errors[i].variants);
        proof {
            assert(views(out@) =~= before + parts[i as int]);
            assert(parts.take(i + 1) =~= parts.take(i as int).push(parts[i as int]));
            lemma_concat_scopes_push(parts.take(i as int), parts[i as int]);
            assert(views(out@) =~= views(old(out)@) + concat_scopes(parts.take(i + 1)));
        }
        i += 1;
    }
    assert(parts.take(i as int) =~= parts);
}

fn push_object_scopes(out: &mut Vec<NameScope>, ci: &ComponentInterface)
    ensures
        views(final(out)@) == views(old(out)@) + concat_scopes(ci@.object_scope_parts()),
{
    let ghost parts = ci@.object_scope_parts();
    let mut i: usize = 0;
    assert(parts.take(0) =~= Seq::<Seq<NameScopeView>>::empty());
    assert(views(out@) =~= views(old(out)@) + concat_scopes(parts.take(0)));
    while i < ci.objects.len()
        invariant
            i <= ci.objects.len(),
            parts == ci@.object_scope_parts(),
            views(out@) == views(old(out)@) + concat_scopes(parts.take(i as int)),
        decreases ci.objects.len() - i,
    {
        let ghost before = views(out@);
        push_constructor_scopes(out, &ci.objects[i].constructors);
        push_method_scopes(out, &ci.objects[i].methods);
        proof {
            assert(views(out@) =~= before + parts[i as int]);
            assert(parts.take(i + 1) =~= parts.take(i as int).push(parts[i as int]));
            lemma_concat_scopes_push(parts.take(i as int), parts[i as int]);
            assert(views(out@) =~= views(old(out)@) + concat_scopes(parts.take(i + 1)));
        }
        i += 1;
    }
    assert(parts.take(i as int) =~= parts);
}

fn push_callback_scopes(out: &mut Vec<NameScope>, ci: &ComponentInterface)
    ensures
        views(final(out)@) == views(old(out)@) + concat_scopes(ci@.callback_scope_parts()),
{
    let ghost parts = ci@.callback_scope_parts();
    let mut i: usize = 0;
    assert(parts.take(0) =~= Seq::<Seq<NameScopeView>>::empty());
    assert(views(out@) =~= views(old(out)@) + concat_scopes(parts.take(0)));
    while i < ci.callback_interfaces.len()
        invariant
            i <= ci.callback_interfaces.len(),
            parts == ci@.callback_scope_parts(),
            views(out@) == views(old(out)@) + concat_scopes(parts.take(i as int)),
        decreases ci.callback_interfaces.len() - i,
    {
        let ghost before = views(out@);
        push_method_scopes(out, &ci.callback_interfaces[i].methods);
        proof {
            assert(views(out@) =~= before + parts[i as int]);
            assert(parts.take(i + 1) =~= parts.take(i as int).push(parts[i as int]));
            lemma_concat_scopes_push(parts.take(i as int), parts[i as int]);
            assert(views(out@) =~= views(old(out)@) + concat_scopes(parts.take(i + 1)));
        }
        i += 1;
    }
    assert(parts.take(i as int) =~= parts);
}

fn push_record_scopes(out: &mut Vec<NameScope>, ci: &ComponentInterface)
    ensures
        views(final(out)@) == views(old(out)@) + ci@.record_scopes(),
{
    let ghost all = ci@.record_scopes();
    let mut i: usize = 0;
    assert(views(out@) =~= views(old(out)@) + all.take(0));
    while i < ci.records.len()
        invariant
            i <= ci.records.len(),
            all == ci@.record_scopes(),
            views(out@) == views(old(out)@) + all.take(i as int),
        decreases ci.records.len() - i,
    {
        let ghost before = views(out@);
        out.push(
            NameScope { how: Spelling::Variable, names: names_of_fields(&ci.records[i].fields) },
        );
        proof {
            assert(views(out@) =~= before.push(all[i as int]));
            assert(all.take(i + 1) =~= all.take(i as int).push(all[i as int]));
            assert(views(out@) =~= views(old(out)@) + all.take(i + 1));
        }
        i += 1;
    }
    assert(all.take(i as int) =~= all);
}

fn push_function_argument_scopes(out: &mut Vec<NameScope>, ci: &ComponentInterface)
    ensures
        views(final(out)@) == views(old(out)@) + ci@.function_argument_scopes(),
{
    let ghost all = ci@.function_argument_scopes();
    let mut i: usize = 0;
    assert(views(out@) =~= views(old(out)@) + all.take(0));
    while i < ci.functions.len()
        invariant
            i <= ci.functions.len(),
            all == ci@.function_argument_scopes(),
            views(out@) == views(old(out)@) + all.take(i as int),
        decreases ci.functions.len() - i,
    {
        let ghost before = views(out@);
        out.push(
            NameScope {
                how: Spelling::Variable,
                names: names_of_arguments(&ci.functions[i].arguments),
            },
        );
        proof {
            assert(views(out@) =~= before.push(all[i as int]));
            assert(all.take(i + 1) =~= all.take(i as int).push(all[i as int]));
            assert(views(out@) =~= views(old(out)@) + all.take(i + 1));
        }
        i += 1;
    }
    assert(all.take(i as int) =~= all);
}

/// Every scope of the interface.
pub fn name_scopes(ci: &ComponentInterface) -> (r: Vec<NameScope>)
    ensures
        views(r@) == ci@.name_scopes(),
{
    let mut out: Vec<NameScope> = Vec::new();
    out.push(NameScope { how: Spelling::Class, names: class_names(ci) });
    out.push(NameScope { how: Spelling::Function, names: names_of_functions(&ci.functions) });
    assert(views(out@) =~= seq![
        NameScopeView { how: Spelling::Class, names: ci@.class_names() },
        NameScopeView { how: Spelling::Function, names: function_names(ci@.functions) },
    ]);
    push_enum_scopes(&mut out, ci);
    push_record_scopes(&mut out, ci);
    push_error_scopes(&mut out, ci);
    push_object_scopes(&mut out, ci);
    push_callback_scopes(&mut out, ci);
    push_function_argument_scopes(&mut out, ci);
    assert(views(out@) =~= ci@.name_scopes());
    out
}

/// Whether every name of every scope keeps its spelling when it is
/// spelled again.
pub open spec fn spelled_for_good(scopes: Seq<NameScopeView>) -> bool {
    forall|k: int| 0 <= k < scopes.len() ==> all_stable(#[trigger] scopes[k])
}

/// Whether `name` is the first name that does not keep its spelling: the
/// first such name in the first of the scopes that has one.
pub open spec fn is_first_unstable_of(scopes: Seq<NameScopeView>, name: Seq<char>) -> bool {
    exists|k: int|
        {
            &&& 0 <= k < scopes.len()
            &&& is_first_unstable(#[trigger] scopes[k], name)
            &&& forall|m: int| 0 <= m < k ==> all_stable(#[trigger] scopes[m])
        }
}

/// The first name of the interface whose spelling changes when it is
/// spelled again, if there is one.
pub fn first_unstable_name(ci: &ComponentInterface) -> (r: Option<String>)
    ensures
        match r {
            None => spelled_for_good(ci@.name_scopes()),
            Some(name) => is_first_unstable_of(ci@.name_scopes(), name@),
        },
{
    let scopes = name_scopes(ci);
    let mut k: usize = 0;
    while k < scopes.len()
        invariant
            k <= scopes.len(),
            views(scopes@) == ci@.name_scopes(),
            forall|m: int| 0 <= m < k ==> all_stable(#[trigger] ci@.name_scopes()[m]),
        decreases scopes.len() - k,
    {
        assert(ci@.name_scopes()[k as int] == scopes[k as int]@);
        if let Some(name) = first_unstable(&scopes[k]) {
            return Some(name);
        }
        k += 1;
    }
    None
}

/// Whether `spelling` is the first spelling that two different names of
/// one scope share: that of the first clash in the first of the scopes
/// that has one.
pub open spec fn is_first_clash_of(scopes: Seq<NameScopeView>, spelling: Seq<char>) -> bool {
    exists|k: int|
        {
            &&& 0 <= k < scopes.len()
            &&& is_first_clash(#[trigger] scopes[k], spelling)
            &&& forall|m: int| 0 <= m < k ==> !has_clash(#[trigger] scopes[m])
        }
}

/// Whether no two different names of one scope are spelled alike.
pub open spec fn spelled_apart(scopes: Seq<NameScopeView>) -> bool {
    forall|k: int| 0 <= k < scopes.len() ==> !has_clash(#[trigger] scopes[k])
}

/// The first spelling that two different names of one scope of the
/// interface share, if there is one.
pub fn first_spelling_clash(ci: &ComponentInterface) -> (r: Option<String>)
    ensures
        match r {
            None => spelled_apart(ci@.name_scopes()),
            Some(spelling) => is_first_clash_of(ci@.name_scopes(), spelling@),
        },
{
    let scopes = name_scopes(ci);
    let mut k: usize = 0;
    while k < scopes.len()
        invariant
            k <= scopes.len(),
            views(scopes@) == ci@.name_scopes(),
            forall|m: int| 0 <= m < k ==> !has_clash(#[trigger] ci@.name_scopes()[m]),
        decreases scopes.len() - k,
    {
        assert(ci@.name_scopes()[k as int] == scopes[k as int]@);
        if let Some(spelling) = first_clash(&scopes[k]) {
            return Some(spelling);
        }
        k += 1;
    }
    None
}

} // verus!
