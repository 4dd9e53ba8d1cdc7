//! The definitions of an interface: what it declares by name.

use vstd::prelude::*;
use crate::interface::types::Type;
use crate::interface::types::TypeView;

verus! {

/// The values of the items of a sequence, item by item.
pub open spec fn views<T: View>(s: Seq<T>) -> Seq<T::V> {
    Seq::new(s.len(), |i: int| s[i]@)
}

/// The value of a type that may be absent.
pub open spec fn option_view(t: Option<Type>) -> Option<TypeView> {
    match t {
        Some(t) => Some(t@),
        None => None,
    }
}

/// All the sequences of `parts`, one after the other.
pub open spec fn concat_all(parts: Seq<Seq<TypeView>>) -> Seq<TypeView>
    decreases parts.len(),
{
    if parts.len() == 0 {
        Seq::empty()
    } else {
        concat_all(parts.drop_last()) + parts.last()
    }
}

/// Adding one more part adds its items at the end.
pub proof fn lemma_concat_all_push(parts: Seq<Seq<TypeView>>, part: Seq<TypeView>)
    ensures
        concat_all(parts.push(part)) == concat_all(parts) + part,
{
    assert(parts.push(part).drop_last() =~= parts);
}

/// A field of a record or of a variant.
#[derive(Debug)]
pub struct Field {
    pub name: String,
    pub type_: Type,
}

/// The mathematical value of a [`Field`].
pub struct FieldView {
    pub name: Seq<char>,
    pub type_: TypeView,
}

impl View for Field {
    type V = FieldView;

    open spec fn view(&self) -> FieldView {
        FieldView {
            name: self.name@,
            type_: self.type_@,
        }
    }
}

impl Clone for Field {
    fn clone(&self) -> (r: Self)
        ensures
            r@ == self@,
    {
        let name = self.name.clone();
        let type_ = self.type_.clone();
        Field { name, type_ }
    }
}

/// An argument of a function, a method or a constructor.
#[derive(Debug)]
pub struct Argument {
    pub name: String,
    pub type_: Type,
}

/// The mathematical value of a [`Argument`].
pub struct ArgumentView {
    pub name: Seq<char>,
    pub type_: TypeView,
}

impl View for Argument {
    type V = ArgumentView;

    open spec fn view(&self) -> ArgumentView {
        ArgumentView {
            name: self.name@,
            type_: self.type_@,
        }
    }
}

impl Clone for Argument {
    fn clone(&self) -> (r: Self)
        ensures
            r@ == self@,
    {
        let name = self.name.clone();
        let type_ = self.type_.clone();
        Argument { name, type_ }
    }
}

/// One variant of an enum or of an error, with the fields that it carries.
#[derive(Debug)]
pub struct Variant {
    pub name: String,
    pub fields: Vec<Field>,
}

/// The mathematical value of a [`Variant`].
pub struct VariantView {
    pub name: Seq<char>,
    pub fields: Seq<FieldView>,
}

impl View for Variant {
    type V = VariantView;

    open spec fn view(&self) -> VariantView {
        VariantView {
            name: self.name@,
            fields: views(self.fields@),
        }
    }
}

impl Clone for Variant {
    fn clone(&self) -> (r: Self)
        ensures
            r@ == self@,
    {
        let name = self.name.clone();
        let fields = self.fields.clone();
        assert(views(fields@) =~= views(self.fields@));
        Variant { name, fields }
    }
}

/// An enum: a choice between variants, each of which may carry fields.
#[derive(Debug)]
pub struct Enum {
    pub name: String,
    pub variants: Vec<Variant>,
}

/// The mathematical value of a [`Enum`].
pub struct EnumView {
    pub name: Seq<char>,
    pub variants: Seq<VariantView>,
}

impl View for Enum {
    type V = EnumView;

    open spec fn view(&self) -> EnumView {
        EnumView {
            name: self.name@,
            variants: views(self.variants@),
        }
    }
}

impl Clone for Enum {
    fn clone(&self) -> (r: Self)
        ensures
            r@ == self@,
    {
        let name = self.name.clone();
        let variants = self.variants.clone();
        assert(views(variants@) =~= views(self.variants@));
        Enum { name, variants }
    }
}

/// A record: named fields in their declared order.
#[derive(Debug)]
pub struct Record {
    pub name: String,
    pub fields: Vec<Field>,
}

/// The mathematical value of a [`Record`].
pub struct RecordView {
    pub name: Seq<char>,
    pub fields: Seq<FieldView>,
}

impl View for Record {
    type V = RecordView;

    open spec fn view(&self) -> RecordView {
        RecordView {
            name: self.name@,
            fields: views(self.fields@),
        }
    }
}

impl Clone for Record {
    fn clone(&self) -> (r: Self)
        ensures
            r@ == self@,
    {
        let name = self.name.clone();
        let fields = self.fields.clone();
        assert(views(fields@) =~= views(self.fields@));
        Record { name, fields }
    }
}

/// An error: a choice between variants, as an enum, that a call may raise.
#[derive(Debug)]
pub struct Error {
    pub name: String,
    pub variants: Vec<Variant>,
}

/// The mathematical value of a [`Error`].
pub struct ErrorView {
    pub name: Seq<char>,
    pub variants: Seq<VariantView>,
}

impl View for Error {
    type V = ErrorView;

    open spec fn view(&self) -> ErrorView {
        ErrorView {
            name: self.name@,
            variants: views(self.variants@),
        }
    }
}

impl Clone for Error {
    fn clone(&self) -> (r: Self)
        ensures
            r@ == self@,
    {
        let name = self.name.clone();
        let variants = self.variants.clone();
        assert(views(variants@) =~= views(self.variants@));
        Error { name, variants }
    }
}

/// A method of an object or of a callback interface.
#[derive(Debug)]
pub struct Method {
    pub name: String,
    pub arguments: Vec<Argument>,
    pub return_type: Option<Type>,
}

/// The mathematical value of a [`Method`].
pub struct MethodView {
    pub name: Seq<char>,
    pub arguments: Seq<ArgumentView>,
    pub return_type: Option<TypeView>,
}

impl View for Method {
    type V = MethodView;

    open spec fn view(&self) -> MethodView {
        MethodView {
            name: self.name@,
            arguments: views(self.arguments@),
            return_type: option_view(self.return_type),
        }
    }
}

impl Clone for Method {
    fn clone(&self) -> (r: Self)
        ensures
            r@ == self@,
    {
        let name = self.name.clone();
        let arguments = self.arguments.clone();
        assert(views(arguments@) =~= views(self.arguments@));
        let return_type = self.return_type.clone();
        Method { name, arguments, return_type }
    }
}

/// A constructor of an object.
#[derive(Debug)]
pub struct Constructor {
    pub name: String,
    pub arguments: Vec<Argument>,
}

/// The mathematical value of a [`Constructor`].
pub struct ConstructorView {
    pub name: Seq<char>,
    pub arguments: Seq<ArgumentView>,
}

impl View for Constructor {
    type V = ConstructorView;

    open spec fn view(&self) -> ConstructorView {
        ConstructorView {
            name: self.name@,
            arguments: views(self.arguments@),
        }
    }
}

impl Clone for Constructor {
    fn clone(&self) -> (r: Self)
        ensures
            r@ == self@,
    {
        let name = self.name.clone();
        let arguments = self.arguments.clone();
        assert(views(arguments@) =~= views(self.arguments@));
        Constructor { name, arguments }
    }
}

/// An object: a native value behind a handle, with constructors and methods.
#[derive(Debug)]
pub struct Object {
    pub name: String,
    pub constructors: Vec<Constructor>,
    pub methods: Vec<Method>,
}

/// The mathematical value of a [`Object`].
pub struct ObjectView {
    pub name: Seq<char>,
    pub constructors: Seq<ConstructorView>,
    pub methods: Seq<MethodView>,
}

impl View for Object {
    type V = ObjectView;

    open spec fn view(&self) -> ObjectView {
        ObjectView {
            name: self.name@,
            constructors: views(self.constructors@),
            methods: views(self.methods@),
        }
    }
}

impl Clone for Object {
    fn clone(&self) -> (r: Self)
        ensures
            r@ == self@,
    {
        let name = self.name.clone();
        let constructors = self.constructors.clone();
        assert(views(constructors@) =~= views(self.constructors@));
        let methods = self.methods.clone();
        assert(views(methods@) =~= views(self.methods@));
        Object { name, constructors, methods }
    }
}

/// A callback interface: methods that the foreign side implements.
#[derive(Debug)]
pub struct CallbackInterface {
    pub name: String,
    pub methods: Vec<Method>,
}

/// The mathematical value of a [`CallbackInterface`].
pub struct CallbackInterfaceView {
    pub name: Seq<char>,
    pub methods: Seq<MethodView>,
}

impl View for CallbackInterface {
    type V = CallbackInterfaceView;

    open spec fn view(&self) -> CallbackInterfaceView {
        CallbackInterfaceView {
            name: self.name@,
            methods: views(self.methods@),
        }
    }
}

impl Clone for CallbackInterface {
    fn clone(&self) -> (r: Self)
        ensures
            r@ == self@,
    {
        let name = self.name.clone();
        let methods = self.methods.clone();
        assert(views(methods@) =~= views(self.methods@));
        CallbackInterface { name, methods }
    }
}

/// A function at the top level of the interface.
#[derive(Debug)]
pub struct Function {
    pub name: String,
    pub arguments: Vec<Argument>,
    pub return_type: Option<Type>,
}

/// The mathematical value of a [`Function`].
pub struct FunctionView {
    pub name: Seq<char>,
    pub arguments: Seq<ArgumentView>,
    pub return_type: Option<TypeView>,
}

impl View for Function {
    type V = FunctionView;

    open spec fn view(&self) -> FunctionView {
        FunctionView {
            name: self.name@,
            arguments: views(self.arguments@),
            return_type: option_view(self.return_type),
        }
    }
}

impl Clone for Function {
    fn clone(&self) -> (r: Self)
        ensures
            r@ == self@,
    {
        let name = self.name.clone();
        let arguments = self.arguments.clone();
        assert(views(arguments@) =~= views(self.arguments@));
        let return_type = self.return_type.clone();
        Function { name, arguments, return_type }
    }
}

/// The types of fields, in their order.
pub open spec fn field_types(fields: Seq<FieldView>) -> Seq<TypeView> {
    Seq::new(fields.len(), |i: int| fields[i].type_)
}

/// The types of arguments, in their order.
pub open spec fn argument_types(arguments: Seq<ArgumentView>) -> Seq<TypeView> {
    Seq::new(arguments.len(), |i: int| arguments[i].type_)
}

/// The type that a call returns, if it returns one.
pub open spec fn return_types(return_type: Option<TypeView>) -> Seq<TypeView> {
    match return_type {
        Some(t) => seq![t],
        None => Seq::empty(),
    }
}

/// For each variant, the types of its fields.
pub open spec fn variant_parts(variants: Seq<VariantView>) -> Seq<Seq<TypeView>> {
    Seq::new(variants.len(), |i: int| field_types(variants[i].fields))
}

/// For each constructor, the types of its arguments.
pub open spec fn constructor_parts(constructors: Seq<ConstructorView>) -> Seq<Seq<TypeView>> {
    Seq::new(constructors.len(), |i: int| argument_types(constructors[i].arguments))
}

/// For each method, the types of its arguments and the type that it returns.
pub open spec fn method_parts(methods: Seq<MethodView>) -> Seq<Seq<TypeView>> {
    Seq::new(
        methods.len(),
        |i: int| argument_types(methods[i].arguments) + return_types(methods[i].return_type),
    )
}

impl RecordView {
    /// The types that the record is made of: those of its fields.
    pub open spec fn member_types(self) -> Seq<TypeView> {
        field_types(self.fields)
    }
}

impl EnumView {
    /// The types that the enum is made of: those of the fields of its
    /// variants.
    pub open spec fn member_types(self) -> Seq<TypeView> {
        concat_all(variant_parts(self.variants))
    }
}

impl ErrorView {
    /// The types that the error is made of: those of the fields of its
    /// variants.
    pub open spec fn member_types(self) -> Seq<TypeView> {
        concat_all(variant_parts(self.variants))
    }
}

impl ObjectView {
    /// The types that the object mentions: those of the arguments of its
    /// constructors, then those of its methods' arguments and results.
    pub open spec fn member_types(self) -> Seq<TypeView> {
        concat_all(constructor_parts(self.constructors)) + concat_all(method_parts(self.methods))
    }
}

impl CallbackInterfaceView {
    /// The types that the interface mentions: those of its methods'
    /// arguments and results.
    pub open spec fn member_types(self) -> Seq<TypeView> {
        concat_all(method_parts(self.methods))
    }
}

impl FunctionView {
    /// The types that the function mentions: those of its arguments, then
    /// the type that it returns.
    pub open spec fn member_types(self) -> Seq<TypeView> {
        argument_types(self.arguments) + return_types(self.return_type)
    }
}

/// Appends the types of `fields` to `out`.
fn push_field_types(out: &mut Vec<Type>, fields: &Vec<Field>)
    ensures
        views(final(out)@) == views(old(out)@) + field_types(views(fields@)),
{
    let mut i: usize = 0;
    while i < fields.len()
        invariant
            i <= fields.len(),
            views(out@) == views(old(out)@) + field_types(views(fields@)).take(i as int),
        decreases fields.len() - i,
    {
        let ghost prev = out@;
        let ghost all = field_types(views(fields@));
        let t = fields[i].type_.clone();
        out.push(t);
        proof {
            assert(views(out@) =~= views(prev).push(t@));
            assert(all.take(i + 1) =~= all.take(i as int).push(all[i as int]));
            assert(views(out@) =~= views(old(out)@) + all.take(i + 1));
        }
        i += 1;
    }
    assert(field_types(views(fields@)).take(i as int) =~= field_types(views(fields@)));
}

/// Appends the types of `arguments` to `out`.
fn push_argument_types(out: &mut Vec<Type>, arguments: &Vec<Argument>)
    ensures
        views(final(out)@) == views(old(out)@) + argument_types(views(arguments@)),
{
    let mut i: usize = 0;
    while i < arguments.len()
        invariant
            i <= arguments.len(),
            views(out@) == views(old(out)@) + argument_types(views(arguments@)).take(i as int),
        decreases arguments.len() - i,
    {
        let ghost prev = out@;
        let ghost all = argument_types(views(arguments@));
        let t = arguments[i].type_.clone();
        out.push(t);
        proof {
            assert(views(out@) =~= views(prev).push(t@));
            assert(all.take(i + 1) =~= all.take(i as int).push(all[i as int]));
            assert(views(out@) =~= views(old(out)@) + all.take(i + 1));
        }
        i += 1;
    }
    assert(argument_types(views(arguments@)).take(i as int) =~= argument_types(
        views(arguments@),
    ));
}

/// Appends the type that a call returns to `out`, if it returns one.
fn push_return_type(out: &mut Vec<Type>, return_type: &Option<Type>)
    ensures
        views(final(out)@) == views(old(out)@) + return_types(option_view(*return_type)),
{
    match return_type {
        Some(t) => {
            out.push(t.clone());
            assert(views(out@) =~= views(old(out)@) + return_types(option_view(*return_type)));
        },
        None => {
            assert(views(out@) =~= views(old(out)@) + return_types(option_view(*return_type)));
        },
    }
}

/// Appends the types of the fields of `variants` to `out`, variant by variant.
fn push_variant_types(out: &mut Vec<Type>, variants: &Vec<Variant>)
    ensures
        views(final(out)@) == views(old(out)@) + concat_all(variant_parts(views(variants@))),
{
    let ghost all = views(variants@);
    let mut i: usize = 0;
    assert(variant_parts(all.take(0)) =~= Seq::<Seq<TypeView>>::empty());
    assert(views(out@) =~= views(old(out)@) + concat_all(variant_parts(all.take(0))));
    while i < variants.len()
        invariant
            i <= variants.len(),
            all == views(variants@),
            views(out@) == views(old(out)@) + concat_all(variant_parts(all.take(i as int))),
        decreases variants.len() - i,
    {
        let ghost before = views(out@);
        push_field_types(out, &variants[i].fields);
        proof {
            let part = field_types(all[i as int].fields);
            assert(variant_parts(all.take(i + 1)) =~= variant_parts(all.take(i as int)).push(part));
            lemma_concat_all_push(variant_parts(all.take(i as int)), part);
            assert(views(out@) =~= views(old(out)@) + concat_all(
                variant_parts(all.take(i + 1)),
            ));
        }
        i += 1;
    }
    assert(all.take(i as int) =~= all);
}

/// Appends the types that `methods` mention to `out`, method by method.
fn push_method_types(out: &mut Vec<Type>, methods: &Vec<Method>)
    ensures
        views(final(out)@) == views(old(out)@) + concat_all(method_parts(views(methods@))),
{
    let ghost all = views(methods@);
    let mut i: usize = 0;
    assert(method_parts(all.take(0)) =~= Seq::<Seq<TypeView>>::empty());
    assert(views(out@) =~= views(old(out)@) + concat_all(method_parts(all.take(0))));
    while i < methods.len()
        invariant
            i <= methods.len(),
            all == views(methods@),
            views(out@) == views(old(out)@) + concat_all(method_parts(all.take(i as int))),
        decreases methods.len() - i,
    {
        push_argument_types(out, &methods[i].arguments);
        push_return_type(out, &methods[i].return_type);
        proof {
            let part = argument_types(all[i as int].arguments) + return_types(
                all[i as int].return_type,
            );
            assert(method_parts(all.take(i + 1)) =~= method_parts(all.take(i as int)).push(part));
            lemma_concat_all_push(method_parts(all.take(i as int)), part);
            assert(views(out@) =~= views(old(out)@) + concat_all(method_parts(all.take(i + 1))));
        }
        i += 1;
    }
    assert(all.take(i as int) =~= all);
}

/// Appends the types of the arguments of `constructors` to `out`.
fn push_constructor_types(out: &mut Vec<Type>, constructors: &Vec<Constructor>)
    ensures
        views(final(out)@) == views(old(out)@) + concat_all(
            constructor_parts(views(constructors@)),
        ),
{
    let ghost all = views(constructors@);
    let mut i: usize = 0;
    assert(constructor_parts(all.take(0)) =~= Seq::<Seq<TypeView>>::empty());
    assert(views(out@) =~= views(old(out)@) + concat_all(constructor_parts(all.take(0))));
    while i < constructors.len()
        invariant
            i <= constructors.len(),
            all == views(constructors@),
            views(out@) == views(old(out)@) + concat_all(constructor_parts(all.take(i as int))),
        decreases constructors.len() - i,
    {
        push_argument_types(out, &constructors[i].arguments);
        proof {
            let part = argument_types(all[i as int].arguments);
            assert(constructor_parts(all.take(i + 1)) =~= constructor_parts(
                all.take(i as int),
            ).push(part));
            lemma_concat_all_push(constructor_parts(all.take(i as int)), part);
            assert(views(out@) =~= views(old(out)@) + concat_all(
                constructor_parts(all.take(i + 1)),
            ));
        }
        i += 1;
    }
    assert(all.take(i as int) =~= all);
}

impl Field {
    pub fn name(&self) -> (r: &str)
        ensures
            r@ == self@.name,
    {
        self.name.as_str()
    }

    pub fn type_(&self) -> (r: Type)
        ensures
            r@ == self@.type_,
    {
        self.type_.clone()
    }
}

impl Argument {
    pub fn name(&self) -> (r: &str)
        ensures
            r@ == self@.name,
    {
        self.name.as_str()
    }

    pub fn type_(&self) -> (r: Type)
        ensures
            r@ == self@.type_,
    {
        self.type_.clone()
    }
}

impl Variant {
    pub fn name(&self) -> (r: &str)
        ensures
            r@ == self@.name,
    {
        self.name.as_str()
    }

    /// The types of the variant's fields, in their order.
    pub fn iter_types(&self) -> (r: Vec<Type>)
        ensures
            views(r@) == field_types(self@.fields),
    {
        let mut out: Vec<Type> = Vec::new();
        push_field_types(&mut out, &self.fields);
        assert(views(out@) =~= field_types(self@.fields));
        out
    }
}

impl Record {
    pub fn name(&self) -> (r: &str)
        ensures
            r@ == self@.name,
    {
        self.name.as_str()
    }

    /// The types of the record's fields, in their order.
    pub fn iter_types(&self) -> (r: Vec<Type>)
        ensures
            views(r@) == self@.member_types(),
    {
        let mut out: Vec<Type> = Vec::new();
        push_field_types(&mut out, &self.fields);
        assert(views(out@) =~= self@.member_types());
        out
    }
}

impl Enum {
    pub fn name(&self) -> (r: &str)
        ensures
            r@ == self@.name,
    {
        self.name.as_str()
    }

    /// The types of the fields of the enum's variants, variant by variant.
    pub fn iter_types(&self) -> (r: Vec<Type>)
        ensures
            views(r@) == self@.member_types(),
    {
        let mut out: Vec<Type> = Vec::new();
        push_variant_types(&mut out, &self.variants);
        assert(views(out@) =~= self@.member_types());
        out
    }
}

impl Error {
    pub fn name(&self) -> (r: &str)
        ensures
            r@ == self@.name,
    {
        self.name.as_str()
    }

    /// The types of the fields of the error's variants, variant by variant.
    pub fn iter_types(&self) -> (r: Vec<Type>)
        ensures
            views(r@) == self@.member_types(),
    {
        let mut out: Vec<Type> = Vec::new();
        push_variant_types(&mut out, &self.variants);
        assert(views(out@) =~= self@.member_types());
        out
    }
}

impl Object {
    pub fn name(&self) -> (r: &str)
        ensures
            r@ == self@.name,
    {
        self.name.as_str()
    }

    /// The types that the object's constructors and methods mention.
    pub fn iter_types(&self) -> (r: Vec<Type>)
        ensures
            views(r@) == self@.member_types(),
    {
        let mut out: Vec<Type> = Vec::new();
        push_constructor_types(&mut out, &self.constructors);
        push_method_types(&mut out, &self.methods);
        assert(views(out@) =~= self@.member_types());
        out
    }
}

impl CallbackInterface {
    pub fn name(&self) -> (r: &str)
        ensures
            r@ == self@.name,
    {
        self.name.as_str()
    }

    /// The types that the interface's methods mention.
    pub fn iter_types(&self) -> (r: Vec<Type>)
        ensures
            views(r@) == self@.member_types(),
    {
        let mut out: Vec<Type> = Vec::new();
        push_method_types(&mut out, &self.methods);
        assert(views(out@) =~= self@.member_types());
        out
    }
}

impl Function {
    pub fn name(&self) -> (r: &str)
        ensures
            r@ == self@.name,
    {
        self.name.as_str()
    }

    /// The types of the function's arguments, then the type that it returns.
    pub fn iter_types(&self) -> (r: Vec<Type>)
        ensures
            views(r@) == self@.member_types(),
    {
        let mut out: Vec<Type> = Vec::new();
        push_argument_types(&mut out, &self.arguments);
        push_return_type(&mut out, &self.return_type);
        assert(views(out@) =~= self@.member_types());
        out
    }
}

} // verus!
