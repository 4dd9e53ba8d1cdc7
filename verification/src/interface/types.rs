//! The closed algebra of types that may cross the foreign-function boundary.

use vstd::prelude::*;
use vstd::string::*;

verus! {

/// A type of the component interface.
///
/// Primitive variants are leaves, nominal variants name a definition of the
/// interface, and the three compound variants wrap an inner type to any depth.
#[derive(Debug, PartialEq, Eq, Hash)]
pub enum Type {
    UInt8,
    Int8,
    UInt16,
    Int16,
    UInt32,
    Int32,
    UInt64,
    Int64,
    Float32,
    Float64,
    Boolean,
    String,
    Timestamp,
    Duration,
    Object(String),
    Record(String),
    Enum(String),
    Error(String),
    CallbackInterface(String),
    Optional(Box<Type>),
    Sequence(Box<Type>),
    Mapping(Box<Type>),
}

/// The mathematical value of a [`Type`]: names are sequences of characters.
pub enum TypeView {
    UInt8,
    Int8,
    UInt16,
    Int16,
    UInt32,
    Int32,
    UInt64,
    Int64,
    Float32,
    Float64,
    Boolean,
    String,
    Timestamp,
    Duration,
    Object(Seq<char>),
    Record(Seq<char>),
    Enum(Seq<char>),
    Error(Seq<char>),
    CallbackInterface(Seq<char>),
    Optional(Box<TypeView>),
    Sequence(Box<TypeView>),
    Mapping(Box<TypeView>),
}

/// The value of a type, by structural recursion.
pub open spec fn type_view(t: Type) -> TypeView
    decreases t,
{
    match t {
        Type::UInt8 => TypeView::UInt8,
        Type::Int8 => TypeView::Int8,
        Type::UInt16 => TypeView::UInt16,
        Type::Int16 => TypeView::Int16,
        Type::UInt32 => TypeView::UInt32,
        Type::Int32 => TypeView::Int32,
        Type::UInt64 => TypeView::UInt64,
        Type::Int64 => TypeView::Int64,
        Type::Float32 => TypeView::Float32,
        Type::Float64 => TypeView::Float64,
        Type::Boolean => TypeView::Boolean,
        Type::String => TypeView::String,
        Type::Timestamp => TypeView::Timestamp,
        Type::Duration => TypeView::Duration,
        Type::Object(nm) => TypeView::Object(nm@),
        Type::Record(nm) => TypeView::Record(nm@),
        Type::Enum(nm) => TypeView::Enum(nm@),
        Type::Error(nm) => TypeView::Error(nm@),
        Type::CallbackInterface(nm) => TypeView::CallbackInterface(nm@),
        Type::Optional(t) => TypeView::Optional(Box::new(type_view(*t))),
        Type::Sequence(t) => TypeView::Sequence(Box::new(type_view(*t))),
        Type::Mapping(t) => TypeView::Mapping(Box::new(type_view(*t))),
    }
}

impl View for Type {
    type V = TypeView;

    open spec fn view(&self) -> TypeView {
        type_view(*self)
    }
}

/// Copies a type, name by name.
pub fn clone_type(t: &Type) -> (r: Type)
    ensures
        r@ == t@,
    decreases t,
{
    match t {
        Type::UInt8 => Type::UInt8,
        Type::Int8 => Type::Int8,
        Type::UInt16 => Type::UInt16,
        Type::Int16 => Type::Int16,
        Type::UInt32 => Type::UInt32,
        Type::Int32 => Type::Int32,
        Type::UInt64 => Type::UInt64,
        Type::Int64 => Type::Int64,
        Type::Float32 => Type::Float32,
        Type::Float64 => Type::Float64,
        Type::Boolean => Type::Boolean,
        Type::String => Type::String,
        Type::Timestamp => Type::Timestamp,
        Type::Duration => Type::Duration,
        Type::Object(nm) => Type::Object(nm.clone()),
        Type::Record(nm) => Type::Record(nm.clone()),
        Type::Enum(nm) => Type::Enum(nm.clone()),
        Type::Error(nm) => Type::Error(nm.clone()),
        Type::CallbackInterface(nm) => Type::CallbackInterface(nm.clone()),
        Type::Optional(t) => Type::Optional(Box::new(clone_type(t))),
        Type::Sequence(t) => Type::Sequence(Box::new(clone_type(t))),
        Type::Mapping(t) => Type::Mapping(Box::new(clone_type(t))),
    }
}

/// Whether two types are the same type: the same variant, with the same
/// name or around the same type.
pub fn same_type(a: &Type, b: &Type) -> (r: bool)
    ensures
        r == (a@ == b@),
    decreases a,
{
    match (a, b) {
        (Type::UInt8, Type::UInt8) => true,
        (Type::Int8, Type::Int8) => true,
        (Type::UInt16, Type::UInt16) => true,
        (Type::Int16, Type::Int16) => true,
        (Type::UInt32, Type::UInt32) => true,
        (Type::Int32, Type::Int32) => true,
        (Type::UInt64, Type::UInt64) => true,
        (Type::Int64, Type::Int64) => true,
        (Type::Float32, Type::Float32) => true,
        (Type::Float64, Type::Float64) => true,
        (Type::Boolean, Type::Boolean) => true,
        (Type::String, Type::String) => true,
        (Type::Timestamp, Type::Timestamp) => true,
        (Type::Duration, Type::Duration) => true,
        (Type::Object(x), Type::Object(y)) => *x == *y,
        (Type::Record(x), Type::Record(y)) => *x == *y,
        (Type::Enum(x), Type::Enum(y)) => *x == *y,
        (Type::Error(x), Type::Error(y)) => *x == *y,
        (Type::CallbackInterface(x), Type::CallbackInterface(y)) => *x == *y,
        (Type::Optional(x), Type::Optional(y)) => same_type(x, y),
        (Type::Sequence(x), Type::Sequence(y)) => same_type(x, y),
        (Type::Mapping(x), Type::Mapping(y)) => same_type(x, y),
        _ => false,
    }
}

impl Clone for Type {
    fn clone(&self) -> (r: Type)
        ensures
            r@ == self@,
    {
        clone_type(self)
    }
}

impl TypeView {
    /// The canonical name of a type: the key under which helper code for the
    /// type is filed. A leaf has a fixed name, a nominal type the name of its
    /// kind followed by its own, a compound type a prefix followed by the
    /// canonical name of what it wraps.
    pub open spec fn canonical_name(self) -> Seq<char>
        decreases self,
    {
        match self {
            TypeView::UInt8 => "u8"@,
            TypeView::Int8 => "i8"@,
            TypeView::UInt16 => "u16"@,
            TypeView::Int16 => "i16"@,
            TypeView::UInt32 => "u32"@,
            TypeView::Int32 => "i32"@,
            TypeView::UInt64 => "u64"@,
            TypeView::Int64 => "i64"@,
            TypeView::Float32 => "f32"@,
            TypeView::Float64 => "f64"@,
            TypeView::Boolean => "bool"@,
            TypeView::String => "string"@,
            TypeView::Timestamp => "Timestamp"@,
            TypeView::Duration => "Duration"@,
            TypeView::Object(nm) => "Object"@ + nm,
            TypeView::Record(nm) => "Record"@ + nm,
            TypeView::Enum(nm) => "Enum"@ + nm,
            TypeView::Error(nm) => "Error"@ + nm,
            TypeView::CallbackInterface(nm) => "CallbackInterface"@ + nm,
            TypeView::Optional(t) => "Optional"@ + t.canonical_name(),
            TypeView::Sequence(t) => "Sequence"@ + t.canonical_name(),
            TypeView::Mapping(t) => "Map"@ + t.canonical_name(),
        }
    }

    /// Whether the type is one of the four unsigned integer types.
    pub open spec fn is_unsigned(self) -> bool {
        self is UInt8 || self is UInt16 || self is UInt32 || self is UInt64
    }

    /// Whether the type is a reference to an object.
    pub open spec fn is_object(self) -> bool {
        self is Object
    }
}

impl Type {
    /// The canonical name of the type.
    pub fn canonical_name(&self) -> (r: String)
        ensures
            r@ == self@.canonical_name(),
        decreases self,
    {
        match self {
            Type::UInt8 => String::from_str("u8"),
            Type::Int8 => String::from_str("i8"),
            Type::UInt16 => String::from_str("u16"),
            Type::Int16 => String::from_str("i16"),
            Type::UInt32 => String::from_str("u32"),
            Type::Int32 => String::from_str("i32"),
            Type::UInt64 => String::from_str("u64"),
            Type::Int64 => String::from_str("i64"),
            Type::Float32 => String::from_str("f32"),
            Type::Float64 => String::from_str("f64"),
            Type::Boolean => String::from_str("bool"),
            Type::String => String::from_str("string"),
            Type::Timestamp => String::from_str("Timestamp"),
            Type::Duration => String::from_str("Duration"),
            Type::Object(nm) => String::from_str("Object").concat(nm.as_str()),
            Type::Record(nm) => String::from_str("Record").concat(nm.as_str()),
            Type::Enum(nm) => String::from_str("Enum").concat(nm.as_str()),
            Type::Error(nm) => String::from_str("Error").concat(nm.as_str()),
            Type::CallbackInterface(nm) => String::from_str("CallbackInterface").concat(nm.as_str()),
            Type::Optional(t) => String::from_str("Optional").concat(t.canonical_name().as_str()),
            Type::Sequence(t) => String::from_str("Sequence").concat(t.canonical_name().as_str()),
            Type::Mapping(t) => String::from_str("Map").concat(t.canonical_name().as_str()),
        }
    }
}

/// The first two characters of a type's canonical name. They differ between
/// any two variants, which is what keeps canonical names apart.
pub open spec fn name_head(t: TypeView) -> (char, char) {
    match t {
        TypeView::UInt8 => ('u', '8'),
        TypeView::Int8 => ('i', '8'),
        TypeView::UInt16 => ('u', '1'),
        TypeView::Int16 => ('i', '1'),
        TypeView::UInt32 => ('u', '3'),
        TypeView::Int32 => ('i', '3'),
        TypeView::UInt64 => ('u', '6'),
        TypeView::Int64 => ('i', '6'),
        TypeView::Float32 => ('f', '3'),
        TypeView::Float64 => ('f', '6'),
        TypeView::Boolean => ('b', 'o'),
        TypeView::String => ('s', 't'),
        TypeView::Timestamp => ('T', 'i'),
        TypeView::Duration => ('D', 'u'),
        TypeView::Object(_) => ('O', 'b'),
        TypeView::Record(_) => ('R', 'e'),
        TypeView::Enum(_) => ('E', 'n'),
        TypeView::Error(_) => ('E', 'r'),
        TypeView::CallbackInterface(_) => ('C', 'a'),
        TypeView::Optional(_) => ('O', 'p'),
        TypeView::Sequence(_) => ('S', 'e'),
        TypeView::Mapping(_) => ('M', 'a'),
    }
}

/// Every canonical name starts with the two characters of its variant.
pub proof fn lemma_name_head(t: TypeView)
    ensures
        t.canonical_name().len() >= 2,
        t.canonical_name()[0] == name_head(t).0,
        t.canonical_name()[1] == name_head(t).1,
{
    reveal_strlit("u8");
    reveal_strlit("i8");
    reveal_strlit("u16");
    reveal_strlit("i16");
    reveal_strlit("u32");
    reveal_strlit("i32");
    reveal_strlit("u64");
    reveal_strlit("i64");
    reveal_strlit("f32");
    reveal_strlit("f64");
    reveal_strlit("bool");
    reveal_strlit("string");
    reveal_strlit("Timestamp");
    reveal_strlit("Duration");
    reveal_strlit("Object");
    reveal_strlit("Record");
    reveal_strlit("Enum");
    reveal_strlit("Error");
    reveal_strlit("CallbackInterface");
    reveal_strlit("Optional");
    reveal_strlit("Sequence");
    reveal_strlit("Map");
}

/// A common prefix can be struck from both sides of an equation.
pub proof fn lemma_prefix_cancel(p: Seq<char>, a: Seq<char>, b: Seq<char>)
    requires
        p + a == p + b,
    ensures
        a == b,
{
    assert(a =~= (p + a).subrange(p.len() as int, (p + a).len() as int));
    assert(b =~= (p + b).subrange(p.len() as int, (p + b).len() as int));
}

/// Canonical names are injective: two types with the same canonical name are
/// the same type, whatever names the interface gives its definitions and
/// however deeply the compound types nest.
pub proof fn lemma_canonical_name_injective(a: TypeView, b: TypeView)
    requires
        a.canonical_name() == b.canonical_name(),
    ensures
        a == b,
    decreases a,
{
    lemma_name_head(a);
    lemma_name_head(b);
    match a {
        TypeView::Object(nm) => {
            lemma_prefix_cancel("Object"@, nm, b->Object_0);
        },
        TypeView::Record(nm) => {
            lemma_prefix_cancel("Record"@, nm, b->Record_0);
        },
        TypeView::Enum(nm) => {
            lemma_prefix_cancel("Enum"@, nm, b->Enum_0);
        },
        TypeView::Error(nm) => {
            lemma_prefix_cancel("Error"@, nm, b->Error_0);
        },
        TypeView::CallbackInterface(nm) => {
            lemma_prefix_cancel("CallbackInterface"@, nm, b->CallbackInterface_0);
        },
        TypeView::Optional(t) => {
            lemma_prefix_cancel("Optional"@, t.canonical_name(), b->Optional_0.canonical_name());
            lemma_canonical_name_injective(*t, *b->Optional_0);
        },
        TypeView::Sequence(t) => {
            lemma_prefix_cancel("Sequence"@, t.canonical_name(), b->Sequence_0.canonical_name());
            lemma_canonical_name_injective(*t, *b->Sequence_0);
        },
        TypeView::Mapping(t) => {
            lemma_prefix_cancel("Map"@, t.canonical_name(), b->Mapping_0.canonical_name());
            lemma_canonical_name_injective(*t, *b->Mapping_0);
        },
        _ => {},
    }
}

} // verus!
