//! The interface of a component, and what a type of it is made of.
//!
//! A type is made of the types that it wraps or that the definition it names
//! is made of, and of what those are made of in turn. A definition may name
//! itself behind an optional, a sequence or a map, so the walk through a
//! type keeps track of the definitions that it has opened and opens none
//! twice.

use vstd::prelude::*;
use crate::interface::definitions::CallbackInterface;
use crate::interface::definitions::CallbackInterfaceView;
use crate::interface::definitions::concat_all;
use crate::interface::definitions::Enum;
use crate::interface::definitions::EnumView;
use crate::interface::definitions::Error;
use crate::interface::definitions::ErrorView;
use crate::interface::definitions::Function;
use crate::interface::definitions::FunctionView;
use crate::interface::definitions::lemma_concat_all_push;
use crate::interface::definitions::Object;
use crate::interface::definitions::ObjectView;
use crate::interface::definitions::Record;
use crate::interface::definitions::RecordView;
use crate::interface::definitions::views;
use crate::interface::types::same_type;
use crate::interface::types::Type;
use crate::interface::types::TypeView;

verus! {

/// Everything that a component declares, in the order of declaration.
#[derive(Debug)]
pub struct ComponentInterface {
    pub namespace: String,
    pub enums: Vec<Enum>,
    pub records: Vec<Record>,
    pub errors: Vec<Error>,
    pub objects: Vec<Object>,
    pub callback_interfaces: Vec<CallbackInterface>,
    pub functions: Vec<Function>,
}

/// The mathematical value of a [`ComponentInterface`].
pub struct ComponentInterfaceView {
    pub namespace: Seq<char>,
    pub enums: Seq<EnumView>,
    pub records: Seq<RecordView>,
    pub errors: Seq<ErrorView>,
    pub objects: Seq<ObjectView>,
    pub callback_interfaces: Seq<CallbackInterfaceView>,
    pub functions: Seq<FunctionView>,
}

impl View for ComponentInterface {
    type V = ComponentInterfaceView;

    open spec fn view(&self) -> ComponentInterfaceView {
        ComponentInterfaceView {
            namespace: self.namespace@,
            enums: views(self.enums@),
            records: views(self.records@),
            errors: views(self.errors@),
            objects: views(self.objects@),
            callback_interfaces: views(self.callback_interfaces@),
            functions: views(self.functions@),
        }
    }
}

/// Whether `i` is the first place in `names` that holds `name`.
pub open spec fn named_at(names: Seq<Seq<char>>, name: Seq<char>, i: int) -> bool {
    &&& 0 <= i < names.len()
    &&& names[i] == name
    &&& forall|j: int| 0 <= j < i ==> names[j] != name
}

/// The first place in `names` that holds `name`, if there is one.
pub open spec fn first_named(names: Seq<Seq<char>>, name: Seq<char>) -> Option<int> {
    if exists|i: int| named_at(names, name, i) {
        Some(choose|i: int| named_at(names, name, i))
    } else {
        None
    }
}

/// A name has one first place at most.
pub proof fn lemma_first_named(names: Seq<Seq<char>>, name: Seq<char>, i: int)
    requires
        named_at(names, name, i),
    ensures
        first_named(names, name) == Some(i),
{
    let k = choose|k: int| named_at(names, name, k);
    if k < i {
        assert(names[k] != name);
    } else if i < k {
        assert(names[i] != name);
    }
}

/// The first place of a name holds the name, and no place before it does.
pub proof fn lemma_first_named_holds(names: Seq<Seq<char>>, name: Seq<char>)
    requires
        first_named(names, name) is Some,
    ensures
        named_at(names, name, first_named(names, name)->Some_0),
{
}

/// A name that some place holds has a first place.
pub proof fn lemma_some_first_named(names: Seq<Seq<char>>, name: Seq<char>, i: int)
    requires
        0 <= i < names.len(),
        names[i] == name,
    ensures
        first_named(names, name) is Some,
    decreases i,
{
    if exists|j: int| 0 <= j < i && names[j] == name {
        let j = choose|j: int| 0 <= j < i && names[j] == name;
        lemma_some_first_named(names, name, j);
    } else {
        assert(named_at(names, name, i));
    }
}

/// A name that no place holds has no first place.
pub proof fn lemma_not_named(names: Seq<Seq<char>>, name: Seq<char>)
    requires
        forall|j: int| 0 <= j < names.len() ==> names[j] != name,
    ensures
        first_named(names, name) is None,
{
}

/// The five kinds of definitions that a type can name.
#[derive(Clone, Copy, Debug, PartialEq, Eq, Structural)]
pub enum Kind {
    Enum,
    Record,
    Error,
    Object,
    CallbackInterface,
}

impl ComponentInterfaceView {
    /// The names of the definitions of a kind, in the order of declaration.
    pub open spec fn names(self, kind: Kind) -> Seq<Seq<char>> {
        match kind {
            Kind::Enum => Seq::new(self.enums.len(), |i: int| self.enums[i].name),
            Kind::Record => Seq::new(self.records.len(), |i: int| self.records[i].name),
            Kind::Error => Seq::new(self.errors.len(), |i: int| self.errors[i].name),
            Kind::Object => Seq::new(self.objects.len(), |i: int| self.objects[i].name),
            Kind::CallbackInterface => Seq::new(
                self.callback_interfaces.len(),
                |i: int| self.callback_interfaces[i].name,
            ),
        }
    }

    /// The types that the definition at place `i` of a kind is made of.
    pub open spec fn definition_types(self, kind: Kind, i: int) -> Seq<TypeView> {
        match kind {
            Kind::Enum => self.enums[i].member_types(),
            Kind::Record => self.records[i].member_types(),
            Kind::Error => self.errors[i].member_types(),
            Kind::Object => self.objects[i].member_types(),
            Kind::CallbackInterface => self.callback_interfaces[i].member_types(),
        }
    }

    /// The types that a definition is made of, found by its kind and name.
    /// Where several definitions of a kind share a name, the first one
    /// counts; a name that is not declared stands for nothing.
    pub open spec fn named_types(self, kind: Kind, name: Seq<char>) -> Seq<TypeView> {
        match first_named(self.names(kind), name) {
            Some(i) => self.definition_types(kind, i),
            None => Seq::empty(),
        }
    }

    /// The types that a type is made of directly: what a compound type
    /// wraps, and what the definition behind a nominal type is made of.
    pub open spec fn member_types(self, t: TypeView) -> Seq<TypeView> {
        match t {
            TypeView::Optional(inner) => seq![*inner],
            TypeView::Sequence(inner) => seq![*inner],
            TypeView::Mapping(inner) => seq![*inner],
            TypeView::Enum(name) => self.named_types(Kind::Enum, name),
            TypeView::Record(name) => self.named_types(Kind::Record, name),
            TypeView::Error(name) => self.named_types(Kind::Error, name),
            TypeView::Object(name) => self.named_types(Kind::Object, name),
            TypeView::CallbackInterface(name) => self.named_types(Kind::CallbackInterface, name),
            _ => Seq::empty(),
        }
    }

    /// The types that a value of a type holds in itself, with nothing in
    /// between that could be absent or empty: what the definition behind a
    /// record, an enum or an error is made of. A compound type holds nothing
    /// in itself, and an object or a callback interface is a handle.
    pub open spec fn inline_types(self, t: TypeView) -> Seq<TypeView> {
        match t {
            TypeView::Enum(name) => self.named_types(Kind::Enum, name),
            TypeView::Record(name) => self.named_types(Kind::Record, name),
            TypeView::Error(name) => self.named_types(Kind::Error, name),
            _ => Seq::empty(),
        }
    }

    /// The types that a walk goes on to from a type: what the type holds in
    /// itself where the walk is `inline`, and else all that it is made of.
    pub open spec fn steps(self, inline: bool, t: TypeView) -> Seq<TypeView> {
        if inline {
            self.inline_types(t)
        } else {
            self.member_types(t)
        }
    }

    /// Whether each type of `path` but the first is a step from the one
    /// before it.
    pub open spec fn is_path(self, inline: bool, path: Seq<TypeView>) -> bool {
        &&& path.len() > 0
        &&& forall|k: int|
            0 <= k < path.len() - 1 ==> #[trigger] self.steps(inline, path[k]).contains(
                path[k + 1],
            )
    }

    /// Whether `t` is `root` or one of the types that a walk from `root`
    /// comes to, at any depth.
    pub open spec fn reaches(self, inline: bool, root: TypeView, t: TypeView) -> bool {
        exists|path: Seq<TypeView>|
            #![auto]
            self.is_path(inline, path) && path[0] == root && path.last() == t
    }

    /// Whether a type is, or is made of, an unsigned integer.
    pub open spec fn type_contains_unsigned_types(self, t: TypeView) -> bool {
        exists|u: TypeView| #[trigger] self.reaches(false, t, u) && u.is_unsigned()
    }

    /// Whether a type is, or is made of, a reference to an object.
    pub open spec fn type_contains_object_references(self, t: TypeView) -> bool {
        exists|u: TypeView| #[trigger] self.reaches(false, t, u) && u.is_object()
    }

    /// Whether one of `types` is, or is made of, an unsigned integer.
    pub open spec fn any_contains_unsigned_types(self, types: Seq<TypeView>) -> bool {
        exists|i: int|
            0 <= i < types.len() && #[trigger] self.type_contains_unsigned_types(types[i])
    }
}

/// Every type reaches itself.
pub proof fn lemma_reaches_self(ci: ComponentInterfaceView, inline: bool, t: TypeView)
    ensures
        ci.reaches(inline, t, t),
{
    let path = seq![t];
    assert(ci.is_path(inline, path) && path[0] == t && path.last() == t);
}

/// What a reached type is made of is reached too.
pub proof fn lemma_reaches_member(
    ci: ComponentInterfaceView,
    inline: bool,
    root: TypeView,
    t: TypeView,
    member: TypeView,
)
    requires
        ci.reaches(inline, root, t),
        ci.steps(inline, t).contains(member),
    ensures
        ci.reaches(inline, root, member),
{
    let path = choose|path: Seq<TypeView>|
        #![auto]
        ci.is_path(inline, path) && path[0] == root && path.last() == t;
    let longer = path.push(member);
    assert forall|k: int| 0 <= k < longer.len() - 1 implies #[trigger] ci.steps(inline, 
        longer[k],
    ).contains(longer[k + 1]) by {
        if k < path.len() - 1 {
            assert(ci.steps(inline, path[k]).contains(path[k + 1]));
        }
    }
    assert(ci.is_path(inline, longer) && longer[0] == root && longer.last() == member);
}

/// A set of types that holds the root and, with each of its types, the
/// members of that type holds every type that the root reaches.
pub proof fn lemma_closed_set_holds_reached(
    ci: ComponentInterfaceView,
    inline: bool,
    root: TypeView,
    done: Set<TypeView>,
    t: TypeView,
)
    requires
        done.contains(root),
        forall|a: TypeView, b: TypeView|
            done.contains(a) && #[trigger] ci.steps(inline, a).contains(b) ==> done.contains(b),
        ci.reaches(inline, root, t),
    ensures
        done.contains(t),
{
    let path = choose|path: Seq<TypeView>|
        #![auto]
        ci.is_path(inline, path) && path[0] == root && path.last() == t;
    lemma_path_in_closed_set(ci, inline, done, path, path.len() - 1);
}

proof fn lemma_path_in_closed_set(
    ci: ComponentInterfaceView,
    inline: bool,
    done: Set<TypeView>,
    path: Seq<TypeView>,
    k: int,
)
    requires
        ci.is_path(inline, path),
        done.contains(path[0]),
        forall|a: TypeView, b: TypeView|
            done.contains(a) && #[trigger] ci.steps(inline, a).contains(b) ==> done.contains(b),
        0 <= k < path.len(),
    ensures
        done.contains(path[k]),
    decreases k,
{
    if k > 0 {
        lemma_path_in_closed_set(ci, inline, done, path, k - 1);
        assert(ci.steps(inline, path[k - 1]).contains(path[k - 1 + 1]));
    }
}

/// The nominal type of a kind and a name.
pub open spec fn nominal(kind: Kind, name: Seq<char>) -> TypeView {
    match kind {
        Kind::Enum => TypeView::Enum(name),
        Kind::Record => TypeView::Record(name),
        Kind::Error => TypeView::Error(name),
        Kind::Object => TypeView::Object(name),
        Kind::CallbackInterface => TypeView::CallbackInterface(name),
    }
}

/// What a walk through a type looks for.
pub enum Goal {
    /// An unsigned integer, in all that the type is made of.
    Unsigned,
    /// A reference to an object, in all that the type is made of.
    Object,
    /// The given type, in what the type holds in itself.
    Inline(TypeView),
}

impl Goal {
    /// Whether the walk keeps to what a type holds in itself.
    pub open spec fn inline(self) -> bool {
        self is Inline
    }
}

/// Whether the walk is looking for this type.
pub open spec fn is_wanted(t: TypeView, goal: Goal) -> bool {
    match goal {
        Goal::Unsigned => t.is_unsigned(),
        Goal::Object => t.is_object(),
        Goal::Inline(target) => t == target,
    }
}

/// How many of the flags are not set.
pub open spec fn count_unset(flags: Seq<bool>) -> nat
    decreases flags.len(),
{
    if flags.len() == 0 {
        0
    } else {
        count_unset(flags.drop_last()) + if flags.last() {
            0nat
        } else {
            1nat
        }
    }
}

proof fn lemma_count_unset_after_set(flags: Seq<bool>, i: int)
    requires
        0 <= i < flags.len(),
        !flags[i],
    ensures
        count_unset(flags.update(i, true)) + 1 == count_unset(flags),
    decreases flags.len(),
{
    if i == flags.len() - 1 {
        assert(flags.update(i, true).drop_last() =~= flags.drop_last());
    } else {
        lemma_count_unset_after_set(flags.drop_last(), i);
        assert(flags.update(i, true).drop_last() =~= flags.drop_last().update(i, true));
    }
}

/// The work that a type leaves to the walk: one step for the type itself
/// and one for each compound that wraps it.
pub open spec fn weight(t: TypeView) -> nat
    decreases t,
{
    match t {
        TypeView::Optional(inner) => weight(*inner) + 1,
        TypeView::Sequence(inner) => weight(*inner) + 1,
        TypeView::Mapping(inner) => weight(*inner) + 1,
        _ => 1,
    }
}

/// The work that the types of a sequence leave to the walk.
pub open spec fn total_weight(types: Seq<TypeView>) -> nat
    decreases types.len(),
{
    if types.len() == 0 {
        0
    } else {
        total_weight(types.drop_last()) + weight(types.last())
    }
}

proof fn lemma_total_weight_push(types: Seq<TypeView>, t: TypeView)
    ensures
        total_weight(types.push(t)) == total_weight(types) + weight(t),
{
    assert(types.push(t).drop_last() =~= types);
}

/// Which definitions the walk has opened, kind by kind.
struct Marks {
    enums: Vec<bool>,
    records: Vec<bool>,
    errors: Vec<bool>,
    objects: Vec<bool>,
    callback_interfaces: Vec<bool>,
}

impl Marks {
    spec fn row(&self, kind: Kind) -> Seq<bool> {
        match kind {
            Kind::Enum => self.enums@,
            Kind::Record => self.records@,
            Kind::Error => self.errors@,
            Kind::Object => self.objects@,
            Kind::CallbackInterface => self.callback_interfaces@,
        }
    }

    spec fn unopened(&self) -> nat {
        count_unset(self.enums@) + count_unset(self.records@) + count_unset(self.errors@)
            + count_unset(self.objects@) + count_unset(self.callback_interfaces@)
    }

    spec fn fits(&self, ci: ComponentInterfaceView) -> bool {
        forall|kind: Kind| #[trigger] self.row(kind).len() == ci.names(kind).len()
    }

    fn new(ci: &ComponentInterface) -> (r: Marks)
        ensures
            r.fits(ci@),
            forall|kind: Kind, i: int| 0 <= i < r.row(kind).len() ==> !(#[trigger] r.row(kind)[i]),
    {
        Marks {
            enums: vec![false; ci.enums.len()],
            records: vec![false; ci.records.len()],
            errors: vec![false; ci.errors.len()],
            objects: vec![false; ci.objects.len()],
            callback_interfaces: vec![false; ci.callback_interfaces.len()],
        }
    }

    /// Marks a definition as opened and says whether it was not before.
    fn open(&mut self, kind: Kind, i: usize) -> (fresh: bool)
        requires
            i < old(self).row(kind).len(),
        ensures
            fresh == !old(self).row(kind)[i as int],
            final(self).row(kind) == old(self).row(kind).update(i as int, true),
            forall|other: Kind| other != kind ==> final(self).row(other) == old(self).row(other),
            fresh ==> final(self).unopened() + 1 == old(self).unopened(),
            !fresh ==> final(self).unopened() == old(self).unopened(),
    {
        proof {
            if !self.row(kind)[i as int] {
                lemma_count_unset_after_set(self.row(kind), i as int);
            } else {
                assert(self.row(kind).update(i as int, true) =~= self.row(kind));
            }
        }
        match kind {
            Kind::Enum => {
                let fresh = !self.enums[i];
                self.enums.set(i, true);
                fresh
            },
            Kind::Record => {
                let fresh = !self.records[i];
                self.records.set(i, true);
                fresh
            },
            Kind::Error => {
                let fresh = !self.errors[i];
                self.errors.set(i, true);
                fresh
            },
            Kind::Object => {
                let fresh = !self.objects[i];
                self.objects.set(i, true);
                fresh
            },
            Kind::CallbackInterface => {
                let fresh = !self.callback_interfaces[i];
                self.callback_interfaces.set(i, true);
                fresh
            },
        }
    }
}

/// The kind and the name of a nominal type.
fn kind_and_name(t: &Type) -> (r: Option<(Kind, &String)>)
    ensures
        match r {
            Some((kind, name)) => t@ == nominal(kind, name@),
            None => !(t@ is Enum || t@ is Record || t@ is Error || t@ is Object
                || t@ is CallbackInterface),
        },
{
    match t {
        Type::Enum(name) => Some((Kind::Enum, name)),
        Type::Record(name) => Some((Kind::Record, name)),
        Type::Error(name) => Some((Kind::Error, name)),
        Type::Object(name) => Some((Kind::Object, name)),
        Type::CallbackInterface(name) => Some((Kind::CallbackInterface, name)),
        _ => None,
    }
}

/// What a walk through a type looks for, as the walk holds it.
enum Quest<'a> {
    Unsigned,
    Object,
    Inline(&'a Type),
}

impl<'a> Quest<'a> {
    spec fn goal(&self) -> Goal {
        match self {
            Quest::Unsigned => Goal::Unsigned,
            Quest::Object => Goal::Object,
            Quest::Inline(target) => Goal::Inline(target@),
        }
    }

    fn inline(&self) -> (r: bool)
        ensures
            r == self.goal().inline(),
    {
        match self {
            Quest::Inline(_) => true,
            _ => false,
        }
    }

    /// Whether the walk is looking for this type.
    fn wanted(&self, t: &Type) -> (r: bool)
        ensures
            r == is_wanted(t@, self.goal()),
    {
        match self {
            Quest::Unsigned => match t {
                Type::UInt8 | Type::UInt16 | Type::UInt32 | Type::UInt64 => true,
                _ => false,
            },
            Quest::Object => match t {
                Type::Object(_) => true,
                _ => false,
            },
            Quest::Inline(target) => same_type(t, target),
        }
    }
}

/// Whether a definition of the kind is part of the values that hold it.
fn held_inline(kind: Kind) -> (r: bool)
    ensures
        r == (kind == Kind::Enum || kind == Kind::Record || kind == Kind::Error),
{
    match kind {
        Kind::Enum | Kind::Record | Kind::Error => true,
        _ => false,
    }
}

impl ComponentInterface {
    pub fn namespace(&self) -> (r: &str)
        ensures
            r@ == self@.namespace,
    {
        self.namespace.as_str()
    }

    /// The place of the first enum of that name, if there is one.
    pub(crate) fn enum_position(&self, name: &String) -> (r: Option<usize>)
        ensures
            match r {
                Some(i) => first_named(self@.names(Kind::Enum), name@) == Some(i as int),
                None => first_named(self@.names(Kind::Enum), name@) is None,
            },
    {
        let mut i: usize = 0;
        while i < self.enums.len()
            invariant
                i <= self.enums.len(),
                forall|j: int| 0 <= j < i ==> self@.names(Kind::Enum)[j] != name@,
            decreases self.enums.len() - i,
        {
            if self.enums[i].name == *name {
                proof {
                    lemma_first_named(self@.names(Kind::Enum), name@, i as int);
                }
                return Some(i);
            }
            i += 1;
        }
        proof {
            lemma_not_named(self@.names(Kind::Enum), name@);
        }
        None
    }

    /// The first enum of that name, if there is one.
    pub fn get_enum_definition(&self, name: &String) -> (r: Option<&Enum>)
        ensures
            match r {
                Some(found) => {
                    &&& first_named(self@.names(Kind::Enum), name@) is Some
                    &&& found@ == self@.enums[first_named(self@.names(Kind::Enum), name@).unwrap()]
                },
                None => first_named(self@.names(Kind::Enum), name@) is None,
            },
    {
        match self.enum_position(name) {
            Some(i) => Some(&self.enums[i]),
            None => None,
        }
    }

    /// The place of the first record of that name, if there is one.
    pub(crate) fn record_position(&self, name: &String) -> (r: Option<usize>)
        ensures
            match r {
                Some(i) => first_named(self@.names(Kind::Record), name@) == Some(i as int),
                None => first_named(self@.names(Kind::Record), name@) is None,
            },
    {
        let mut i: usize = 0;
        while i < self.records.len()
            invariant
                i <= self.records.len(),
                forall|j: int| 0 <= j < i ==> self@.names(Kind::Record)[j] != name@,
            decreases self.records.len() - i,
        {
            if self.records[i].name == *name {
                proof {
                    lemma_first_named(self@.names(Kind::Record), name@, i as int);
                }
                return Some(i);
            }
            i += 1;
        }
        proof {
            lemma_not_named(self@.names(Kind::Record), name@);
        }
        None
    }

    /// The first record of that name, if there is one.
    pub fn get_record_definition(&self, name: &String) -> (r: Option<&Record>)
        ensures
            match r {
                Some(found) => {
                    &&& first_named(self@.names(Kind::Record), name@) is Some
                    &&& found@ == self@.records[first_named(self@.names(Kind::Record), name@).unwrap()]
                },
                None => first_named(self@.names(Kind::Record), name@) is None,
            },
    {
        match self.record_position(name) {
            Some(i) => Some(&self.records[i]),
            None => None,
        }
    }

    /// The place of the first error of that name, if there is one.
    pub(crate) fn error_position(&self, name: &String) -> (r: Option<usize>)
        ensures
            match r {
                Some(i) => first_named(self@.names(Kind::Error), name@) == Some(i as int),
                None => first_named(self@.names(Kind::Error), name@) is None,
            },
    {
        let mut i: usize = 0;
        while i < self.errors.len()
            invariant
                i <= self.errors.len(),
                forall|j: int| 0 <= j < i ==> self@.names(Kind::Error)[j] != name@,
            decreases self.errors.len() - i,
        {
            if self.errors[i].name == *name {
                proof {
                    lemma_first_named(self@.names(Kind::Error), name@, i as int);
                }
                return Some(i);
            }
            i += 1;
        }
        proof {
            lemma_not_named(self@.names(Kind::Error), name@);
        }
        None
    }

    /// The first error of that name, if there is one.
    pub fn get_error_definition(&self, name: &String) -> (r: Option<&Error>)
        ensures
            match r {
                Some(found) => {
                    &&& first_named(self@.names(Kind::Error), name@) is Some
                    &&& found@ == self@.errors[first_named(self@.names(Kind::Error), name@).unwrap()]
                },
                None => first_named(self@.names(Kind::Error), name@) is None,
            },
    {
        match self.error_position(name) {
            Some(i) => Some(&self.errors[i]),
            None => None,
        }
    }

    /// The place of the first object of that name, if there is one.
    pub(crate) fn object_position(&self, name: &String) -> (r: Option<usize>)
        ensures
            match r {
                Some(i) => first_named(self@.names(Kind::Object), name@) == Some(i as int),
                None => first_named(self@.names(Kind::Object), name@) is None,
            },
    {
        let mut i: usize = 0;
        while i < self.objects.len()
            invariant
                i <= self.objects.len(),
                forall|j: int| 0 <= j < i ==> self@.names(Kind::Object)[j] != name@,
            decreases self.objects.len() - i,
        {
            if self.objects[i].name == *name {
                proof {
                    lemma_first_named(self@.names(Kind::Object), name@, i as int);
                }
                return Some(i);
            }
            i += 1;
        }
        proof {
            lemma_not_named(self@.names(Kind::Object), name@);
        }
        None
    }

    /// The first object of that name, if there is one.
    pub fn get_object_definition(&self, name: &String) -> (r: Option<&Object>)
        ensures
            match r {
                Some(found) => {
                    &&& first_named(self@.names(Kind::Object), name@) is Some
                    &&& found@ == self@.objects[first_named(self@.names(Kind::Object), name@).unwrap()]
                },
                None => first_named(self@.names(Kind::Object), name@) is None,
            },
    {
        match self.object_position(name) {
            Some(i) => Some(&self.objects[i]),
            None => None,
        }
    }

    /// The place of the first callback interface of that name, if there is one.
    pub(crate) fn callback_interface_position(&self, name: &String) -> (r: Option<usize>)
        ensures
            match r {
                Some(i) => first_named(self@.names(Kind::CallbackInterface), name@) == Some(i as int),
                None => first_named(self@.names(Kind::CallbackInterface), name@) is None,
            },
    {
        let mut i: usize = 0;
        while i < self.callback_interfaces.len()
            invariant
                i <= self.callback_interfaces.len(),
                forall|j: int| 0 <= j < i ==> self@.names(Kind::CallbackInterface)[j] != name@,
            decreases self.callback_interfaces.len() - i,
        {
            if self.callback_interfaces[i].name == *name {
                proof {
                    lemma_first_named(self@.names(Kind::CallbackInterface), name@, i as int);
                }
                return Some(i);
            }
            i += 1;
        }
        proof {
            lemma_not_named(self@.names(Kind::CallbackInterface), name@);
        }
        None
    }

    /// The first callback interface of that name, if there is one.
    pub fn get_callback_interface_definition(&self, name: &String) -> (r: Option<&CallbackInterface>)
        ensures
            match r {
                Some(found) => {
                    &&& first_named(self@.names(Kind::CallbackInterface), name@) is Some
                    &&& found@ == self@.callback_interfaces[first_named(self@.names(Kind::CallbackInterface), name@).unwrap()]
                },
                None => first_named(self@.names(Kind::CallbackInterface), name@) is None,
            },
    {
        match self.callback_interface_position(name) {
            Some(i) => Some(&self.callback_interfaces[i]),
            None => None,
        }
    }

    /// The place of the first definition of a kind and a name.
    fn position(&self, kind: Kind, name: &String) -> (r: Option<usize>)
        ensures
            match r {
                Some(i) => first_named(self@.names(kind), name@) == Some(i as int),
                None => first_named(self@.names(kind), name@) is None,
            },
    {
        match kind {
            Kind::Enum => self.enum_position(name),
            Kind::Record => self.record_position(name),
            Kind::Error => self.error_position(name),
            Kind::Object => self.object_position(name),
            Kind::CallbackInterface => self.callback_interface_position(name),
        }
    }

    /// The types that the definition at a place is made of.
    fn definition_types(&self, kind: Kind, i: usize) -> (r: Vec<Type>)
        requires
            i < self@.names(kind).len(),
        ensures
            views(r@) == self@.definition_types(kind, i as int),
    {
        match kind {
            Kind::Enum => self.enums[i].iter_types(),
            Kind::Record => self.records[i].iter_types(),
            Kind::Error => self.errors[i].iter_types(),
            Kind::Object => self.objects[i].iter_types(),
            Kind::CallbackInterface => self.callback_interfaces[i].iter_types(),
        }
    }
}

/// What holds of the walk between two steps: every type that waits has been
/// reached from the root; the root and the steps from every type that the
/// walk is done with are done with or waiting; and none of the types that
/// the walk is done with is wanted.
spec fn walk_inv(
    ci: ComponentInterfaceView,
    root: TypeView,
    goal: Goal,
    pending: Seq<TypeView>,
    done: Set<TypeView>,
) -> bool {
    &&& forall|k: int|
        0 <= k < pending.len() ==> ci.reaches(goal.inline(), root, #[trigger] pending[k])
    &&& done.contains(root) || pending.contains(root)
    &&& forall|a: TypeView, b: TypeView|
        done.contains(a) && #[trigger] ci.steps(goal.inline(), a).contains(b) ==> done.contains(b)
            || pending.contains(b)
    &&& forall|a: TypeView| #[trigger] done.contains(a) ==> !is_wanted(a, goal)
}

/// A definition is marked only once its type is done with.
spec fn marks_inv(ci: ComponentInterfaceView, marks: Marks, done: Set<TypeView>) -> bool {
    &&& marks.fits(ci)
    &&& forall|kind: Kind, i: int|
        0 <= i < marks.row(kind).len() && #[trigger] marks.row(kind)[i] ==> {
            &&& done.contains(nominal(kind, ci.names(kind)[i]))
            &&& first_named(ci.names(kind), ci.names(kind)[i]) == Some(i)
        }
}

/// One step of the walk: the last of the waiting types is done with, and
/// the steps from it wait in its place.
proof fn lemma_walk_step(
    ci: ComponentInterfaceView,
    root: TypeView,
    goal: Goal,
    pending: Seq<TypeView>,
    done: Set<TypeView>,
    added: Seq<TypeView>,
)
    requires
        walk_inv(ci, root, goal, pending, done),
        pending.len() > 0,
        !is_wanted(pending.last(), goal),
        added == ci.steps(goal.inline(), pending.last()) || (done.contains(pending.last())
            && added.len() == 0),
    ensures
        walk_inv(ci, root, goal, pending.drop_last() + added, done.insert(pending.last())),
{
    let inline = goal.inline();
    let t = pending.last();
    let rest = pending.drop_last();
    let after = rest + added;
    let done_after = done.insert(t);
    assert forall|k: int| 0 <= k < after.len() implies ci.reaches(
        inline,
        root,
        #[trigger] after[k],
    ) by {
        if k < rest.len() {
            assert(after[k] == pending[k]);
        } else {
            assert(added[k - rest.len()] == after[k]);
            assert(ci.steps(inline, t).contains(after[k]));
            assert(ci.reaches(inline, root, pending[pending.len() - 1]));
            lemma_reaches_member(ci, inline, root, t, after[k]);
        }
    }
    assert forall|b: TypeView| pending.contains(b) implies done_after.contains(b)
        || after.contains(b) by {
        let k = choose|k: int| 0 <= k < pending.len() && pending[k] == b;
        if k < rest.len() {
            assert(after[k] == b);
        }
    }
    assert forall|a: TypeView, b: TypeView|
        done_after.contains(a) && #[trigger] ci.steps(inline, a).contains(
            b,
        ) implies done_after.contains(b) || after.contains(b) by {
        if done.contains(a) {
        } else {
            let k = choose|k: int| 0 <= k < added.len() && added[k] == b;
            assert(after[rest.len() + k] == b);
        }
    }
}

/// The walk ends with nothing waiting: then nothing that the root reaches
/// is wanted.
proof fn lemma_walk_end(
    ci: ComponentInterfaceView,
    root: TypeView,
    goal: Goal,
    done: Set<TypeView>,
)
    requires
        walk_inv(ci, root, goal, Seq::empty(), done),
    ensures
        forall|u: TypeView| #[trigger] ci.reaches(goal.inline(), root, u) ==> !is_wanted(u, goal),
{
    let inline = goal.inline();
    assert forall|u: TypeView| #[trigger] ci.reaches(inline, root, u) implies !is_wanted(
        u,
        goal,
    ) by {
        assert forall|a: TypeView, b: TypeView|
            done.contains(a) && #[trigger] ci.steps(inline, a).contains(b) implies done.contains(
            b,
        ) by {
            assert(!Seq::<TypeView>::empty().contains(b));
        }
        assert(!Seq::<TypeView>::empty().contains(root));
        lemma_closed_set_holds_reached(ci, inline, root, done, u);
    }
}

impl ComponentInterface {
    /// Walks from `root` through the steps of the quest and says whether a
    /// wanted type is among what it comes to. The walk opens no definition
    /// twice, so it ends on every interface.
    fn walk(&self, root: &Type, quest: &Quest) -> (r: bool)
        ensures
            r == exists|u: TypeView| #[trigger]
                self@.reaches(quest.goal().inline(), root@, u) && is_wanted(u, quest.goal()),
    {
        let ghost goal = quest.goal();
        let inline = quest.inline();
        let mut marks = Marks::new(self);
        let mut pending: Vec<Type> = Vec::new();
        pending.push(root.clone());
        let ghost mut done: Set<TypeView> = Set::empty();
        proof {
            lemma_reaches_self(self@, inline, root@);
            assert(views(pending@)[0] == root@);
        }
        while pending.len() > 0
            invariant
                goal == quest.goal(),
                inline == goal.inline(),
                walk_inv(self@, root@, goal, views(pending@), done),
                marks_inv(self@, marks, done),
            decreases marks.unopened(), total_weight(views(pending@)),
        {
            let ghost before = views(pending@);
            let t = pending.pop().unwrap();
            assert(views(pending@) =~= before.drop_last());
            assert(t@ == before.last());
            if quest.wanted(&t) {
                assert(self@.reaches(inline, root@, before[before.len() - 1]));
                return true;
            }
            let mut added: Vec<Type> = Vec::new();
            match &t {
                Type::Optional(inner) | Type::Sequence(inner) | Type::Mapping(inner) => {
                    if !inline {
                        added.push((**inner).clone());
                        proof {
                            lemma_total_weight_push(Seq::empty(), inner@);
                        }
                    }
                    assert(views(added@) =~= self@.steps(inline, t@));
                },
                _ => {
                    if let Some((kind, name)) = kind_and_name(&t) {
                        if inline && !held_inline(kind) {
                            assert(views(added@) =~= self@.steps(inline, t@));
                        } else if let Some(i) = self.position(kind, name) {
                            assert(marks.row(kind).len() == self@.names(kind).len());
                            if marks.open(kind, i) {
                                added = self.definition_types(kind, i);
                                assert(views(added@) == self@.steps(inline, t@));
                            } else {
                                assert(views(added@) =~= Seq::<TypeView>::empty());
                            }
                        } else {
                            assert(views(added@) =~= self@.steps(inline, t@));
                        }
                    } else {
                        assert(views(added@) =~= self@.steps(inline, t@));
                    }
                },
            }
            let ghost fresh = views(added@);
            pending.append(&mut added);
            proof {
                assert(views(pending@) =~= before.drop_last() + fresh);
                lemma_walk_step(self@, root@, goal, before, done, fresh);
                done = done.insert(t@);
                lemma_total_weight_append(before.drop_last(), fresh);
            }
        }
        proof {
            assert(views(pending@) =~= Seq::<TypeView>::empty());
            lemma_walk_end(self@, root@, goal, done);
        }
        false
    }

    /// Whether a type is, or is made of, an unsigned integer. The walk ends
    /// on every interface, also where a definition names itself.
    pub fn type_contains_unsigned_types(&self, type_: &Type) -> (r: bool)
        ensures
            r == self@.type_contains_unsigned_types(type_@),
    {
        let quest = Quest::Unsigned;
        assert(quest.goal() == Goal::Unsigned);
        assert(!quest.goal().inline());
        let found = self.walk(type_, &quest);
        proof {
            if found {
                let u = choose|u: TypeView| #[trigger]
                    self@.reaches(false, type_@, u) && is_wanted(u, Goal::Unsigned);
                assert(self@.reaches(false, type_@, u) && u.is_unsigned());
            }
            if self@.type_contains_unsigned_types(type_@) {
                let u = choose|u: TypeView| #[trigger]
                    self@.reaches(false, type_@, u) && u.is_unsigned();
                assert(self@.reaches(false, type_@, u) && is_wanted(u, Goal::Unsigned));
            }
        }
        found
    }

    /// Whether a type is, or is made of, a reference to an object. The walk
    /// ends on every interface, also where a definition names itself.
    pub fn type_contains_object_references(&self, type_: &Type) -> (r: bool)
        ensures
            r == self@.type_contains_object_references(type_@),
    {
        let quest = Quest::Object;
        assert(quest.goal() == Goal::Object);
        assert(!quest.goal().inline());
        let found = self.walk(type_, &quest);
        proof {
            if found {
                let u = choose|u: TypeView| #[trigger]
                    self@.reaches(false, type_@, u) && is_wanted(u, Goal::Object);
                assert(self@.reaches(false, type_@, u) && u.is_object());
            }
            if self@.type_contains_object_references(type_@) {
                let u = choose|u: TypeView| #[trigger]
                    self@.reaches(false, type_@, u) && u.is_object();
                assert(self@.reaches(false, type_@, u) && is_wanted(u, Goal::Object));
            }
        }
        found
    }

    /// Whether one of the types is, or is made of, an unsigned integer.
    pub fn any_contains_unsigned_types(&self, types: &Vec<Type>) -> (r: bool)
        ensures
            r == self@.any_contains_unsigned_types(views(types@)),
    {
        let mut i: usize = 0;
        while i < types.len()
            invariant
                i <= types.len(),
                forall|k: int|
                    0 <= k < i ==> !#[trigger] self@.type_contains_unsigned_types(
                        views(types@)[k],
                    ),
            decreases types.len() - i,
        {
            if self.type_contains_unsigned_types(&types[i]) {
                assert(self@.type_contains_unsigned_types(views(types@)[i as int]));
                return true;
            }
            i += 1;
        }
        false
    }
}

proof fn lemma_total_weight_append(types: Seq<TypeView>, more: Seq<TypeView>)
    ensures
        total_weight(types + more) == total_weight(types) + total_weight(more),
    decreases more.len(),
{
    if more.len() == 0 {
        assert(types + more =~= types);
    } else {
        lemma_total_weight_append(types, more.drop_last());
        assert((types + more).drop_last() =~= types + more.drop_last());
    }
}

impl Enum {
    /// Whether one of the types that the enum mentions is, or is made of,
    /// an unsigned integer.
    pub fn contains_unsigned_types(&self, ci: &ComponentInterface) -> (r: bool)
        ensures
            r == ci@.any_contains_unsigned_types(self@.member_types()),
    {
        ci.any_contains_unsigned_types(&self.iter_types())
    }

    /// Whether the enum, as the interface declares it, is made of a
    /// reference to an object at any depth.
    pub fn contains_object_references(&self, ci: &ComponentInterface) -> (r: bool)
        ensures
            r == ci@.type_contains_object_references(TypeView::Enum(self@.name)),
    {
        ci.type_contains_object_references(&Type::Enum(self.name.clone()))
    }
}

impl Record {
    /// Whether one of the types that the record mentions is, or is made of,
    /// an unsigned integer.
    pub fn contains_unsigned_types(&self, ci: &ComponentInterface) -> (r: bool)
        ensures
            r == ci@.any_contains_unsigned_types(self@.member_types()),
    {
        ci.any_contains_unsigned_types(&self.iter_types())
    }

    /// Whether the record, as the interface declares it, is made of a
    /// reference to an object at any depth.
    pub fn contains_object_references(&self, ci: &ComponentInterface) -> (r: bool)
        ensures
            r == ci@.type_contains_object_references(TypeView::Record(self@.name)),
    {
        ci.type_contains_object_references(&Type::Record(self.name.clone()))
    }
}

impl Error {
    /// Whether the error, as the interface declares it, is made of a
    /// reference to an object at any depth.
    pub fn contains_object_references(&self, ci: &ComponentInterface) -> (r: bool)
        ensures
            r == ci@.type_contains_object_references(TypeView::Error(self@.name)),
    {
        ci.type_contains_object_references(&Type::Error(self.name.clone()))
    }
}

impl Object {
    /// Whether one of the types that the object mentions is, or is made of,
    /// an unsigned integer.
    pub fn contains_unsigned_types(&self, ci: &ComponentInterface) -> (r: bool)
        ensures
            r == ci@.any_contains_unsigned_types(self@.member_types()),
    {
        ci.any_contains_unsigned_types(&self.iter_types())
    }
}

impl CallbackInterface {
    /// Whether one of the types that the callback interface mentions is, or is made of,
    /// an unsigned integer.
    pub fn contains_unsigned_types(&self, ci: &ComponentInterface) -> (r: bool)
        ensures
            r == ci@.any_contains_unsigned_types(self@.member_types()),
    {
        ci.any_contains_unsigned_types(&self.iter_types())
    }
}

impl Function {
    /// Whether one of the types that the function mentions is, or is made of,
    /// an unsigned integer.
    pub fn contains_unsigned_types(&self, ci: &ComponentInterface) -> (r: bool)
        ensures
            r == ci@.any_contains_unsigned_types(self@.member_types()),
    {
        ci.any_contains_unsigned_types(&self.iter_types())
    }
}

/// A type behind everything that it wraps: the innermost type first, the
/// type itself last.
pub open spec fn nested_types(t: TypeView) -> Seq<TypeView>
    decreases t,
{
    match t {
        TypeView::Optional(inner) => nested_types(*inner).push(t),
        TypeView::Sequence(inner) => nested_types(*inner).push(t),
        TypeView::Mapping(inner) => nested_types(*inner).push(t),
        _ => seq![t],
    }
}

/// For each type, the type behind everything that it wraps.
pub open spec fn nested_parts(types: Seq<TypeView>) -> Seq<Seq<TypeView>> {
    Seq::new(types.len(), |i: int| nested_types(types[i]))
}

impl ComponentInterfaceView {
    /// The types that one definition brings into the interface: its own
    /// type, then the types that it is made of, each behind what it wraps.
    pub open spec fn definition_universe(self, kind: Kind, i: int) -> Seq<TypeView> {
        seq![nominal(kind, self.names(kind)[i])] + concat_all(
            nested_parts(self.definition_types(kind, i)),
        )
    }

    /// For each definition of a kind, the types that it brings.
    pub open spec fn kind_parts(self, kind: Kind) -> Seq<Seq<TypeView>> {
        Seq::new(self.names(kind).len(), |i: int| self.definition_universe(kind, i))
    }

    /// For each function, the types that it mentions, each behind what it
    /// wraps.
    pub open spec fn function_parts(self) -> Seq<Seq<TypeView>> {
        Seq::new(
            self.functions.len(),
            |i: int| concat_all(nested_parts(self.functions[i].member_types())),
        )
    }

    /// Every type of the interface, in the order of declaration: enums,
    /// records, errors, objects, callback interfaces, functions. A type
    /// stands here as often as the interface mentions it.
    pub open spec fn universe(self) -> Seq<TypeView> {
        concat_all(self.kind_parts(Kind::Enum)) + concat_all(self.kind_parts(Kind::Record))
            + concat_all(self.kind_parts(Kind::Error)) + concat_all(self.kind_parts(Kind::Object))
            + concat_all(self.kind_parts(Kind::CallbackInterface)) + concat_all(
            self.function_parts(),
        )
    }
}

/// Appends a type behind everything that it wraps to `out`.
fn push_nested_types(out: &mut Vec<Type>, t: &Type)
    ensures
        views(final(out)@) == views(old(out)@) + nested_types(t@),
    decreases t,
{
    let ghost before = views(out@);
    match t {
        Type::Optional(inner) => {
            push_nested_types(out, inner);
            assert(nested_types(t@) == nested_types(inner@).push(t@));
        },
        Type::Sequence(inner) => {
            push_nested_types(out, inner);
            assert(nested_types(t@) == nested_types(inner@).push(t@));
        },
        Type::Mapping(inner) => {
            push_nested_types(out, inner);
            assert(nested_types(t@) == nested_types(inner@).push(t@));
        },
        _ => {
            assert(nested_types(t@) == Seq::<TypeView>::empty().push(t@));
        },
    }
    let ghost inner_done = views(out@);
    out.push(t.clone());
    assert(views(out@) =~= inner_done.push(t@));
    assert(views(out@) =~= before + nested_types(t@));
}

/// Appends each of `types` behind everything that it wraps to `out`.
fn push_all_nested(out: &mut Vec<Type>, types: &Vec<Type>)
    ensures
        views(final(out)@) == views(old(out)@) + concat_all(nested_parts(views(types@))),
{
    let ghost all = views(types@);
    let mut i: usize = 0;
    assert(nested_parts(all.take(0)) =~= Seq::<Seq<TypeView>>::empty());
    assert(views(out@) =~= views(old(out)@) + concat_all(nested_parts(all.take(0))));
    while i < types.len()
        invariant
            i <= types.len(),
            all == views(types@),
            views(out@) == views(old(out)@) + concat_all(nested_parts(all.take(i as int))),
        decreases types.len() - i,
    {
        push_nested_types(out, &types[i]);
        proof {
            let part = nested_types(all[i as int]);
            assert(nested_parts(all.take(i + 1)) =~= nested_parts(all.take(i as int)).push(part));
            lemma_concat_all_push(nested_parts(all.take(i as int)), part);
            assert(views(out@) =~= views(old(out)@) + concat_all(nested_parts(all.take(i + 1))));
        }
        i += 1;
    }
    assert(all.take(i as int) =~= all);
}

impl ComponentInterface {
    /// How many definitions of a kind the interface declares.
    fn definition_count(&self, kind: Kind) -> (r: usize)
        ensures
            r == self@.names(kind).len(),
    {
        match kind {
            Kind::Enum => self.enums.len(),
            Kind::Record => self.records.len(),
            Kind::Error => self.errors.len(),
            Kind::Object => self.objects.len(),
            Kind::CallbackInterface => self.callback_interfaces.len(),
        }
    }

    /// The type of the definition at a place.
    fn definition_type(&self, kind: Kind, i: usize) -> (r: Type)
        requires
            i < self@.names(kind).len(),
        ensures
            r@ == nominal(kind, self@.names(kind)[i as int]),
    {
        match kind {
            Kind::Enum => Type::Enum(self.enums[i].name.clone()),
            Kind::Record => Type::Record(self.records[i].name.clone()),
            Kind::Error => Type::Error(self.errors[i].name.clone()),
            Kind::Object => Type::Object(self.objects[i].name.clone()),
            Kind::CallbackInterface => Type::CallbackInterface(self.callback_interfaces[i].name.clone()),
        }
    }

    /// Appends the types that the definitions of a kind bring to `out`.
    fn push_kind_universe(&self, out: &mut Vec<Type>, kind: Kind)
        ensures
            views(final(out)@) == views(old(out)@) + concat_all(self@.kind_parts(kind)),
    {
        let ghost parts = self@.kind_parts(kind);
        let count = self.definition_count(kind);
        let mut i: usize = 0;
        assert(parts.take(0) =~= Seq::<Seq<TypeView>>::empty());
        assert(views(out@) =~= views(old(out)@) + concat_all(parts.take(0)));
        while i < count
            invariant
                i <= count,
                count == self@.names(kind).len(),
                parts == self@.kind_parts(kind),
                views(out@) == views(old(out)@) + concat_all(parts.take(i as int)),
            decreases count - i,
        {
            let ghost before = views(out@);
            out.push(self.definition_type(kind, i));
            assert(views(out@) =~= before + seq![nominal(kind, self@.names(kind)[i as int])]);
            let types = self.definition_types(kind, i);
            push_all_nested(out, &types);
            proof {
                assert(parts.take(i + 1) =~= parts.take(i as int).push(parts[i as int]));
                lemma_concat_all_push(parts.take(i as int), parts[i as int]);
                assert(views(out@) =~= views(old(out)@) + concat_all(parts.take(i + 1)));
            }
            i += 1;
        }
        assert(parts.take(i as int) =~= parts);
    }

    /// Appends the types that the functions mention to `out`.
    fn push_function_universe(&self, out: &mut Vec<Type>)
        ensures
            views(final(out)@) == views(old(out)@) + concat_all(self@.function_parts()),
    {
        let ghost parts = self@.function_parts();
        let mut i: usize = 0;
        assert(parts.take(0) =~= Seq::<Seq<TypeView>>::empty());
        assert(views(out@) =~= views(old(out)@) + concat_all(parts.take(0)));
        while i < self.functions.len()
            invariant
                i <= self.functions.len(),
                parts == self@.function_parts(),
                views(out@) == views(old(out)@) + concat_all(parts.take(i as int)),
            decreases self.functions.len() - i,
        {
            let types = self.functions[i].iter_types();
            push_all_nested(out, &types);
            proof {
                assert(parts.take(i + 1) =~= parts.take(i as int).push(parts[i as int]));
                lemma_concat_all_push(parts.take(i as int), parts[i as int]);
                assert(views(out@) =~= views(old(out)@) + concat_all(parts.take(i + 1)));
            }
            i += 1;
        }
        assert(parts.take(i as int) =~= parts);
    }

    /// Every type of the interface, in the order of declaration.
    pub fn iter_types(&self) -> (r: Vec<Type>)
        ensures
            views(r@) == self@.universe(),
    {
        let mut out: Vec<Type> = Vec::new();
        self.push_kind_universe(&mut out, Kind::Enum);
        self.push_kind_universe(&mut out, Kind::Record);
        self.push_kind_universe(&mut out, Kind::Error);
        self.push_kind_universe(&mut out, Kind::Object);
        self.push_kind_universe(&mut out, Kind::CallbackInterface);
        self.push_function_universe(&mut out);
        assert(views(out@) =~= self@.universe());
        out
    }
}

impl ComponentInterfaceView {
    /// Whether a value of the type would have to hold a value of the same
    /// type in itself, with no optional, sequence or map in between: such a
    /// value would have no end.
    pub open spec fn holds_itself(self, t: TypeView) -> bool {
        exists|k: int|
            0 <= k < self.inline_types(t).len() && #[trigger] self.reaches(
                true,
                self.inline_types(t)[k],
                t,
            )
    }

    /// Whether every value of the interface has an end: no enum, record or
    /// error holds itself.
    pub open spec fn all_values_end(self) -> bool {
        forall|k: int|
            0 <= k < self.held_types().len() ==> !self.holds_itself(#[trigger] self.held_types()[k])
    }

    /// The types of the definitions of a kind, in the order of declaration.
    pub open spec fn kind_types(self, kind: Kind) -> Seq<TypeView> {
        Seq::new(self.names(kind).len(), |i: int| nominal(kind, self.names(kind)[i]))
    }

    /// The types whose values hold their parts in themselves: the enums,
    /// the records and the errors, in the order of declaration.
    pub open spec fn held_types(self) -> Seq<TypeView> {
        self.kind_types(Kind::Enum) + self.kind_types(Kind::Record) + self.kind_types(Kind::Error)
    }
}

impl ComponentInterface {
    /// The types that a value of a type holds in itself.
    fn inline_types(&self, t: &Type) -> (r: Vec<Type>)
        ensures
            views(r@) == self@.inline_types(t@),
    {
        let mut out: Vec<Type> = Vec::new();
        if let Some((kind, name)) = kind_and_name(t) {
            if held_inline(kind) {
                if let Some(i) = self.position(kind, name) {
                    out = self.definition_types(kind, i);
                }
            }
        }
        assert(views(out@) =~= self@.inline_types(t@));
        out
    }

    /// Whether a value of the type would have to hold a value of the same
    /// type in itself.
    pub fn type_holds_itself(&self, t: &Type) -> (r: bool)
        ensures
            r == self@.holds_itself(t@),
    {
        let members = self.inline_types(t);
        let quest = Quest::Inline(t);
        assert(quest.goal() == Goal::Inline(t@));
        let mut k: usize = 0;
        while k < members.len()
            invariant
                k <= members.len(),
                views(members@) == self@.inline_types(t@),
                quest.goal() == Goal::Inline(t@),
                forall|j: int|
                    0 <= j < k ==> !#[trigger] self@.reaches(true, self@.inline_types(t@)[j], t@),
            decreases members.len() - k,
        {
            let found = self.walk(&members[k], &quest);
            proof {
                let from = self@.inline_types(t@)[k as int];
                assert(from == members[k as int]@);
                if found {
                    let u = choose|u: TypeView| #[trigger]
                        self@.reaches(true, from, u) && is_wanted(u, Goal::Inline(t@));
                    assert(self@.reaches(true, from, t@));
                } else if self@.reaches(true, from, t@) {
                    assert(quest.goal().inline());
                    assert(self@.reaches(quest.goal().inline(), members[k as int]@, t@)
                        && is_wanted(t@, quest.goal()));
                }
            }
            if found {
                return true;
            }
            k += 1;
        }
        false
    }

    /// Appends the types of the definitions of a kind to `out`.
    fn push_kind_types(&self, out: &mut Vec<Type>, kind: Kind)
        ensures
            views(final(out)@) == views(old(out)@) + self@.kind_types(kind),
    {
        let ghost all = self@.kind_types(kind);
        let count = self.definition_count(kind);
        let mut i: usize = 0;
        assert(views(out@) =~= views(old(out)@) + all.take(0));
        while i < count
            invariant
                i <= count,
                count == self@.names(kind).len(),
                all == self@.kind_types(kind),
                views(out@) == views(old(out)@) + all.take(i as int),
            decreases count - i,
        {
            let ghost before = views(out@);
            out.push(self.definition_type(kind, i));
            proof {
                assert(views(out@) =~= before.push(all[i as int]));
                assert(all.take(i + 1) =~= all.take(i as int).push(all[i as int]));
                assert(views(out@) =~= views(old(out)@) + all.take(i + 1));
            }
            i += 1;
        }
        assert(all.take(i as int) =~= all);
    }

    /// The first enum, record or error, in the order of declaration, whose
    /// values would have to hold a value of the same type in themselves; or
    /// nothing, if every value of the interface has an end.
    pub fn first_holding_itself(&self) -> (r: Option<Type>)
        ensures
            match r {
                None => forall|k: int|
                    0 <= k < self@.held_types().len() ==> !self@.holds_itself(
                        #[trigger] self@.held_types()[k],
                    ),
                Some(t) => exists|k: int|
                    {
                        &&& 0 <= k < self@.held_types().len()
                        &&& #[trigger] self@.held_types()[k] == t@
                        &&& self@.holds_itself(t@)
                        &&& forall|j: int|
                            0 <= j < k ==> !self@.holds_itself(#[trigger] self@.held_types()[j])
                    },
            },
    {
        let mut types: Vec<Type> = Vec::new();
        self.push_kind_types(&mut types, Kind::Enum);
        self.push_kind_types(&mut types, Kind::Record);
        self.push_kind_types(&mut types, Kind::Error);
        assert(views(types@) =~= self@.held_types());
        let mut k: usize = 0;
        while k < types.len()
            invariant
                k <= types.len(),
                views(types@) == self@.held_types(),
                forall|j: int| 0 <= j < k ==> !self@.holds_itself(#[trigger] self@.held_types()[j]),
            decreases types.len() - k,
        {
            if self.type_holds_itself(&types[k]) {
                let found = types[k].clone();
                assert(self@.held_types()[k as int] == found@);
                return Some(found);
            }
            k += 1;
        }
        None
    }
}

/// A type that holds itself behind an optional, a sequence or a map only
/// does not hold itself: its values have an end.
pub proof fn lemma_compounds_are_boundaries(ci: ComponentInterfaceView, t: TypeView)
    requires
        t is Optional || t is Sequence || t is Mapping,
    ensures
        forall|u: TypeView| #[trigger] ci.reaches(true, t, u) ==> u == t,
{
    assert forall|u: TypeView| #[trigger] ci.reaches(true, t, u) implies u == t by {
        let path = choose|path: Seq<TypeView>|
            #![auto]
            ci.is_path(true, path) && path[0] == t && path.last() == u;
        if path.len() > 1 {
            let k = 0int;
            assert(ci.steps(true, path[k]).contains(path[k + 1]));
        }
    }
}

} // verus!
