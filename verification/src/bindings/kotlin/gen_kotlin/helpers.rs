//! The helper code of the bindings: what is emitted once for each type,
//! filed under the canonical name of the type.

use vstd::prelude::*;
use crate::bindings::kotlin::gen_kotlin::dispatch::canonical_name_of;
use crate::bindings::kotlin::gen_kotlin::dispatch::helper_code_of;
use crate::bindings::kotlin::gen_kotlin::KotlinLanguageOracle;
use crate::interface::component::first_named;
use crate::interface::component::lemma_first_named;
use crate::interface::component::lemma_first_named_holds;
use crate::interface::component::lemma_not_named;
use crate::interface::component::lemma_some_first_named;
use crate::interface::definitions::views;
use crate::interface::types::Type;
use crate::interface::types::TypeView;

verus! {

/// A piece of helper code, filed under the canonical name of its type.
#[derive(Debug)]
pub struct HelperBlock {
    pub type_: Type,
    pub canonical_name: String,
    pub code: String,
}

/// The mathematical value of a [`HelperBlock`].
pub struct HelperBlockView {
    pub type_: TypeView,
    pub canonical_name: Seq<char>,
    pub code: Seq<char>,
}

impl View for HelperBlock {
    type V = HelperBlockView;

    open spec fn view(&self) -> HelperBlockView {
        HelperBlockView {
            type_: self.type_@,
            canonical_name: self.canonical_name@,
            code: self.code@,
        }
    }
}

/// The helper code of a type that has helper code, filed under the
/// canonical name of the type.
pub open spec fn helper_entry(t: TypeView) -> Option<HelperBlockView> {
    match helper_code_of(&KotlinLanguageOracle, t) {
        Some(code) => Some(
            HelperBlockView {
                type_: t,
                canonical_name: canonical_name_of(&KotlinLanguageOracle, t),
                code,
            },
        ),
        None => None,
    }
}

/// The names under which blocks are filed, in the order of the blocks.
pub open spec fn filed_names(blocks: Seq<HelperBlockView>) -> Seq<Seq<char>> {
    Seq::new(blocks.len(), |i: int| blocks[i].canonical_name)
}

/// One more type for the helper code that has been filed: a type without
/// helper code changes nothing, a type whose name is new is filed, a type
/// that has been filed already is not filed again, and a type whose name
/// another type has taken is a collision under that name.
pub open spec fn file_one(blocks: Seq<HelperBlockView>, t: TypeView) -> Result<
    Seq<HelperBlockView>,
    Seq<char>,
> {
    match helper_entry(t) {
        None => Ok(blocks),
        Some(entry) => match first_named(filed_names(blocks), entry.canonical_name) {
            None => Ok(blocks.push(entry)),
            Some(k) => if blocks[k].type_ == t {
                Ok(blocks)
            } else {
                Err(entry.canonical_name)
            },
        },
    }
}

/// The helper code for a sequence of types: for each canonical name the
/// code of the type that has it, once, in the order in which the names
/// first occur; or the first name under which two different types would
/// have to be filed.
pub open spec fn emitted_helpers(types: Seq<TypeView>) -> Result<
    Seq<HelperBlockView>,
    Seq<char>,
>
    decreases types.len(),
{
    if types.len() == 0 {
        Ok(Seq::empty())
    } else {
        match emitted_helpers(types.drop_last()) {
            Err(name) => Err(name),
            Ok(before) => file_one(before, types.last()),
        }
    }
}

/// No canonical name is emitted twice.
pub proof fn lemma_emitted_once(types: Seq<TypeView>, i: int, j: int)
    requires
        emitted_helpers(types) is Ok,
        0 <= i < j < emitted_helpers(types)->Ok_0.len(),
    ensures
        emitted_helpers(types)->Ok_0[i].canonical_name != emitted_helpers(
            types,
        )->Ok_0[j].canonical_name,
    decreases types.len(),
{
    if types.len() > 0 {
        let before = emitted_helpers(types.drop_last())->Ok_0;
        if j < before.len() {
            lemma_emitted_once(types.drop_last(), i, j);
        } else {
            let entry = helper_entry(types.last())->Some_0;
            assert(emitted_helpers(types)->Ok_0 == before.push(entry));
            if before[i].canonical_name == entry.canonical_name {
                assert(filed_names(before)[i] == entry.canonical_name);
                lemma_some_first_named(filed_names(before), entry.canonical_name, i);
            }
        }
    }
}

/// Every type that has helper code finds a block of its own under its
/// canonical name. So where helper code is emitted at all, no two
/// different types share a canonical name.
pub proof fn lemma_emitted_all(types: Seq<TypeView>, i: int)
    requires
        emitted_helpers(types) is Ok,
        0 <= i < types.len(),
        helper_entry(types[i]) is Some,
    ensures
        emitted_helpers(types)->Ok_0.contains(helper_entry(types[i])->Some_0),
    decreases types.len(),
{
    let before = emitted_helpers(types.drop_last())->Ok_0;
    let after = emitted_helpers(types)->Ok_0;
    if i < types.len() - 1 {
        lemma_emitted_all(types.drop_last(), i);
        let entry = helper_entry(types[i])->Some_0;
        let k = choose|k: int| 0 <= k < before.len() && before[k] == entry;
        assert(after[k] == entry);
    } else {
        let entry = helper_entry(types.last())->Some_0;
        match first_named(filed_names(before), entry.canonical_name) {
            None => {
                assert(after[before.len() as int] == entry);
            },
            Some(k) => {
                lemma_entries_are_their_own(types.drop_last(), k);
                assert(after[k] == entry);
            },
        }
    }
}

/// Every block that is emitted is the helper code of its own type.
pub proof fn lemma_entries_are_their_own(types: Seq<TypeView>, k: int)
    requires
        emitted_helpers(types) is Ok,
        0 <= k < emitted_helpers(types)->Ok_0.len(),
    ensures
        helper_entry(emitted_helpers(types)->Ok_0[k].type_) == Some(
            emitted_helpers(types)->Ok_0[k],
        ),
        types.contains(emitted_helpers(types)->Ok_0[k].type_),
    decreases types.len(),
{
    if types.len() > 0 {
        let before = emitted_helpers(types.drop_last())->Ok_0;
        if k < before.len() {
            lemma_entries_are_their_own(types.drop_last(), k);
            let t = before[k].type_;
            let at = choose|at: int| 0 <= at < types.drop_last().len() && types.drop_last()[at] == t;
            assert(types[at] == t);
        } else {
            assert(types[types.len() - 1] == types.last());
        }
    }
}

/// Whether two different types of the sequence come under `name`.
pub open spec fn collide(types: Seq<TypeView>, name: Seq<char>) -> bool {
    exists|i: int, j: int|
        #![trigger types[i], types[j]]
        0 <= i < types.len() && 0 <= j < types.len() && types[i] != types[j] && canonical_name_of(
            &KotlinLanguageOracle,
            types[i],
        ) == name && canonical_name_of(&KotlinLanguageOracle, types[j]) == name
}

/// A collision is real: where no helper code is emitted, two different
/// types of the sequence come under the name that is reported.
pub proof fn lemma_collision_is_real(types: Seq<TypeView>)
    requires
        emitted_helpers(types) is Err,
    ensures
        collide(types, emitted_helpers(types)->Err_0),
    decreases types.len(),
{
    let name = emitted_helpers(types)->Err_0;
    let shorter = types.drop_last();
    if emitted_helpers(shorter) is Err {
        lemma_collision_is_real(shorter);
        let (i, j) = choose|i: int, j: int|
            #![trigger shorter[i], shorter[j]]
            0 <= i < shorter.len() && 0 <= j < shorter.len() && shorter[i] != shorter[j]
                && canonical_name_of(&KotlinLanguageOracle, shorter[i]) == name
                && canonical_name_of(&KotlinLanguageOracle, shorter[j]) == name;
        assert(types[i] == shorter[i] && types[j] == shorter[j]);
    } else {
        let before = emitted_helpers(shorter)->Ok_0;
        let entry = helper_entry(types.last())->Some_0;
        let k = first_named(filed_names(before), entry.canonical_name)->Some_0;
        lemma_first_named_holds(filed_names(before), entry.canonical_name);
        lemma_entries_are_their_own(shorter, k);
        let b = before[k].type_;
        let j = choose|j: int| 0 <= j < shorter.len() && shorter[j] == b;
        let i = types.len() - 1;
        assert(types[j] == b);
        assert(types[i] != types[j]);
    }
}

/// The place of the block that is filed under `name`, if there is one.
pub(crate) fn filed_at(blocks: &Vec<HelperBlock>, name: &String) -> (r: Option<usize>)
    ensures
        match r {
            Some(k) => first_named(filed_names(views(blocks@)), name@) == Some(k as int),
            None => first_named(filed_names(views(blocks@)), name@) is None,
        },
{
    let ghost names = filed_names(views(blocks@));
    let mut k: usize = 0;
    while k < blocks.len()
        invariant
            k <= blocks.len(),
            names == filed_names(views(blocks@)),
            forall|j: int| 0 <= j < k ==> names[j] != name@,
        decreases blocks.len() - k,
    {
        if blocks[k].canonical_name == *name {
            proof {
                lemma_first_named(names, name@, k as int);
            }
            return Some(k);
        }
        k += 1;
    }
    proof {
        lemma_not_named(names, name@);
    }
    None
}

/// Once a collision has been found among the first types of a sequence, it
/// is the collision of every longer stretch of the sequence.
pub proof fn lemma_errors_stay(types: Seq<TypeView>, n: int)
    requires
        0 <= n <= types.len(),
        emitted_helpers(types.take(n)) is Err,
    ensures
        forall|m: int|
            n <= m <= types.len() ==> #[trigger] emitted_helpers(types.take(m))
                == emitted_helpers(types.take(n)),
{
    assert forall|m: int| n <= m <= types.len() implies #[trigger] emitted_helpers(types.take(m))
        == emitted_helpers(types.take(n)) by {
        lemma_error_stays(types, n, m);
    }
}

proof fn lemma_error_stays(types: Seq<TypeView>, n: int, m: int)
    requires
        0 <= n <= m <= types.len(),
        emitted_helpers(types.take(n)) is Err,
    ensures
        emitted_helpers(types.take(m)) == emitted_helpers(types.take(n)),
    decreases m - n,
{
    if n < m {
        lemma_error_stays(types, n, m - 1);
        assert(types.take(m).drop_last() =~= types.take(m - 1));
    }
}

} // verus!
