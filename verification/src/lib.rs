//! Kotlin binding generation for a component interface: the type algebra,
//! the naming rules, the per-type code handlers, and the wire format that
//! the generated helpers implement.

use vstd::prelude::*;

pub mod bindings;
pub mod handle;
pub mod interface;
pub mod numerals;
pub mod wire;

verus! {

/// Settings that can be laid over one another.
pub trait MergeWith: Sized {
    /// Whether `merged` is these settings laid over those of `other`.
    spec fn merges(&self, other: &Self, merged: &Self) -> bool;

    /// These settings, with those of `other` where these leave one open.
    fn merge_with(&self, other: &Self) -> (r: Self)
        ensures
            self.merges(other, &r),
    ;
}

} // verus!
