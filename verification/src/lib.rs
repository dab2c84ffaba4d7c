//! Attribute-driven schema transformer: from an annotated description of a
//! struct it derives a mirrored "partial" struct, in which each field is
//! individually optional, transparent or retyped, together with a merge
//! specification that copies the present fields of a partial value onto a
//! base value.

use vstd::prelude::*;

pub mod annotation;
pub mod attr;
pub mod ctx;
pub mod derive_receiver;
pub mod diag;
pub mod expand;
pub mod field_receiver;
pub mod impl_partial;
pub mod merge;
pub mod meta_attribute;
pub mod parse;
pub mod schema;
pub mod symbol;
pub mod text;
pub mod token;
pub mod token_vec;

verus! {

/// Allows applying a [`Partial::Item`] to `Self`, where [`Partial::Item`]
/// has present values.
pub trait Partial {
    /// The type of the partial structure, that may have present values.
    type Item;

    /// Applies the present values from [`Partial::Item`] to `self`,
    /// reporting whether any field was applied.
    ///
    /// Note: absent values are not applied.
    fn apply_some(&mut self, partial: Self::Item) -> bool;
}

/// A small self-check of the merge semantics, mirroring the freestanding
/// smoke scenario: a partial with one present field applies onto a base
/// value, and onto a partial value taken as the base, and both report that
/// something was applied.
pub fn start() -> (r: isize)
    ensures
        r == 0,
{
    let mut base: Vec<i32> = Vec::new();
    base.push(1);
    let mut update: Vec<Option<i32>> = Vec::new();
    update.push(Some(2));
    proof {
        assert(update@[0] is Some);
    }
    let applied = crate::merge::apply_merge(&mut base, update);
    assert(applied);
    assert(base@[0] == 2);
    let mut partial_base: Vec<Option<i32>> = Vec::new();
    partial_base.push(None);
    let mut update2: Vec<Option<Option<i32>>> = Vec::new();
    update2.push(Some(Some(2)));
    proof {
        assert(update2@[0] is Some);
    }
    let applied2 = crate::merge::apply_merge(&mut partial_base, update2);
    assert(applied2);
    assert(partial_base@[0] == Some(2i32));
    if applied && applied2 {
        0
    } else {
        1
    }
}

} // verus!
