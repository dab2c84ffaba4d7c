//! The semantics of the apply procedure: copying the present fields of a
//! partial value onto a base value, field by field, and reporting whether
//! anything was applied.

use vstd::prelude::*;

use vstd::pervasive::VecAdditionalExecFns;

verus! {

/// The merged field values: each present partial field replaces the
/// corresponding base field; each absent one leaves it untouched.
pub open spec fn spec_merged<V>(base: Seq<V>, partial: Seq<Option<V>>) -> Seq<V>
    recommends
        base.len() == partial.len(),
{
    Seq::new(
        base.len(),
        |i: int|
            match partial[i] {
                Some(v) => v,
                None => base[i],
            },
    )
}

/// Whether any field of the partial value is present.
pub open spec fn spec_any_present<V>(partial: Seq<Option<V>>) -> bool {
    exists|i: int| 0 <= i < partial.len() && partial[i] is Some
}

/// Applies the present fields of `partial` onto `base` and reports whether
/// any field was applied.
pub fn apply_merge<V>(base: &mut Vec<V>, partial: Vec<Option<V>>) -> (applied: bool)
    requires
        old(base)@.len() == partial@.len(),
    ensures
        final(base)@ == spec_merged(old(base)@, partial@),
        applied == spec_any_present(partial@),
{
    let ghost b0 = base@;
    let ghost pv = partial@;
    let mut rest = partial;
    let mut applied = false;
    while rest.len() > 0
        invariant
            b0.len() == pv.len(),
            base@.len() == b0.len(),
            rest@.len() <= pv.len(),
            rest@ == pv.subrange(0, rest@.len() as int),
            forall|i: int| 0 <= i < rest@.len() ==> base@[i] == b0[i],
            forall|i: int| rest@.len() <= i < b0.len() ==> base@[i] == (match pv[i] {
                Some(v) => v,
                None => b0[i],
            }),
            applied == exists|i: int| rest@.len() <= i < pv.len() && pv[i] is Some,
        decreases rest@.len(),
    {
        let ghost before = rest@;
        let k = rest.len() - 1;
        let slot = match rest.pop() {
            Some(slot) => slot,
            None => {
                proof {
                    assert(false);
                }
                None
            },
        };
        proof {
            assert(rest@ =~= pv.subrange(0, k as int));
            assert(slot == pv[k as int]);
        }
        match slot {
            Some(v) => {
                base.set(k, v);
                applied = true;
            },
            None => {},
        }
    }
    proof {
        assert(rest@.len() == 0);
        assert(base@ =~= spec_merged(b0, pv));
    }
    applied
}

/// One merged field: the base field is assigned exactly when the partial
/// value holds a present value there, and is left untouched otherwise.
pub proof fn lemma_merge_pointwise<V>(base: Seq<V>, partial: Seq<Option<V>>, i: int)
    requires
        base.len() == partial.len(),
        0 <= i < base.len(),
    ensures
        partial[i] is Some ==> spec_merged(base, partial)[i] == partial[i].unwrap(),
        partial[i] is None ==> spec_merged(base, partial)[i] == base[i],
{
}

/// Round trip, no-op merge: applying a partial value with every field
/// absent leaves the base value unchanged, and the did-apply signal is
/// false.
pub proof fn lemma_merge_all_absent<V>(base: Seq<V>, partial: Seq<Option<V>>)
    requires
        base.len() == partial.len(),
        forall|i: int| 0 <= i < partial.len() ==> partial[i] is None,
    ensures
        spec_merged(base, partial) == base,
        !spec_any_present(partial),
{
    assert(spec_merged(base, partial) =~= base);
}

/// Round trip, full merge: applying a partial value with every field
/// present makes the base value equal to the partial value in every field,
/// and, as soon as there is at least one field, the did-apply signal is
/// true.
pub proof fn lemma_merge_all_present<V>(base: Seq<V>, partial: Seq<Option<V>>)
    requires
        base.len() == partial.len(),
        forall|i: int| 0 <= i < partial.len() ==> partial[i] is Some,
    ensures
        spec_merged(base, partial).len() == partial.len(),
        forall|i: int| 0 <= i < partial.len() ==> spec_merged(base, partial)[i]
            == partial[i].unwrap(),
        partial.len() > 0 ==> spec_any_present(partial),
{
    if partial.len() > 0 {
        assert(partial[0] is Some);
    }
}

} // verus!
