//! The Unification Decider: for each field group, decides whether the field
//! is uniform (present in every variant at one identical declared type) or
//! partial (present in a strict subset of variants, or present everywhere
//! but at differing types).

use vstd::prelude::*;

use crate::collect::FieldGroup;
use crate::collect::FieldGroupModel;

verus! {

/// A field group is uniform when it has one occurrence in every variant of
/// the union and every occurrence shares the declared type of the first one.
/// A group whose name occurs everywhere but at differing types is *not*
/// uniform: the degrade rule keeps its accessors optional rather than
/// guessing a common type.
pub open spec fn group_uniform(g: FieldGroupModel, variant_count: int) -> bool {
    &&& g.occurrences.len() == variant_count
    &&& forall|i: int|
        0 <= i < g.occurrences.len() ==> #[trigger] g.occurrences[i].ty == g.occurrences[0].ty
}

/// The Unification Decider. Purely a function of the group and the union's
/// variant count; it has no failure modes.
pub fn decide_uniform(group: &FieldGroup, variant_count: usize) -> (r: bool)
    ensures
        r == group_uniform(group.deep_view(), variant_count as int),
{
    if group.occurrences.len() != variant_count {
        return false;
    }
    let mut i: usize = 0;
    while i < group.occurrences.len()
        invariant
            i <= group.occurrences@.len(),
            forall|j: int|
                0 <= j < i ==> #[trigger] group.deep_view().occurrences[j].ty
                    == group.deep_view().occurrences[0].ty,
        decreases group.occurrences.len() - i,
    {
        if !(group.occurrences[i].ty == group.occurrences[0].ty) {
            proof {
                assert(group.deep_view().occurrences[i as int].ty != group.deep_view().occurrences[0].ty);
            }
            return false;
        }
        i += 1;
    }
    true
}

} // verus!
