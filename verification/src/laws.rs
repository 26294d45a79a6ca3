//! The correctness laws of the generated accessors, stated over the spec
//! model that the executable pipeline is pinned to: uniformity for a
//! single-variant union, optionality and absence for partial groups,
//! totality for uniform groups, read/write agreement, and the mutation
//! round trip.

use vstd::prelude::*;

use crate::collect::lemma_field_name_has_variant;
use crate::collect::lemma_occ_full;
use crate::collect::lemma_occ_full_index;
use crate::collect::lemma_occ_upto_len_le;
use crate::collect::spec_field_groups;
use crate::description::FieldModel;
use crate::description::OccurrenceModel;
use crate::description::UnionModel;
use crate::description::field_names;
use crate::description::field_ty_in;
use crate::description::named_fields;
use crate::description::occurrences;
use crate::description::variant_has_field;
use crate::description::variant_has_field_at;
use crate::eval::FieldValueModel;
use crate::eval::UnionInstanceModel;
use crate::eval::accessor_consistent;
use crate::eval::instance_wf;
use crate::eval::lookup_value;
use crate::eval::spec_apply_write;
use crate::eval::spec_eval_read;
use crate::eval::store_value;
use crate::synth::DispatchArm;
use crate::synth::spec_accessor_pairs;
use crate::unify::group_uniform;

verus! {

/// When an instance's values line up name for name with a variant's named
/// fields, looking a name up among the values succeeds exactly when the
/// variant carries a field of that name.
proof fn lemma_lookup_matches_fields(
    fields: Seq<FieldModel>,
    values: Seq<FieldValueModel>,
    name: Seq<char>,
)
    requires
        values.len() == fields.len(),
        forall|j: int| 0 <= j < values.len() ==> #[trigger] values[j].name == fields[j].name,
    ensures
        (lookup_value(values, name) is Some) <==> (crate::description::find_field_ty(fields, name)
            is Some),
    decreases fields.len(),
{
    if fields.len() == 0 {
    } else if fields[0].name == name {
        assert(values[0].name == name);
    } else {
        assert(values[0].name == fields[0].name);
        assert(forall|j: int|
            0 <= j < values.drop_first().len() ==> #[trigger] values.drop_first()[j].name
                == fields.drop_first()[j].name);
        lemma_lookup_matches_fields(fields.drop_first(), values.drop_first(), name);
    }
}

/// Storing under a name that is present, then looking that name up, yields
/// the stored value.
proof fn lemma_lookup_store_same(values: Seq<FieldValueModel>, name: Seq<char>, value: Seq<char>)
    requires
        lookup_value(values, name) is Some,
    ensures
        lookup_value(store_value(values, name, value), name) == Some(value),
    decreases values.len(),
{
    if values.len() == 0 {
    } else if values[0].name == name {
        let stored = store_value(values, name, value);
        assert(stored[0] == FieldValueModel { name: values[0].name, value });
    } else {
        lemma_lookup_store_same(values.drop_first(), name, value);
        let stored = store_value(values, name, value);
        assert(stored[0] == values[0]);
        assert(stored.drop_first() =~= store_value(values.drop_first(), name, value));
    }
}

/// Storing a value keeps the number of entries and every entry's name.
proof fn lemma_store_preserves_shape(
    values: Seq<FieldValueModel>,
    name: Seq<char>,
    value: Seq<char>,
)
    ensures
        store_value(values, name, value).len() == values.len(),
        forall|j: int|
            0 <= j < values.len() ==> #[trigger] store_value(values, name, value)[j].name
                == values[j].name,
    decreases values.len(),
{
    if values.len() == 0 {
    } else if values[0].name == name {
        let stored = store_value(values, name, value);
        assert(forall|j: int| 1 <= j < values.len() ==> #[trigger] stored[j] == values[j]);
    } else {
        lemma_store_preserves_shape(values.drop_first(), name, value);
        let stored = store_value(values, name, value);
        let tail = store_value(values.drop_first(), name, value);
        assert(forall|j: int| 1 <= j < values.len() ==> #[trigger] stored[j] == tail[j - 1]);
    }
}

/// Every accessor that generation owes for `u` belongs to `u`: one dispatch
/// row per variant, extracting exactly where the variant carries the
/// accessor's field; and the read and write accessor of one pair agree on
/// field, uniformity and dispatch, differing only in name and mutability.
pub proof fn lemma_generated_accessors_consistent(u: UnionModel, i: int)
    requires
        0 <= i < spec_accessor_pairs(u).len(),
    ensures
        accessor_consistent(u, spec_accessor_pairs(u)[i].read),
        accessor_consistent(u, spec_accessor_pairs(u)[i].write),
        spec_accessor_pairs(u)[i].read.field == spec_accessor_pairs(u)[i].write.field,
        spec_accessor_pairs(u)[i].read.uniform == spec_accessor_pairs(u)[i].write.uniform,
        spec_accessor_pairs(u)[i].read.dispatch == spec_accessor_pairs(u)[i].write.dispatch,
        !spec_accessor_pairs(u)[i].read.mutable,
        spec_accessor_pairs(u)[i].write.mutable,
{
}

/// In a union with exactly one variant, every field that occurs at all
/// occurs in every variant at one type, so every generated accessor is
/// non-optional.
pub proof fn lemma_single_variant_uniform(u: UnionModel, i: int)
    requires
        u.variants.len() == 1,
        0 <= i < spec_accessor_pairs(u).len(),
    ensures
        spec_accessor_pairs(u)[i].read.uniform,
        spec_accessor_pairs(u)[i].write.uniform,
{
    let g = spec_field_groups(u)[i];
    let n = field_names(u)[i];
    assert(field_names(u).contains(n));
    lemma_field_name_has_variant(u, n);
    let v = choose|v: int|
        0 <= v < u.variants.len() && variant_has_field(#[trigger] u.variants[v], n);
    assert(v == 0);
    assert(occurrences(u, n).len() == 1) by {
        lemma_occ_upto_len_le(u, n, 0);
    }
    assert(group_uniform(g, 1)) by {
        assert(forall|j: int|
            0 <= j < g.occurrences.len() ==> #[trigger] g.occurrences[j].ty == g.occurrences[0].ty);
    }
}

/// A partial field group — fewer occurrences than variants — yields
/// optional accessors, and evaluating either accessor against an instance
/// of a variant that does not carry the field yields the absent marker and
/// leaves the instance untouched.
pub proof fn lemma_partial_accessor_absent(
    u: UnionModel,
    i: int,
    inst: UnionInstanceModel,
    value: Seq<char>,
)
    requires
        0 <= i < spec_field_groups(u).len(),
        spec_field_groups(u)[i].occurrences.len() < u.variants.len(),
        instance_wf(u, inst),
        !variant_has_field(u.variants[inst.variant], spec_field_groups(u)[i].name),
    ensures
        !spec_accessor_pairs(u)[i].read.uniform,
        !spec_accessor_pairs(u)[i].write.uniform,
        spec_eval_read(spec_accessor_pairs(u)[i].read, inst) is None,
        spec_apply_write(spec_accessor_pairs(u)[i].write, inst, value) == inst,
{
    assert(spec_accessor_pairs(u)[i].read.dispatch[inst.variant] == DispatchArm::Absent);
}

/// The degrade rule: a field name declared at two differing types — even
/// when it is present in every variant — yields optional accessors rather
/// than a guessed common type.
pub proof fn lemma_type_mismatch_degrades(u: UnionModel, i: int, a: int, b: int)
    requires
        0 <= i < spec_field_groups(u).len(),
        0 <= a < spec_field_groups(u)[i].occurrences.len(),
        0 <= b < spec_field_groups(u)[i].occurrences.len(),
        spec_field_groups(u)[i].occurrences[a].ty != spec_field_groups(u)[i].occurrences[b].ty,
    ensures
        !spec_accessor_pairs(u)[i].read.uniform,
        !spec_accessor_pairs(u)[i].write.uniform,
{
    let g = spec_field_groups(u)[i];
    if group_uniform(g, u.variants.len() as int) {
        assert(g.occurrences[a].ty == g.occurrences[0].ty);
        assert(g.occurrences[b].ty == g.occurrences[0].ty);
    }
}

/// The other half of the degrade rule: on an instance of a variant that
/// carries the field at a *non-representative* type, the degraded
/// accessors yield the absent marker and leave the instance untouched —
/// never an ill-typed extraction.
pub proof fn lemma_mismatched_type_yields_absent(
    u: UnionModel,
    i: int,
    inst: UnionInstanceModel,
    value: Seq<char>,
)
    requires
        0 <= i < spec_field_groups(u).len(),
        instance_wf(u, inst),
        variant_has_field(u.variants[inst.variant], spec_field_groups(u)[i].name),
        field_ty_in(u.variants[inst.variant], spec_field_groups(u)[i].name) != spec_field_groups(
            u,
        )[i].occurrences[0].ty,
    ensures
        !spec_accessor_pairs(u)[i].read.uniform,
        !spec_accessor_pairs(u)[i].write.uniform,
        spec_eval_read(spec_accessor_pairs(u)[i].read, inst) is None,
        spec_apply_write(spec_accessor_pairs(u)[i].write, inst, value) == inst,
{
    let g = spec_field_groups(u)[i];
    let n = g.name;
    assert(!variant_has_field_at(u.variants[inst.variant], n, g.occurrences[0].ty));
    assert(spec_accessor_pairs(u)[i].read.dispatch[inst.variant] == DispatchArm::Absent);
    if group_uniform(g, u.variants.len() as int) {
        lemma_occ_full_index(u, n, u.variants.len() as int);
        assert(g.occurrences[inst.variant] == OccurrenceModel {
            variant: inst.variant,
            ty: field_ty_in(u.variants[inst.variant], n),
        });
        assert(g.occurrences[inst.variant].ty == g.occurrences[0].ty);
        assert(false);
    }
}

/// A uniform field group yields non-optional accessors, and evaluating the
/// read accessor against any well-formed instance yields a present value —
/// never the absent marker.
pub proof fn lemma_uniform_accessor_total(u: UnionModel, i: int, inst: UnionInstanceModel)
    requires
        0 <= i < spec_field_groups(u).len(),
        group_uniform(spec_field_groups(u)[i], u.variants.len() as int),
        instance_wf(u, inst),
    ensures
        spec_accessor_pairs(u)[i].read.uniform,
        spec_accessor_pairs(u)[i].write.uniform,
        spec_eval_read(spec_accessor_pairs(u)[i].read, inst) is Some,
{
    let g = spec_field_groups(u)[i];
    let n = g.name;
    lemma_occ_full(u, n, u.variants.len() as int);
    lemma_occ_full_index(u, n, u.variants.len() as int);
    assert(variant_has_field(u.variants[inst.variant], n));
    assert(g.occurrences == occurrences(u, n));
    assert(occurrences(u, n)[inst.variant] == OccurrenceModel {
        variant: inst.variant,
        ty: field_ty_in(u.variants[inst.variant], n),
    });
    assert(g.occurrences[inst.variant].ty == g.occurrences[0].ty);
    assert(field_ty_in(u.variants[inst.variant], n) == g.occurrences[0].ty);
    let found = crate::description::find_field_ty(named_fields(u.variants[inst.variant]), n);
    assert(found == Some(found->Some_0));
    assert(variant_has_field_at(u.variants[inst.variant], n, g.occurrences[0].ty));
    assert(spec_accessor_pairs(u)[i].read.dispatch[inst.variant] == DispatchArm::Extract);
    lemma_lookup_matches_fields(named_fields(u.variants[inst.variant]), inst.values, n);
}

/// Read/write agreement: for any instance, the read accessor of a pair is
/// optional exactly when the write accessor is, and the two agree on
/// presence — the read accessor yields a present value exactly when the
/// write accessor's dispatch row extracts and the instance stores the
/// field.
pub proof fn lemma_read_write_agree(u: UnionModel, i: int, inst: UnionInstanceModel)
    requires
        0 <= i < spec_accessor_pairs(u).len(),
        0 <= inst.variant < u.variants.len(),
    ensures
        spec_accessor_pairs(u)[i].read.uniform == spec_accessor_pairs(u)[i].write.uniform,
        spec_accessor_pairs(u)[i].read.dispatch == spec_accessor_pairs(u)[i].write.dispatch,
        (spec_eval_read(spec_accessor_pairs(u)[i].read, inst) is Some) <==> (spec_accessor_pairs(
            u,
        )[i].write.dispatch[inst.variant] == DispatchArm::Extract && lookup_value(
            inst.values,
            spec_accessor_pairs(u)[i].write.field,
        ) is Some),
{
}

/// Mutation round trip: applying a mutation through the write accessor and
/// then reading through the read accessor observes the mutated value when
/// the instance's variant carries the field at the representative type;
/// when it does not (absent field, or a mismatched type under the degrade
/// rule), the write leaves the instance untouched and the read yields the
/// absent marker. Either way the written instance is still well formed.
pub proof fn lemma_mutation_round_trip(
    u: UnionModel,
    i: int,
    inst: UnionInstanceModel,
    value: Seq<char>,
)
    requires
        0 <= i < spec_accessor_pairs(u).len(),
        instance_wf(u, inst),
    ensures
        instance_wf(u, spec_apply_write(spec_accessor_pairs(u)[i].write, inst, value)),
        variant_has_field_at(
            u.variants[inst.variant],
            spec_accessor_pairs(u)[i].read.field,
            spec_accessor_pairs(u)[i].read.ty,
        ) ==> spec_eval_read(
            spec_accessor_pairs(u)[i].read,
            spec_apply_write(spec_accessor_pairs(u)[i].write, inst, value),
        ) == Some(value),
        !variant_has_field_at(
            u.variants[inst.variant],
            spec_accessor_pairs(u)[i].read.field,
            spec_accessor_pairs(u)[i].read.ty,
        ) ==> spec_apply_write(spec_accessor_pairs(u)[i].write, inst, value) == inst
            && spec_eval_read(
            spec_accessor_pairs(u)[i].read,
            spec_apply_write(spec_accessor_pairs(u)[i].write, inst, value),
        ) is None,
{
    let p = spec_accessor_pairs(u)[i];
    let n = p.read.field;
    let written = spec_apply_write(p.write, inst, value);
    if variant_has_field_at(u.variants[inst.variant], n, p.read.ty) {
        assert(variant_has_field(u.variants[inst.variant], n));
        assert(p.write.dispatch[inst.variant] == DispatchArm::Extract);
        assert(written.variant == inst.variant);
        lemma_store_preserves_shape(inst.values, n, value);
        assert(instance_wf(u, written));
        lemma_lookup_matches_fields(named_fields(u.variants[inst.variant]), inst.values, n);
        lemma_lookup_store_same(inst.values, n, value);
        assert(p.read.dispatch[written.variant] == DispatchArm::Extract);
    } else {
        assert(p.write.dispatch[inst.variant] == DispatchArm::Absent);
    }
}

} // verus!
