//! The runtime meaning of a generated accessor: the dispatch table is a
//! total function over the closed variant set, and evaluating it against an
//! instance of the union either extracts the named field's value or yields
//! the absent-value marker. The write accessor is modelled by applying a
//! mutation through it.

use vstd::prelude::*;

use crate::description::UnionModel;
use crate::description::named_fields;
use crate::synth::Accessor;
use crate::synth::AccessorModel;
use crate::synth::DispatchArm;

verus! {

/// The value an instance carries in one named field. Values are opaque to
/// the accessor logic; they are only stored and handed back.
#[derive(Debug, PartialEq, Eq)]
pub struct FieldValue {
    pub name: String,
    pub value: String,
}

/// Ghost image of a [`FieldValue`].
pub ghost struct FieldValueModel {
    pub name: Seq<char>,
    pub value: Seq<char>,
}

impl DeepView for FieldValue {
    type V = FieldValueModel;

    open spec fn deep_view(&self) -> FieldValueModel {
        FieldValueModel { name: self.name@, value: self.value@ }
    }
}

/// One instance of a union type: the index of the variant it is, and — when
/// that variant carries named fields — one value per field, in declaration
/// order. Positional payloads take no part in accessor evaluation and are
/// not modelled.
#[derive(Debug, PartialEq, Eq)]
pub struct UnionInstance {
    pub variant: usize,
    pub values: Vec<FieldValue>,
}

/// Ghost image of a [`UnionInstance`].
pub ghost struct UnionInstanceModel {
    pub variant: int,
    pub values: Seq<FieldValueModel>,
}

impl DeepView for UnionInstance {
    type V = UnionInstanceModel;

    open spec fn deep_view(&self) -> UnionInstanceModel {
        UnionInstanceModel { variant: self.variant as int, values: self.values.deep_view() }
    }
}

/// An instance fits its union: its variant index is in range, and its
/// values line up, name for name and in order, with the named fields of
/// that variant (an instance of a positional or unit variant carries no
/// values the accessors could see).
pub open spec fn instance_wf(u: UnionModel, inst: UnionInstanceModel) -> bool {
    &&& 0 <= inst.variant < u.variants.len()
    &&& inst.values.len() == named_fields(u.variants[inst.variant]).len()
    &&& forall|j: int|
        0 <= j < inst.values.len() ==> #[trigger] inst.values[j].name == named_fields(
            u.variants[inst.variant],
        )[j].name
}

/// An accessor belongs to a union when its dispatch table has one row per
/// variant and extracts exactly where the variant carries the accessor's
/// field at the accessor's representative type (the degrade rule: a
/// variant carrying the name at another type is dispatched to absent).
pub open spec fn accessor_consistent(u: UnionModel, a: AccessorModel) -> bool {
    &&& a.dispatch.len() == u.variants.len()
    &&& forall|k: int|
        0 <= k < u.variants.len() ==> ((#[trigger] a.dispatch[k] == DispatchArm::Extract)
            <==> crate::description::variant_has_field_at(u.variants[k], a.field, a.ty))
}

/// The value stored under the first entry named `name`, if any.
pub open spec fn lookup_value(vs: Seq<FieldValueModel>, name: Seq<char>) -> Option<Seq<char>>
    decreases vs.len(),
{
    if vs.len() == 0 {
        None
    } else if vs[0].name == name {
        Some(vs[0].value)
    } else {
        lookup_value(vs.drop_first(), name)
    }
}

/// The entries with the first one named `name` — if there is one — holding
/// `value` instead; without such an entry the entries stay as they are.
pub open spec fn store_value(
    vs: Seq<FieldValueModel>,
    name: Seq<char>,
    value: Seq<char>,
) -> Seq<FieldValueModel>
    decreases vs.len(),
{
    if vs.len() == 0 {
        vs
    } else if vs[0].name == name {
        seq![FieldValueModel { name: vs[0].name, value }] + vs.drop_first()
    } else {
        seq![vs[0]] + store_value(vs.drop_first(), name, value)
    }
}

/// What evaluating a read accessor against an instance yields: the stored
/// value where the instance's variant row says extract, the absent marker
/// everywhere else.
pub open spec fn spec_eval_read(a: AccessorModel, inst: UnionInstanceModel) -> Option<Seq<char>> {
    if a.dispatch[inst.variant] == DispatchArm::Extract {
        lookup_value(inst.values, a.field)
    } else {
        None
    }
}

/// What applying a mutation through a write accessor leaves behind: the
/// instance with the field's value replaced where its variant row says
/// extract, the instance unchanged everywhere else.
pub open spec fn spec_apply_write(
    a: AccessorModel,
    inst: UnionInstanceModel,
    value: Seq<char>,
) -> UnionInstanceModel {
    if a.dispatch[inst.variant] == DispatchArm::Extract {
        UnionInstanceModel { variant: inst.variant, values: store_value(inst.values, a.field, value) }
    } else {
        inst
    }
}

/// Evaluates the read accessor against an instance, following the dispatch
/// row of the instance's variant.
pub fn eval_read(a: &Accessor, inst: &UnionInstance) -> (r: Option<String>)
    requires
        inst.variant < a.dispatch@.len(),
    ensures
        r.deep_view() == spec_eval_read(a.deep_view(), inst.deep_view()),
{
    let ghost av = a.deep_view();
    let ghost iv = inst.deep_view();
    proof {
        assert(av.dispatch[iv.variant] == a.dispatch@[inst.variant as int]);
    }
    match a.dispatch[inst.variant] {
        DispatchArm::Extract => lookup_value_exec(&inst.values, &a.field),
        DispatchArm::Absent => None,
    }
}

/// The stored value under the first entry named `name`, if any.
fn lookup_value_exec(values: &Vec<FieldValue>, name: &String) -> (r: Option<String>)
    ensures
        r.deep_view() == lookup_value(values.deep_view(), name@),
{
    let ghost vsv = values.deep_view();
    let mut i: usize = 0;
    assert(vsv.skip(0) =~= vsv);
    while i < values.len()
        invariant
            i <= values.len(),
            vsv == values.deep_view(),
            lookup_value(vsv, name@) == lookup_value(vsv.skip(i as int), name@),
        decreases values.len() - i,
    {
        proof {
            assert(vsv.skip(i as int).len() == vsv.len() - i);
            assert(vsv.skip(i as int)[0] == vsv[i as int]);
        }
        if values[i].name == *name {
            return Some(values[i].value.clone());
        }
        proof {
            assert(vsv.skip(i as int).drop_first() =~= vsv.skip(i as int + 1));
        }
        i += 1;
    }
    proof {
        assert(vsv.skip(i as int) =~= Seq::<FieldValueModel>::empty());
    }
    None
}

/// Applies a mutation through the write accessor: replaces the named
/// field's value when the instance's variant carries it, and reports
/// whether the mutation was applied; a non-participating variant is left
/// untouched.
pub fn apply_write(a: &Accessor, inst: &mut UnionInstance, value: &String) -> (applied: bool)
    requires
        old(inst).variant < a.dispatch@.len(),
    ensures
        final(inst).deep_view() == spec_apply_write(a.deep_view(), old(inst).deep_view(), value@),
        applied == (a.deep_view().dispatch[old(inst).deep_view().variant] == DispatchArm::Extract
            && lookup_value(old(inst).deep_view().values, a.field@) is Some),
{
    let ghost av = a.deep_view();
    let ghost iv = old(inst).deep_view();
    proof {
        assert(av.dispatch[iv.variant] == a.dispatch@[inst.variant as int]);
    }
    match a.dispatch[inst.variant] {
        DispatchArm::Extract => store_value_exec(&mut inst.values, &a.field, value),
        DispatchArm::Absent => false,
    }
}

/// Replaces the value of the first entry named `name`, if there is one, and
/// reports whether one was found.
fn store_value_exec(values: &mut Vec<FieldValue>, name: &String, value: &String) -> (found: bool)
    ensures
        final(values).deep_view() == store_value(old(values).deep_view(), name@, value@),
        found == (lookup_value(old(values).deep_view(), name@) is Some),
{
    let ghost vsv = old(values).deep_view();
    let mut i: usize = 0;
    assert(vsv.skip(0) =~= vsv);
    while i < values.len()
        invariant
            i <= values.len(),
            vsv == values.deep_view(),
            values@.len() == old(values)@.len(),
            vsv == old(values).deep_view(),
            lookup_value(vsv, name@) == lookup_value(vsv.skip(i as int), name@),
            store_value(vsv, name@, value@) == vsv.take(i as int) + store_value(
                vsv.skip(i as int),
                name@,
                value@,
            ),
        decreases values.len() - i,
    {
        proof {
            assert(vsv.skip(i as int).len() == vsv.len() - i);
            assert(vsv.skip(i as int)[0] == vsv[i as int]);
        }
        if values[i].name == *name {
            let entry = FieldValue { name: values[i].name.clone(), value: value.clone() };
            values[i] = entry;
            proof {
                assert(store_value(vsv.skip(i as int), name@, value@) =~= seq![
                    FieldValueModel { name: vsv[i as int].name, value: value@ },
                ] + vsv.skip(i as int).drop_first());
                assert(vsv.skip(i as int).drop_first() =~= vsv.skip(i as int + 1));
                assert(values.deep_view() =~= vsv.update(
                    i as int,
                    FieldValueModel { name: vsv[i as int].name, value: value@ },
                ));
                assert(vsv.take(i as int) + (seq![
                    FieldValueModel { name: vsv[i as int].name, value: value@ },
                ] + vsv.skip(i as int + 1)) =~= vsv.update(
                    i as int,
                    FieldValueModel { name: vsv[i as int].name, value: value@ },
                ));
            }
            return true;
        }
        proof {
            assert(vsv.skip(i as int).drop_first() =~= vsv.skip(i as int + 1));
            assert(store_value(vsv.skip(i as int), name@, value@) =~= seq![vsv[i as int]]
                + store_value(vsv.skip(i as int + 1), name@, value@));
            assert(vsv.take(i as int) + (seq![vsv[i as int]] + store_value(
                vsv.skip(i as int + 1),
                name@,
                value@,
            )) =~= vsv.take(i as int + 1) + store_value(vsv.skip(i as int + 1), name@, value@));
        }
        i += 1;
    }
    proof {
        assert(vsv.skip(i as int) =~= Seq::<FieldValueModel>::empty());
        assert(vsv.take(i as int) =~= vsv);
        assert(vsv.take(i as int) + store_value(vsv.skip(i as int), name@, value@) =~= vsv);
    }
    false
}

} // verus!
