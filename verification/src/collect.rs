//! The Field Collector: scans all variants of a union description and builds
//! one [`FieldGroup`] per distinct field name, in order of first occurrence,
//! each holding that name's occurrences in declaration order.

use vstd::prelude::*;

use crate::description::Field;
use crate::description::FieldModel;
use crate::description::OccurrenceModel;
use crate::description::UnionModel;
use crate::description::UnionType;
use crate::description::Variant;
use crate::description::VariantFields;
use crate::description::field_names;
use crate::description::field_ty_in;
use crate::description::find_field_ty;
use crate::description::named_fields;
use crate::description::names_upto;
use crate::description::names_with_fields;
use crate::description::occurrences;
use crate::description::occurrences_upto;
use crate::description::variant_has_field;

verus! {

/// One occurrence of a field name: the index of the variant that carries it
/// and the type the field is declared at there.
pub struct FieldOccurrence {
    pub variant: usize,
    pub ty: String,
}

impl DeepView for FieldOccurrence {
    type V = OccurrenceModel;

    open spec fn deep_view(&self) -> OccurrenceModel {
        OccurrenceModel { variant: self.variant as int, ty: self.ty@ }
    }
}

/// All occurrences of one field name across a union's variants. The
/// representative type of the group is the type of its first occurrence.
pub struct FieldGroup {
    pub name: String,
    pub occurrences: Vec<FieldOccurrence>,
}

/// Ghost image of a [`FieldGroup`].
pub ghost struct FieldGroupModel {
    pub name: Seq<char>,
    pub occurrences: Seq<OccurrenceModel>,
}

impl DeepView for FieldGroup {
    type V = FieldGroupModel;

    open spec fn deep_view(&self) -> FieldGroupModel {
        FieldGroupModel { name: self.name@, occurrences: self.occurrences.deep_view() }
    }
}

impl FieldGroup {
    /// The representative type of the group: the declared type of its first
    /// occurrence, which types the generated accessors.
    pub fn representative_type(&self) -> (r: &String)
        requires
            self.occurrences@.len() > 0,
        ensures
            r@ == self.deep_view().occurrences[0].ty,
    {
        &self.occurrences[0].ty
    }
}

/// What collection owes for `u`: one group per distinct field name, in
/// first-occurrence order, each holding the name's occurrences in
/// declaration order.
pub open spec fn spec_field_groups(u: UnionModel) -> Seq<FieldGroupModel> {
    field_names(u).map(
        |i: int, n: Seq<char>| FieldGroupModel { name: n, occurrences: occurrences(u, n) },
    )
}

/// Whether `names` already holds `name`.
fn contains_name(names: &Vec<String>, name: &String) -> (r: bool)
    ensures
        r == names.deep_view().contains(name@),
{
    let mut i: usize = 0;
    while i < names.len()
        invariant
            i <= names.len(),
            forall|j: int| 0 <= j < i ==> names.deep_view()[j] != name@,
        decreases names.len() - i,
    {
        if names[i] == *name {
            assert(names.deep_view().contains(name@)) by {
                assert(names.deep_view()[i as int] == name@);
            }
            return true;
        }
        i += 1;
    }
    false
}

/// The declared type of the first field of `fields` named `name`, if any.
fn find_named_ty(fields: &Vec<Field>, name: &String) -> (r: Option<String>)
    ensures
        r.deep_view() == find_field_ty(fields.deep_view(), name@),
{
    let ghost fsv = fields.deep_view();
    let mut i: usize = 0;
    assert(fsv.skip(0) =~= fsv);
    while i < fields.len()
        invariant
            i <= fields.len(),
            fsv == fields.deep_view(),
            find_field_ty(fsv, name@) == find_field_ty(fsv.skip(i as int), name@),
        decreases fields.len() - i,
    {
        proof {
            assert(fsv.skip(i as int).len() == fsv.len() - i);
            assert(fsv.skip(i as int)[0] == fsv[i as int]);
        }
        if fields[i].name == *name {
            return Some(fields[i].ty.clone());
        }
        proof {
            assert(fsv.skip(i as int).drop_first() =~= fsv.skip(i as int + 1));
        }
        i += 1;
    }
    proof {
        assert(fsv.skip(i as int) =~= Seq::<FieldModel>::empty());
    }
    None
}

/// The declared type of the named field `name` of `v`, if the variant
/// carries one; positional and unit variants carry none.
pub fn variant_field_ty(v: &Variant, name: &String) -> (r: Option<String>)
    ensures
        r.deep_view() == find_field_ty(named_fields(v.deep_view()), name@),
{
    match &v.fields {
        VariantFields::Named(fs) => find_named_ty(fs, name),
        VariantFields::Positional(_) => None,
        VariantFields::Unit => None,
    }
}

/// The distinct field names of `u`, in first-occurrence order.
fn collect_names(u: &UnionType) -> (names: Vec<String>)
    ensures
        names.deep_view() == field_names(u.deep_view()),
{
    let ghost um = u.deep_view();
    let mut names: Vec<String> = Vec::new();
    assert(names.deep_view() =~= names_upto(um, 0));
    let mut k: usize = 0;
    while k < u.variants.len()
        invariant
            k <= u.variants.len(),
            um == u.deep_view(),
            names.deep_view() == names_upto(um, k as int),
        decreases u.variants.len() - k,
    {
        proof {
            assert(um.variants[k as int] == u.variants@[k as int].deep_view());
        }
        match &u.variants[k].fields {
            VariantFields::Named(fs) => {
                let ghost fsv = fs.deep_view();
                proof {
                    assert(named_fields(um.variants[k as int]) == fsv);
                }
                let mut j: usize = 0;
                while j < fs.len()
                    invariant
                        j <= fs.len(),
                        um == u.deep_view(),
                        k < u.variants@.len(),
                        fsv == fs.deep_view(),
                        named_fields(um.variants[k as int]) == fsv,
                        names.deep_view() == names_with_fields(
                            names_upto(um, k as int),
                            fsv,
                            j as int,
                        ),
                    decreases fs.len() - j,
                {
                    proof {
                        assert(fsv[j as int] == fs@[j as int].deep_view());
                    }
                    if !contains_name(&names, &fs[j].name) {
                        let ghost prev = names.deep_view();
                        names.push(fs[j].name.clone());
                        proof {
                            assert(names.deep_view() =~= prev.push(fsv[j as int].name));
                        }
                    }
                    j += 1;
                }
                proof {
                    assert(names.deep_view() == names_upto(um, k as int + 1));
                }
            },
            VariantFields::Positional(_) => {
                proof {
                    assert(named_fields(um.variants[k as int]) =~= Seq::<FieldModel>::empty());
                    assert(names.deep_view() == names_upto(um, k as int + 1));
                }
            },
            VariantFields::Unit => {
                proof {
                    assert(named_fields(um.variants[k as int]) =~= Seq::<FieldModel>::empty());
                    assert(names.deep_view() == names_upto(um, k as int + 1));
                }
            },
        }
        k += 1;
    }
    names
}

/// Scans the variants of `u` for every occurrence of `name`, in declaration
/// order.
fn collect_occurrences(u: &UnionType, name: &String) -> (occs: Vec<FieldOccurrence>)
    ensures
        occs.deep_view() == occurrences(u.deep_view(), name@),
{
    let ghost um = u.deep_view();
    let mut occs: Vec<FieldOccurrence> = Vec::new();
    assert(occs.deep_view() =~= occurrences_upto(um, name@, 0));
    let mut k: usize = 0;
    while k < u.variants.len()
        invariant
            k <= u.variants.len(),
            um == u.deep_view(),
            occs.deep_view() == occurrences_upto(um, name@, k as int),
        decreases u.variants.len() - k,
    {
        proof {
            assert(um.variants[k as int] == u.variants@[k as int].deep_view());
        }
        let found = variant_field_ty(&u.variants[k], name);
        match found {
            Some(ty) => {
                let ghost prev = occs.deep_view();
                proof {
                    assert(variant_has_field(um.variants[k as int], name@));
                }
                occs.push(FieldOccurrence { variant: k, ty });
                proof {
                    assert(occs.deep_view() =~= occurrences_upto(um, name@, k as int + 1));
                }
            },
            None => {
                proof {
                    assert(occs.deep_view() =~= occurrences_upto(um, name@, k as int + 1));
                }
            },
        }
        k += 1;
    }
    occs
}

/// The Field Collector: produces one group per distinct field name observed
/// across the variants of `u`, in order of first occurrence, each group
/// holding that name's occurrences in declaration order. An empty union
/// yields no groups.
pub fn collect_field_groups(u: &UnionType) -> (groups: Vec<FieldGroup>)
    ensures
        groups.deep_view() == spec_field_groups(u.deep_view()),
{
    let ghost um = u.deep_view();
    let names = collect_names(u);
    let mut groups: Vec<FieldGroup> = Vec::new();
    assert(groups.deep_view() =~= spec_field_groups(um).take(0));
    let mut i: usize = 0;
    while i < names.len()
        invariant
            i <= names.len(),
            um == u.deep_view(),
            names.deep_view() == field_names(um),
            groups.deep_view() == spec_field_groups(um).take(i as int),
        decreases names.len() - i,
    {
        proof {
            assert(names.deep_view()[i as int] == names@[i as int]@);
            assert(spec_field_groups(um)[i as int] == FieldGroupModel {
                name: field_names(um)[i as int],
                occurrences: occurrences(um, field_names(um)[i as int]),
            });
        }
        let occs = collect_occurrences(u, &names[i]);
        let ghost prev = groups.deep_view();
        groups.push(FieldGroup { name: names[i].clone(), occurrences: occs });
        proof {
            assert(groups.deep_view() =~= prev.push(spec_field_groups(um)[i as int]));
            assert(spec_field_groups(um).take(i as int + 1) =~= spec_field_groups(um).take(
                i as int,
            ).push(spec_field_groups(um)[i as int]));
        }
        i += 1;
    }
    proof {
        assert(spec_field_groups(um).take(names@.len() as int) =~= spec_field_groups(um));
    }
    groups
}

/// Whether `find_field_ty` succeeds is exactly whether some field carries
/// the name.
pub proof fn lemma_find_field_ty_some(fields: Seq<FieldModel>, n: Seq<char>)
    ensures
        (find_field_ty(fields, n) is Some) <==> (exists|m: int|
            0 <= m < fields.len() && #[trigger] fields[m].name == n),
    decreases fields.len(),
{
    if fields.len() == 0 {
    } else if fields[0].name == n {
        assert(fields[0].name == n);
    } else {
        lemma_find_field_ty_some(fields.drop_first(), n);
        let tail = fields.drop_first();
        if find_field_ty(fields, n) is Some {
            let m = choose|m: int| 0 <= m < tail.len() && #[trigger] tail[m].name == n;
            assert(fields[m + 1].name == n);
        }
        if exists|m: int| 0 <= m < fields.len() && #[trigger] fields[m].name == n {
            let m = choose|m: int| 0 <= m < fields.len() && #[trigger] fields[m].name == n;
            assert(m >= 1);
            assert(tail[m - 1].name == n);
        }
    }
}

/// Membership in the running name list built from one variant's fields.
proof fn lemma_names_with_fields_contains(
    names: Seq<Seq<char>>,
    fields: Seq<FieldModel>,
    j: int,
    n: Seq<char>,
)
    requires
        0 <= j <= fields.len(),
    ensures
        names_with_fields(names, fields, j).contains(n) <==> (names.contains(n) || exists|m: int|
            0 <= m < j && #[trigger] fields[m].name == n),
    decreases j,
{
    if j <= 0 {
    } else {
        lemma_names_with_fields_contains(names, fields, j - 1, n);
        let prev = names_with_fields(names, fields, j - 1);
        let x = fields[j - 1].name;
        if prev.contains(x) {
            if x == n {
                assert(fields[j - 1].name == n);
            }
        } else {
            let cur = prev.push(x);
            if x == n {
                assert(cur[prev.len() as int] == n);
                assert(cur.contains(n));
                assert(fields[j - 1].name == n);
            }
            if prev.contains(n) {
                let w = choose|w: int| 0 <= w < prev.len() && prev[w] == n;
                assert(cur[w] == n);
                assert(cur.contains(n));
            }
            if cur.contains(n) && x != n {
                let w = choose|w: int| 0 <= w < cur.len() && cur[w] == n;
                assert(w < prev.len());
                assert(prev[w] == n);
                assert(prev.contains(n));
            }
        }
    }
}

/// A name stands among the first `k` variants' collected names exactly when
/// one of those variants carries it.
proof fn lemma_names_upto_contains(u: UnionModel, k: int, n: Seq<char>)
    requires
        0 <= k <= u.variants.len(),
    ensures
        names_upto(u, k).contains(n) <==> (exists|v: int|
            0 <= v < k && variant_has_field(#[trigger] u.variants[v], n)),
    decreases k,
{
    if k <= 0 {
    } else {
        lemma_names_upto_contains(u, k - 1, n);
        let fs = named_fields(u.variants[k - 1]);
        lemma_names_with_fields_contains(names_upto(u, k - 1), fs, fs.len() as int, n);
        lemma_find_field_ty_some(fs, n);
        if names_upto(u, k).contains(n) {
            if names_upto(u, k - 1).contains(n) {
                let v = choose|v: int|
                    0 <= v < k - 1 && variant_has_field(#[trigger] u.variants[v], n);
                assert(variant_has_field(u.variants[v], n));
            } else {
                assert(variant_has_field(u.variants[k - 1], n));
            }
        }
        if exists|v: int| 0 <= v < k && variant_has_field(#[trigger] u.variants[v], n) {
            let v = choose|v: int| 0 <= v < k && variant_has_field(#[trigger] u.variants[v], n);
            if v < k - 1 {
                assert(names_upto(u, k - 1).contains(n));
            }
        }
    }
}

/// Extending the running name list keeps its entries pairwise distinct.
proof fn lemma_names_with_fields_distinct(
    names: Seq<Seq<char>>,
    fields: Seq<FieldModel>,
    j: int,
)
    requires
        0 <= j <= fields.len(),
        forall|a: int, b: int|
            #![trigger names[a], names[b]]
            0 <= a < b < names.len() ==> names[a] != names[b],
    ensures
        forall|a: int, b: int|
            #![trigger names_with_fields(names, fields, j)[a], names_with_fields(names, fields, j)[b]]
            0 <= a < b < names_with_fields(names, fields, j).len() ==> names_with_fields(
                names,
                fields,
                j,
            )[a] != names_with_fields(names, fields, j)[b],
    decreases j,
{
    if j <= 0 {
    } else {
        lemma_names_with_fields_distinct(names, fields, j - 1);
        let prev = names_with_fields(names, fields, j - 1);
        let x = fields[j - 1].name;
        if !prev.contains(x) {
            let cur = prev.push(x);
            assert forall|a: int, b: int| 0 <= a < b < cur.len() implies cur[a] != cur[b] by {
                if b == prev.len() {
                    assert(cur[a] == prev[a]);
                    assert(!prev.contains(x));
                    assert(prev[a] != x);
                } else {
                    assert(cur[a] == prev[a]);
                    assert(cur[b] == prev[b]);
                }
            }
        }
    }
}

/// Each field name gets exactly one group: the collected names are
/// pairwise distinct.
pub proof fn lemma_field_names_distinct(u: UnionModel)
    ensures
        forall|a: int, b: int|
            #![trigger field_names(u)[a], field_names(u)[b]]
            0 <= a < b < field_names(u).len() ==> field_names(u)[a] != field_names(u)[b],
{
    lemma_names_upto_distinct(u, u.variants.len() as int);
}

/// Distinctness of the collected names, by induction over the variants.
proof fn lemma_names_upto_distinct(u: UnionModel, k: int)
    requires
        0 <= k,
    ensures
        forall|a: int, b: int|
            #![trigger names_upto(u, k)[a], names_upto(u, k)[b]]
            0 <= a < b < names_upto(u, k).len() ==> names_upto(u, k)[a] != names_upto(u, k)[b],
    decreases k,
{
    if k > 0 {
        lemma_names_upto_distinct(u, k - 1);
        let fs = named_fields(u.variants[k - 1]);
        lemma_names_with_fields_distinct(names_upto(u, k - 1), fs, fs.len() as int);
    }
}

/// Every collected field name occurs in at least one variant.
pub proof fn lemma_field_name_has_variant(u: UnionModel, n: Seq<char>)
    requires
        field_names(u).contains(n),
    ensures
        exists|v: int| 0 <= v < u.variants.len() && variant_has_field(#[trigger] u.variants[v], n),
{
    lemma_names_upto_contains(u, u.variants.len() as int, n);
}

/// A name has at most one occurrence per variant.
pub proof fn lemma_occ_upto_len_le(u: UnionModel, n: Seq<char>, k: int)
    requires
        0 <= k,
    ensures
        occurrences_upto(u, n, k).len() <= k,
    decreases k,
{
    if k > 0 {
        lemma_occ_upto_len_le(u, n, k - 1);
    }
}

/// A variant that carries the field contributes an occurrence.
proof fn lemma_occ_upto_nonempty(u: UnionModel, n: Seq<char>, v: int, k: int)
    requires
        0 <= v < k,
        variant_has_field(u.variants[v], n),
    ensures
        occurrences_upto(u, n, k).len() > 0,
    decreases k,
{
    if v < k - 1 {
        lemma_occ_upto_nonempty(u, n, v, k - 1);
    }
}

/// The group of a collected field name is never empty.
pub proof fn lemma_occurrences_nonempty(u: UnionModel, n: Seq<char>)
    requires
        field_names(u).contains(n),
    ensures
        occurrences(u, n).len() > 0,
{
    lemma_field_name_has_variant(u, n);
    let v = choose|v: int|
        0 <= v < u.variants.len() && variant_has_field(#[trigger] u.variants[v], n);
    lemma_occ_upto_nonempty(u, n, v, u.variants.len() as int);
}

/// When a name's occurrence list covers every variant, each variant carries
/// the field.
pub proof fn lemma_occ_full(u: UnionModel, n: Seq<char>, k: int)
    requires
        0 <= k,
        occurrences_upto(u, n, k).len() == k,
    ensures
        forall|v: int| 0 <= v < k ==> variant_has_field(#[trigger] u.variants[v], n),
    decreases k,
{
    if k > 0 {
        lemma_occ_upto_len_le(u, n, k - 1);
        if !variant_has_field(u.variants[k - 1], n) {
            assert(occurrences_upto(u, n, k) =~= occurrences_upto(u, n, k - 1));
            assert(false);
        }
        lemma_occ_full(u, n, k - 1);
    }
}

/// When a name's occurrence list covers every variant, the occurrence at
/// index `v` is variant `v`'s, at the type that variant declares the field
/// at.
pub proof fn lemma_occ_full_index(u: UnionModel, n: Seq<char>, k: int)
    requires
        0 <= k,
        occurrences_upto(u, n, k).len() == k,
    ensures
        forall|v: int|
            0 <= v < k ==> #[trigger] occurrences_upto(u, n, k)[v] == (OccurrenceModel {
                variant: v,
                ty: field_ty_in(u.variants[v], n),
            }),
    decreases k,
{
    if k > 0 {
        lemma_occ_upto_len_le(u, n, k - 1);
        if !variant_has_field(u.variants[k - 1], n) {
            assert(occurrences_upto(u, n, k) =~= occurrences_upto(u, n, k - 1));
            assert(false);
        }
        lemma_occ_full_index(u, n, k - 1);
        assert(forall|v: int|
            0 <= v < k - 1 ==> #[trigger] occurrences_upto(u, n, k)[v] == occurrences_upto(
                u,
                n,
                k - 1,
            )[v]);
        assert(occurrences_upto(u, n, k)[k - 1] == OccurrenceModel {
            variant: k - 1,
            ty: field_ty_in(u.variants[k - 1], n),
        });
    }
}

} // verus!
