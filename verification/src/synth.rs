//! The Accessor Synthesizer: for every field group it emits one read and one
//! write accessor that share a per-variant dispatch table, with the return
//! shape (direct versus optional) following the uniformity decision; plus
//! the two checks generation performs — refusing non-union input shapes and
//! refusing a write-accessor name that collides with another field's name.

use vstd::prelude::*;

use vstd::string::StringExecFns;

use crate::collect::FieldGroup;
use crate::collect::FieldGroupModel;
use crate::collect::collect_field_groups;
use crate::collect::lemma_occurrences_nonempty;
use crate::collect::spec_field_groups;
use crate::collect::variant_field_ty;
use crate::description::TypeDescription;
use crate::description::UnionModel;
use crate::description::UnionType;
use crate::description::field_names;
use crate::description::variant_has_field_at;
use crate::unify::decide_uniform;
use crate::unify::group_uniform;

verus! {

/// One row of a dispatch table: what an accessor does when the scrutinee
/// turns out to be one particular variant.
#[derive(Clone, Copy, Debug, PartialEq, Eq, Structural)]
pub enum DispatchArm {
    /// Bind the field of that name and yield a reference to it.
    Extract,
    /// Yield the absent-value marker.
    Absent,
}

impl DeepView for DispatchArm {
    type V = DispatchArm;

    open spec fn deep_view(&self) -> DispatchArm {
        *self
    }
}

/// One generated accessor: its emitted name, the field it extracts, whether
/// it yields a mutable reference, its return shape (`uniform` means a direct
/// reference, otherwise an optional one), the representative declared type,
/// and one dispatch row per variant, in declaration order.
#[derive(Debug, PartialEq, Eq)]
pub struct Accessor {
    pub name: String,
    pub field: String,
    pub mutable: bool,
    pub uniform: bool,
    pub ty: String,
    pub dispatch: Vec<DispatchArm>,
}

/// Ghost image of an [`Accessor`].
pub ghost struct AccessorModel {
    pub name: Seq<char>,
    pub field: Seq<char>,
    pub mutable: bool,
    pub uniform: bool,
    pub ty: Seq<char>,
    pub dispatch: Seq<DispatchArm>,
}

impl DeepView for Accessor {
    type V = AccessorModel;

    open spec fn deep_view(&self) -> AccessorModel {
        AccessorModel {
            name: self.name@,
            field: self.field@,
            mutable: self.mutable,
            uniform: self.uniform,
            ty: self.ty@,
            dispatch: self.dispatch.deep_view(),
        }
    }
}

/// The read and the write accessor of one field group, generated together
/// and kept in sync.
#[derive(Debug, PartialEq, Eq)]
pub struct AccessorPair {
    pub read: Accessor,
    pub write: Accessor,
}

/// Ghost image of an [`AccessorPair`].
pub ghost struct AccessorPairModel {
    pub read: AccessorModel,
    pub write: AccessorModel,
}

impl DeepView for AccessorPair {
    type V = AccessorPairModel;

    open spec fn deep_view(&self) -> AccessorPairModel {
        AccessorPairModel { read: self.read.deep_view(), write: self.write.deep_view() }
    }
}

/// The whole generated declaration set: scoped to the union's name and its
/// generic parameters (threaded through unchanged), one accessor pair per
/// field group, in first-occurrence order.
#[derive(Debug, PartialEq, Eq)]
pub struct GeneratedImpl {
    pub union_name: String,
    pub generics: Vec<String>,
    pub accessors: Vec<AccessorPair>,
}

/// Ghost image of a [`GeneratedImpl`].
pub ghost struct GeneratedImplModel {
    pub union_name: Seq<char>,
    pub generics: Seq<Seq<char>>,
    pub accessors: Seq<AccessorPairModel>,
}

impl DeepView for GeneratedImpl {
    type V = GeneratedImplModel;

    open spec fn deep_view(&self) -> GeneratedImplModel {
        GeneratedImplModel {
            union_name: self.union_name@,
            generics: self.generics.deep_view(),
            accessors: self.accessors.deep_view(),
        }
    }
}

/// Why generation refused an input.
#[derive(Debug, PartialEq, Eq)]
pub enum GenError {
    /// The input declaration is not a union type; nothing is emitted.
    UnsupportedShape,
    /// The synthesized write-accessor name of this field collides with
    /// another field's name; nothing is emitted rather than silently
    /// emitting colliding declarations.
    AccessorNameCollision { field: String },
}

/// The fixed marker appended to a field's name to form its write accessor's
/// name.
pub open spec fn mut_suffix() -> Seq<char> {
    "_mut"@
}

/// The message a [`GenError`] carries to the host's diagnostics.
pub open spec fn spec_message(e: &GenError) -> Seq<char> {
    match e {
        GenError::UnsupportedShape => "`EnumFields` is only applicable to `enum`s"@,
        GenError::AccessorNameCollision { .. } => "write accessor name collides with another field's accessor"@,
    }
}

impl GenError {
    /// A descriptive failure message for the host to attach to its
    /// compile-time diagnostic.
    pub fn message(&self) -> (r: String)
        ensures
            r@ == spec_message(self),
    {
        match self {
            GenError::UnsupportedShape => String::from_str(
                "`EnumFields` is only applicable to `enum`s",
            ),
            GenError::AccessorNameCollision { .. } => String::from_str(
                "write accessor name collides with another field's accessor",
            ),
        }
    }
}

/// The dispatch table of field `name` over the variants of `u`: extract
/// where the variant carries the named field at the group's representative
/// type `rep_ty`, absent everywhere else. A variant carrying the name at a
/// different type falls into the absent row — the degrade rule — so the
/// emitted accessor is never ill-typed; variants with only positional
/// fields or no fields always fall into the absent row.
pub open spec fn spec_dispatch(u: UnionModel, name: Seq<char>, rep_ty: Seq<char>) -> Seq<
    DispatchArm,
> {
    Seq::new(
        u.variants.len(),
        |k: int|
            if variant_has_field_at(u.variants[k], name, rep_ty) {
                DispatchArm::Extract
            } else {
                DispatchArm::Absent
            },
    )
}

/// The read accessor owed for group `g` of union `u`.
pub open spec fn spec_read_accessor(u: UnionModel, g: FieldGroupModel) -> AccessorModel {
    AccessorModel {
        name: g.name,
        field: g.name,
        mutable: false,
        uniform: group_uniform(g, u.variants.len() as int),
        ty: g.occurrences[0].ty,
        dispatch: spec_dispatch(u, g.name, g.occurrences[0].ty),
    }
}

/// The write accessor owed for group `g` of union `u`: same field, same
/// uniformity, same dispatch; only the name gains the fixed marker and the
/// produced reference is mutable.
pub open spec fn spec_write_accessor(u: UnionModel, g: FieldGroupModel) -> AccessorModel {
    AccessorModel {
        name: g.name + mut_suffix(),
        field: g.name,
        mutable: true,
        uniform: group_uniform(g, u.variants.len() as int),
        ty: g.occurrences[0].ty,
        dispatch: spec_dispatch(u, g.name, g.occurrences[0].ty),
    }
}

/// Every accessor pair owed for `u`, one per field group, in
/// first-occurrence order.
pub open spec fn spec_accessor_pairs(u: UnionModel) -> Seq<AccessorPairModel> {
    spec_field_groups(u).map(
        |i: int, g: FieldGroupModel| AccessorPairModel {
            read: spec_read_accessor(u, g),
            write: spec_write_accessor(u, g),
        },
    )
}

/// The whole declaration set owed for `u`.
pub open spec fn spec_generated_impl(u: UnionModel) -> GeneratedImplModel {
    GeneratedImplModel {
        union_name: u.name,
        generics: u.generics,
        accessors: spec_accessor_pairs(u),
    }
}

/// Whether some name's write-accessor name equals another collected name.
pub open spec fn names_collide(names: Seq<Seq<char>>) -> bool {
    exists|i: int, j: int|
        #![trigger names[i], names[j]]
        0 <= i < names.len() && 0 <= j < names.len() && names[j] == names[i] + mut_suffix()
}

/// Whether generating for `u` would synthesize a write-accessor name that
/// collides with another field's name.
pub open spec fn has_collision(u: UnionModel) -> bool {
    names_collide(field_names(u))
}

/// Index `i` names the first collided field: its write-accessor name
/// equals some collected name, and no earlier collected name collides.
pub open spec fn first_collision(names: Seq<Seq<char>>, i: int) -> bool {
    &&& 0 <= i < names.len()
    &&& exists|j: int| 0 <= j < names.len() && #[trigger] names[j] == names[i] + mut_suffix()
    &&& forall|a: int, j: int|
        #![trigger names[a], names[j]]
        0 <= a < i && 0 <= j < names.len() ==> names[j] != names[a] + mut_suffix()
}

/// What a collision error must name: the first collected field, in
/// first-occurrence order, whose write-accessor name equals another
/// collected field's name — so the error outcome, like the success
/// outcome, is a function of the description alone.
pub open spec fn collision_error_ok(u: UnionModel, e: GenError) -> bool {
    e matches GenError::AccessorNameCollision { field } && (exists|i: int|
        #[trigger] first_collision(field_names(u), i) && field@ == field_names(u)[i])
}

/// The field name with the fixed write-accessor marker appended.
fn append_mut_suffix(name: &String) -> (r: String)
    ensures
        r@ == name@ + mut_suffix(),
{
    let mut r = name.clone();
    r.append("_mut");
    r
}

/// An element-wise copy of a list of strings.
fn clone_strings(v: &Vec<String>) -> (r: Vec<String>)
    ensures
        r.deep_view() == v.deep_view(),
{
    let mut r: Vec<String> = Vec::new();
    let mut i: usize = 0;
    while i < v.len()
        invariant
            i <= v@.len(),
            r.deep_view().len() == i as int,
            forall|j: int| 0 <= j < i ==> #[trigger] r.deep_view()[j] == v.deep_view()[j],
        decreases v.len() - i,
    {
        let ghost prev = r.deep_view();
        r.push(v[i].clone());
        proof {
            assert(r.deep_view() =~= prev.push(v.deep_view()[i as int]));
        }
        i += 1;
    }
    proof {
        assert(r.deep_view() =~= v.deep_view());
    }
    r
}

/// The dispatch table of field `name` over the variants of `u`, extracting
/// only at the representative type `rep_ty`.
fn build_dispatch(u: &UnionType, name: &String, rep_ty: &String) -> (d: Vec<DispatchArm>)
    ensures
        d.deep_view() == spec_dispatch(u.deep_view(), name@, rep_ty@),
{
    let ghost um = u.deep_view();
    let mut d: Vec<DispatchArm> = Vec::new();
    let mut k: usize = 0;
    while k < u.variants.len()
        invariant
            k <= u.variants@.len(),
            um == u.deep_view(),
            d.deep_view().len() == k as int,
            forall|m: int|
                0 <= m < k ==> #[trigger] d.deep_view()[m] == spec_dispatch(um, name@, rep_ty@)[m],
        decreases u.variants.len() - k,
    {
        proof {
            assert(um.variants[k as int] == u.variants@[k as int].deep_view());
            assert(spec_dispatch(um, name@, rep_ty@)[k as int] == (if variant_has_field_at(
                um.variants[k as int],
                name@,
                rep_ty@,
            ) {
                DispatchArm::Extract
            } else {
                DispatchArm::Absent
            }));
        }
        let found = variant_field_ty(&u.variants[k], name);
        let ghost prev = d.deep_view();
        match &found {
            Some(t) => {
                if *t == *rep_ty {
                    proof {
                        assert(variant_has_field_at(um.variants[k as int], name@, rep_ty@));
                    }
                    d.push(DispatchArm::Extract);
                    proof {
                        assert(d.deep_view() =~= prev.push(DispatchArm::Extract));
                    }
                } else {
                    proof {
                        assert(!variant_has_field_at(um.variants[k as int], name@, rep_ty@));
                    }
                    d.push(DispatchArm::Absent);
                    proof {
                        assert(d.deep_view() =~= prev.push(DispatchArm::Absent));
                    }
                }
            },
            None => {
                proof {
                    assert(!variant_has_field_at(um.variants[k as int], name@, rep_ty@));
                }
                d.push(DispatchArm::Absent);
                proof {
                    assert(d.deep_view() =~= prev.push(DispatchArm::Absent));
                }
            },
        }
        k += 1;
    }
    proof {
        assert(d.deep_view() =~= spec_dispatch(um, name@, rep_ty@));
    }
    d
}

/// Searches the collected groups for a field whose write-accessor name
/// equals another field's name, validating the synthesized names against
/// the whole set before anything is emitted.
fn find_collision(groups: &Vec<FieldGroup>) -> (r: Option<usize>)
    ensures
        match r {
            Some(i) => i < groups@.len() && (exists|j: int|
                0 <= j < groups.deep_view().len() && #[trigger] groups.deep_view()[j].name
                    == groups.deep_view()[i as int].name + mut_suffix()) && (forall|a: int, b: int|
                #![trigger groups.deep_view()[a], groups.deep_view()[b]]
                0 <= a < i && 0 <= b < groups.deep_view().len() ==> groups.deep_view()[b].name
                    != groups.deep_view()[a].name + mut_suffix()),
            None => !names_collide(groups.deep_view().map(
                |i: int, g: FieldGroupModel| g.name,
            )),
        },
{
    let ghost gsv = groups.deep_view();
    let mut i: usize = 0;
    while i < groups.len()
        invariant
            i <= groups@.len(),
            gsv == groups.deep_view(),
            forall|a: int, b: int|
                #![trigger gsv[a], gsv[b]]
                0 <= a < i && 0 <= b < gsv.len() ==> gsv[b].name != gsv[a].name + mut_suffix(),
        decreases groups.len() - i,
    {
        let cand = append_mut_suffix(&groups[i].name);
        let mut j: usize = 0;
        while j < groups.len()
            invariant
                i < groups@.len(),
                j <= groups@.len(),
                gsv == groups.deep_view(),
                cand@ == gsv[i as int].name + mut_suffix(),
                forall|b: int| 0 <= b < j ==> #[trigger] gsv[b].name != cand@,
                forall|a: int, b: int|
                    #![trigger gsv[a], gsv[b]]
                    0 <= a < i && 0 <= b < gsv.len() ==> gsv[b].name != gsv[a].name
                        + mut_suffix(),
            decreases groups.len() - j,
        {
            if groups[j].name == cand {
                proof {
                    assert(gsv[j as int].name == gsv[i as int].name + mut_suffix());
                    assert forall|a: int, b: int|
                        0 <= a < i && 0 <= b < groups.deep_view().len() implies groups.deep_view()[b].name
                        != groups.deep_view()[a].name + mut_suffix() by {
                        assert(gsv[a] == groups.deep_view()[a]);
                        assert(gsv[b] == groups.deep_view()[b]);
                    }
                }
                return Some(i);
            }
            j += 1;
        }
        i += 1;
    }
    proof {
        let ns = gsv.map(|i: int, g: FieldGroupModel| g.name);
        if names_collide(ns) {
            let (a, b) = choose|a: int, b: int|
                #![trigger ns[a], ns[b]]
                0 <= a < ns.len() && 0 <= b < ns.len() && ns[b] == ns[a] + mut_suffix();
            assert(gsv[b].name == gsv[a].name + mut_suffix());
            assert(false);
        }
    }
    None
}

/// The collected names of `u`'s groups collide exactly when the union's
/// field names do.
proof fn lemma_collide_transfer(u: UnionModel)
    ensures
        names_collide(spec_field_groups(u).map(|i: int, g: FieldGroupModel| g.name))
            <==> names_collide(field_names(u)),
{
    let gs = spec_field_groups(u);
    let ns = gs.map(|i: int, g: FieldGroupModel| g.name);
    let fs = field_names(u);
    assert(ns.len() == fs.len());
    assert(forall|i: int| 0 <= i < ns.len() ==> #[trigger] ns[i] == fs[i]);
    if names_collide(ns) {
        let (a, b) = choose|a: int, b: int|
            #![trigger ns[a], ns[b]]
            0 <= a < ns.len() && 0 <= b < ns.len() && ns[b] == ns[a] + mut_suffix();
        assert(fs[b] == fs[a] + mut_suffix());
    }
    if names_collide(fs) {
        let (a, b) = choose|a: int, b: int|
            #![trigger fs[a], fs[b]]
            0 <= a < fs.len() && 0 <= b < fs.len() && fs[b] == fs[a] + mut_suffix();
        assert(ns[b] == ns[a] + mut_suffix());
    }
}

/// Collects, decides and synthesizes for one union type: one read and one
/// write accessor per field group, refusing the whole invocation when a
/// synthesized write-accessor name collides with another field's name. An
/// empty union yields an empty declaration set rather than an error.
pub fn generate_for_union(u: &UnionType) -> (r: Result<GeneratedImpl, GenError>)
    ensures
        !has_collision(u.deep_view()) ==> (r matches Ok(g) && g.deep_view()
            == spec_generated_impl(u.deep_view())),
        has_collision(u.deep_view()) ==> (r matches Err(e) && collision_error_ok(
            u.deep_view(),
            e,
        )),
{
    let ghost um = u.deep_view();
    let groups = collect_field_groups(u);
    proof {
        lemma_collide_transfer(um);
    }
    match find_collision(&groups) {
        Some(ci) => {
            proof {
                let ns = field_names(um);
                let j = choose|j: int|
                    0 <= j < groups.deep_view().len() && #[trigger] groups.deep_view()[j].name
                        == groups.deep_view()[ci as int].name + mut_suffix();
                assert(ns[j] == ns[ci as int] + mut_suffix());
                assert(names_collide(ns)) by {
                    assert(ns[j] == ns[ci as int] + mut_suffix());
                }
                assert forall|a: int, b: int|
                    #![trigger ns[a], ns[b]]
                    0 <= a < ci && 0 <= b < ns.len() implies ns[b] != ns[a] + mut_suffix() by {
                    assert(spec_field_groups(um)[a].name == ns[a]);
                    assert(spec_field_groups(um)[b].name == ns[b]);
                    assert(groups.deep_view()[b].name != groups.deep_view()[a].name
                        + mut_suffix());
                }
                assert(first_collision(ns, ci as int));
            }
            let field = groups[ci].name.clone();
            proof {
                assert(field@ == field_names(um)[ci as int]);
                assert(first_collision(field_names(um), ci as int));
            }
            Err(GenError::AccessorNameCollision { field })
        },
        None => {
            let variant_count = u.variants.len();
            let mut pairs: Vec<AccessorPair> = Vec::new();
            assert(pairs.deep_view() =~= spec_accessor_pairs(um).take(0));
            let mut gi: usize = 0;
            while gi < groups.len()
                invariant
                    gi <= groups@.len(),
                    um == u.deep_view(),
                    groups.deep_view() == spec_field_groups(um),
                    variant_count == u.variants@.len(),
                    pairs.deep_view() == spec_accessor_pairs(um).take(gi as int),
                decreases groups.len() - gi,
            {
                proof {
                    assert(groups.deep_view()[gi as int] == spec_field_groups(um)[gi as int]);
                    assert(spec_field_groups(um)[gi as int].name == field_names(um)[gi as int]);
                    assert(field_names(um).contains(field_names(um)[gi as int]));
                    lemma_occurrences_nonempty(um, field_names(um)[gi as int]);
                }
                let g = &groups[gi];
                let uniform = decide_uniform(g, variant_count);
                let read = Accessor {
                    name: g.name.clone(),
                    field: g.name.clone(),
                    mutable: false,
                    uniform,
                    ty: g.occurrences[0].ty.clone(),
                    dispatch: build_dispatch(u, &g.name, &g.occurrences[0].ty),
                };
                let write = Accessor {
                    name: append_mut_suffix(&g.name),
                    field: g.name.clone(),
                    mutable: true,
                    uniform,
                    ty: g.occurrences[0].ty.clone(),
                    dispatch: build_dispatch(u, &g.name, &g.occurrences[0].ty),
                };
                let ghost prev = pairs.deep_view();
                pairs.push(AccessorPair { read, write });
                proof {
                    assert(read.deep_view() == spec_read_accessor(
                        um,
                        spec_field_groups(um)[gi as int],
                    ));
                    assert(write.deep_view() == spec_write_accessor(
                        um,
                        spec_field_groups(um)[gi as int],
                    ));
                    assert(pairs.deep_view() =~= prev.push(spec_accessor_pairs(um)[gi as int]));
                    assert(spec_accessor_pairs(um).take(gi as int + 1) =~= prev.push(
                        spec_accessor_pairs(um)[gi as int],
                    ));
                }
                gi += 1;
            }
            proof {
                assert(spec_accessor_pairs(um).take(groups.deep_view().len() as int)
                    =~= spec_accessor_pairs(um));
            }
            let out = GeneratedImpl {
                union_name: u.name.clone(),
                generics: clone_strings(&u.generics),
                accessors: pairs,
            };
            proof {
                assert(out.deep_view() == spec_generated_impl(um));
            }
            Ok(out)
        },
    }
}

/// The entry point of the pipeline: refuses a non-union shape with a
/// descriptive failure and no output, and otherwise generates the full
/// declaration set for the union. Deterministic: the result is a function
/// of the description alone, so repeating a generation yields identical
/// output.
pub fn generate(desc: &TypeDescription) -> (r: Result<GeneratedImpl, GenError>)
    ensures
        (match desc {
            TypeDescription::Union(u) => {
                &&& !has_collision(u.deep_view()) ==> (r matches Ok(g) && g.deep_view()
                    == spec_generated_impl(u.deep_view()))
                &&& has_collision(u.deep_view()) ==> (r matches Err(e) && collision_error_ok(
                    u.deep_view(),
                    e,
                ))
            },
            TypeDescription::Record => r matches Err(e) && e matches GenError::UnsupportedShape,
            TypeDescription::Untagged => r matches Err(e) && e matches GenError::UnsupportedShape,
        }),
{
    match desc {
        TypeDescription::Union(u) => generate_for_union(u),
        TypeDescription::Record => Err(GenError::UnsupportedShape),
        TypeDescription::Untagged => Err(GenError::UnsupportedShape),
    }
}

} // verus!
