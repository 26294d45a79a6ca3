//! The input side of the pipeline: the description of a union type as the
//! host's parser hands it over, together with its ghost image and the spec
//! functions that the rest of the library states its contracts with.

use vstd::prelude::*;

verus! {

/// A named, typed slot of data carried by one variant of a union type.
///
/// The declared type is an opaque descriptor, compared only for equality;
/// the library never interprets it.
pub struct Field {
    /// The field's name.
    pub name: String,
    /// The field's declared type, as an opaque descriptor.
    pub ty: String,
}

/// Ghost image of a [`Field`].
pub ghost struct FieldModel {
    pub name: Seq<char>,
    pub ty: Seq<char>,
}

impl DeepView for Field {
    type V = FieldModel;

    open spec fn deep_view(&self) -> FieldModel {
        FieldModel { name: self.name@, ty: self.ty@ }
    }
}

/// The payload shape of one variant: an ordered sequence of named fields, an
/// ordered sequence of positional fields (only their count matters here,
/// since positional fields never take part in unification), or no fields.
pub enum VariantFields {
    Named(Vec<Field>),
    Positional(usize),
    Unit,
}

/// Ghost image of a [`VariantFields`].
pub ghost enum VariantFieldsModel {
    Named(Seq<FieldModel>),
    Positional(int),
    Unit,
}

impl DeepView for VariantFields {
    type V = VariantFieldsModel;

    open spec fn deep_view(&self) -> VariantFieldsModel {
        match self {
            VariantFields::Named(fs) => VariantFieldsModel::Named(fs.deep_view()),
            VariantFields::Positional(n) => VariantFieldsModel::Positional(*n as int),
            VariantFields::Unit => VariantFieldsModel::Unit,
        }
    }
}

/// One named case of a union type.
pub struct Variant {
    /// The variant's name, unique within its union type.
    pub name: String,
    /// The variant's payload shape.
    pub fields: VariantFields,
}

/// Ghost image of a [`Variant`].
pub ghost struct VariantModel {
    pub name: Seq<char>,
    pub fields: VariantFieldsModel,
}

impl DeepView for Variant {
    type V = VariantModel;

    open spec fn deep_view(&self) -> VariantModel {
        VariantModel { name: self.name@, fields: self.fields.deep_view() }
    }
}

/// The union (sum) type under transformation: a name, opaque generic
/// parameters that are threaded through unchanged, and an ordered sequence
/// of variants.
pub struct UnionType {
    pub name: String,
    pub generics: Vec<String>,
    pub variants: Vec<Variant>,
}

/// Ghost image of a [`UnionType`].
pub ghost struct UnionModel {
    pub name: Seq<char>,
    pub generics: Seq<Seq<char>>,
    pub variants: Seq<VariantModel>,
}

impl DeepView for UnionType {
    type V = UnionModel;

    open spec fn deep_view(&self) -> UnionModel {
        UnionModel {
            name: self.name@,
            generics: self.generics.deep_view(),
            variants: self.variants.deep_view(),
        }
    }
}

/// The abstract description of one input declaration, as handed over by the
/// host's parser. Only a union type is accepted; a record (product) type or
/// an undiscriminated overlay is refused by generation with a descriptive
/// error and no output.
pub enum TypeDescription {
    Union(UnionType),
    Record,
    Untagged,
}

/// The declared type of the first field named `name` in `fields`, if any.
pub open spec fn find_field_ty(fields: Seq<FieldModel>, name: Seq<char>) -> Option<Seq<char>>
    decreases fields.len(),
{
    if fields.len() == 0 {
        None
    } else if fields[0].name == name {
        Some(fields[0].ty)
    } else {
        find_field_ty(fields.drop_first(), name)
    }
}

/// The named fields of a variant; positional and unit variants carry none.
pub open spec fn named_fields(v: VariantModel) -> Seq<FieldModel> {
    match v.fields {
        VariantFieldsModel::Named(fs) => fs,
        VariantFieldsModel::Positional(_) => Seq::empty(),
        VariantFieldsModel::Unit => Seq::empty(),
    }
}

/// Whether variant `v` carries a named field called `name`.
pub open spec fn variant_has_field(v: VariantModel, name: Seq<char>) -> bool {
    find_field_ty(named_fields(v), name) is Some
}

/// The declared type of field `name` in variant `v` (its first occurrence,
/// which is the only one in a well-formed variant).
pub open spec fn field_ty_in(v: VariantModel, name: Seq<char>) -> Seq<char> {
    find_field_ty(named_fields(v), name)->Some_0
}

/// Whether variant `v` carries a named field called `name` declared at
/// exactly the type `ty`. A degraded (partial) accessor extracts only here:
/// a variant carrying the name at another type yields the absent marker, so
/// that the emitted accessor is never ill-typed.
pub open spec fn variant_has_field_at(v: VariantModel, name: Seq<char>, ty: Seq<char>) -> bool {
    find_field_ty(named_fields(v), name) == Some(ty)
}

/// One occurrence of a field name: the index of the variant that carries it
/// and the type it is declared at there.
pub ghost struct OccurrenceModel {
    pub variant: int,
    pub ty: Seq<char>,
}

/// The occurrences of field `name` among the first `k` variants of `u`, in
/// declaration order.
pub open spec fn occurrences_upto(u: UnionModel, name: Seq<char>, k: int) -> Seq<OccurrenceModel>
    decreases k,
{
    if k <= 0 {
        Seq::empty()
    } else {
        occurrences_upto(u, name, k - 1) + (if variant_has_field(u.variants[k - 1], name) {
            seq![OccurrenceModel { variant: k - 1, ty: field_ty_in(u.variants[k - 1], name) }]
        } else {
            Seq::empty()
        })
    }
}

/// The ordered list of (variant, declared type) occurrences of field `name`
/// across all variants of `u`.
pub open spec fn occurrences(u: UnionModel, name: Seq<char>) -> Seq<OccurrenceModel> {
    occurrences_upto(u, name, u.variants.len() as int)
}

/// `names` extended with the names of the first `j` fields of `fields`,
/// keeping only the first occurrence of each name.
pub open spec fn names_with_fields(
    names: Seq<Seq<char>>,
    fields: Seq<FieldModel>,
    j: int,
) -> Seq<Seq<char>>
    decreases j,
{
    if j <= 0 {
        names
    } else {
        let prev = names_with_fields(names, fields, j - 1);
        if prev.contains(fields[j - 1].name) {
            prev
        } else {
            prev.push(fields[j - 1].name)
        }
    }
}

/// The distinct field names found in the first `k` variants of `u`, in order
/// of first occurrence.
pub open spec fn names_upto(u: UnionModel, k: int) -> Seq<Seq<char>>
    decreases k,
{
    if k <= 0 {
        Seq::empty()
    } else {
        names_with_fields(
            names_upto(u, k - 1),
            named_fields(u.variants[k - 1]),
            named_fields(u.variants[k - 1]).len() as int,
        )
    }
}

/// Every distinct field name observed across the variants of `u`, in order
/// of first occurrence (by variant, then by position within the variant).
pub open spec fn field_names(u: UnionModel) -> Seq<Seq<char>> {
    names_upto(u, u.variants.len() as int)
}

/// Field names are unique within one variant; the host's parser guarantees
/// this of its input.
pub open spec fn variant_wf(v: VariantModel) -> bool {
    forall|i: int, j: int|
        0 <= i < j < named_fields(v).len() ==> #[trigger] named_fields(v)[i].name != #[trigger] named_fields(v)[j].name
}

/// Well-formedness of a union description: variant names are unique within
/// the union, and field names are unique within each variant.
pub open spec fn union_wf(u: UnionModel) -> bool {
    &&& forall|i: int, j: int|
        0 <= i < j < u.variants.len() ==> #[trigger] u.variants[i].name != #[trigger] u.variants[j].name
    &&& forall|k: int| 0 <= k < u.variants.len() ==> variant_wf(#[trigger] u.variants[k])
}

} // verus!
