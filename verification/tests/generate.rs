//! End-to-end behaviour of the generation pipeline on concrete unions.

use enum_fields::collect::collect_field_groups;
use enum_fields::description::Field;
use enum_fields::description::TypeDescription;
use enum_fields::description::UnionType;
use enum_fields::description::Variant;
use enum_fields::description::VariantFields;
use enum_fields::synth::generate;
use enum_fields::synth::generate_for_union;
use enum_fields::synth::DispatchArm;
use enum_fields::synth::GenError;
use enum_fields::unify::decide_uniform;

fn field(name: &str, ty: &str) -> Field {
    Field { name: name.to_string(), ty: ty.to_string() }
}

fn named_variant(name: &str, fields: Vec<Field>) -> Variant {
    Variant { name: name.to_string(), fields: VariantFields::Named(fields) }
}

fn entity() -> UnionType {
    UnionType {
        name: "Entity".to_string(),
        generics: vec![],
        variants: vec![
            named_variant("Company", vec![field("name", "String"), field("ceo", "String")]),
            named_variant("Person", vec![field("name", "String")]),
        ],
    }
}

#[test]
fn collects_groups_in_first_occurrence_order() {
    let u = entity();
    let groups = collect_field_groups(&u);
    assert_eq!(groups.len(), 2);
    assert_eq!(groups[0].name, "name");
    assert_eq!(groups[0].occurrences.len(), 2);
    assert_eq!(groups[0].occurrences[0].variant, 0);
    assert_eq!(groups[0].occurrences[0].ty, "String");
    assert_eq!(groups[0].occurrences[1].variant, 1);
    assert_eq!(groups[1].name, "ceo");
    assert_eq!(groups[1].occurrences.len(), 1);
    assert_eq!(groups[1].occurrences[0].variant, 0);
}

#[test]
fn representative_type_is_the_first_occurrence() {
    let u = UnionType {
        name: "Entity".to_string(),
        generics: vec![],
        variants: vec![
            named_variant("Person", vec![field("name", "String")]),
            named_variant("House", vec![field("name", "Option<String>")]),
        ],
    };
    let groups = collect_field_groups(&u);
    assert_eq!(groups[0].representative_type(), "String");
}

#[test]
fn decides_uniform_and_partial_groups() {
    let u = entity();
    let groups = collect_field_groups(&u);
    assert!(decide_uniform(&groups[0], 2));
    assert!(!decide_uniform(&groups[1], 2));
}

#[test]
fn shared_field_gets_direct_accessor_pair() {
    let u = entity();
    let out = generate_for_union(&u).unwrap();
    assert_eq!(out.union_name, "Entity");
    assert_eq!(out.accessors.len(), 2);
    let name = &out.accessors[0];
    assert_eq!(name.read.name, "name");
    assert_eq!(name.read.field, "name");
    assert!(!name.read.mutable);
    assert!(name.read.uniform);
    assert_eq!(name.read.ty, "String");
    assert_eq!(name.read.dispatch, vec![DispatchArm::Extract, DispatchArm::Extract]);
    assert_eq!(name.write.name, "name_mut");
    assert_eq!(name.write.field, "name");
    assert!(name.write.mutable);
    assert!(name.write.uniform);
    assert_eq!(name.write.dispatch, vec![DispatchArm::Extract, DispatchArm::Extract]);
}

#[test]
fn partial_field_gets_optional_accessor_pair() {
    let u = entity();
    let out = generate_for_union(&u).unwrap();
    let ceo = &out.accessors[1];
    assert_eq!(ceo.read.name, "ceo");
    assert!(!ceo.read.uniform);
    assert!(!ceo.write.uniform);
    assert_eq!(ceo.read.dispatch, vec![DispatchArm::Extract, DispatchArm::Absent]);
    assert_eq!(ceo.write.dispatch, ceo.read.dispatch);
    assert_eq!(ceo.write.name, "ceo_mut");
}

#[test]
fn same_name_differing_types_degrades_to_optional() {
    let u = UnionType {
        name: "Entity".to_string(),
        generics: vec![],
        variants: vec![
            named_variant("Person", vec![field("name", "String")]),
            named_variant("House", vec![field("name", "Option<String>")]),
            named_variant("Animal", vec![field("name", "Option<String>")]),
        ],
    };
    let out = generate_for_union(&u).unwrap();
    assert_eq!(out.accessors.len(), 1);
    let name = &out.accessors[0];
    assert!(!name.read.uniform);
    assert!(!name.write.uniform);
    // The representative type is the first occurrence's.
    assert_eq!(name.read.ty, "String");
    // The field is present in every variant, but only the occurrences at
    // the representative type extract; the mismatched-type variants are
    // dispatched to absent, so the accessor is never ill-typed.
    assert_eq!(
        name.read.dispatch,
        vec![DispatchArm::Extract, DispatchArm::Absent, DispatchArm::Absent],
    );
    assert_eq!(name.write.dispatch, name.read.dispatch);
}

#[test]
fn unit_and_positional_variants_dispatch_to_absent() {
    let u = UnionType {
        name: "Shape".to_string(),
        generics: vec![],
        variants: vec![
            named_variant("Circle", vec![field("radius", "u64")]),
            Variant { name: "Point".to_string(), fields: VariantFields::Unit },
            Variant { name: "Pair".to_string(), fields: VariantFields::Positional(2) },
        ],
    };
    let out = generate_for_union(&u).unwrap();
    assert_eq!(out.accessors.len(), 1);
    let radius = &out.accessors[0];
    assert!(!radius.read.uniform);
    assert_eq!(
        radius.read.dispatch,
        vec![DispatchArm::Extract, DispatchArm::Absent, DispatchArm::Absent],
    );
}

#[test]
fn single_variant_union_is_trivially_uniform() {
    let u = UnionType {
        name: "Single".to_string(),
        generics: vec![],
        variants: vec![named_variant(
            "Only",
            vec![field("a", "u8"), field("b", "Vec<u8>")],
        )],
    };
    let out = generate_for_union(&u).unwrap();
    assert_eq!(out.accessors.len(), 2);
    assert!(out.accessors[0].read.uniform);
    assert!(out.accessors[0].write.uniform);
    assert!(out.accessors[1].read.uniform);
    assert!(out.accessors[1].write.uniform);
}

#[test]
fn empty_union_yields_empty_declaration_set() {
    let u = UnionType { name: "Never".to_string(), generics: vec![], variants: vec![] };
    let out = generate_for_union(&u).unwrap();
    assert_eq!(out.accessors.len(), 0);
    assert_eq!(out.union_name, "Never");
}

#[test]
fn generics_are_threaded_through_unchanged() {
    let u = UnionType {
        name: "Holder".to_string(),
        generics: vec!["T".to_string(), "'a".to_string()],
        variants: vec![named_variant("One", vec![field("item", "T")])],
    };
    let out = generate_for_union(&u).unwrap();
    assert_eq!(out.generics, vec!["T".to_string(), "'a".to_string()]);
}

#[test]
fn generation_is_deterministic() {
    let a = generate_for_union(&entity()).unwrap();
    let b = generate_for_union(&entity()).unwrap();
    assert_eq!(a, b);
}

#[test]
fn non_union_shapes_are_refused() {
    let r = generate(&TypeDescription::Record);
    assert_eq!(r, Err(GenError::UnsupportedShape));
    let r = generate(&TypeDescription::Untagged);
    assert_eq!(r, Err(GenError::UnsupportedShape));
    assert_eq!(
        GenError::UnsupportedShape.message(),
        "`EnumFields` is only applicable to `enum`s",
    );
}

#[test]
fn union_shape_is_accepted_through_the_entry_point() {
    let r = generate(&TypeDescription::Union(entity())).unwrap();
    assert_eq!(r.accessors.len(), 2);
}

#[test]
fn write_accessor_name_collision_is_refused() {
    let u = UnionType {
        name: "Clash".to_string(),
        generics: vec![],
        variants: vec![named_variant(
            "Only",
            vec![field("x", "u8"), field("x_mut", "u8")],
        )],
    };
    let r = generate_for_union(&u);
    assert_eq!(r, Err(GenError::AccessorNameCollision { field: "x".to_string() }));
    let msg = GenError::AccessorNameCollision { field: "x".to_string() }.message();
    assert!(msg.contains("collides"));
}

#[test]
fn collision_error_names_the_first_colliding_field() {
    // Two independent collisions: the error deterministically names the
    // first colliding field in first-occurrence order.
    let u = UnionType {
        name: "Clash".to_string(),
        generics: vec![],
        variants: vec![named_variant(
            "Only",
            vec![
                field("x", "u8"),
                field("x_mut", "u8"),
                field("y", "u8"),
                field("y_mut", "u8"),
            ],
        )],
    };
    let r = generate_for_union(&u);
    assert_eq!(r, Err(GenError::AccessorNameCollision { field: "x".to_string() }));
}
