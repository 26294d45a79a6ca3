//! Evaluating generated accessors against concrete instances: presence,
//! absence, and the mutation round trip.

use enum_fields::description::Field;
use enum_fields::description::UnionType;
use enum_fields::description::Variant;
use enum_fields::description::VariantFields;
use enum_fields::eval::apply_write;
use enum_fields::eval::eval_read;
use enum_fields::eval::FieldValue;
use enum_fields::eval::UnionInstance;
use enum_fields::synth::generate_for_union;

fn field(name: &str, ty: &str) -> Field {
    Field { name: name.to_string(), ty: ty.to_string() }
}

fn named_variant(name: &str, fields: Vec<Field>) -> Variant {
    Variant { name: name.to_string(), fields: VariantFields::Named(fields) }
}

fn value(name: &str, value: &str) -> FieldValue {
    FieldValue { name: name.to_string(), value: value.to_string() }
}

fn entity() -> UnionType {
    UnionType {
        name: "Entity".to_string(),
        generics: vec![],
        variants: vec![
            named_variant("Company", vec![field("name", "String"), field("ceo", "String")]),
            named_variant("Person", vec![field("name", "String")]),
        ],
    }
}

fn company() -> UnionInstance {
    UnionInstance {
        variant: 0,
        values: vec![value("name", "Apple"), value("ceo", "Tim Cook")],
    }
}

fn person() -> UnionInstance {
    UnionInstance { variant: 1, values: vec![value("name", "Tim Berners-Lee")] }
}

#[test]
fn uniform_accessor_is_present_on_every_variant() {
    let out = generate_for_union(&entity()).unwrap();
    let name = &out.accessors[0].read;
    assert_eq!(eval_read(name, &company()), Some("Apple".to_string()));
    assert_eq!(eval_read(name, &person()), Some("Tim Berners-Lee".to_string()));
}

#[test]
fn partial_accessor_is_present_only_where_the_field_is() {
    let out = generate_for_union(&entity()).unwrap();
    let ceo = &out.accessors[1].read;
    assert_eq!(eval_read(ceo, &company()), Some("Tim Cook".to_string()));
    assert_eq!(eval_read(ceo, &person()), None);
}

#[test]
fn read_and_write_accessors_agree_on_presence() {
    let out = generate_for_union(&entity()).unwrap();
    let ceo = &out.accessors[1];
    let mut c = company();
    let mut p = person();
    assert!(eval_read(&ceo.read, &c).is_some());
    assert!(apply_write(&ceo.write, &mut c, &"Lisa Su".to_string()));
    assert!(eval_read(&ceo.read, &p).is_none());
    assert!(!apply_write(&ceo.write, &mut p, &"Lisa Su".to_string()));
    assert_eq!(p, person());
}

#[test]
fn mutation_round_trip_observes_the_written_value() {
    let out = generate_for_union(&entity()).unwrap();
    let name = &out.accessors[0];
    let mut c = company();
    assert!(apply_write(&name.write, &mut c, &"Microsoft".to_string()));
    assert_eq!(eval_read(&name.read, &c), Some("Microsoft".to_string()));
    // The other field is untouched.
    let ceo = &out.accessors[1];
    assert_eq!(eval_read(&ceo.read, &c), Some("Tim Cook".to_string()));
}

#[test]
fn mismatched_type_variant_yields_absent_under_degrade() {
    let u = UnionType {
        name: "Entity".to_string(),
        generics: vec![],
        variants: vec![
            named_variant("Person", vec![field("name", "String")]),
            named_variant("House", vec![field("name", "Option<String>")]),
        ],
    };
    let out = generate_for_union(&u).unwrap();
    let name = &out.accessors[0];
    assert!(!name.read.uniform);
    let person = UnionInstance {
        variant: 0,
        values: vec![value("name", "Tim Berners-Lee")],
    };
    let house = UnionInstance {
        variant: 1,
        values: vec![value("name", "Number 10")],
    };
    // The representative-type occurrence extracts; the variant carrying
    // the name at a different type yields the absent marker.
    assert_eq!(eval_read(&name.read, &person), Some("Tim Berners-Lee".to_string()));
    assert_eq!(eval_read(&name.read, &house), None);
    let mut house_w = UnionInstance {
        variant: 1,
        values: vec![value("name", "Number 10")],
    };
    assert!(!apply_write(&name.write, &mut house_w, &"Number 11".to_string()));
    assert_eq!(house_w, house);
}

#[test]
fn every_accessor_is_absent_on_a_variant_without_named_fields() {
    let u = UnionType {
        name: "Shape".to_string(),
        generics: vec![],
        variants: vec![
            named_variant("Circle", vec![field("radius", "u64")]),
            Variant { name: "Point".to_string(), fields: VariantFields::Unit },
            Variant { name: "Pair".to_string(), fields: VariantFields::Positional(2) },
        ],
    };
    let out = generate_for_union(&u).unwrap();
    let radius = &out.accessors[0];
    let point = UnionInstance { variant: 1, values: vec![] };
    let pair = UnionInstance { variant: 2, values: vec![] };
    assert_eq!(eval_read(&radius.read, &point), None);
    assert_eq!(eval_read(&radius.read, &pair), None);
    let mut point_w = UnionInstance { variant: 1, values: vec![] };
    assert!(!apply_write(&radius.write, &mut point_w, &"3".to_string()));
    assert_eq!(point_w, point);
}
