use suffete::world::NullWorld;
use suffete::element::{Element, EnumInfo, Type};
use suffete::lattice::options::LatticeOptions;
use suffete::lattice::overlaps::overlaps;
use suffete::lattice::refines::refines;
use suffete::lattice::report::LatticeReport;
use suffete::predicates::{contains_object, is_falsy, is_object, is_truthy};
use suffete::prelude::{string, type_mixed, type_object, truthy_mixed};

fn enum_type(name: &str, case: Option<&str>) -> Type {
    Type::single(Element::Enum(EnumInfo { name: name.chars().collect(), case: case.map(|c| c.chars().collect()) }))
}

fn check(input: &Type, container: &Type) -> bool {
    let mut report = LatticeReport::new();
    refines(input, container, &NullWorld, LatticeOptions::default(), &mut report)
}

fn ov(a: &Type, b: &Type) -> bool {
    let mut report = LatticeReport::new();
    overlaps(a, b, &NullWorld, LatticeOptions::default(), &mut report)
}

#[test]
fn an_enum_accepts_its_cases() {
    assert!(check(&enum_type("Suit", Some("Hearts")), &enum_type("Suit", None)));
    assert!(!check(&enum_type("Suit", None), &enum_type("Suit", Some("Hearts"))));
    assert!(!check(&enum_type("Suit", Some("Hearts")), &enum_type("Suit", Some("Spades"))));
    assert!(!check(&enum_type("Suit", None), &enum_type("Color", None)));
    assert!(check(&enum_type("Suit", Some("Hearts")), &enum_type("Suit", Some("Hearts"))));
}

#[test]
fn enums_are_objects() {
    assert!(check(&enum_type("Suit", None), &type_object()));
    assert!(!check(&enum_type("Suit", None), &Type::single(Element::object("Suit", vec![]))));
    assert!(is_object(&enum_type("Suit", None)));
    assert!(contains_object(&Type::union(vec![string(), Element::Enum(EnumInfo { name: vec!['S'], case: None })])));
    assert!(check(&enum_type("Suit", None), &type_mixed()));
    assert!(check(&enum_type("Suit", None), &Type::single(truthy_mixed())));
}

#[test]
fn enums_are_truthy() {
    assert!(is_truthy(&enum_type("Suit", None)));
    assert!(!is_falsy(&enum_type("Suit", Some("Hearts"))));
}

#[test]
fn distinct_cases_do_not_overlap() {
    assert!(ov(&enum_type("Suit", Some("Hearts")), &enum_type("Suit", None)));
    assert!(!ov(&enum_type("Suit", Some("Hearts")), &enum_type("Suit", Some("Spades"))));
}

#[test]
fn enums_round_trip() {
    let ty = Type::union(vec![
        Element::Enum(EnumInfo { name: vec!['S'], case: Some(vec!['H']) }),
        Element::Enum(EnumInfo { name: vec!['S'], case: None }),
    ]);
    assert!(ty.to_serializable().intern().same(&ty));
}
