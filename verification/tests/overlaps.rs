use suffete::world::NullWorld;
use suffete::element::{Element, Type};
use suffete::lattice::context::LatticeContext;
use suffete::lattice::intersects::intersects;
use suffete::lattice::options::LatticeOptions;
use suffete::lattice::overlaps::{is_uninhabited, overlaps};
use suffete::lattice::report::LatticeReport;
use suffete::prelude::{
    class_string, float, general_int, lowercase_string, mixed, non_empty_string, numeric_string, string,
    truthy_mixed, type_float, type_int, type_int_or_string, type_never, type_string, uppercase_string, ARRAY_KEY,
    FALSE, NULL, NUMERIC, SCALAR,
};

fn ov(a: &Type, b: &Type) -> bool {
    let mut report = LatticeReport::new();
    overlaps(a, b, &NullWorld, LatticeOptions::default(), &mut report)
}

fn ov_elem(a: Element, b: Element) -> bool {
    ov(&Type::single(a), &Type::single(b))
}

#[test]
fn crossing_int_ranges_overlap() {
    assert!(ov_elem(Element::int_range(Some(0), Some(10)), Element::int_range(Some(5), Some(15))));
    assert!(!ov_elem(Element::int_range(Some(0), Some(4)), Element::int_range(Some(5), Some(15))));
    assert!(ov_elem(Element::int_literal(7), Element::int_range(Some(5), None)));
}

#[test]
fn never_overlaps_nothing() {
    assert!(!ov(&type_never(), &type_int()));
    assert!(!ov(&type_int(), &type_never()));
}

#[test]
fn mixed_overlaps_everything_inhabited() {
    assert!(ov_elem(mixed(), general_int()));
    assert!(ov_elem(string(), mixed()));
}

#[test]
fn unrelated_scalars_are_disjoint() {
    assert!(!ov(&type_int(), &type_string()));
    assert!(!ov(&type_int(), &type_float()));
    assert!(ov(&type_int_or_string(), &type_string()));
}

#[test]
fn string_axes_overlap_through_their_meet() {
    assert!(ov_elem(non_empty_string(), lowercase_string()));
    assert!(ov_elem(lowercase_string(), uppercase_string()));
    assert!(!ov_elem(Element::string_literal("a"), Element::string_literal("b")));
    assert!(!ov_elem(Element::string_literal("abc"), numeric_string()));
}

#[test]
fn numeric_string_overlap_rules() {
    assert!(ov_elem(NUMERIC, string()));
    assert!(!ov_elem(NUMERIC, Element::string_literal("foo")));
    assert!(ov_elem(Element::string_literal("1.5"), NUMERIC));
}

#[test]
fn class_string_and_string_literals() {
    assert!(ov_elem(Element::string_literal("App\\Foo"), class_string()));
    assert!(!ov_elem(Element::string_literal("not a class"), class_string()));
}

#[test]
fn dominators_share_int() {
    assert!(ov_elem(SCALAR, NUMERIC));
    assert!(ov_elem(ARRAY_KEY, NUMERIC));
}

#[test]
fn truthy_mixed_excludes_falsy_atoms() {
    assert!(!ov_elem(truthy_mixed(), FALSE));
    assert!(!ov_elem(truthy_mixed(), NULL));
    assert!(ov_elem(truthy_mixed(), general_int()));
}

#[test]
fn lists_share_the_empty_list() {
    let a = Element::list(type_int(), false);
    let b = Element::list(type_string(), false);
    assert!(ov_elem(a, b));
    let c = Element::list(type_int(), true);
    let d = Element::list(type_string(), false);
    assert!(!ov_elem(c, d));
}

#[test]
fn non_empty_list_of_nothing_is_uninhabited() {
    assert!(is_uninhabited(&Element::list(type_never(), true)));
    assert!(!is_uninhabited(&Element::list(type_never(), false)));
    assert!(is_uninhabited(&Element::keyed_unsealed(Type::single(float()), type_int(), true)));
    assert!(!is_uninhabited(&Element::keyed_unsealed(type_int(), type_int(), true)));
}

#[test]
fn overlap_is_symmetric_on_samples() {
    let samples = || {
        vec![
            Type::single(Element::int_range(Some(0), Some(10))),
            type_int(),
            type_string(),
            Type::single(numeric_string()),
            Type::single(NUMERIC),
            Type::single(truthy_mixed()),
            Type::single(FALSE),
            Type::single(class_string()),
        ]
    };
    let xs = samples();
    let ys = samples();
    for a in &xs {
        for b in &ys {
            assert_eq!(ov(a, b), ov(b, a));
        }
    }
}

#[test]
fn intersects_by_subtype_edges() {
    let mut ctx = LatticeContext::new();
    assert!(intersects(&type_int(), &type_int(), &mut ctx));
    assert!(intersects(&Type::single(Element::int_literal(3)), &type_int(), &mut ctx));
    assert!(intersects(&type_int(), &Type::single(Element::int_literal(3)), &mut ctx));
    assert!(!intersects(&type_int(), &type_string(), &mut ctx));
    assert!(!ctx.type_coerced);
}
