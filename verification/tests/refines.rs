use suffete::world::NullWorld;
use suffete::element::{Element, Type};
use suffete::lattice::options::LatticeOptions;
use suffete::lattice::refines::{generalizes, refines};
use suffete::lattice::report::LatticeReport;
use suffete::prelude::{
    callable_string, class_string, closed_resource, enum_string, float, general_int, interface_string,
    literal_float, literal_int, literal_string, lowercase_string, negative_int, non_empty_string, numeric_string,
    open_resource, positive_int, resource, string, truthy_string, type_array_key, type_bool, type_float, type_int,
    type_int_or_float, type_int_or_string, type_mixed, type_never, type_null, type_numeric, type_scalar,
    type_string, uppercase_string, ARRAY_KEY, BOOL, FALSE, NULL, NUMERIC, SCALAR, TRUE,
};

fn check(input: &Type, container: &Type) -> bool {
    let mut report = LatticeReport::new();
    refines(input, container, &NullWorld, LatticeOptions::default(), &mut report)
}

fn check_elem(input: Element, container: Element) -> bool {
    check(&Type::single(input), &Type::single(container))
}

fn float_lit(x: f64) -> Element {
    Element::float_literal_bits(x.to_bits())
}

#[test]
fn reflexivity_holds_for_well_known_types() {
    assert!(check(&type_int(), &type_int()));
    assert!(check(&type_null(), &type_null()));
    assert!(check(&type_never(), &type_never()));
    assert!(check(&type_mixed(), &type_mixed()));
    assert!(check(&type_int_or_string(), &type_int_or_string()));
}

#[test]
fn bot_axiom_never_refines_anything() {
    assert!(check(&type_never(), &type_int()));
    assert!(check(&type_never(), &type_null()));
    assert!(check(&type_never(), &type_mixed()));
    assert!(check(&type_never(), &type_int_or_string()));
}

#[test]
fn top_axiom_anything_refines_vanilla_mixed() {
    assert!(check(&type_int(), &type_mixed()));
    assert!(check(&type_null(), &type_mixed()));
    assert!(check(&type_string(), &type_mixed()));
    assert!(check(&type_int_or_string(), &type_mixed()));
}

#[test]
fn bool_family_refines_bool() {
    assert!(check_elem(TRUE, BOOL));
    assert!(check_elem(FALSE, BOOL));
    assert!(!check_elem(TRUE, FALSE));
    assert!(!check_elem(FALSE, TRUE));
    assert!(!check_elem(BOOL, TRUE));
    assert!(!check_elem(BOOL, FALSE));
}

#[test]
fn resource_family_refines_resource() {
    assert!(check_elem(open_resource(), resource()));
    assert!(check_elem(closed_resource(), resource()));
    assert!(!check_elem(open_resource(), closed_resource()));
    assert!(!check_elem(closed_resource(), open_resource()));
    assert!(!check_elem(resource(), open_resource()));
}

#[test]
fn int_dominator_absorbs_subforms() {
    assert!(check_elem(positive_int(), general_int()));
    assert!(check_elem(negative_int(), general_int()));
    assert!(check_elem(literal_int(), general_int()));
    assert!(check_elem(Element::int_literal(42), general_int()));
    assert!(check_elem(Element::int_literal(-1), general_int()));
}

#[test]
fn int_literal_in_range() {
    let r = || Element::int_range(Some(0), Some(10));
    assert!(check_elem(Element::int_literal(0), r()));
    assert!(check_elem(Element::int_literal(5), r()));
    assert!(check_elem(Element::int_literal(10), r()));
    assert!(!check_elem(Element::int_literal(-1), r()));
    assert!(!check_elem(Element::int_literal(11), r()));
}

#[test]
fn int_range_in_range() {
    let outer = || Element::int_range(Some(0), Some(100));
    let inner = || Element::int_range(Some(10), Some(20));
    assert!(check_elem(inner(), outer()));
    assert!(!check_elem(outer(), inner()));
}

#[test]
fn int_open_range_subsumes_closed() {
    let from_zero = || Element::int_range(Some(0), None);
    let bounded = || Element::int_range(Some(5), Some(10));
    assert!(check_elem(bounded(), from_zero()));
    assert!(!check_elem(from_zero(), bounded()));
}

#[test]
fn int_unspec_literal_accepts_concrete_literals() {
    assert!(check_elem(Element::int_literal(42), literal_int()));
    assert!(check_elem(Element::int_literal(-1), literal_int()));
    assert!(check_elem(literal_int(), literal_int()));
    assert!(!check_elem(general_int(), literal_int()));
}

#[test]
fn float_dominator_absorbs_subforms() {
    assert!(check_elem(literal_float(), float()));
    assert!(check_elem(float_lit(1.5), float()));
    assert!(check_elem(float_lit(-2.5), float()));
}

#[test]
fn float_unspec_literal_accepts_concrete_literals() {
    assert!(check_elem(float_lit(1.5), literal_float()));
    assert!(check_elem(literal_float(), literal_float()));
    assert!(!check_elem(float(), literal_float()));
}

#[test]
fn string_dominator_absorbs_subforms() {
    assert!(check_elem(non_empty_string(), string()));
    assert!(check_elem(numeric_string(), string()));
    assert!(check_elem(lowercase_string(), string()));
    assert!(check_elem(uppercase_string(), string()));
    assert!(check_elem(truthy_string(), string()));
    assert!(check_elem(literal_string(), string()));
    assert!(check_elem(Element::string_literal("hi"), string()));
    assert!(check_elem(Element::string_literal(""), string()));
}

#[test]
fn string_literal_satisfies_non_empty() {
    assert!(check_elem(Element::string_literal("hi"), non_empty_string()));
    assert!(check_elem(Element::string_literal("0"), non_empty_string()));
    assert!(!check_elem(Element::string_literal(""), non_empty_string()));
}

#[test]
fn string_literal_satisfies_truthy() {
    assert!(check_elem(Element::string_literal("hi"), truthy_string()));
    assert!(check_elem(Element::string_literal("1"), truthy_string()));
    assert!(!check_elem(Element::string_literal(""), truthy_string()));
    assert!(!check_elem(Element::string_literal("0"), truthy_string()));
}

#[test]
fn string_literal_satisfies_numeric() {
    assert!(check_elem(Element::string_literal("123"), numeric_string()));
    assert!(check_elem(Element::string_literal("-1"), numeric_string()));
    assert!(check_elem(Element::string_literal("1.5"), numeric_string()));
    assert!(!check_elem(Element::string_literal("hi"), numeric_string()));
    assert!(!check_elem(Element::string_literal(""), numeric_string()));
}

#[test]
fn string_literal_satisfies_casing() {
    assert!(check_elem(Element::string_literal("hello"), lowercase_string()));
    assert!(!check_elem(Element::string_literal("Hello"), lowercase_string()));
    assert!(check_elem(Element::string_literal("HELLO"), uppercase_string()));
    assert!(!check_elem(Element::string_literal("Hello"), uppercase_string()));
    assert!(check_elem(Element::string_literal("123"), lowercase_string()));
    assert!(check_elem(Element::string_literal("123"), uppercase_string()));
}

#[test]
fn truthy_string_refines_non_empty_string() {
    assert!(check_elem(truthy_string(), non_empty_string()));
}

#[test]
fn callable_string_does_not_refine_numeric_or_lowercase_by_default() {
    assert!(check_elem(callable_string(), string()));
    assert!(!check_elem(callable_string(), numeric_string()));
    assert!(!check_elem(callable_string(), lowercase_string()));
}

#[test]
fn class_like_string_refines_string() {
    assert!(check_elem(class_string(), string()));
    assert!(check_elem(interface_string(), string()));
    assert!(check_elem(enum_string(), string()));
}

#[test]
fn distinct_class_like_kinds_are_not_subtypes() {
    assert!(!check_elem(class_string(), interface_string()));
    assert!(!check_elem(interface_string(), class_string()));
    assert!(!check_elem(class_string(), enum_string()));
}

#[test]
fn array_key_absorbs_int_string_class_string() {
    assert!(check_elem(general_int(), ARRAY_KEY));
    assert!(check_elem(string(), ARRAY_KEY));
    assert!(check_elem(class_string(), ARRAY_KEY));
    assert!(check_elem(Element::int_literal(42), ARRAY_KEY));
    assert!(check_elem(Element::string_literal("k"), ARRAY_KEY));
}

#[test]
fn array_key_does_not_absorb_float_or_bool() {
    assert!(!check_elem(float(), ARRAY_KEY));
    assert!(!check_elem(BOOL, ARRAY_KEY));
    assert!(!check_elem(NULL, ARRAY_KEY));
}

#[test]
fn numeric_absorbs_int_float_and_numeric_string() {
    assert!(check_elem(general_int(), NUMERIC));
    assert!(check_elem(float(), NUMERIC));
    assert!(check_elem(numeric_string(), NUMERIC));
    assert!(check_elem(Element::int_literal(5), NUMERIC));
    assert!(check_elem(float_lit(1.5), NUMERIC));
    assert!(check_elem(Element::string_literal("123"), NUMERIC));
}

#[test]
fn numeric_does_not_absorb_general_string() {
    assert!(!check_elem(string(), NUMERIC));
    assert!(!check_elem(Element::string_literal("hi"), NUMERIC));
    assert!(!check_elem(BOOL, NUMERIC));
}

#[test]
fn scalar_absorbs_all_scalar_families() {
    assert!(check_elem(general_int(), SCALAR));
    assert!(check_elem(float(), SCALAR));
    assert!(check_elem(string(), SCALAR));
    assert!(check_elem(BOOL, SCALAR));
    assert!(check_elem(TRUE, SCALAR));
    assert!(check_elem(FALSE, SCALAR));
    assert!(check_elem(ARRAY_KEY, SCALAR));
    assert!(check_elem(NUMERIC, SCALAR));
    assert!(check_elem(class_string(), SCALAR));
    assert!(check_elem(Element::int_literal(0), SCALAR));
}

#[test]
fn scalar_does_not_absorb_null_or_resource() {
    assert!(!check_elem(NULL, SCALAR));
    assert!(!check_elem(resource(), SCALAR));
}

#[test]
fn union_left_every_input_element_must_fit_some_container_element() {
    assert!(check(&type_int_or_string(), &type_mixed()));
    assert!(check(&type_int_or_float(), &type_int_or_float()));
    assert!(!check(&type_int_or_string(), &type_int()));
}

#[test]
fn union_right_singleton_input_fits_member_of_union() {
    assert!(check(&type_int(), &type_int_or_string()));
    assert!(check(&type_string(), &type_int_or_string()));
    assert!(!check(&type_float(), &type_int_or_string()));
}

#[test]
fn unrelated_types_do_not_refine() {
    assert!(!check(&type_int(), &type_string()));
    assert!(!check(&type_float(), &type_string()));
    assert!(!check(&type_null(), &type_int()));
}

#[test]
fn int_does_not_refine_float() {
    assert!(!check(&type_int(), &type_float()));
}

#[test]
fn fresh_int_literal_refines_int() {
    let lit_type = Type::single(Element::int_literal(42));
    assert!(check(&lit_type, &type_int()));
    assert!(check(&lit_type, &type_mixed()));
}

#[test]
fn input_int_or_float_fits_int_or_float_via_union_dispatch() {
    let int_or_float = Type::union(vec![general_int(), float()]);
    assert!(check(&int_or_float, &type_int_or_float()));

    let with_string = Type::union(vec![general_int(), float(), string()]);
    assert!(!check(&with_string, &type_int_or_float()));
}

#[test]
fn int_or_string_refines_array_key() {
    assert!(check(&type_int_or_string(), &type_array_key()));
}

#[test]
fn int_or_float_refines_numeric() {
    assert!(check(&type_int_or_float(), &type_numeric()));
}

#[test]
fn int_or_string_or_float_or_bool_refines_scalar() {
    let id = Type::union(vec![general_int(), string(), float(), BOOL]);
    assert!(check(&id, &type_scalar()));
}

#[test]
fn nullable_int_refines_nullable_array_key() {
    let nullable_int = Type::union(vec![NULL, general_int()]);
    let nullable_ak = Type::union(vec![NULL, ARRAY_KEY]);
    assert!(check(&nullable_int, &nullable_ak));
}

#[test]
fn type_bool_refines_scalar() {
    assert!(check(&type_bool(), &type_scalar()));
}

#[test]
fn generalizes_is_inverse_of_refines() {
    let mut r = LatticeReport::new();
    assert!(generalizes(&type_mixed(), &type_int(), &NullWorld, LatticeOptions::default(), &mut r));
    assert!(generalizes(&type_int(), &type_never(), &NullWorld, LatticeOptions::default(), &mut r));
    assert!(!generalizes(&type_int(), &type_float(), &NullWorld, LatticeOptions::default(), &mut r));
}

#[test]
fn class_strings_meet_only_emptiness_and_truthiness() {
    assert!(check_elem(class_string(), string()));
    assert!(check_elem(class_string(), non_empty_string()));
    assert!(check_elem(class_string(), truthy_string()));
    assert!(!check_elem(class_string(), numeric_string()));
    assert!(!check_elem(class_string(), lowercase_string()));
    assert!(!check_elem(class_string(), callable_string()));
}

#[test]
fn every_type_refines_itself_whatever_the_options() {
    let t = Type::union(vec![NULL, FALSE, Element::int_literal(3), string()]);
    let mut report = LatticeReport::new();
    for (ignore_null, ignore_false) in [(false, false), (true, false), (false, true), (true, true)] {
        let mut o = LatticeOptions::default();
        o.ignore_null = ignore_null;
        o.ignore_false = ignore_false;
        assert!(refines(&t, &t, &NullWorld, o, &mut report));
    }
}

#[test]
fn unions_of_members_cover_their_dominator() {
    let parts = Type::union(vec![BOOL, general_int(), float(), string()]);
    assert!(check(&Type::single(SCALAR), &parts));
    assert!(check(&type_array_key(), &type_int_or_string()));
    let falsy_or_truthy = Type::union(vec![Element::string_literal(""), Element::string_literal("0"), truthy_string()]);
    assert!(check(&type_string(), &falsy_or_truthy));
    let without_zero = Type::union(vec![Element::string_literal(""), truthy_string()]);
    assert!(!check(&type_string(), &without_zero));
}
