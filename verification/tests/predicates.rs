use suffete::element::{DefiningEntity, Element, Type};
use suffete::predicates::{
    contains_mixed_anywhere, contains_null, contains_placeholder_anywhere, contains_template_anywhere,
    contains_unresolved_anywhere, could_be_falsy, could_be_truthy, is_bool, is_constant_foldable, is_falsy,
    is_fully_resolved, is_int, is_literal, is_mixed, is_never, is_scalar, is_singleton, is_truthy, is_union,
};
use suffete::prelude::{
    closed_resource, empty_string, float, general_int, mixed, positive_int, string, type_int, type_int_or_string,
    type_mixed, type_never, type_null, FALSE, NULL, PLACEHOLDER, TRUE,
};

#[test]
fn shape_predicates() {
    assert!(is_never(&type_never()));
    assert!(!is_never(&type_int()));
    assert!(is_mixed(&type_mixed()));
    assert!(!is_mixed(&type_int()));
    assert!(is_singleton(&type_int()));
    assert!(is_union(&type_int_or_string()));
    assert!(!is_union(&type_int()));
}

#[test]
fn family_predicates() {
    assert!(is_int(&type_int()));
    assert!(!is_int(&type_int_or_string()));
    assert!(is_bool(&Type::union(vec![TRUE, FALSE])));
    assert!(is_scalar(&type_int_or_string()));
    assert!(contains_null(&Type::union(vec![NULL, general_int()])));
    assert!(!contains_null(&type_int()));
}

#[test]
fn truthiness_predicates() {
    assert!(is_truthy(&Type::single(positive_int())));
    assert!(is_truthy(&Type::single(TRUE)));
    assert!(!is_truthy(&type_int()));
    assert!(is_falsy(&Type::union(vec![NULL, FALSE, Element::int_literal(0)])));
    assert!(is_falsy(&Type::single(empty_string())));
    assert!(is_falsy(&Type::single(Element::string_literal("0"))));
    assert!(!is_falsy(&Type::single(Element::string_literal("00"))));
    assert!(!is_falsy(&Type::single(closed_resource())));
    assert!(is_truthy(&Type::single(closed_resource())));
    assert!(!is_falsy(&Type::single(string())));
    assert!(could_be_truthy(&type_int()));
    assert!(could_be_falsy(&type_int()));
    assert!(!could_be_falsy(&Type::single(positive_int())));
    assert!(!could_be_truthy(&type_null()));
    assert!(!could_be_truthy(&type_never()));
    assert!(!could_be_falsy(&type_never()));
    assert!(is_truthy(&Type::single(Element::float_literal_bits(1.5f64.to_bits()))));
    assert!(is_falsy(&Type::single(Element::float_literal_bits((-0.0f64).to_bits()))));
}

#[test]
fn literal_predicates() {
    assert!(is_literal(&Type::union(vec![Element::int_literal(1), Element::string_literal("a"), NULL])));
    assert!(!is_literal(&Type::single(float())));
    assert!(is_constant_foldable(&Type::single(Element::int_literal(1))));
    assert!(!is_constant_foldable(&Type::union(vec![Element::int_literal(1), Element::int_literal(2)])));
}

#[test]
fn deep_searches() {
    let t = Element::generic_parameter("T", DefiningEntity::class_like("Box"), type_int());
    let list_of_t = Type::single(Element::list(Type::single(t), false));
    assert!(contains_template_anywhere(&list_of_t));
    assert!(!contains_template_anywhere(&type_int()));
    let obj = Type::single(Element::object("Box", vec![Type::single(mixed())]));
    assert!(contains_mixed_anywhere(&obj));
    assert!(contains_placeholder_anywhere(&Type::single(Element::iterable(type_int(), Type::single(PLACEHOLDER)))));
    let alias = Element::Alias { class_name: vec!['C'], alias_name: vec!['A'] };
    let var = Element::Variable(vec!['v']);
    assert!(contains_unresolved_anywhere(&Type::single(alias)));
    assert!(!contains_unresolved_anywhere(&Type::single(var)));
    assert!(is_fully_resolved(&type_int()));
}
