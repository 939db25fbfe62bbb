use suffete::element::{Element, IntInfo, Type};
use suffete::prelude::{float, general_int, string, type_int, NULL};
use suffete::transform::{filter, filter_map, flat_map};

fn widen_literal(e: &Element) -> Element {
    match e {
        Element::Int(IntInfo::Literal(_)) => general_int(),
        _ => e.copy(),
    }
}

#[test]
fn map_rewrites_nested_atoms() {
    let ty = Type::single(Element::list(Type::single(Element::int_literal(3)), false));
    let result = suffete::transform::map(&ty, &widen_literal);
    let expected = Type::single(Element::list(type_int(), false));
    assert!(result.same(&expected));
}

#[test]
fn map_identity_keeps_the_type() {
    let ty = Type::union(vec![general_int(), string()]);
    let result = suffete::transform::map(&ty, &|e: &Element| -> Element { e.copy() });
    assert!(result.same(&ty));
}

#[test]
fn flat_map_expands_and_drops() {
    let ty = Type::union(vec![general_int(), NULL]);
    let result = flat_map(&ty, &|e: &Element| -> Vec<Element> {
        match e {
            Element::Null => Vec::new(),
            Element::Int(_) => vec![general_int(), float()],
            _ => vec![e.copy()],
        }
    });
    assert!(result.same(&Type::union(vec![general_int(), float()])));
}

#[test]
fn filter_dropping_everything_gives_never() {
    let ty = Type::union(vec![general_int(), string()]);
    let result = filter(&ty, &|_: &Element| -> bool { false });
    assert_eq!(result.elements.len(), 1);
    assert!(matches!(result.elements[0], Element::Never));
}

#[test]
fn filter_map_replaces_and_drops() {
    let ty = Type::union(vec![general_int(), NULL]);
    let result = filter_map(&ty, &|e: &Element| -> Option<Element> {
        match e {
            Element::Null => None,
            _ => Some(string()),
        }
    });
    assert!(result.same(&Type::single(string())));
}
