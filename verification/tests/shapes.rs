use suffete::element::{ArrayKey, DefiningEntity, Element, GenericParameterInfo, KnownElementEntry, KnownItemEntry, Type};
use suffete::lattice::options::LatticeOptions;
use suffete::lattice::overlaps::{is_uninhabited, overlaps};
use suffete::lattice::refines::refines;
use suffete::lattice::report::LatticeReport;
use suffete::predicates::{contains_template_anywhere, is_falsy, is_truthy};
use suffete::prelude::{
    empty_array, type_array_key, type_int, type_int_or_string, type_mixed, type_never, type_string,
};
use suffete::substitute::substitute;
use suffete::template::standin::{standin, StandinOptions, StandinState};
use suffete::template::{BoundKind, TemplateKey};
use suffete::world::NullWorld;

fn check(input: &Type, container: &Type) -> bool {
    let mut report = LatticeReport::new();
    refines(input, container, &NullWorld, LatticeOptions::default(), &mut report)
}

fn check_elem(input: Element, container: Element) -> bool {
    check(&Type::single(input), &Type::single(container))
}

fn item(key: &str, value: Type, optional: bool) -> KnownItemEntry {
    KnownItemEntry { key: ArrayKey::String(key.chars().collect()), value, optional }
}

fn int_item(key: i64, value: Type, optional: bool) -> KnownItemEntry {
    KnownItemEntry { key: ArrayKey::Int(key), value, optional }
}

fn shape(items: Vec<KnownItemEntry>) -> Element {
    Element::keyed_sealed(items, false)
}

#[test]
fn sealed_shape_refines_unsealed_array_when_entries_fit() {
    let input = shape(vec![item("a", type_int(), false)]);
    assert!(check_elem(input, Element::keyed_unsealed(type_string(), type_int(), false)));
    let input = shape(vec![item("a", type_int(), false)]);
    assert!(!check_elem(input, Element::keyed_unsealed(type_int(), type_int(), false)));
    let input = shape(vec![int_item(0, type_string(), false)]);
    assert!(check_elem(input, Element::keyed_unsealed(type_int(), type_int_or_string(), false)));
    let input = shape(vec![int_item(0, type_string(), false)]);
    assert!(!check_elem(input, Element::keyed_unsealed(type_int(), type_int(), false)));
}

#[test]
fn class_constant_keys_are_read_as_array_key() {
    let k = KnownItemEntry {
        key: ArrayKey::Const { class: "Foo".chars().collect(), name: "BAR".chars().collect() },
        value: type_int(),
        optional: false,
    };
    assert!(!check_elem(shape(vec![k]), Element::keyed_unsealed(type_string(), type_int(), false)));
    let k = KnownItemEntry {
        key: ArrayKey::Const { class: "Foo".chars().collect(), name: "BAR".chars().collect() },
        value: type_int(),
        optional: false,
    };
    assert!(check_elem(shape(vec![k]), Element::keyed_unsealed(type_array_key(), type_int(), false)));
}

#[test]
fn sealed_shapes_compare_entry_by_entry() {
    let container = || shape(vec![item("a", type_int_or_string(), false), item("b", type_string(), true)]);
    assert!(check_elem(shape(vec![item("a", type_int(), false), item("b", type_string(), true)]), container()));
    assert!(check_elem(shape(vec![item("a", type_int(), false)]), container()));
    assert!(check_elem(shape(vec![item("a", type_int(), false), item("b", type_string(), false)]), container()));
    // An optional entry cannot meet a required one.
    assert!(!check_elem(shape(vec![item("a", type_int(), true)]), container()));
    // A missing required entry.
    assert!(!check_elem(shape(vec![item("b", type_string(), false)]), container()));
    // An extra required entry the container does not declare.
    assert!(!check_elem(shape(vec![item("a", type_int(), false), item("c", type_int(), false)]), container()));
    // An extra optional entry is allowed.
    assert!(check_elem(shape(vec![item("a", type_int(), false), item("c", type_int(), true)]), container()));
    // A value that does not fit.
    assert!(!check_elem(shape(vec![item("a", Type::single(Element::Null), false)]), container()));
}

#[test]
fn unsealed_arrays_do_not_refine_sealed_shapes() {
    let container = shape(vec![item("a", type_int(), true)]);
    assert!(!check_elem(Element::keyed_unsealed(type_string(), type_int(), false), container));
    let container = shape(vec![item("a", type_int(), true)]);
    assert!(!check_elem(Element::list(type_int(), false), container));
}

#[test]
fn empty_array_fits_sealed_and_unsealed_containers() {
    assert!(check_elem(empty_array(), shape(vec![item("a", type_int(), true)])));
    assert!(check_elem(empty_array(), Element::keyed_unsealed(type_int(), type_int(), false)));
    assert!(!check_elem(empty_array(), Element::keyed_unsealed(type_int(), type_int(), true)));
    assert!(check_elem(empty_array(), Element::list(type_int(), false)));
}

#[test]
fn a_required_entry_makes_a_shape_non_empty() {
    let non_empty = Element::keyed_unsealed(type_string(), type_int(), true);
    assert!(check_elem(shape(vec![item("a", type_int(), false)]), non_empty));
    let non_empty = Element::keyed_unsealed(type_string(), type_int(), true);
    assert!(!check_elem(shape(vec![item("a", type_int(), true)]), non_empty));
}

#[test]
fn shape_truthiness() {
    assert!(is_truthy(&Type::single(shape(vec![item("a", type_int(), false)]))));
    assert!(!is_truthy(&Type::single(shape(vec![item("a", type_int(), true)]))));
    assert!(!is_falsy(&Type::single(shape(vec![item("a", type_int(), true)]))));
    assert!(is_falsy(&Type::single(empty_array())));
    assert!(is_falsy(&Type::single(Element::keyed_unsealed(type_never(), type_never(), false))));
    let list = Element::list_shape(
        type_never(),
        vec![KnownElementEntry { index: 0, value: type_int(), optional: false }],
        Some(1),
        false,
    );
    assert!(is_truthy(&Type::single(list)));
    let list = Element::list_shape(
        type_never(),
        vec![KnownElementEntry { index: 0, value: type_int(), optional: true }],
        None,
        false,
    );
    assert!(!is_truthy(&Type::single(list)));
}

#[test]
fn a_required_entry_of_no_value_leaves_the_shape_empty() {
    assert!(is_uninhabited(&shape(vec![item("a", type_never(), false)])));
    assert!(!is_uninhabited(&shape(vec![item("a", type_never(), true)])));
    assert!(check_elem(shape(vec![item("a", type_never(), false)]), Element::Null));
}

#[test]
fn shape_overlaps_use_parameter_defaults() {
    let mut report = LatticeReport::new();
    let iterable = Type::single(Element::iterable(type_int(), type_int()));
    let sealed_non_empty = Type::single(Element::keyed_sealed(vec![item("a", type_int(), false)], true));
    // The sealed side is read as `array<array-key, mixed>`.
    assert!(overlaps(&iterable, &sealed_non_empty, &NullWorld, LatticeOptions::default(), &mut report));
    let strings_only = Type::single(Element::iterable(type_string(), type_int()));
    let int_keyed = Type::single(Element::keyed_unsealed(type_int(), type_int(), true));
    assert!(!overlaps(&strings_only, &int_keyed, &NullWorld, LatticeOptions::default(), &mut report));
}

#[test]
fn shapes_round_trip_and_keep_a_zero_count() {
    let ty = Type::union(vec![
        Element::keyed_sealed(vec![item("a", type_int(), false), int_item(3, type_string(), true)], true),
        Element::list_shape(
            type_mixed(),
            vec![KnownElementEntry { index: 0, value: type_int(), optional: false }],
            Some(1),
            false,
        ),
    ]);
    let back = ty.to_serializable().intern();
    assert!(back.same(&ty));
    let zero = Type::single(Element::list_shape(type_int(), vec![], Some(0), false));
    let back = zero.to_serializable().intern();
    assert!(back.same(&zero));
}

#[test]
fn substitution_enters_shape_entries() {
    let t = Type::single(Element::generic_parameter("T", DefiningEntity::class_like("Box"), type_mixed()));
    let ty = Type::single(shape(vec![item("a", t, false)]));
    assert!(contains_template_anywhere(&ty));
    let result = substitute(&ty, &|_: &GenericParameterInfo| -> Option<Type> { Some(type_int()) });
    assert!(result.same(&Type::single(shape(vec![item("a", type_int(), false)]))));
}

#[test]
fn standin_walks_shape_entries_by_key() {
    let key = TemplateKey { defining_entity: DefiningEntity::class_like("Box"), name: vec!['T'] };
    let t = Type::single(Element::generic_parameter("T", DefiningEntity::class_like("Box"), type_mixed()));
    let parameter = Type::single(shape(vec![item("a", t, false)]));
    let argument = Type::single(shape(vec![item("b", type_string(), false), item("a", type_int(), false)]));
    let mut state = StandinState::new();
    let refined = standin(&parameter, &argument, &NullWorld, &mut state, &StandinOptions::default());
    assert!(refined.same(&Type::single(shape(vec![item("a", type_mixed(), false)]))));
    let bounds = state.bounds_for(&key);
    assert_eq!(bounds.len(), 1);
    assert_eq!(bounds[0].kind, BoundKind::Lower);
    assert!(bounds[0].ty.same(&type_int()));
}

#[test]
fn empty_array_fits_every_possibly_empty_collection() {
    assert!(check_elem(empty_array(), Element::list(type_string(), false)));
    assert!(!check_elem(empty_array(), Element::list(type_string(), true)));
    assert!(check_elem(empty_array(), shape(vec![])));
    assert!(!check_elem(empty_array(), Element::keyed_sealed(vec![], true)));
}

#[test]
fn required_entry_meets_optional_but_not_conversely() {
    assert!(check_elem(shape(vec![item("k", type_int(), false)]), shape(vec![item("k", type_int(), true)])));
    assert!(!check_elem(shape(vec![item("k", type_int(), true)]), shape(vec![item("k", type_int(), false)])));
}

fn list_of(entries: Vec<(u32, Type, bool)>) -> Element {
    let known = entries
        .into_iter()
        .map(|(index, value, optional)| KnownElementEntry { index, value, optional })
        .collect();
    Element::list_shape(type_never(), known, None, false)
}

#[test]
fn sealed_list_refines_unsealed_list_when_every_entry_fits() {
    assert!(check_elem(list_of(vec![(0, type_int(), false)]), Element::list(type_int(), false)));
    assert!(check_elem(
        list_of(vec![(0, type_int(), false), (1, type_string(), false)]),
        Element::list(type_int_or_string(), false)
    ));
    assert!(!check_elem(
        list_of(vec![(0, type_int(), false), (1, type_string(), false)]),
        Element::list(type_int(), false)
    ));
}

#[test]
fn sealed_lists_compare_index_by_index() {
    let container = || list_of(vec![(0, type_int_or_string(), false), (1, type_int(), true)]);
    assert!(check_elem(list_of(vec![(0, type_int(), false)]), container()));
    assert!(check_elem(list_of(vec![(0, type_string(), false), (1, type_int(), false)]), container()));
    assert!(!check_elem(list_of(vec![(0, type_int(), true)]), container()));
    assert!(!check_elem(list_of(vec![(1, type_int(), false)]), container()));
    assert!(!check_elem(list_of(vec![(0, type_int(), false), (1, type_string(), false)]), container()));
    // An entry at an index the container does not declare must fit its
    // element type, here `never`.
    assert!(!check_elem(list_of(vec![(0, type_int(), false), (2, type_int(), false)]), container()));
}

fn prop(name: &str, value: Type, optional: bool) -> suffete::element::KnownPropertyEntry {
    suffete::element::KnownPropertyEntry { name: name.chars().collect(), value, optional }
}

#[test]
fn method_and_property_narrowings() {
    assert!(check_elem(Element::has_method("run"), Element::has_method("run")));
    assert!(!check_elem(Element::has_method("stop"), Element::has_method("run")));
    assert!(check_elem(Element::object_shape(vec![], false), Element::has_method("run")));
    assert!(check_elem(Element::object_shape(vec![], false), Element::has_property("x")));
    assert!(!check_elem(Element::object("Foo", vec![]), Element::has_method("run")));
    assert!(check_elem(Element::has_property("x"), Element::ObjectAny));
    assert!(check_elem(Element::object_shape(vec![], true), Element::ObjectAny));
}

#[test]
fn object_shapes_compare_property_by_property() {
    let container = || Element::object_shape(vec![prop("a", type_int_or_string(), false), prop("b", type_int(), true)], false);
    assert!(check_elem(Element::object_shape(vec![prop("a", type_int(), false)], false), container()));
    assert!(!check_elem(Element::object_shape(vec![prop("a", type_int(), true)], false), container()));
    assert!(!check_elem(Element::object_shape(vec![prop("b", type_int(), false)], false), container()));
    assert!(check_elem(
        Element::object_shape(vec![prop("a", type_int(), false), prop("c", type_int(), false)], false),
        container()
    ));
    let sealed = || Element::object_shape(vec![prop("a", type_int(), false)], true);
    assert!(check_elem(Element::object_shape(vec![prop("a", type_int(), false)], true), sealed()));
    assert!(!check_elem(Element::object_shape(vec![prop("a", type_int(), false)], false), sealed()));
    assert!(!check_elem(
        Element::object_shape(vec![prop("a", type_int(), false), prop("c", type_int(), false)], true),
        sealed()
    ));
    // A named class is known to declare no property here.
    assert!(check_elem(Element::object("Foo", vec![]), Element::object_shape(vec![prop("a", type_int(), true)], false)));
    assert!(!check_elem(Element::object("Foo", vec![]), Element::object_shape(vec![prop("a", type_int(), false)], false)));
}

#[test]
fn structural_atoms_are_truthy_and_overlap() {
    assert!(is_truthy(&Type::single(Element::has_method("run"))));
    assert!(!is_falsy(&Type::single(Element::object_shape(vec![], false))));
    let mut report = LatticeReport::new();
    let m = Type::single(Element::has_method("run"));
    let p = Type::single(Element::has_property("x"));
    let foo = Type::single(Element::object("Foo", vec![]));
    assert!(overlaps(&m, &p, &NullWorld, LatticeOptions::default(), &mut report));
    assert!(overlaps(&foo, &m, &NullWorld, LatticeOptions::default(), &mut report));
}

#[test]
fn object_shapes_round_trip_and_are_searched() {
    let t = Type::single(Element::generic_parameter("T", DefiningEntity::class_like("Box"), type_mixed()));
    let ty = Type::union(vec![
        Element::object_shape(vec![prop("a", t, false), prop("b", type_string(), true)], true),
        Element::has_method("run"),
        Element::has_property("x"),
    ]);
    let back = ty.to_serializable().intern();
    assert!(back.same(&ty));
    assert!(contains_template_anywhere(&ty));
}

#[test]
fn every_enum_case_has_a_name_property() {
    let suit = || Element::Enum(suffete::element::EnumInfo { name: "Suit".chars().collect(), case: None });
    assert!(check_elem(suit(), Element::has_property("name")));
    assert!(!check_elem(suit(), Element::has_property("value")));
    assert!(!check_elem(suit(), Element::has_method("cases")));
}
