use suffete::element::{DefiningEntity, Element, GenericParameterInfo, Type};
use suffete::prelude::{general_int, string, type_int, type_int_or_string, type_mixed, type_string};
use suffete::template::substitute::substitute;

fn class_def(name: &str) -> DefiningEntity {
    DefiningEntity::class_like(name)
}

fn ty_of(elem: Element) -> Type {
    Type::single(elem)
}

fn name_is(info: &GenericParameterInfo, name: &str) -> bool {
    info.name == name.chars().collect::<Vec<char>>()
}

#[test]
fn no_template_no_change() {
    let result = substitute(&type_int(), &|_: &GenericParameterInfo| -> Option<Type> { None });
    assert!(result.same(&type_int()));
}

#[test]
fn substitutes_top_level_template() {
    let t_ty = ty_of(Element::generic_parameter("T", class_def("X"), type_mixed()));
    let result = substitute(&t_ty, &|_: &GenericParameterInfo| -> Option<Type> { Some(type_int()) });
    assert!(result.same(&type_int()));
}

#[test]
fn miss_leaves_template_in_place() {
    let t_ty = ty_of(Element::generic_parameter("T", class_def("X"), type_mixed()));
    let result = substitute(&t_ty, &|_: &GenericParameterInfo| -> Option<Type> { None });
    assert!(result.same(&t_ty));
}

#[test]
fn replacement_with_union_flat_merges_into_parent() {
    let t = Element::generic_parameter("T", class_def("X"), type_mixed());
    let union_t = Type::union(vec![t, general_int()]);
    let result = substitute(&union_t, &|_: &GenericParameterInfo| -> Option<Type> { Some(type_int_or_string()) });
    assert!(result.same(&type_int_or_string()));
}

#[test]
fn unchanged_returns_same_handle() {
    let ty = ty_of(Element::generic_parameter("T", class_def("Box"), type_mixed()));
    let result = substitute(&ty, &|_: &GenericParameterInfo| -> Option<Type> { None });
    assert!(result.same(&ty));
}

#[test]
fn capture_freeness_qualifier_matters() {
    let outer_ty = ty_of(Element::generic_parameter("T", class_def("Outer"), type_mixed()));
    let inner_ty = ty_of(Element::generic_parameter("T", class_def("Inner"), type_mixed()));
    let outer_class = class_def("Outer");
    let pick = |info: &GenericParameterInfo| -> Option<Type> {
        if info.defining_entity.same(&outer_class) { Some(type_int()) } else { None }
    };
    assert!(substitute(&outer_ty, &pick).same(&type_int()));
    assert!(substitute(&inner_ty, &pick).same(&inner_ty));
}

#[test]
fn distributes_over_union() {
    let t = Element::generic_parameter("T", class_def("X"), type_mixed());
    let union = Type::union(vec![t, string()]);
    let result = substitute(&union, &|_: &GenericParameterInfo| -> Option<Type> { Some(type_int()) });
    assert_eq!(result.elements.len(), 2);
    assert!(result.elements.iter().any(|e| e.same(&general_int())));
    assert!(result.elements.iter().any(|e| e.same(&string())));
}

#[test]
fn substitutes_inside_object_type_args() {
    let t_ty = ty_of(Element::generic_parameter("T", class_def("Container"), type_mixed()));
    let container_t = ty_of(Element::object("Container", vec![t_ty]));
    let container_int = ty_of(Element::object("Container", vec![type_int()]));
    let result = substitute(&container_t, &|_: &GenericParameterInfo| -> Option<Type> { Some(type_int()) });
    assert!(result.same(&container_int));
}

#[test]
fn substitutes_inside_list_element_type() {
    let t = Element::generic_parameter("T", class_def("X"), type_mixed());
    let list_t = ty_of(Element::list(ty_of(t), false));
    let list_string = ty_of(Element::list(type_string(), false));
    let result = substitute(&list_t, &|_: &GenericParameterInfo| -> Option<Type> { Some(type_string()) });
    assert!(result.same(&list_string));
}

#[test]
fn substitutes_inside_iterable_key_and_value() {
    let k = Element::generic_parameter("K", class_def("Iter"), type_mixed());
    let v = Element::generic_parameter("V", class_def("Iter"), type_mixed());
    let iter_kv = ty_of(Element::iterable(ty_of(k), ty_of(v)));
    let iter_int_string = ty_of(Element::iterable(type_int(), type_string()));
    let iter_def = class_def("Iter");
    let result = substitute(&iter_kv, &|info: &GenericParameterInfo| -> Option<Type> {
        if !info.defining_entity.same(&iter_def) {
            return None;
        }
        if name_is(info, "K") {
            Some(type_int())
        } else if name_is(info, "V") {
            Some(type_string())
        } else {
            None
        }
    });
    assert!(result.same(&iter_int_string));
}

#[test]
fn substitutes_inside_keyed_array_value() {
    let t = Element::generic_parameter("T", class_def("X"), type_mixed());
    let arr_t = ty_of(Element::keyed_unsealed(type_string(), ty_of(t), false));
    let arr_int = ty_of(Element::keyed_unsealed(type_string(), type_int(), false));
    let result = substitute(&arr_t, &|_: &GenericParameterInfo| -> Option<Type> { Some(type_int()) });
    assert!(result.same(&arr_int));
}

#[test]
fn nested_object_substitution() {
    let t = Element::generic_parameter("T", class_def("X"), type_mixed());
    let list_t_ty = ty_of(Element::list(ty_of(t), false));
    let container_list_t = ty_of(Element::object("Container", vec![list_t_ty]));
    let list_int_ty = ty_of(Element::list(type_int(), false));
    let container_list_int = ty_of(Element::object("Container", vec![list_int_ty]));
    let result = substitute(&container_list_t, &|_: &GenericParameterInfo| -> Option<Type> { Some(type_int()) });
    assert!(result.same(&container_list_int));
}

#[test]
fn kept_parameter_keeps_its_constraint() {
    let u = Element::generic_parameter("U", class_def("X"), type_mixed());
    let t = ty_of(Element::generic_parameter("T", class_def("X"), ty_of(u)));
    let pick = |info: &GenericParameterInfo| -> Option<Type> { if name_is(info, "U") { Some(type_int()) } else { None } };
    assert!(substitute(&t, &pick).same(&t));
    // The same parameter met outside a constraint is replaced.
    let both = Type::union(vec![Element::generic_parameter("U", class_def("X"), type_mixed()), string()]);
    assert!(substitute(&both, &pick).same(&Type::union(vec![general_int(), string()])));
}
