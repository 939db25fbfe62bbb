use suffete::element::{CallableInfo, DefiningEntity, Element, ParamInfo, Signature, Type};
use suffete::prelude::{string, type_int, type_mixed, type_string};
use suffete::template::reconcile::reconcile;
use suffete::template::standin::{standin, StandinOptions, StandinState};
use suffete::template::{Bound, BoundKind, SourceSpan, TemplateKey};
use suffete::world::{NullWorld, Variance};

fn key(name: &str) -> TemplateKey {
    TemplateKey { defining_entity: DefiningEntity::class_like("Box"), name: name.chars().collect() }
}

fn template(name: &str) -> Type {
    Type::single(Element::generic_parameter(name, DefiningEntity::class_like("Box"), type_mixed()))
}

fn bound(kind: BoundKind, ty: Type, offset: u32, depth: u32) -> Bound {
    Bound { kind, ty, argument_offset: offset, depth, equality_bound_classlike: None, span: None }
}

fn fn_type(param: Type, ret: Type) -> Type {
    let p = ParamInfo { name: vec!['x'], type_: param, has_default: false, by_reference: false, variadic: false };
    Type::single(Element::Callable(CallableInfo::Signature(Signature {
        return_type: ret,
        throws: None,
        parameters: Some(vec![p]),
        is_variadic: false,
        is_pure: false,
    })))
}

#[test]
fn options_default_and_builders() {
    let o = StandinOptions::default();
    assert_eq!(o.argument_offset, 0);
    assert_eq!(o.default_variance, Variance::Invariant);
    assert_eq!(o.max_depth, 8);
    let o = o.with_argument_offset(2).with_default_variance(Variance::Covariant).with_max_depth(3);
    assert_eq!(o.argument_offset, 2);
    assert_eq!(o.default_variance, Variance::Covariant);
    assert_eq!(o.max_depth, 3);
}

#[test]
fn template_at_top_records_an_equality_bound() {
    let mut state = StandinState::new();
    let refined = standin(&template("T"), &type_int(), &NullWorld, &mut state, &StandinOptions::default());
    assert!(refined.same(&type_mixed()));
    assert!(state.is_declared(&key("T")));
    assert!(state.declaration(&key("T")).unwrap().constraint.same(&type_mixed()));
    let bounds = state.bounds_for(&key("T"));
    assert_eq!(bounds.len(), 1);
    assert_eq!(bounds[0].kind, BoundKind::Equality);
    assert!(bounds[0].ty.same(&type_int()));
    assert_eq!(bounds[0].depth, 0);
    assert_eq!(bounds[0].argument_offset, 0);
    assert!(bounds[0].equality_bound_classlike.is_none());
}

#[test]
fn list_element_is_a_covariant_position() {
    let mut state = StandinState::new();
    let parameter = Type::single(Element::list(template("T"), false));
    let argument = Type::single(Element::list(type_int(), false));
    let options = StandinOptions::default().with_argument_offset(1);
    let refined = standin(&parameter, &argument, &NullWorld, &mut state, &options);
    assert!(refined.same(&Type::single(Element::list(type_mixed(), false))));
    let bounds = state.bounds_for(&key("T"));
    assert_eq!(bounds.len(), 1);
    assert_eq!(bounds[0].kind, BoundKind::Lower);
    assert_eq!(bounds[0].depth, 1);
    assert_eq!(bounds[0].argument_offset, 1);
}

#[test]
fn callable_parameters_are_contravariant_and_returns_covariant() {
    let mut state = StandinState::new();
    let parameter = fn_type(template("T"), template("U"));
    let argument = fn_type(type_int(), type_string());
    let refined = standin(&parameter, &argument, &NullWorld, &mut state, &StandinOptions::default());
    assert!(refined.same(&fn_type(type_mixed(), type_mixed())));
    let t = state.bounds_for(&key("T"));
    let u = state.bounds_for(&key("U"));
    assert_eq!(t[0].kind, BoundKind::Upper);
    assert!(t[0].ty.same(&type_int()));
    assert_eq!(u[0].kind, BoundKind::Lower);
    assert!(u[0].ty.same(&type_string()));
    // The return type is walked first, so `U` is recorded first.
    assert!(state.iter()[0].0.same(&key("U")));
    assert!(state.iter()[1].0.same(&key("T")));
}

#[test]
fn same_class_objects_walk_their_arguments() {
    let mut state = StandinState::new();
    let parameter = Type::single(Element::object("Box", vec![template("T")]));
    let argument = Type::single(Element::object("Box", vec![type_int()]));
    let refined = standin(&parameter, &argument, &NullWorld, &mut state, &StandinOptions::default());
    assert!(refined.same(&Type::single(Element::object("Box", vec![type_mixed()]))));
    let bounds = state.bounds_for(&key("T"));
    assert_eq!(bounds[0].kind, BoundKind::Equality);
    assert_eq!(bounds[0].depth, 1);
    assert_eq!(bounds[0].equality_bound_classlike, Some(vec!['B', 'o', 'x']));
    // Another class passes nothing to `Box` in a world that knows no
    // inheritance.
    let mut state = StandinState::new();
    let other = Type::single(Element::object("Crate", vec![type_int()]));
    let refined = standin(&parameter, &other, &NullWorld, &mut state, &StandinOptions::default());
    assert!(refined.same(&parameter));
    assert_eq!(state.bounds_for(&key("T")).len(), 0);
}

#[test]
fn walk_stops_past_the_depth_limit() {
    let mut state = StandinState::new();
    let parameter = Type::single(Element::list(template("T"), false));
    let argument = Type::single(Element::list(type_int(), false));
    let options = StandinOptions::default().with_max_depth(0);
    let refined = standin(&parameter, &argument, &NullWorld, &mut state, &options);
    // Past the limit the template is replaced by its constraint, with no
    // bound recorded.
    assert!(refined.same(&Type::single(Element::list(type_mixed(), false))));
    assert_eq!(state.bounds_for(&key("T")).len(), 0);
    assert!(!state.is_declared(&key("T")));
}

#[test]
fn identical_parameter_and_argument_are_left_alone() {
    let mut state = StandinState::new();
    let refined = standin(&template("T"), &template("T"), &NullWorld, &mut state, &StandinOptions::default());
    assert!(refined.same(&template("T")));
    assert_eq!(state.iter().len(), 0);
}

#[test]
fn declarations_are_replaced_by_later_ones() {
    let mut state = StandinState::new();
    assert!(!state.is_declared(&key("T")));
    state.declare(key("T"), type_int());
    state.declare(key("U"), type_string());
    state.declare(key("T"), type_string());
    assert!(state.declaration(&key("T")).unwrap().constraint.same(&type_string()));
    assert_eq!(state.declarations().len(), 2);
    assert!(state.declarations()[0].0.same(&key("T")));
    assert!(state.declaration(&key("V")).is_none());
}

#[test]
fn reconcile_keeps_the_shallowest_bounds() {
    assert!(reconcile(&vec![]).is_none());
    let bounds = vec![bound(BoundKind::Lower, type_string(), 0, 1), bound(BoundKind::Lower, type_int(), 0, 0)];
    let w = reconcile(&bounds).unwrap();
    assert!(w.same(&type_int()));
}

#[test]
fn reconcile_follows_an_equality_to_deeper_bounds_at_the_same_offset() {
    let bounds = vec![
        bound(BoundKind::Equality, type_int(), 0, 0),
        bound(BoundKind::Lower, type_string(), 0, 1),
        bound(BoundKind::Lower, Type::single(Element::Float(suffete::element::FloatInfo::Unspecified)), 1, 1),
    ];
    let w = reconcile(&bounds).unwrap();
    assert!(w.same(&Type::union(vec![suffete::prelude::general_int(), string()])));
}

#[test]
fn witness_falls_back_without_bounds() {
    let mut state = StandinState::new();
    let w = state.witness(&key("T"), type_mixed());
    assert!(w.same(&type_mixed()));
    let _ = standin(&template("T"), &type_int(), &NullWorld, &mut state, &StandinOptions::default());
    let w = state.witness(&key("T"), type_mixed());
    assert!(w.same(&type_int()));
}

#[test]
fn declaring_the_same_parameter_twice_is_idempotent() {
    let mut state = StandinState::new();
    state.declare(key("T"), type_int());
    state.declare(key("T"), type_int());
    assert_eq!(state.declarations().len(), 1);
    assert!(state.declaration(&key("T")).unwrap().constraint.same(&type_int()));
}

#[test]
fn reconcile_does_not_depend_on_the_order_of_bounds() {
    let b1 = || bound(BoundKind::Equality, type_int(), 0, 0);
    let b2 = || bound(BoundKind::Lower, type_string(), 1, 0);
    let b3 = || bound(BoundKind::Lower, Type::single(suffete::prelude::float()), 1, 1);
    let first = reconcile(&vec![b1(), b2(), b3()]).unwrap();
    let second = reconcile(&vec![b2(), b1(), b3()]).unwrap();
    assert_eq!(first.elements.len(), 2);
    assert_eq!(second.elements.len(), 2);
    for e in &first.elements {
        assert!(second.elements.iter().any(|x| x.same(e)));
    }
    // A deeper bound at the offset of a baseline equality bound is kept.
    let b4 = || bound(BoundKind::Lower, Type::single(suffete::prelude::float()), 0, 1);
    assert_eq!(reconcile(&vec![b2(), b1(), b4()]).unwrap().elements.len(), 3);
    assert!(reconcile(&vec![]).is_none());
}

#[test]
fn bounds_carry_the_call_site_span() {
    let mut state = StandinState::new();
    let span = SourceSpan { start: 4, end: 9 };
    let options = StandinOptions::default().with_span(span);
    assert_eq!(options.span, Some(span));
    standin(&template("T"), &type_int(), &NullWorld, &mut state, &options);
    let bounds = state.bounds_for(&key("T"));
    assert_eq!(bounds.len(), 1);
    assert_eq!(bounds[0].span, Some(span));
    assert!(StandinOptions::default().span.is_none());
}
