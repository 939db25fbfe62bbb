use suffete::world::NullWorld;
use suffete::element::{NameSelector, ReferenceInfo};
use suffete::element::{
    CallableAlias, CallableInfo, ConditionalInfo, DefiningEntity, DerivedInfo, Element, IntInfo, ParamInfo,
    Signature, Type, Visibility,
};
use suffete::lattice::options::LatticeOptions;
use suffete::lattice::overlaps::overlaps;
use suffete::lattice::refines::refines;
use suffete::lattice::report::LatticeReport;
use suffete::predicates::{
    contains_callable, contains_template_anywhere, contains_unresolved_anywhere, is_callable, is_fully_resolved,
    is_truthy,
};
use suffete::prelude::{
    callable, callable_string, general_int, string, type_callable, type_int, type_int_or_string, type_mixed,
    type_string,
};
use suffete::template::substitute::substitute;
use suffete::element::GenericParameterInfo;

fn check(input: &Type, container: &Type) -> bool {
    let mut report = LatticeReport::new();
    refines(input, container, &NullWorld, LatticeOptions::default(), &mut report)
}

fn ov(a: &Type, b: &Type) -> bool {
    let mut report = LatticeReport::new();
    overlaps(a, b, &NullWorld, LatticeOptions::default(), &mut report)
}

fn param(ty: Type) -> ParamInfo {
    ParamInfo { name: vec!['x'], type_: ty, has_default: false, by_reference: false, variadic: false }
}

fn defaulted(ty: Type) -> ParamInfo {
    ParamInfo { name: vec!['y'], type_: ty, has_default: true, by_reference: false, variadic: false }
}

fn variadic(ty: Type) -> ParamInfo {
    ParamInfo { name: vec!['z'], type_: ty, has_default: false, by_reference: false, variadic: true }
}

fn sig(params: Option<Vec<ParamInfo>>, ret: Type) -> Signature {
    Signature { return_type: ret, throws: None, parameters: params, is_variadic: false, is_pure: false }
}

fn fn_type(s: Signature) -> Type {
    Type::single(Element::Callable(CallableInfo::Signature(s)))
}

fn closure_type(s: Signature) -> Type {
    Type::single(Element::Callable(CallableInfo::Closure(s)))
}

#[test]
fn closure_refines_matching_signature_but_not_back() {
    let s = || sig(Some(vec![param(type_int())]), type_string());
    assert!(check(&closure_type(s()), &fn_type(s())));
    assert!(check(&closure_type(s()), &closure_type(s())));
    assert!(!check(&fn_type(s()), &closure_type(s())));
}

#[test]
fn bare_callable_accepts_every_callable() {
    let s = sig(Some(vec![param(type_int())]), type_string());
    assert!(check(&fn_type(s), &type_callable()));
    let s = sig(None, type_int());
    assert!(!check(&type_callable(), &fn_type(s)));
}

#[test]
fn parameters_are_contravariant() {
    let wide = sig(Some(vec![param(type_int_or_string())]), type_int());
    let narrow = sig(Some(vec![param(type_int())]), type_int());
    assert!(check(&fn_type(wide), &fn_type(narrow)));
    let wide = sig(Some(vec![param(type_int_or_string())]), type_int());
    let narrow = sig(Some(vec![param(type_int())]), type_int());
    assert!(!check(&fn_type(narrow), &fn_type(wide)));
}

#[test]
fn return_type_is_covariant() {
    let narrow = sig(Some(vec![]), type_int());
    let wide = sig(Some(vec![]), type_int_or_string());
    assert!(check(&fn_type(narrow), &fn_type(wide)));
    let narrow = sig(Some(vec![]), type_int());
    let wide = sig(Some(vec![]), type_int_or_string());
    assert!(!check(&fn_type(wide), &fn_type(narrow)));
}

#[test]
fn callable_string_refines_callable() {
    assert!(check(&Type::single(callable_string()), &type_callable()));
    assert!(!check(&type_string(), &type_callable()));
}

#[test]
fn unspecified_container_parameters_accept_any() {
    let input = sig(Some(vec![param(type_int()), param(type_string())]), type_int());
    let container = sig(None, type_mixed());
    assert!(check(&fn_type(input), &fn_type(container)));
    let input = sig(None, type_int());
    let container = sig(Some(vec![param(type_int())]), type_mixed());
    assert!(!check(&fn_type(input), &fn_type(container)));
}

#[test]
fn pure_container_needs_pure_input() {
    let mut container = sig(None, type_mixed());
    container.is_pure = true;
    let input = sig(None, type_int());
    assert!(!check(&fn_type(input), &fn_type(container)));
    let mut container = sig(None, type_mixed());
    container.is_pure = true;
    let mut input = sig(None, type_int());
    input.is_pure = true;
    assert!(check(&fn_type(input), &fn_type(container)));
}

#[test]
fn thrown_types_must_fit_the_container() {
    let mut container = sig(None, type_mixed());
    container.throws = Some(type_int());
    let input = sig(None, type_int());
    assert!(!check(&fn_type(input), &fn_type(container)));
    let mut container = sig(None, type_mixed());
    container.throws = Some(type_int_or_string());
    let mut input = sig(None, type_int());
    input.throws = Some(type_int());
    assert!(check(&fn_type(input), &fn_type(container)));
}

#[test]
fn arity_rules() {
    // The input may not demand more arguments than the container passes.
    let input = sig(Some(vec![param(type_int()), param(type_int())]), type_int());
    let container = sig(Some(vec![param(type_int())]), type_int());
    assert!(!check(&fn_type(input), &fn_type(container)));
    // A defaulted extra parameter is fine.
    let input = sig(Some(vec![param(type_int()), defaulted(type_int())]), type_int());
    let container = sig(Some(vec![param(type_int())]), type_int());
    assert!(check(&fn_type(input), &fn_type(container)));
    // A variadic input takes the container's extra arguments in its last slot.
    let mut input = sig(Some(vec![variadic(type_int_or_string())]), type_int());
    input.is_variadic = true;
    let container = sig(Some(vec![param(type_int()), param(type_string())]), type_int());
    assert!(check(&fn_type(input), &fn_type(container)));
    // Too few parameters on a non-variadic input.
    let input = sig(Some(vec![defaulted(type_int())]), type_int());
    let container = sig(Some(vec![param(type_int()), param(type_int())]), type_int());
    assert!(!check(&fn_type(input), &fn_type(container)));
}

#[test]
fn known_callables_refine_only_themselves() {
    let f = || Type::single(Element::Callable(CallableInfo::Alias(CallableAlias::Function(vec!['f']))));
    let g = Type::single(Element::Callable(CallableInfo::Alias(CallableAlias::Function(vec!['g']))));
    assert!(check(&f(), &f()));
    assert!(!check(&f(), &g));
    assert!(check(&f(), &type_callable()));
}

#[test]
fn callables_of_different_arity_do_not_overlap() {
    let one = sig(Some(vec![param(type_int())]), type_int());
    let two = sig(Some(vec![param(type_int()), param(type_int())]), type_int());
    assert!(!ov(&fn_type(one), &fn_type(two)));
    let one = sig(Some(vec![param(type_int())]), type_int());
    let other = sig(Some(vec![param(type_string())]), type_string());
    assert!(ov(&fn_type(one), &fn_type(other)));
    let one = sig(Some(vec![param(type_int())]), type_int());
    let two = sig(Some(vec![param(type_int()), param(type_int())]), type_int());
    assert!(ov(&closure_type(one), &fn_type(two)));
}

#[test]
fn callable_kind_predicates() {
    assert!(is_callable(&type_callable()));
    assert!(!is_callable(&Type::union(vec![callable(), string()])));
    assert!(contains_callable(&Type::union(vec![callable(), string()])));
    assert!(!contains_callable(&type_string()));
}

#[test]
fn callables_are_truthy() {
    assert!(is_truthy(&type_callable()));
    assert!(is_truthy(&Type::single(callable())));
}

#[test]
fn conditional_and_derived_types_are_unresolved() {
    let cond = Type::single(Element::Conditional(ConditionalInfo {
        subject: type_int(),
        target: type_int(),
        then_type: type_string(),
        otherwise: type_int(),
        negated: false,
    }));
    assert!(contains_unresolved_anywhere(&cond));
    assert!(!is_fully_resolved(&cond));
    let key_of = Type::single(Element::Derived(DerivedInfo::KeyOf(type_int())));
    assert!(contains_unresolved_anywhere(&key_of));
    assert!(is_fully_resolved(&type_callable()));
}

#[test]
fn indirections_refine_only_themselves() {
    let d = || Type::single(Element::Derived(DerivedInfo::KeyOf(type_int())));
    assert!(check(&d(), &d()));
    assert!(!check(&type_int(), &d()));
    let other = Type::single(Element::Derived(DerivedInfo::ValueOf(type_int())));
    assert!(!check(&d(), &other));
}

#[test]
fn templates_are_found_inside_signatures() {
    let t = Element::generic_parameter("T", DefiningEntity::class_like("Box"), type_mixed());
    let s = sig(Some(vec![param(Type::single(t))]), type_int());
    assert!(contains_template_anywhere(&fn_type(s)));
    let s = sig(Some(vec![param(type_int())]), type_int());
    assert!(!contains_template_anywhere(&fn_type(s)));
}

#[test]
fn map_reaches_signatures_and_derived_types() {
    let widen = |e: &Element| -> Element {
        match e {
            Element::Int(IntInfo::Literal(_)) => general_int(),
            _ => e.copy(),
        }
    };
    let s = sig(Some(vec![param(Type::single(Element::int_literal(1)))]), Type::single(Element::int_literal(2)));
    let result = suffete::transform::map(&fn_type(s), &widen);
    let expected = fn_type(sig(Some(vec![param(type_int())]), type_int()));
    assert!(result.same(&expected));

    let d = Type::single(Element::Derived(DerivedInfo::IndexAccess {
        target: Type::single(Element::int_literal(5)),
        index: type_string(),
    }));
    let result = suffete::transform::map(&d, &widen);
    let expected = Type::single(Element::Derived(DerivedInfo::IndexAccess { target: type_int(), index: type_string() }));
    assert!(result.same(&expected));

    let c = Type::single(Element::Conditional(ConditionalInfo {
        subject: Type::single(Element::int_literal(7)),
        target: type_int(),
        then_type: type_string(),
        otherwise: type_int(),
        negated: true,
    }));
    let result = suffete::transform::map(&c, &widen);
    let expected = Type::single(Element::Conditional(ConditionalInfo {
        subject: type_int(),
        target: type_int(),
        then_type: type_string(),
        otherwise: type_int(),
        negated: true,
    }));
    assert!(result.same(&expected));
}

#[test]
fn substitution_reaches_signatures() {
    let t = Element::generic_parameter("T", DefiningEntity::class_like("Box"), type_mixed());
    let s = sig(Some(vec![param(Type::single(t))]), type_int());
    let result = substitute(&fn_type(s), &|_: &GenericParameterInfo| -> Option<Type> { Some(type_string()) });
    let expected = fn_type(sig(Some(vec![param(type_string())]), type_int()));
    assert!(result.same(&expected));
}

#[test]
fn signatures_derived_and_conditional_types_round_trip() {
    let mut s = sig(Some(vec![param(type_int()), defaulted(type_string())]), type_int_or_string());
    s.throws = Some(type_int());
    s.is_pure = true;
    let ty = Type::union(vec![
        Element::Callable(CallableInfo::Closure(s)),
        Element::Callable(CallableInfo::Alias(CallableAlias::Method { class: vec!['C'], method: vec!['m'] })),
        Element::Derived(DerivedInfo::PropertiesOf { target: type_int(), visibility: Some(Visibility::Protected) }),
        Element::Derived(DerivedInfo::IntMask(vec![type_int(), type_string()])),
        Element::Conditional(ConditionalInfo {
            subject: type_int(),
            target: type_string(),
            then_type: type_int(),
            otherwise: type_string(),
            negated: false,
        }),
    ]);
    let back = ty.to_serializable().intern();
    assert!(back.same(&ty));
}

#[test]
fn empty_parameter_list_stays_apart_from_an_unspecified_one() {
    let ty = fn_type(sig(Some(vec![]), type_int()));
    let back = ty.to_serializable().intern();
    assert!(back.same(&ty));
    assert!(!back.same(&fn_type(sig(None, type_int()))));
}

#[test]
fn references_are_unresolved_and_walked() {
    let r = Type::single(Element::Reference(ReferenceInfo {
        name: vec!['R'],
        type_args: vec![Type::single(Element::int_literal(3))],
    }));
    assert!(contains_unresolved_anywhere(&r));
    let widened = suffete::transform::map(&r, &|e: &Element| -> Element {
        match e {
            Element::Int(IntInfo::Literal(_)) => general_int(),
            _ => e.copy(),
        }
    });
    let expected = Type::single(Element::Reference(ReferenceInfo { name: vec!['R'], type_args: vec![type_int()] }));
    assert!(widened.same(&expected));
    assert!(check(&r, &r));
    assert!(!check(&r, &expected));
    let all = Type::union(vec![
        Element::Variable(vec!['v']),
        Element::Reference(ReferenceInfo { name: vec!['R'], type_args: vec![type_string()] }),
        Element::MemberReference { class_like_name: vec!['C'], selector: NameSelector::StartsWith(vec!['g']) },
        Element::GlobalReference(NameSelector::Wildcard),
        Element::Alias { class_name: vec!['C'], alias_name: vec!['A'] },
    ]);
    assert!(all.to_serializable().intern().same(&all));
    assert!(!contains_unresolved_anywhere(&Type::single(Element::Variable(vec!['v']))));
}
