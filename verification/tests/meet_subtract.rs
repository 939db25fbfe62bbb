use suffete::lattice::options::LatticeOptions;
use suffete::lattice::report::LatticeReport;
use suffete::prelude::{non_empty_lowercase_string, non_empty_uppercase_string, positive_int, type_float, type_int_or_string, truthy_string};
use suffete::element::{Element, IntInfo, StringCasing, StringFlags, StringInfo, StringLiteral, Type};
use suffete::meet::integer::int_meet;
use suffete::meet::string::{numeric_string_meet, string_meet};
use suffete::meet::truthiness::{falsy_collection, force_non_empty, narrow_string_falsy, narrow_string_truthy};
use suffete::meet::{cross_dominator_meet, MeetOutcome};
use suffete::prelude::{type_int, type_string, ARRAY_KEY, NUMERIC, SCALAR};
use suffete::subtract::integer::int_minus;
use suffete::subtract::string::string_minus;
use suffete::subtract::SubtractOutcome;

fn info(e: Element) -> StringInfo {
    match e {
        Element::String(s) => s,
        _ => panic!("not a string"),
    }
}

fn broad(non_empty: bool, truthy: bool, numeric: bool, casing: StringCasing) -> StringInfo {
    StringInfo {
        literal: StringLiteral::Absent,
        casing,
        flags: StringFlags { non_empty, truthy, numeric, callable: false },
    }
}

fn int_of(e: &Element) -> IntInfo {
    match e {
        Element::Int(i) => *i,
        _ => panic!("not an int"),
    }
}

#[test]
fn int_meet_intersects_intervals() {
    let m = int_meet(&Element::int_range(Some(0), Some(10)), &Element::int_range(Some(5), Some(15))).unwrap();
    assert_eq!(int_of(&m), IntInfo::Range(Some(5), Some(10)));
    let lit = int_meet(&Element::int_range(Some(0), Some(5)), &Element::int_range(Some(5), None)).unwrap();
    assert_eq!(int_of(&lit), IntInfo::Literal(5));
    assert!(int_meet(&Element::int_range(Some(0), Some(4)), &Element::int_range(Some(5), None)).is_none());
}

#[test]
fn int_minus_splits_around_the_removed_interval() {
    let pieces = int_minus(&Element::int_range(Some(0), Some(10)), &Element::int_range(Some(3), Some(5)));
    assert_eq!(pieces.len(), 2);
    assert_eq!(int_of(&pieces[0]), IntInfo::Range(Some(0), Some(2)));
    assert_eq!(int_of(&pieces[1]), IntInfo::Range(Some(6), Some(10)));
    let one = int_minus(&Element::int_range(Some(0), Some(1)), &Element::int_literal(0));
    assert_eq!(one.len(), 1);
    assert_eq!(int_of(&one[0]), IntInfo::Literal(1));
    let none = int_minus(&Element::int_literal(4), &Element::int_range(Some(0), None));
    assert!(none.is_empty());
    let top = int_minus(&Element::Int(IntInfo::Unspecified), &Element::int_range(Some(0), Some(i64::MAX)));
    assert_eq!(top.len(), 1);
    assert_eq!(int_of(&top[0]), IntInfo::Range(None, Some(-1)));
}

#[test]
fn string_meet_rules() {
    let lower = broad(false, false, false, StringCasing::Lowercase);
    let upper = broad(false, false, false, StringCasing::Uppercase);
    let m = string_meet(&lower, &upper).unwrap();
    assert!(matches!(m.literal, StringLiteral::Value(ref v) if v.is_empty()));
    // Opposite casings share only "", which a non-empty or truthy side rules out.
    let ne_lower = broad(true, false, false, StringCasing::Lowercase);
    let ne_upper = broad(true, false, false, StringCasing::Uppercase);
    assert!(string_meet(&ne_lower, &ne_upper).is_none());
    assert!(string_meet(&lower, &broad(false, true, false, StringCasing::Uppercase)).is_none());
    assert!(string_meet(&info(Element::string_literal("")), &upper).is_some());
    let a = info(Element::string_literal("a"));
    let b = info(Element::string_literal("b"));
    assert!(string_meet(&a, &b).is_none());
    assert!(string_meet(&info(Element::string_literal("Abc")), &lower).is_none());
    let ne = broad(true, false, false, StringCasing::Unspecified);
    assert!(string_meet(&info(Element::string_literal("")), &ne).is_none());
    let merged = string_meet(&ne, &broad(false, true, false, StringCasing::Lowercase)).unwrap();
    assert!(merged.flags.non_empty && merged.flags.truthy);
    assert_eq!(merged.casing, StringCasing::Lowercase);
}

#[test]
fn numeric_string_meet_rules() {
    assert!(numeric_string_meet(&info(Element::string_literal("12"))).is_some());
    assert!(numeric_string_meet(&info(Element::string_literal("x"))).is_none());
    assert!(numeric_string_meet(&broad(false, false, false, StringCasing::Unspecified)).unwrap().flags.numeric);
}

#[test]
fn truthiness_narrowing_of_strings() {
    assert!(matches!(narrow_string_truthy(&info(Element::string_literal("0"))), Element::Never));
    let t = narrow_string_truthy(&broad(false, false, false, StringCasing::Unspecified));
    assert!(matches!(t, Element::String(ref s) if s.flags.truthy && s.flags.non_empty));
    assert_eq!(narrow_string_falsy(&broad(false, false, false, StringCasing::Unspecified)).len(), 2);
    assert_eq!(narrow_string_falsy(&broad(true, false, false, StringCasing::Unspecified)).len(), 1);
    assert_eq!(narrow_string_falsy(&broad(false, false, true, StringCasing::Unspecified)).len(), 1);
    assert!(narrow_string_falsy(&broad(false, true, false, StringCasing::Unspecified)).is_empty());
    assert!(narrow_string_falsy(&info(Element::string_literal("x"))).is_empty());
}

#[test]
fn collections_and_truthiness() {
    assert!(matches!(force_non_empty(&Element::list(type_int(), false)), Element::List(ref l) if l.non_empty));
    assert!(falsy_collection(&Element::list(type_int(), true)).is_none());
    assert!(matches!(
        falsy_collection(&Element::keyed_unsealed(type_string(), type_int(), false)),
        Some(Element::Array(ref a)) if !a.non_empty
    ));
}

#[test]
fn dominators_meet() {
    assert_eq!(cross_dominator_meet(&ARRAY_KEY, &NUMERIC).unwrap().len(), 2);
    assert!(cross_dominator_meet(&SCALAR, &NUMERIC).is_none());
}

#[test]
fn outcomes_into_type() {
    assert!(MeetOutcome::Impossible.into_type().elements.len() == 1);
    assert!(MeetOutcome::Narrowed(type_int()).into_type().same(&type_int()));
    assert!(SubtractOutcome::Redundant(type_string()).into_type().same(&type_string()));
    assert!(matches!(SubtractOutcome::Impossible.into_type().elements[0], Element::Never));
    let _ = Type::single(Element::Null);
}

#[test]
fn string_minus_rules() {
    let a = info(Element::string_literal("x"));
    assert!(string_minus(&a, &info(Element::string_literal("x"))).unwrap().is_empty());
    let general = broad(false, false, false, StringCasing::Unspecified);
    let rest = string_minus(&general, &broad(true, false, false, StringCasing::Unspecified)).unwrap();
    assert_eq!(rest.len(), 1);
    assert!(string_minus(&general, &info(Element::string_literal("x"))).is_none());
    // Less every truthy string, both falsy strings stay.
    let rest = string_minus(&general, &broad(false, true, false, StringCasing::Unspecified)).unwrap();
    assert_eq!(rest.len(), 2);
    assert!(rest.iter().any(|e| e.same(&Element::string_literal(""))));
    assert!(rest.iter().any(|e| e.same(&Element::string_literal("0"))));
    // A numeric or cased removal has no closed form here.
    assert!(string_minus(&general, &broad(true, false, true, StringCasing::Unspecified)).is_none());
    assert!(string_minus(&general, &broad(true, false, false, StringCasing::Lowercase)).is_none());
}

#[test]
fn narrow_classifies_the_meet() {
    let o = LatticeOptions::default();
    let mut report = LatticeReport::new();
    let positive = Type::single(positive_int());
    match suffete::meet::narrow(&type_int(), &positive, o, &mut report) {
        MeetOutcome::Narrowed(t) => assert!(t.same(&positive)),
        _ => panic!("expected a narrowing"),
    }
    assert!(matches!(suffete::meet::narrow(&positive, &type_int(), o, &mut report), MeetOutcome::Redundant(_)));
    assert!(matches!(suffete::meet::narrow(&type_int(), &type_string(), o, &mut report), MeetOutcome::Impossible));
    assert!(matches!(suffete::meet::narrow(&type_int(), &type_float(), o, &mut report), MeetOutcome::Impossible));
    let ranged = suffete::meet::narrow(
        &Type::single(Element::int_range(Some(0), Some(10))),
        &Type::single(Element::int_range(Some(5), Some(15))),
        o,
        &mut report,
    );
    match ranged {
        MeetOutcome::Narrowed(t) => assert!(t.same(&Type::single(Element::int_range(Some(5), Some(10))))),
        _ => panic!("expected a narrowing"),
    }
    let lower = Type::single(non_empty_lowercase_string());
    let upper = Type::single(non_empty_uppercase_string());
    assert!(matches!(suffete::meet::narrow(&lower, &upper, o, &mut report), MeetOutcome::Impossible));
    let both = suffete::meet::compute(&Type::single(ARRAY_KEY), &Type::single(NUMERIC), o, &mut report);
    assert_eq!(both.elements.len(), 2);
    let union = Type::union(vec![Element::Int(IntInfo::Unspecified), Element::string_literal("a")]);
    let kept = suffete::meet::compute(&union, &type_string(), o, &mut report);
    assert!(kept.same(&Type::single(Element::string_literal("a"))));
}

#[test]
fn subtract_narrow_classifies_the_difference() {
    let o = LatticeOptions::default();
    let mut report = LatticeReport::new();
    assert!(matches!(suffete::subtract::narrow(&type_int(), &type_int(), o, &mut report), SubtractOutcome::Impossible));
    match suffete::subtract::narrow(&type_int_or_string(), &type_string(), o, &mut report) {
        SubtractOutcome::Narrowed(t) => assert!(t.same(&type_int())),
        _ => panic!("expected a narrowing"),
    }
    assert!(matches!(suffete::subtract::narrow(&type_int(), &type_string(), o, &mut report), SubtractOutcome::Redundant(_)));
    let split = suffete::subtract::compute(
        &Type::single(Element::int_range(Some(0), Some(10))),
        &Type::single(Element::int_range(Some(3), Some(5))),
        o,
        &mut report,
    );
    assert!(split.same(&Type::union(vec![Element::int_range(Some(0), Some(2)), Element::int_range(Some(6), Some(10))])));
    let falsy = suffete::subtract::compute(&type_string(), &Type::single(truthy_string()), o, &mut report);
    assert!(falsy.same(&Type::union(vec![Element::string_literal(""), Element::string_literal("0")])));
}

#[test]
fn narrowed_mixed_meets_by_subsumption_and_truthiness() {
    let o = LatticeOptions::default();
    let mut report = LatticeReport::new();
    let non_null = Type::single(suffete::prelude::non_null_mixed());
    assert!(matches!(suffete::meet::narrow(&type_int(), &non_null, o, &mut report), MeetOutcome::Redundant(_)));
    let truthy = Type::single(suffete::prelude::truthy_mixed());
    match suffete::meet::narrow(&type_string(), &truthy, o, &mut report) {
        MeetOutcome::Narrowed(t) => assert!(t.same(&Type::single(truthy_string()))),
        _ => panic!("expected a narrowing"),
    }
}

#[test]
fn impossible_only_for_disjoint_types() {
    let o = LatticeOptions::default();
    let mut report = LatticeReport::new();
    // A truthy `mixed` overlaps `int`; no rule describes the meet, so it is
    // `never`, but not reported impossible.
    let truthy = Type::single(suffete::prelude::truthy_mixed());
    assert!(matches!(suffete::meet::narrow(&type_int(), &truthy, o, &mut report), MeetOutcome::Narrowed(_)));
    assert!(matches!(suffete::meet::narrow(&type_int(), &type_string(), o, &mut report), MeetOutcome::Impossible));
}

#[test]
fn dominators_split_in_a_difference() {
    let o = LatticeOptions::default();
    let mut report = LatticeReport::new();
    let rest = suffete::subtract::compute(&Type::single(SCALAR), &type_int(), o, &mut report);
    assert!(rest.same(&Type::union(vec![
        suffete::prelude::BOOL,
        suffete::prelude::float(),
        suffete::prelude::string(),
    ])));
    let ints = suffete::subtract::compute(&Type::single(ARRAY_KEY), &type_string(), o, &mut report);
    assert!(ints.same(&type_int()));
}
