//! Overlap relation: `overlaps(a, b)` is `true` iff some runtime value
//! inhabits both `a` and `b`.
//!
//! The relation distributes over unions; for a pair of atoms the rules
//! are, in order: `never` and uninhabited atoms overlap nothing; equal
//! atoms, vanilla `mixed` and placeholders overlap everything; generic
//! parameters project onto their constraints; the container families
//! compare their parameters; subsumption in either direction implies
//! overlap; and the scalar families have their own positive rules.
use vstd::prelude::*;

use crate::element::{
    CallV, CallableInfo, ElemV, Element, IntInfo, KnownElementEntry, KnownItemEntry, MixedInfo, SigV, Signature,
    StrLitV, StringCasing, StringFlags, StringInfo, StringInfoV, StringLiteral, Truthiness, Type, call_view, esize,
    item_view, items_size, items_view, kelems_size, known_elem_view, known_elems_view, lemma_elem_smaller,
    lemma_items_size_elem, lemma_kelems_size_elem, sig_view, tsize,
};
use crate::lattice::family::array::int_type;
use crate::lattice::family::class_like_string::{is_valid_class_name, valid_class_name};
use crate::lattice::family::integer::{bounds_of, int_bounds};
use crate::lattice::family::mixed::{is_non_null, non_null, truthiness, truthiness_of};
use crate::lattice::family::string::{is_numeric_literal, numeric_literal, sinfo};
use crate::lattice::options::LatticeOptions;
use crate::lattice::refines::{element_refines, is_vanilla_mixed, only_causes_changed, walk};
use crate::lattice::refines_spec::{
    all_never, atom_overlaps_from, elem_overlaps_spec, int_or_string_v, iterable_array_overlap,
    iterable_list_overlap, lemma_esize_pos, lemma_int_or_string_size, list_array_overlap, overlaps_from,
    overlaps_spec, single_v, uninhabited, value_never, required_never_item, required_never_element, arrays_overlap,
    lists_overlap,
    lemma_single_size, mixed_v,
};
use crate::lattice::report::LatticeReport;
use crate::meet::string::string_meet;

verus! {

/// The larger of two lower bounds, `None` standing for minus infinity.
pub open spec fn max_lower(a: Option<i64>, b: Option<i64>) -> Option<i64> {
    match (a, b) {
        (Some(x), Some(y)) => Some(if x >= y { x } else { y }),
        (Some(x), None) => Some(x),
        (None, Some(y)) => Some(y),
        (None, None) => None,
    }
}

/// The smaller of two upper bounds, `None` standing for plus infinity.
pub open spec fn min_upper(a: Option<i64>, b: Option<i64>) -> Option<i64> {
    match (a, b) {
        (Some(x), Some(y)) => Some(if x <= y { x } else { y }),
        (Some(x), None) => Some(x),
        (None, Some(y)) => Some(y),
        (None, None) => None,
    }
}

/// Two int atoms overlap iff the intersection of their intervals is not
/// empty.
pub open spec fn int_overlap(a: IntInfo, b: IntInfo) -> bool {
    let (al, au) = int_bounds(a);
    let (bl, bu) = int_bounds(b);
    match (max_lower(al, bl), min_upper(au, bu)) {
        (Some(l), Some(h)) => l <= h,
        _ => true,
    }
}

/// The axes of a narrowed `mixed` are satisfiable by some value of `other`.
pub open spec fn mixed_axes_compatible(info: MixedInfo, other: ElemV) -> bool {
    let t = truthiness_of(other);
    &&& (info.non_null ==> is_non_null(other))
    &&& !(info.truthiness == Truthiness::Truthy && t == Truthiness::Falsy)
    &&& !(info.truthiness == Truthiness::Falsy && t == Truthiness::Truthy)
    &&& !(info.empty && t == Truthiness::Truthy)
}

pub open spec fn mixed_overlap(a: ElemV, b: ElemV) -> bool {
    let (m, other) = if a is Mixed {
        (a, b)
    } else {
        (b, a)
    };
    &&& mixed_axes_compatible(m->Mixed_0, other)
    &&& (other matches ElemV::Mixed(oi) ==> mixed_axes_compatible(oi, m))
}

/// A string atom shares a value with a class-like string: a literal must
/// be a class name; otherwise the string must not be numeric, callable or
/// of fixed casing.
pub open spec fn string_class_like_string_overlap(s: StringInfoV) -> bool {
    match s.literal {
        StrLitV::Value(v) => valid_class_name(v),
        _ => !s.flags.numeric && !s.flags.callable && s.casing == StringCasing::Unspecified,
    }
}

/// A string atom shares a value with `numeric` unless it is a literal that
/// is not a number.
pub open spec fn numeric_string_overlap(s: StringInfoV) -> bool {
    match s.literal {
        StrLitV::Value(v) => is_numeric_literal(v),
        _ => true,
    }
}

/// The true-union dominators pairwise share `int`.
pub open spec fn dominator_pair(a: ElemV, b: ElemV) -> bool {
    ||| (a is Scalar && b is Numeric)
    ||| (a is Numeric && b is Scalar)
    ||| (a is Scalar && b is ArrayKey)
    ||| (a is ArrayKey && b is Scalar)
    ||| (a is ArrayKey && b is Numeric)
    ||| (a is Numeric && b is ArrayKey)
}

/// The number of parameters a signature spells out.
pub open spec fn sig_arity(s: SigV) -> nat {
    match s.params {
        Some(ps) => ps.len(),
        None => 0,
    }
}

/// A function value has a fixed arity, so two anonymous signatures of
/// different arities share no value; any other pair of callables shares
/// the function that always throws.
pub open spec fn callables_overlap(a: CallV, b: CallV) -> bool {
    match (a, b) {
        (CallV::Sig(x), CallV::Sig(y)) => sig_arity(x) == sig_arity(y),
        _ => true,
    }
}

fn arity(s: &Signature) -> (n: usize)
    ensures
        n == sig_arity(sig_view(*s)),
{
    match &s.parameters {
        Some(ps) => ps.len(),
        None => 0,
    }
}

/// `Callable × Callable` overlap.
pub fn callable_overlap(a: &CallableInfo, b: &CallableInfo) -> (r: bool)
    ensures
        r == callables_overlap(call_view(*a), call_view(*b)),
{
    match (a, b) {
        (CallableInfo::Signature(x), CallableInfo::Signature(y)) => arity(x) == arity(y),
        _ => true,
    }
}

/// The family rules for two atoms neither of which refines the other.
pub open spec fn family_overlap(a: ElemV, b: ElemV) -> bool {
    if a is Int && b is Int {
        int_overlap(a->Int_0, b->Int_0)
    } else if a is Mixed || b is Mixed {
        mixed_overlap(a, b)
    } else if a is Str && b is ClassLikeString {
        string_class_like_string_overlap(a->Str_0)
    } else if a is ClassLikeString && b is Str {
        string_class_like_string_overlap(b->Str_0)
    } else if a is Numeric && b is Str {
        numeric_string_overlap(b->Str_0)
    } else if a is Str && b is Numeric {
        numeric_string_overlap(a->Str_0)
    } else {
        dominator_pair(a, b)
    }
}

// ---------------------------------------------------------------------
// Executable family rules.
// ---------------------------------------------------------------------
fn lower_max(a: Option<i64>, b: Option<i64>) -> (r: Option<i64>)
    ensures
        r == max_lower(a, b),
{
    match (a, b) {
        (Some(x), Some(y)) => Some(if x >= y { x } else { y }),
        (Some(x), None) => Some(x),
        (None, Some(y)) => Some(y),
        (None, None) => None,
    }
}

fn upper_min(a: Option<i64>, b: Option<i64>) -> (r: Option<i64>)
    ensures
        r == min_upper(a, b),
{
    match (a, b) {
        (Some(x), Some(y)) => Some(if x <= y { x } else { y }),
        (Some(x), None) => Some(x),
        (None, Some(y)) => Some(y),
        (None, None) => None,
    }
}

fn ints_overlap(a: IntInfo, b: IntInfo) -> (r: bool)
    ensures
        r == int_overlap(a, b),
{
    let (al, au) = bounds_of(a);
    let (bl, bu) = bounds_of(b);
    match (lower_max(al, bl), upper_min(au, bu)) {
        (Some(l), Some(h)) => l <= h,
        _ => true,
    }
}

fn axes_compatible(info: MixedInfo, other: &Element) -> (r: bool)
    ensures
        r == mixed_axes_compatible(info, other@),
{
    if info.non_null && !non_null(other) {
        return false;
    }
    let t = truthiness(other);
    if info.truthiness == Truthiness::Truthy && t == Truthiness::Falsy {
        return false;
    }
    if info.truthiness == Truthiness::Falsy && t == Truthiness::Truthy {
        return false;
    }
    !(info.empty && t == Truthiness::Truthy)
}

fn mixed_pair_overlap(a: &Element, b: &Element) -> (r: bool)
    requires
        a@ is Mixed || b@ is Mixed,
    ensures
        r == mixed_overlap(a@, b@),
{
    let (m, other) = if matches!(a, Element::Mixed(_)) {
        (a, b)
    } else {
        (b, a)
    };
    let info = match m {
        Element::Mixed(i) => *i,
        _ => {
            return false;
        },
    };
    if !axes_compatible(info, other) {
        return false;
    }
    match other {
        Element::Mixed(oi) => axes_compatible(*oi, m),
        _ => true,
    }
}

fn string_class_overlap(s: &StringInfo) -> (r: bool)
    ensures
        r == string_class_like_string_overlap(sinfo(*s)),
{
    match &s.literal {
        StringLiteral::Value(v) => is_valid_class_name(v),
        _ => !s.flags.numeric && !s.flags.callable && s.casing == StringCasing::Unspecified,
    }
}

fn numeric_overlap(s: &StringInfo) -> (r: bool)
    ensures
        r == numeric_string_overlap(sinfo(*s)),
{
    match &s.literal {
        StringLiteral::Value(v) => numeric_literal(v),
        _ => true,
    }
}

fn is_dominator_pair(a: &Element, b: &Element) -> (r: bool)
    ensures
        r == dominator_pair(a@, b@),
{
    match (a, b) {
        (Element::Scalar, Element::Numeric) | (Element::Numeric, Element::Scalar) | (
            Element::Scalar,
            Element::ArrayKey,
        ) | (Element::ArrayKey, Element::Scalar) | (Element::ArrayKey, Element::Numeric) | (
            Element::Numeric,
            Element::ArrayKey,
        ) => true,
        _ => false,
    }
}

/// The family rules for two atoms neither of which refines the other.
fn families_overlap(a: &Element, b: &Element) -> (r: bool)
    ensures
        r == family_overlap(a@, b@),
{
    match (a, b) {
        (Element::Int(x), Element::Int(y)) => {
            return ints_overlap(*x, *y);
        },
        _ => {},
    }
    if matches!(a, Element::Mixed(_)) || matches!(b, Element::Mixed(_)) {
        return mixed_pair_overlap(a, b);
    }
    match (a, b) {
        (Element::String(s), Element::ClassLikeString(_)) => string_class_overlap(s),
        (Element::ClassLikeString(_), Element::String(s)) => string_class_overlap(s),
        (Element::Numeric, Element::String(s)) => numeric_overlap(s),
        (Element::String(s), Element::Numeric) => numeric_overlap(s),
        _ => is_dominator_pair(a, b),
    }
}

// ---------------------------------------------------------------------
// Uninhabited atoms.
// ---------------------------------------------------------------------
pub proof fn lemma_all_never(s: Seq<ElemV>)
    ensures
        all_never(s) <==> forall|i: int| 0 <= i < s.len() ==> (#[trigger] s[i] == ElemV::Never || uninhabited(s[i])),
    decreases s.len(),
{
    if s.len() > 0 {
        lemma_all_never(s.drop_last());
        if all_never(s) {
            assert forall|i: int| 0 <= i < s.len() implies (#[trigger] s[i] == ElemV::Never || uninhabited(s[i])) by {
                if i < s.len() - 1 {
                    assert(s.drop_last()[i] == s[i]);
                }
            }
        }
        if forall|i: int| 0 <= i < s.len() ==> (#[trigger] s[i] == ElemV::Never || uninhabited(s[i])) {
            assert forall|i: int| 0 <= i < s.drop_last().len() implies (#[trigger] s.drop_last()[i] == ElemV::Never
                || uninhabited(s.drop_last()[i])) by {
                assert(s.drop_last()[i] == s[i]);
            }
            assert(s.last() == s[s.len() - 1]);
        }
    }
}

/// No value inhabits `t`: each of its atoms is `never` or uninhabited.
pub fn type_is_value_never(t: &Type) -> (r: bool)
    ensures
        r == value_never(t@),
    decreases tsize(t@), 2int,
{
    let ghost s = t@.elements;
    proof {
        lemma_all_never(s);
    }
    assert(value_never(t@) == all_never(s));
    let mut i: usize = 0;
    while i < t.elements.len()
        invariant
            s == t@.elements,
            s.len() == t.elements.len(),
            i <= s.len(),
            forall|k: int| 0 <= k < i ==> (#[trigger] s[k] == ElemV::Never || uninhabited(s[k])),
            value_never(t@) <==> forall|k: int| 0 <= k < s.len() ==> (#[trigger] s[k] == ElemV::Never || uninhabited(s[k])),
        decreases t.elements.len() - i,
    {
        let e = &t.elements[i];
        assert(s[i as int] == e@);
        proof {
            lemma_elem_smaller(t@, i as int);
        }
        if !matches!(e, Element::Never) && !is_uninhabited(e) {
            assert(!(s[i as int] == ElemV::Never || uninhabited(s[i as int])));
            return false;
        }
        i += 1;
    }
    true
}

/// The type `int|string`.
fn int_or_string_type() -> (t: Type)
    ensures
        t@ == int_or_string_v(),
{
    let mut v: Vec<Element> = Vec::new();
    v.push(Element::Int(IntInfo::Unspecified));
    v.push(
        Element::String(
            StringInfo {
                literal: StringLiteral::Absent,
                casing: StringCasing::Unspecified,
                flags: StringFlags { non_empty: false, truthy: false, numeric: false, callable: false },
            },
        ),
    );
    let t = Type { elements: v, flags: crate::element::FlowFlags::empty() };
    assert(t@.elements =~= int_or_string_v().elements);
    t
}

/// `true` for atoms that are structurally not `never` but have no value:
/// a non-empty list of nothing, a non-empty array whose key type admits no
/// `int` or `string` or whose key or value type is empty, a list or array
/// shape with a required entry of no value.
pub fn is_uninhabited(e: &Element) -> (r: bool)
    ensures
        r == uninhabited(e@),
    decreases esize(e@), 1int,
{
    match e {
        Element::List(_) => list_uninhabited(e),
        Element::Array(_) => array_uninhabited(e),
        _ => false,
    }
}

/// A list with no value: non-empty over an empty element type, or with a
/// required entry of no value.
fn list_uninhabited(e: &Element) -> (r: bool)
    requires
        e@ is List,
    ensures
        r == uninhabited(e@),
    decreases esize(e@), 0int,
{
    match e {
        Element::List(l) => {
            if l.non_empty && type_is_value_never(&l.element_type) {
                return true;
            }
            has_required_never_element(&l.known_elements)
        },
        _ => false,
    }
}

/// A keyed array with no value: non-empty with a key type admitting no
/// `int` or `string` or with an empty key or value type, or with a
/// required entry of no value.
fn array_uninhabited(e: &Element) -> (r: bool)
    requires
        e@ is Array,
    ensures
        r == uninhabited(e@),
    decreases esize(e@), 0int,
{
    match e {
        Element::Array(a) => {
            if a.non_empty {
                if let Some(k) = &a.key_param {
                    let keys = int_or_string_type();
                    proof {
                        lemma_int_or_string_size();
                    }
                    let (key_fits, _) = overlaps_walk(k, &keys, LatticeOptions::new(), 0);
                    if !key_fits || type_is_value_never(k) {
                        return true;
                    }
                }
                if let Some(v) = &a.value_param {
                    if type_is_value_never(v) {
                        return true;
                    }
                }
            }
            has_required_never_item(&a.known_items)
        },
        _ => false,
    }
}

/// Some shape entry that must be present has a type with no value.
fn has_required_never_item(items: &Vec<KnownItemEntry>) -> (r: bool)
    ensures
        r == required_never_item(items_view(*items)),
    decreases items_size(items_view(*items)), 0int,
{
    let ghost v = items_view(*items);
    let mut found = false;
    let mut i: usize = 0;
    while i < items.len()
        invariant
            i <= items.len(),
            v == items_view(*items),
            v.len() == items.len(),
            found == required_never_item(v.take(i as int)),
        decreases items.len() - i,
    {
        assert(v[i as int] == item_view(items@[i as int]));
        assert(v.take(i + 1).drop_last() =~= v.take(i as int));
        assert(v.take(i + 1).last() == v[i as int]);
        proof {
            lemma_items_size_elem(v, i as int);
        }
        if !items[i].optional && type_is_value_never(&items[i].value) {
            found = true;
        }
        i += 1;
    }
    assert(v.take(v.len() as int) =~= v);
    found
}

/// Some list-shape entry that must be present has a type with no value.
fn has_required_never_element(known: &Vec<KnownElementEntry>) -> (r: bool)
    ensures
        r == required_never_element(known_elems_view(*known)),
    decreases kelems_size(known_elems_view(*known)), 0int,
{
    let ghost v = known_elems_view(*known);
    let mut found = false;
    let mut i: usize = 0;
    while i < known.len()
        invariant
            i <= known.len(),
            v == known_elems_view(*known),
            v.len() == known.len(),
            found == required_never_element(v.take(i as int)),
        decreases known.len() - i,
    {
        assert(v[i as int] == known_elem_view(known@[i as int]));
        assert(v.take(i + 1).drop_last() =~= v.take(i as int));
        assert(v.take(i + 1).last() == v[i as int]);
        proof {
            lemma_kelems_size_elem(v, i as int);
        }
        if !known[i].optional && type_is_value_never(&known[i].value) {
            found = true;
        }
        i += 1;
    }
    assert(v.take(v.len() as int) =~= v);
    found
}

// ---------------------------------------------------------------------
// The relation.
// ---------------------------------------------------------------------
/// `true` iff some runtime value inhabits both `a` and `b`, with the class
/// hierarchy of `world`. The causes of any coercion observed on the way
/// are added to `report`.
pub fn overlaps<W: crate::world::World>(a: &Type, b: &Type, world: &W, options: LatticeOptions, report: &mut LatticeReport) -> (r:
    bool)
    ensures
        (r, final(report).causes.bits) == crate::lattice::hierarchy::overlaps_spec_in(
            *world,
            a@,
            b@,
            options,
            old(report).causes.bits,
        ),
        only_causes_changed(*old(report), *final(report)),
{
    let (r, c) = crate::lattice::hierarchy::overlaps_walk_in(a, b, world, options, report.causes.bits);
    report.causes.bits = c;
    r
}

/// The walk behind [`overlaps`], on the causes bits alone.
pub fn overlaps_walk(a: &Type, b: &Type, o: LatticeOptions, c: u8) -> (r: (bool, u8))
    ensures
        r == overlaps_spec(a@, b@, o, c),
    decreases tsize(a@) + tsize(b@), a@.elements.len() + 3,
{
    let ghost av = a@;
    let ghost bv = b@;
    assert(overlaps_spec(av, bv, o, c) == overlaps_from(av, bv, o, 0, c));
    let mut cur = c;
    let mut i: usize = 0;
    while i < a.elements.len()
        invariant
            av == a@,
            bv == b@,
            av.elements.len() == a.elements.len(),
            bv.elements.len() == b.elements.len(),
            i <= av.elements.len(),
            overlaps_spec(av, bv, o, c) == overlaps_from(av, bv, o, i as int, cur),
        decreases a.elements.len() - i,
    {
        let x = &a.elements[i];
        assert(av.elements[i as int] == x@);
        proof {
            lemma_elem_smaller(av, i as int);
        }
        let ghost start = cur;
        let mut j: usize = 0;
        while j < b.elements.len()
            invariant
                av == a@,
                bv == b@,
                bv.elements.len() == b.elements.len(),
                i < av.elements.len(),
                x@ == av.elements[i as int],
                esize(x@) < tsize(av),
                j <= bv.elements.len(),
                atom_overlaps_from(x@, bv, o, 0, start) == atom_overlaps_from(x@, bv, o, j as int, cur),
                overlaps_spec(av, bv, o, c) == overlaps_from(av, bv, o, i as int, start),
            decreases b.elements.len() - j,
        {
            let y = &b.elements[j];
            assert(bv.elements[j as int] == y@);
            proof {
                lemma_elem_smaller(bv, j as int);
            }
            let (r, c1) = element_overlaps(x, y, o, cur);
            if r {
                assert(atom_overlaps_from(x@, bv, o, j as int, cur) == (true, c1));
                assert(overlaps_from(av, bv, o, i as int, start) == (true, c1));
                return (true, c1);
            }
            cur = c1;
            j += 1;
        }
        assert(atom_overlaps_from(x@, bv, o, j as int, cur) == (false, cur));
        assert(overlaps_from(av, bv, o, i as int, start) == overlaps_from(av, bv, o, i + 1, cur));
        i += 1;
    }
    (false, cur)
}

/// Two atoms share a value.
#[verifier::rlimit(60)]
#[verifier::spinoff_prover]
pub fn element_overlaps(a: &Element, b: &Element, o: LatticeOptions, c: u8) -> (r: (bool, u8))
    ensures
        r == elem_overlaps_spec(a@, b@, o, c),
    decreases esize(a@) + esize(b@), 7int,
{
    proof {
        lemma_esize_pos(a@);
        lemma_esize_pos(b@);
    }
    if matches!(a, Element::Never) || matches!(b, Element::Never) {
        return (false, c);
    }
    if is_uninhabited(a) || is_uninhabited(b) {
        return (false, c);
    }
    if a.same(b) {
        return (true, c);
    }
    if is_vanilla_mixed(a) || is_vanilla_mixed(b) || matches!(a, Element::Placeholder) || matches!(
        b,
        Element::Placeholder,
    ) {
        return (true, c);
    }
    match (a, b) {
        (Element::GenericParameter(ga), Element::GenericParameter(gb)) => {
            if !crate::element::chars_eq(&ga.name, &gb.name) || !ga.defining_entity.same(&gb.defining_entity) {
                return (false, c);
            }
            return overlaps_walk(&ga.constraint, &gb.constraint, o, c);
        },
        (Element::GenericParameter(ga), _) => {
            let other = Type::single(b.copy());
            assert(other@ == single_v(b@));
            return overlaps_walk(&ga.constraint, &other, o, c);
        },
        (_, Element::GenericParameter(gb)) => {
            let other = Type::single(a.copy());
            assert(other@ == single_v(a@));
            return overlaps_walk(&gb.constraint, &other, o, c);
        },
        (Element::Object(_), Element::Object(_)) => {
            return (true, c);
        },
        (Element::String(sa), Element::String(sb)) => {
            return (string_meet(sa, sb).is_some(), c);
        },
        (Element::List(_), Element::List(_)) => {
            return list_overlap(a, b, o, c);
        },
        (Element::Array(_), Element::Array(_)) => {
            return array_overlap(a, b, o, c);
        },
        (Element::List(_), Element::Array(_)) => {
            return list_array_overlaps(a, b, o, c);
        },
        (Element::Array(_), Element::List(_)) => {
            return list_array_overlaps(b, a, o, c);
        },
        (Element::Callable(ca), Element::Callable(cb)) => {
            return (callable_overlap(ca, cb), c);
        },
        (Element::Iterable(_), Element::Iterable(_)) => {
            return (true, c);
        },
        (Element::Iterable(_), Element::Array(_)) => {
            return iterable_array_overlaps(a, b, o, c);
        },
        (Element::Array(_), Element::Iterable(_)) => {
            return iterable_array_overlaps(b, a, o, c);
        },
        (Element::Iterable(_), Element::List(_)) => {
            return iterable_list_overlaps(a, b, o, c);
        },
        (Element::List(_), Element::Iterable(_)) => {
            return iterable_list_overlaps(b, a, o, c);
        },
        _ => {},
    }
    let a_structural = matches!(a, Element::ObjectShape(_) | Element::HasMethod(_) | Element::HasProperty(_));
    let b_structural = matches!(b, Element::ObjectShape(_) | Element::HasMethod(_) | Element::HasProperty(_));
    if a_structural && b_structural && !(matches!(a, Element::ObjectShape(_)) && matches!(b, Element::ObjectShape(_))) {
        return (true, c);
    }
    if (matches!(a, Element::Object(_)) && b_structural) || (a_structural && matches!(b, Element::Object(_))) {
        return (true, c);
    }
    let (r1, c1) = element_refines(a, b, o, c);
    if r1 {
        return (true, c1);
    }
    let (r2, c2) = element_refines(b, a, o, c1);
    if r2 {
        return (true, c2);
    }
    (families_overlap(a, b), c2)
}

/// Two lists share the empty list unless one must be non-empty; otherwise
/// their element types must overlap.
fn list_overlap(a: &Element, b: &Element, o: LatticeOptions, c: u8) -> (r: (bool, u8))
    requires
        a@ is List,
        b@ is List,
    ensures
        r == lists_overlap(a@, b@, o, c),
    decreases esize(a@) + esize(b@), 2int,
{
    match (a, b) {
        (Element::List(la), Element::List(lb)) => {
            if !la.non_empty && !lb.non_empty {
                return (true, c);
            }
            overlaps_walk(&la.element_type, &lb.element_type, o, c)
        },
        _ => (false, c),
    }
}

/// Two keyed arrays share the empty array unless one must be non-empty;
/// otherwise, when both have parameters, keys and values must overlap.
fn array_overlap(a: &Element, b: &Element, o: LatticeOptions, c: u8) -> (r: (bool, u8))
    requires
        a@ is Array,
        b@ is Array,
    ensures
        r == arrays_overlap(a@, b@, o, c),
    decreases esize(a@) + esize(b@), 2int,
{
    match (a, b) {
        (Element::Array(aa), Element::Array(ab)) => {
            if !aa.non_empty && !ab.non_empty {
                return (true, c);
            }
            match (&aa.key_param, &ab.key_param, &aa.value_param, &ab.value_param) {
                (Some(ak), Some(bk), Some(av), Some(bv)) => {
                    let (r1, c1) = overlaps_walk(ak, bk, o, c);
                    if !r1 {
                        return (false, c1);
                    }
                    overlaps_walk(av, bv, o, c1)
                },
                _ => (true, c),
            }
        },
        _ => (false, c),
    }
}

fn list_array_overlaps(l: &Element, ar: &Element, o: LatticeOptions, c: u8) -> (r: (bool, u8))
    requires
        l@ is List,
        ar@ is Array,
    ensures
        r == list_array_overlap(l@, ar@, o, c),
    decreases esize(l@) + esize(ar@), 2int,
{
    match (l, ar) {
        (Element::List(li), Element::Array(ai)) => {
            if !li.non_empty && !ai.non_empty {
                return (true, c);
            }
            proof {
                crate::element::lemma_tsize_pos(li.element_type@);
                lemma_single_size(mixed_v());
            }
            let mut cur = c;
            if let Some(k) = &ai.key_param {
                let it = int_type();
                let (r1, c1) = walk(&it, k, o, c);
                if !r1 {
                    return (false, c1);
                }
                cur = c1;
            }
            match &ai.value_param {
                Some(v) => overlaps_walk(&li.element_type, v, o, cur),
                None => {
                    let m = Type::single(crate::prelude::mixed());
                    assert(m@ == single_v(mixed_v()));
                    overlaps_walk(&li.element_type, &m, o, cur)
                },
            }
        },
        _ => (false, c),
    }
}

fn iterable_array_overlaps(it: &Element, ar: &Element, o: LatticeOptions, c: u8) -> (r: (bool, u8))
    requires
        it@ is Iterable,
        ar@ is Array,
    ensures
        r == iterable_array_overlap(it@, ar@, o, c),
    decreases esize(it@) + esize(ar@), 2int,
{
    match (it, ar) {
        (Element::Iterable(ii), Element::Array(ai)) => {
            if !ai.non_empty {
                return (true, c);
            }
            proof {
                lemma_single_size(mixed_v());
                lemma_single_size(ElemV::ArrayKey);
            }
            let (r1, c1) = match &ai.key_param {
                Some(k) => overlaps_walk(&ii.key_type, k, o, c),
                None => {
                    let ak = Type::single(Element::ArrayKey);
                    assert(ak@ == single_v(ElemV::ArrayKey));
                    overlaps_walk(&ii.key_type, &ak, o, c)
                },
            };
            if !r1 {
                return (false, c1);
            }
            match &ai.value_param {
                Some(v) => overlaps_walk(&ii.value_type, v, o, c1),
                None => {
                    let m = Type::single(crate::prelude::mixed());
                    assert(m@ == single_v(mixed_v()));
                    overlaps_walk(&ii.value_type, &m, o, c1)
                },
            }
        },
        _ => (false, c),
    }
}

fn iterable_list_overlaps(it: &Element, l: &Element, o: LatticeOptions, c: u8) -> (r: (bool, u8))
    requires
        it@ is Iterable,
        l@ is List,
    ensures
        r == iterable_list_overlap(it@, l@, o, c),
    decreases esize(it@) + esize(l@), 2int,
{
    match (it, l) {
        (Element::Iterable(ii), Element::List(li)) => {
            proof {
                crate::element::lemma_tsize_pos(li.element_type@);
            }
            let int_t = int_type();
            let (r1, c1) = walk(&int_t, &ii.key_type, o, c);
            if !r1 {
                return (false, c1);
            }
            if !li.non_empty {
                return (true, c1);
            }
            overlaps_walk(&ii.value_type, &li.element_type, o, c1)
        },
        _ => (false, c),
    }
}

} // verus!
