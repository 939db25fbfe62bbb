//! Single-call predicates over a [`Type`].
//!
//! - `is_X`: every atom of the type is in family `X` (and there is one).
//! - `contains_X`: some top-level atom is in family `X`.
//! - `is_truthy` / `is_falsy`: every atom is guaranteed truthy / falsy.
//! - `could_be_truthy` / `could_be_falsy`: some atom could be.
//! - `*_anywhere`: the question recurses through every nested type (generic
//!   constraints, class-string targets, list, array and iterable
//!   parameters, object type arguments).
pub mod element;

use vstd::prelude::*;

use crate::element::{
    CallV, CallableInfo, ClassLikeStringSpecifier, ClsSpecV, DerivedInfo, DerivedV, ElemV, Element, ElementKind,
    KnownElementEntry, KnownItemEntry, KnownPropertyEntry, SigV, Signature, lemma_props_size_elem, prop_view,
    props_size, props_view, Type, TypeV, esize, item_view, items_size, items_view,
    kelems_size, kind_of, known_elem_view, known_elems_view, lemma_elem_smaller, lemma_items_size_elem,
    lemma_kelems_size_elem, lemma_pssize_elem, lemma_tssize_elem, otsize, otv, params_view, pssize, sig_view, sigsize,
    tsize,
};
use crate::lattice::family::mixed::{is_never_type, never_type_v};
use crate::lattice::refines::is_vanilla_mixed;
use crate::lattice::refines_spec::{mixed_v, single_v};
use crate::predicates::element::{
    elem_could_be_falsy, elem_could_be_truthy, elem_is_falsy, elem_is_literal, elem_is_truthy,
};

verus! {

/// `true` iff `ty` is the bottom type.
pub fn is_never(ty: &Type) -> (r: bool)
    ensures
        r == (ty@ == never_type_v()),
{
    is_never_type(ty)
}

/// `true` iff `ty` is the unconstrained top.
pub fn is_mixed(ty: &Type) -> (r: bool)
    ensures
        r == (ty@ == single_v(mixed_v())),
{
    if ty.elements.len() != 1 || ty.flags.ignore_nullable_issues || ty.flags.ignore_falsable_issues {
        assert(ty@.elements.len() != 1 || ty@.flags != crate::element::empty_flags());
        return false;
    }
    assert(ty@.elements[0] == ty.elements@[0]@);
    let r = is_vanilla_mixed(&ty.elements[0]);
    if r {
        assert(ty@.elements =~= seq![mixed_v()]);
    }
    r
}

/// `true` iff `ty` has exactly one atom.
pub fn is_singleton(ty: &Type) -> (r: bool)
    ensures
        r == (ty@.elements.len() == 1),
{
    ty.elements.len() == 1
}

/// `true` iff `ty` has more than one atom.
pub fn is_union(ty: &Type) -> (r: bool)
    ensures
        r == (ty@.elements.len() > 1),
{
    ty.elements.len() > 1
}

// ---------------------------------------------------------------------
// Family predicates.
// ---------------------------------------------------------------------
/// There is an atom, and every atom's kind is one of `kinds`.
pub open spec fn all_kinds(s: Seq<ElemV>, kinds: Seq<ElementKind>) -> bool {
    s.len() > 0 && forall|i: int| 0 <= i < s.len() ==> kinds.contains(kind_of(#[trigger] s[i]))
}

/// Some atom's kind is one of `kinds`.
pub open spec fn any_kind(s: Seq<ElemV>, kinds: Seq<ElementKind>) -> bool {
    exists|i: int| 0 <= i < s.len() && kinds.contains(kind_of(#[trigger] s[i]))
}

fn kind_listed(k: ElementKind, kinds: &Vec<ElementKind>) -> (r: bool)
    ensures
        r == kinds@.contains(k),
{
    let mut i: usize = 0;
    while i < kinds.len()
        invariant
            i <= kinds.len(),
            forall|j: int| 0 <= j < i ==> kinds@[j] != k,
        decreases kinds.len() - i,
    {
        if kinds[i] == k {
            return true;
        }
        i += 1;
    }
    false
}

fn every_kind(ty: &Type, kinds: Vec<ElementKind>) -> (r: bool)
    ensures
        r == all_kinds(ty@.elements, kinds@),
{
    let ghost s = ty@.elements;
    if ty.elements.len() == 0 {
        return false;
    }
    let mut i: usize = 0;
    while i < ty.elements.len()
        invariant
            s == ty@.elements,
            s.len() == ty.elements.len(),
            i <= s.len(),
            forall|j: int| 0 <= j < i ==> kinds@.contains(kind_of(#[trigger] s[j])),
        decreases ty.elements.len() - i,
    {
        assert(s[i as int] == ty.elements@[i as int]@);
        if !kind_listed(ty.elements[i].kind(), &kinds) {
            return false;
        }
        i += 1;
    }
    true
}

fn some_kind(ty: &Type, kinds: Vec<ElementKind>) -> (r: bool)
    ensures
        r == any_kind(ty@.elements, kinds@),
{
    let ghost s = ty@.elements;
    let mut i: usize = 0;
    while i < ty.elements.len()
        invariant
            s == ty@.elements,
            s.len() == ty.elements.len(),
            i <= s.len(),
            forall|j: int| 0 <= j < i ==> !kinds@.contains(kind_of(#[trigger] s[j])),
        decreases ty.elements.len() - i,
    {
        assert(s[i as int] == ty.elements@[i as int]@);
        if kind_listed(ty.elements[i].kind(), &kinds) {
            return true;
        }
        i += 1;
    }
    false
}

pub open spec fn bool_kinds() -> Seq<ElementKind> {
    seq![ElementKind::Bool, ElementKind::True, ElementKind::False]
}

pub open spec fn array_kinds() -> Seq<ElementKind> {
    seq![ElementKind::Array, ElementKind::List]
}

pub open spec fn object_kinds() -> Seq<ElementKind> {
    seq![
        ElementKind::Object,
        ElementKind::Enum,
        ElementKind::ObjectShape,
        ElementKind::HasMethod,
        ElementKind::HasProperty,
        ElementKind::ObjectAny,
    ]
}

pub open spec fn scalar_kinds() -> Seq<ElementKind> {
    seq![
        ElementKind::Scalar,
        ElementKind::Int,
        ElementKind::Float,
        ElementKind::String,
        ElementKind::Bool,
        ElementKind::True,
        ElementKind::False,
        ElementKind::ClassLikeString,
        ElementKind::Numeric,
        ElementKind::ArrayKey,
    ]
}

pub open spec fn numeric_kinds() -> Seq<ElementKind> {
    seq![ElementKind::Numeric, ElementKind::Int, ElementKind::Float]
}

pub fn is_int(ty: &Type) -> (r: bool)
    ensures
        r == all_kinds(ty@.elements, seq![ElementKind::Int]),
{
    let kinds = vec![ElementKind::Int];
    assert(kinds@ =~= seq![ElementKind::Int]);
    every_kind(ty, kinds)
}

pub fn is_float(ty: &Type) -> (r: bool)
    ensures
        r == all_kinds(ty@.elements, seq![ElementKind::Float]),
{
    let kinds = vec![ElementKind::Float];
    assert(kinds@ =~= seq![ElementKind::Float]);
    every_kind(ty, kinds)
}

pub fn is_string(ty: &Type) -> (r: bool)
    ensures
        r == all_kinds(ty@.elements, seq![ElementKind::String]),
{
    let kinds = vec![ElementKind::String];
    assert(kinds@ =~= seq![ElementKind::String]);
    every_kind(ty, kinds)
}

pub fn is_bool(ty: &Type) -> (r: bool)
    ensures
        r == all_kinds(ty@.elements, bool_kinds()),
{
    let kinds = vec![ElementKind::Bool, ElementKind::True, ElementKind::False];
    assert(kinds@ =~= bool_kinds());
    every_kind(ty, kinds)
}

pub fn is_null(ty: &Type) -> (r: bool)
    ensures
        r == all_kinds(ty@.elements, seq![ElementKind::Null]),
{
    let kinds = vec![ElementKind::Null];
    assert(kinds@ =~= seq![ElementKind::Null]);
    every_kind(ty, kinds)
}

pub fn is_void(ty: &Type) -> (r: bool)
    ensures
        r == all_kinds(ty@.elements, seq![ElementKind::Void]),
{
    let kinds = vec![ElementKind::Void];
    assert(kinds@ =~= seq![ElementKind::Void]);
    every_kind(ty, kinds)
}

pub fn is_list(ty: &Type) -> (r: bool)
    ensures
        r == all_kinds(ty@.elements, seq![ElementKind::List]),
{
    let kinds = vec![ElementKind::List];
    assert(kinds@ =~= seq![ElementKind::List]);
    every_kind(ty, kinds)
}

pub fn is_keyed_array(ty: &Type) -> (r: bool)
    ensures
        r == all_kinds(ty@.elements, seq![ElementKind::Array]),
{
    let kinds = vec![ElementKind::Array];
    assert(kinds@ =~= seq![ElementKind::Array]);
    every_kind(ty, kinds)
}

pub fn is_array(ty: &Type) -> (r: bool)
    ensures
        r == all_kinds(ty@.elements, array_kinds()),
{
    let kinds = vec![ElementKind::Array, ElementKind::List];
    assert(kinds@ =~= array_kinds());
    every_kind(ty, kinds)
}

pub fn is_iterable(ty: &Type) -> (r: bool)
    ensures
        r == all_kinds(ty@.elements, seq![ElementKind::Iterable]),
{
    let kinds = vec![ElementKind::Iterable];
    assert(kinds@ =~= seq![ElementKind::Iterable]);
    every_kind(ty, kinds)
}

pub fn is_object(ty: &Type) -> (r: bool)
    ensures
        r == all_kinds(ty@.elements, object_kinds()),
{
    let kinds = vec![
        ElementKind::Object,
        ElementKind::Enum,
        ElementKind::ObjectShape,
        ElementKind::HasMethod,
        ElementKind::HasProperty,
        ElementKind::ObjectAny,
    ];
    assert(kinds@ =~= object_kinds());
    every_kind(ty, kinds)
}

pub fn is_resource(ty: &Type) -> (r: bool)
    ensures
        r == all_kinds(ty@.elements, seq![ElementKind::Resource]),
{
    let kinds = vec![ElementKind::Resource];
    assert(kinds@ =~= seq![ElementKind::Resource]);
    every_kind(ty, kinds)
}

pub fn is_callable(ty: &Type) -> (r: bool)
    ensures
        r == all_kinds(ty@.elements, seq![ElementKind::Callable]),
{
    let kinds = vec![ElementKind::Callable];
    assert(kinds@ =~= seq![ElementKind::Callable]);
    every_kind(ty, kinds)
}

pub fn is_array_key(ty: &Type) -> (r: bool)
    ensures
        r == all_kinds(ty@.elements, seq![ElementKind::ArrayKey]),
{
    let kinds = vec![ElementKind::ArrayKey];
    assert(kinds@ =~= seq![ElementKind::ArrayKey]);
    every_kind(ty, kinds)
}

pub fn is_scalar(ty: &Type) -> (r: bool)
    ensures
        r == all_kinds(ty@.elements, scalar_kinds()),
{
    let kinds = vec![ElementKind::Scalar, ElementKind::Int, ElementKind::Float, ElementKind::String, ElementKind::Bool, ElementKind::True, ElementKind::False, ElementKind::ClassLikeString, ElementKind::Numeric, ElementKind::ArrayKey];
    assert(kinds@ =~= scalar_kinds());
    every_kind(ty, kinds)
}

pub fn is_numeric(ty: &Type) -> (r: bool)
    ensures
        r == all_kinds(ty@.elements, numeric_kinds()),
{
    let kinds = vec![ElementKind::Numeric, ElementKind::Int, ElementKind::Float];
    assert(kinds@ =~= numeric_kinds());
    every_kind(ty, kinds)
}

pub fn contains_int(ty: &Type) -> (r: bool)
    ensures
        r == any_kind(ty@.elements, seq![ElementKind::Int]),
{
    let kinds = vec![ElementKind::Int];
    assert(kinds@ =~= seq![ElementKind::Int]);
    some_kind(ty, kinds)
}

pub fn contains_float(ty: &Type) -> (r: bool)
    ensures
        r == any_kind(ty@.elements, seq![ElementKind::Float]),
{
    let kinds = vec![ElementKind::Float];
    assert(kinds@ =~= seq![ElementKind::Float]);
    some_kind(ty, kinds)
}

pub fn contains_string(ty: &Type) -> (r: bool)
    ensures
        r == any_kind(ty@.elements, seq![ElementKind::String]),
{
    let kinds = vec![ElementKind::String];
    assert(kinds@ =~= seq![ElementKind::String]);
    some_kind(ty, kinds)
}

pub fn contains_bool(ty: &Type) -> (r: bool)
    ensures
        r == any_kind(ty@.elements, bool_kinds()),
{
    let kinds = vec![ElementKind::Bool, ElementKind::True, ElementKind::False];
    assert(kinds@ =~= bool_kinds());
    some_kind(ty, kinds)
}

pub fn contains_null(ty: &Type) -> (r: bool)
    ensures
        r == any_kind(ty@.elements, seq![ElementKind::Null]),
{
    let kinds = vec![ElementKind::Null];
    assert(kinds@ =~= seq![ElementKind::Null]);
    some_kind(ty, kinds)
}

pub fn contains_void(ty: &Type) -> (r: bool)
    ensures
        r == any_kind(ty@.elements, seq![ElementKind::Void]),
{
    let kinds = vec![ElementKind::Void];
    assert(kinds@ =~= seq![ElementKind::Void]);
    some_kind(ty, kinds)
}

pub fn contains_array(ty: &Type) -> (r: bool)
    ensures
        r == any_kind(ty@.elements, array_kinds()),
{
    let kinds = vec![ElementKind::Array, ElementKind::List];
    assert(kinds@ =~= array_kinds());
    some_kind(ty, kinds)
}

pub fn contains_iterable(ty: &Type) -> (r: bool)
    ensures
        r == any_kind(ty@.elements, seq![ElementKind::Iterable]),
{
    let kinds = vec![ElementKind::Iterable];
    assert(kinds@ =~= seq![ElementKind::Iterable]);
    some_kind(ty, kinds)
}

pub fn contains_object(ty: &Type) -> (r: bool)
    ensures
        r == any_kind(ty@.elements, object_kinds()),
{
    let kinds = vec![
        ElementKind::Object,
        ElementKind::Enum,
        ElementKind::ObjectShape,
        ElementKind::HasMethod,
        ElementKind::HasProperty,
        ElementKind::ObjectAny,
    ];
    assert(kinds@ =~= object_kinds());
    some_kind(ty, kinds)
}

pub fn contains_resource(ty: &Type) -> (r: bool)
    ensures
        r == any_kind(ty@.elements, seq![ElementKind::Resource]),
{
    let kinds = vec![ElementKind::Resource];
    assert(kinds@ =~= seq![ElementKind::Resource]);
    some_kind(ty, kinds)
}

pub fn contains_callable(ty: &Type) -> (r: bool)
    ensures
        r == any_kind(ty@.elements, seq![ElementKind::Callable]),
{
    let kinds = vec![ElementKind::Callable];
    assert(kinds@ =~= seq![ElementKind::Callable]);
    some_kind(ty, kinds)
}

pub fn contains_mixed(ty: &Type) -> (r: bool)
    ensures
        r == any_kind(ty@.elements, seq![ElementKind::Mixed]),
{
    let kinds = vec![ElementKind::Mixed];
    assert(kinds@ =~= seq![ElementKind::Mixed]);
    some_kind(ty, kinds)
}

// ---------------------------------------------------------------------
// Truthiness.
// ---------------------------------------------------------------------
/// Every atom is guaranteed truthy; `false` for a type with no atom.
pub fn is_truthy(ty: &Type) -> (r: bool)
    ensures
        r == (ty@.elements.len() > 0 && forall|i: int|
            0 <= i < ty@.elements.len() ==> elem_is_truthy(#[trigger] ty@.elements[i])),
{
    let ghost s = ty@.elements;
    if ty.elements.len() == 0 {
        return false;
    }
    let mut i: usize = 0;
    while i < ty.elements.len()
        invariant
            s == ty@.elements,
            s.len() == ty.elements.len(),
            i <= s.len(),
            forall|j: int| 0 <= j < i ==> elem_is_truthy(#[trigger] s[j]),
        decreases ty.elements.len() - i,
    {
        assert(s[i as int] == ty.elements@[i as int]@);
        if !element::is_truthy(&ty.elements[i]) {
            return false;
        }
        i += 1;
    }
    true
}

/// Every atom is guaranteed falsy; `false` for a type with no atom.
pub fn is_falsy(ty: &Type) -> (r: bool)
    ensures
        r == (ty@.elements.len() > 0 && forall|i: int|
            0 <= i < ty@.elements.len() ==> elem_is_falsy(#[trigger] ty@.elements[i])),
{
    let ghost s = ty@.elements;
    if ty.elements.len() == 0 {
        return false;
    }
    let mut i: usize = 0;
    while i < ty.elements.len()
        invariant
            s == ty@.elements,
            s.len() == ty.elements.len(),
            i <= s.len(),
            forall|j: int| 0 <= j < i ==> elem_is_falsy(#[trigger] s[j]),
        decreases ty.elements.len() - i,
    {
        assert(s[i as int] == ty.elements@[i as int]@);
        if !element::is_falsy(&ty.elements[i]) {
            return false;
        }
        i += 1;
    }
    true
}

/// Some atom could be truthy.
pub fn could_be_truthy(ty: &Type) -> (r: bool)
    ensures
        r == exists|i: int| 0 <= i < ty@.elements.len() && elem_could_be_truthy(#[trigger] ty@.elements[i]),
{
    let ghost s = ty@.elements;
    let mut i: usize = 0;
    while i < ty.elements.len()
        invariant
            s == ty@.elements,
            s.len() == ty.elements.len(),
            i <= s.len(),
            forall|j: int| 0 <= j < i ==> !elem_could_be_truthy(#[trigger] s[j]),
        decreases ty.elements.len() - i,
    {
        assert(s[i as int] == ty.elements@[i as int]@);
        if element::could_be_truthy(&ty.elements[i]) {
            return true;
        }
        i += 1;
    }
    false
}

/// Some atom could be falsy.
pub fn could_be_falsy(ty: &Type) -> (r: bool)
    ensures
        r == exists|i: int| 0 <= i < ty@.elements.len() && elem_could_be_falsy(#[trigger] ty@.elements[i]),
{
    let ghost s = ty@.elements;
    let mut i: usize = 0;
    while i < ty.elements.len()
        invariant
            s == ty@.elements,
            s.len() == ty.elements.len(),
            i <= s.len(),
            forall|j: int| 0 <= j < i ==> !elem_could_be_falsy(#[trigger] s[j]),
        decreases ty.elements.len() - i,
    {
        assert(s[i as int] == ty.elements@[i as int]@);
        if element::could_be_falsy(&ty.elements[i]) {
            return true;
        }
        i += 1;
    }
    false
}

/// Every atom stands for a single literal value; `false` for a type with
/// no atom.
pub fn is_literal(ty: &Type) -> (r: bool)
    ensures
        r == (ty@.elements.len() > 0 && forall|i: int|
            0 <= i < ty@.elements.len() ==> elem_is_literal(#[trigger] ty@.elements[i])),
{
    let ghost s = ty@.elements;
    if ty.elements.len() == 0 {
        return false;
    }
    let mut i: usize = 0;
    while i < ty.elements.len()
        invariant
            s == ty@.elements,
            s.len() == ty.elements.len(),
            i <= s.len(),
            forall|j: int| 0 <= j < i ==> elem_is_literal(#[trigger] s[j]),
        decreases ty.elements.len() - i,
    {
        assert(s[i as int] == ty.elements@[i as int]@);
        if !element::is_literal(&ty.elements[i]) {
            return false;
        }
        i += 1;
    }
    true
}

/// `ty` is a single literal atom: the constant-folding check.
pub fn is_constant_foldable(ty: &Type) -> (r: bool)
    ensures
        r == (ty@.elements.len() == 1 && elem_is_literal(ty@.elements[0])),
{
    is_singleton(ty) && is_literal(ty)
}

// ---------------------------------------------------------------------
// Deep searches.
// ---------------------------------------------------------------------
/// What a deep search looks for.
#[derive(Debug, Clone, Copy, PartialEq, Eq, Structural)]
pub enum Probe {
    /// A `mixed` atom, narrowed or not.
    Mixed,
    /// A template (generic) parameter.
    Template,
    /// The inference-time placeholder.
    Placeholder,
    /// An indirection other than a variable: alias, reference, member or
    /// global reference, conditional or derived type.
    Unresolved,
}

/// The atom itself is what `p` looks for.
pub open spec fn hits(e: ElemV, p: Probe) -> bool {
    match p {
        Probe::Mixed => e is Mixed,
        Probe::Template => e is GenericParameter,
        Probe::Placeholder => e is Placeholder,
        Probe::Unresolved => e is Reference || e is MemberReference || e is GlobalReference || e is Alias
            || e is Conditional || e is Derived,
    }
}

/// Some atom of a signature's types, at any depth, is what `p` looks for.
pub open spec fn sig_has(s: SigV, p: Probe) -> bool
    decreases s,
{
    ||| type_has(s.ret, p)
    ||| (s.throws matches Some(t) && type_has(t, p))
    ||| (s.params matches Some(ps) && exists|j: int| 0 <= j < ps.len() && type_has(#[trigger] ps[j].ty, p))
}

/// Some atom of `t`, at any depth, is what `p` looks for.
pub open spec fn type_has(t: TypeV, p: Probe) -> bool
    decreases t,
{
    exists|i: int| 0 <= i < t.elements.len() && elem_has(#[trigger] t.elements[i], p)
}

/// `e` or an atom nested in it is what `p` looks for.
pub open spec fn elem_has(e: ElemV, p: Probe) -> bool
    decreases e,
{
    hits(e, p) || match e {
        ElemV::GenericParameter { constraint, .. } => type_has(constraint, p),
        ElemV::ClassLikeString(_, ClsSpecV::OfType(t)) => type_has(t, p),
        ElemV::ClassLikeString(_, ClsSpecV::Generic(t)) => type_has(t, p),
        ElemV::List { element_type, known, .. } => type_has(element_type, p) || exists|j: int|
            0 <= j < known.len() && type_has(#[trigger] known[j].value, p),
        ElemV::Array { key, value, items, .. } => (key matches Some(k) && type_has(k, p)) || (value matches Some(v)
            && type_has(v, p)) || exists|j: int| 0 <= j < items.len() && type_has(#[trigger] items[j].value, p),
        ElemV::Iterable { key, value } => type_has(key, p) || type_has(value, p),
        ElemV::ObjectShape { props, .. } => exists|j: int| 0 <= j < props.len() && type_has(#[trigger] props[j].value, p),
        ElemV::Object { args, .. } => exists|j: int| 0 <= j < args.len() && type_has(#[trigger] args[j], p),
        ElemV::Reference { args, .. } => exists|j: int| 0 <= j < args.len() && type_has(#[trigger] args[j], p),
        ElemV::Callable(CallV::Sig(s)) => sig_has(s, p),
        ElemV::Callable(CallV::Closure(s)) => sig_has(s, p),
        ElemV::Conditional { subject, target, then_type, otherwise, .. } => type_has(subject, p) || type_has(
            target,
            p,
        ) || type_has(then_type, p) || type_has(otherwise, p),
        ElemV::Derived(d) => match d {
            DerivedV::KeyOf(t) => type_has(t, p),
            DerivedV::ValueOf(t) => type_has(t, p),
            DerivedV::PropertiesOf(t, _) => type_has(t, p),
            DerivedV::IndexAccess(t, i) => type_has(t, p) || type_has(i, p),
            DerivedV::IntMask(ts) => exists|j: int| 0 <= j < ts.len() && type_has(#[trigger] ts[j], p),
            DerivedV::IntMaskOf(t) => type_has(t, p),
            DerivedV::TemplateType(o, c, n) => type_has(o, p) || type_has(c, p) || type_has(n, p),
            DerivedV::New(t) => type_has(t, p),
        },
        _ => false,
    }
}

fn probe_hits(e: &Element, p: Probe) -> (r: bool)
    ensures
        r == hits(e@, p),
{
    match p {
        Probe::Mixed => matches!(e, Element::Mixed(_)),
        Probe::Template => matches!(e, Element::GenericParameter(_)),
        Probe::Placeholder => matches!(e, Element::Placeholder),
        Probe::Unresolved => match e {
            Element::Reference(_) | Element::MemberReference { .. } | Element::GlobalReference(_) | Element::Alias {
                ..
            } | Element::Conditional(_) | Element::Derived(_) => true,
            _ => false,
        },
    }
}

/// Search `t` at every depth.
pub fn type_anywhere(t: &Type, p: Probe) -> (r: bool)
    ensures
        r == type_has(t@, p),
    decreases tsize(t@),
{
    let ghost s = t@.elements;
    let mut i: usize = 0;
    while i < t.elements.len()
        invariant
            s == t@.elements,
            s.len() == t.elements.len(),
            i <= s.len(),
            forall|j: int| 0 <= j < i ==> !elem_has(#[trigger] s[j], p),
            type_has(t@, p) == exists|j: int| 0 <= j < s.len() && elem_has(#[trigger] s[j], p),
        decreases t.elements.len() - i,
    {
        assert(s[i as int] == t.elements@[i as int]@);
        proof {
            lemma_elem_smaller(t@, i as int);
        }
        if elem_anywhere(&t.elements[i], p) {
            return true;
        }
        i += 1;
    }
    false
}

/// Search an optional type.
fn opt_anywhere(t: &Option<Type>, p: Probe) -> (r: bool)
    ensures
        r == (otv(*t) matches Some(k) && type_has(k, p)),
    decreases otsize(otv(*t)) + 1,
{
    match t {
        Some(k) => type_anywhere(k, p),
        None => false,
    }
}

/// Search the value types of a shape's entries.
fn items_anywhere(items: &Vec<KnownItemEntry>, p: Probe) -> (r: bool)
    ensures
        r == exists|j: int|
            0 <= j < items_view(*items).len() && type_has(#[trigger] items_view(*items)[j].value, p),
    decreases items_size(items_view(*items)),
{
    let ghost v = items_view(*items);
    let mut j: usize = 0;
    while j < items.len()
        invariant
            v == items_view(*items),
            v.len() == items.len(),
            j <= v.len(),
            forall|k: int| 0 <= k < j ==> !type_has(#[trigger] v[k].value, p),
        decreases items.len() - j,
    {
        assert(v[j as int] == item_view(items@[j as int]));
        proof {
            lemma_items_size_elem(v, j as int);
        }
        if type_anywhere(&items[j].value, p) {
            assert(type_has(v[j as int].value, p));
            return true;
        }
        j += 1;
    }
    false
}

/// Search the value types of an object shape's properties.
fn props_anywhere(props: &Vec<KnownPropertyEntry>, p: Probe) -> (r: bool)
    ensures
        r == exists|j: int|
            0 <= j < props_view(*props).len() && type_has(#[trigger] props_view(*props)[j].value, p),
    decreases props_size(props_view(*props)),
{
    let ghost v = props_view(*props);
    let mut j: usize = 0;
    while j < props.len()
        invariant
            v == props_view(*props),
            v.len() == props.len(),
            j <= v.len(),
            forall|k: int| 0 <= k < j ==> !type_has(#[trigger] v[k].value, p),
        decreases props.len() - j,
    {
        assert(v[j as int] == prop_view(props@[j as int]));
        proof {
            lemma_props_size_elem(v, j as int);
        }
        if type_anywhere(&props[j].value, p) {
            assert(type_has(v[j as int].value, p));
            return true;
        }
        j += 1;
    }
    false
}

/// Search the value types of a list shape's entries.
fn known_anywhere(known: &Vec<KnownElementEntry>, p: Probe) -> (r: bool)
    ensures
        r == exists|j: int|
            0 <= j < known_elems_view(*known).len() && type_has(#[trigger] known_elems_view(*known)[j].value, p),
    decreases kelems_size(known_elems_view(*known)),
{
    let ghost v = known_elems_view(*known);
    let mut j: usize = 0;
    while j < known.len()
        invariant
            v == known_elems_view(*known),
            v.len() == known.len(),
            j <= v.len(),
            forall|k: int| 0 <= k < j ==> !type_has(#[trigger] v[k].value, p),
        decreases known.len() - j,
    {
        assert(v[j as int] == known_elem_view(known@[j as int]));
        proof {
            lemma_kelems_size_elem(v, j as int);
        }
        if type_anywhere(&known[j].value, p) {
            assert(type_has(v[j as int].value, p));
            return true;
        }
        j += 1;
    }
    false
}

/// Search a signature's return, thrown and parameter types.
fn signature_anywhere(s: &Signature, p: Probe) -> (r: bool)
    ensures
        r == sig_has(sig_view(*s), p),
    decreases sigsize(sig_view(*s)),
{
    if type_anywhere(&s.return_type, p) {
        return true;
    }
    if let Some(t) = &s.throws {
        if type_anywhere(t, p) {
            return true;
        }
    }
    match &s.parameters {
        Some(ps) => {
            let ghost v = params_view(*ps);
            let mut j: usize = 0;
            while j < ps.len()
                invariant
                    v == params_view(*ps),
                    sig_view(*s).params == Some(v),
                    v.len() == ps.len(),
                    pssize(v) < sigsize(sig_view(*s)),
                    j <= v.len(),
                    forall|k: int| 0 <= k < j ==> !type_has(#[trigger] v[k].ty, p),
                decreases ps.len() - j,
            {
                assert(v[j as int].ty == ps@[j as int].type_@);
                proof {
                    lemma_pssize_elem(v, j as int);
                }
                if type_anywhere(&ps[j].type_, p) {
                    assert(type_has(v[j as int].ty, p));
                    return true;
                }
                j += 1;
            }
            false
        },
        None => false,
    }
}

/// Search `e` and every type nested in it.
#[verifier::rlimit(40)]
#[verifier::spinoff_prover]
pub fn elem_anywhere(e: &Element, p: Probe) -> (r: bool)
    ensures
        r == elem_has(e@, p),
    decreases esize(e@),
{
    if probe_hits(e, p) {
        return true;
    }
    match e {
        Element::GenericParameter(g) => type_anywhere(&g.constraint, p),
        Element::ClassLikeString(c) => match &c.specifier {
            ClassLikeStringSpecifier::OfType(t) => type_anywhere(t, p),
            ClassLikeStringSpecifier::Generic(t) => type_anywhere(t, p),
            _ => false,
        },
        Element::List(l) => {
            let r = type_anywhere(&l.element_type, p) || known_anywhere(&l.known_elements, p);
            let ghost kv = known_elems_view(l.known_elements);
            assert(elem_has(e@, p) == (type_has(l.element_type@, p) || exists|j: int|
                0 <= j < kv.len() && type_has(#[trigger] kv[j].value, p)));
            r
        },
        Element::Array(a) => {
            opt_anywhere(&a.key_param, p) || opt_anywhere(&a.value_param, p) || items_anywhere(&a.known_items, p)
        },
        Element::Iterable(it) => type_anywhere(&it.key_type, p) || type_anywhere(&it.value_type, p),
        Element::ObjectShape(sh) => {
            let ghost pv = props_view(sh.known_properties);
            let r = props_anywhere(&sh.known_properties, p);
            assert(elem_has(e@, p) == exists|j: int| 0 <= j < pv.len() && type_has(#[trigger] pv[j].value, p));
            r
        },
        Element::Object(o) => {
            let ghost args = crate::element::tvs(o.type_args);
            let mut j: usize = 0;
            while j < o.type_args.len()
                invariant
                    args == crate::element::tvs(o.type_args),
                    args.len() == o.type_args.len(),
                    j <= args.len(),
                    e@ == (ElemV::Object { name: o.name@, args }),
                    forall|k: int| 0 <= k < j ==> !type_has(#[trigger] args[k], p),
                decreases o.type_args.len() - j,
            {
                assert(args[j as int] == o.type_args@[j as int]@);
                proof {
                    lemma_tssize_elem(args, j as int);
                }
                if type_anywhere(&o.type_args[j], p) {
                    return true;
                }
                j += 1;
            }
            false
        },
        Element::Reference(rf) => {
            let ghost args = crate::element::tvs(rf.type_args);
            let mut j: usize = 0;
            while j < rf.type_args.len()
                invariant
                    args == crate::element::tvs(rf.type_args),
                    args.len() == rf.type_args.len(),
                    j <= args.len(),
                    e@ == (ElemV::Reference { name: rf.name@, args }),
                    forall|k: int| 0 <= k < j ==> !type_has(#[trigger] args[k], p),
                decreases rf.type_args.len() - j,
            {
                assert(args[j as int] == rf.type_args@[j as int]@);
                proof {
                    lemma_tssize_elem(args, j as int);
                }
                if type_anywhere(&rf.type_args[j], p) {
                    return true;
                }
                j += 1;
            }
            false
        },
        Element::Callable(CallableInfo::Signature(s)) => signature_anywhere(s, p),
        Element::Callable(CallableInfo::Closure(s)) => signature_anywhere(s, p),
        Element::Conditional(c) => type_anywhere(&c.subject, p) || type_anywhere(&c.target, p) || type_anywhere(
            &c.then_type,
            p,
        ) || type_anywhere(&c.otherwise, p),
        Element::Derived(d) => match d {
            DerivedInfo::KeyOf(t) => type_anywhere(t, p),
            DerivedInfo::ValueOf(t) => type_anywhere(t, p),
            DerivedInfo::PropertiesOf { target, .. } => type_anywhere(target, p),
            DerivedInfo::IndexAccess { target, index } => type_anywhere(target, p) || type_anywhere(index, p),
            DerivedInfo::IntMask(ts) => {
                let ghost args = crate::element::tvs(*ts);
                let mut j: usize = 0;
                while j < ts.len()
                    invariant
                        args == crate::element::tvs(*ts),
                        args.len() == ts.len(),
                        j <= args.len(),
                        e@ == ElemV::Derived(DerivedV::IntMask(args)),
                        forall|k: int| 0 <= k < j ==> !type_has(#[trigger] args[k], p),
                    decreases ts.len() - j,
                {
                    assert(args[j as int] == ts@[j as int]@);
                    proof {
                        lemma_tssize_elem(args, j as int);
                    }
                    if type_anywhere(&ts[j], p) {
                        return true;
                    }
                    j += 1;
                }
                false
            },
            DerivedInfo::IntMaskOf(t) => type_anywhere(t, p),
            DerivedInfo::TemplateType { object, class_name, template_name } => type_anywhere(object, p)
                || type_anywhere(class_name, p) || type_anywhere(template_name, p),
            DerivedInfo::New(t) => type_anywhere(t, p),
        },
        _ => false,
    }
}

/// Some atom anywhere in `ty` is a `mixed`.
pub fn contains_mixed_anywhere(ty: &Type) -> (r: bool)
    ensures
        r == type_has(ty@, Probe::Mixed),
{
    type_anywhere(ty, Probe::Mixed)
}

/// Some atom anywhere in `ty` is a template parameter.
pub fn contains_template_anywhere(ty: &Type) -> (r: bool)
    ensures
        r == type_has(ty@, Probe::Template),
{
    type_anywhere(ty, Probe::Template)
}

/// Some atom anywhere in `ty` is the placeholder.
pub fn contains_placeholder_anywhere(ty: &Type) -> (r: bool)
    ensures
        r == type_has(ty@, Probe::Placeholder),
{
    type_anywhere(ty, Probe::Placeholder)
}

/// Some atom anywhere in `ty` is unresolved (an alias, reference, member
/// or global reference, conditional or derived type).
pub fn contains_unresolved_anywhere(ty: &Type) -> (r: bool)
    ensures
        r == type_has(ty@, Probe::Unresolved),
{
    type_anywhere(ty, Probe::Unresolved)
}

/// No atom anywhere in `ty` is unresolved.
pub fn is_fully_resolved(ty: &Type) -> (r: bool)
    ensures
        r == !type_has(ty@, Probe::Unresolved),
{
    !contains_unresolved_anywhere(ty)
}

// ---------------------------------------------------------------------
// Laws.
// ---------------------------------------------------------------------
/// A type whose every atom is truthy has no atom that could be falsy.
pub proof fn lemma_truthy_cannot_be_falsy(t: TypeV)
    requires
        forall|i: int| 0 <= i < t.elements.len() ==> elem_is_truthy(#[trigger] t.elements[i]),
    ensures
        !exists|i: int| 0 <= i < t.elements.len() && elem_could_be_falsy(#[trigger] t.elements[i]),
{
}

/// A type whose every atom is falsy has no atom that could be truthy.
pub proof fn lemma_falsy_cannot_be_truthy(t: TypeV)
    requires
        forall|i: int| 0 <= i < t.elements.len() ==> elem_is_falsy(#[trigger] t.elements[i]),
    ensures
        !exists|i: int| 0 <= i < t.elements.len() && elem_could_be_truthy(#[trigger] t.elements[i]),
{
}

} // verus!
