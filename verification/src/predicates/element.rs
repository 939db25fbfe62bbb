//! Per-element truthiness, falsiness and literal classifiers.
use vstd::prelude::*;

use crate::element::{
    ElemV, Element, FloatInfo, IntInfo, KnownElemV, KnownElementEntry, StrLitV, StringLiteral,
    Truthiness, esize, known_elem_view, known_elems_view, lemma_elem_smaller,
};
use crate::lattice::family::array::{has_required_known_item, is_empty_array};
use crate::lattice::refines_spec::has_required_item;
use crate::lattice::family::mixed::{empty_array_v, empty_string_v, float_bits_zero, is_never_type, never_type_v};

verus! {

/// Every value of `e` is truthy. A resource is truthy even once closed.
pub open spec fn elem_is_truthy(e: ElemV) -> bool
    decreases e,
{
    match e {
        ElemV::True | ElemV::ObjectAny | ElemV::Object { .. } | ElemV::Enum { .. } | ElemV::ClassLikeString(..)
        | ElemV::Callable(_) | ElemV::ObjectShape { .. } | ElemV::HasMethod(_) | ElemV::HasProperty(_) => true,
        ElemV::Resource(_) => true,
        ElemV::Int(IntInfo::Literal(n)) => n != 0,
        ElemV::Int(IntInfo::Range(lo, hi)) => (lo matches Some(l) && l > 0) || (hi matches Some(h) && h < 0),
        ElemV::Float(FloatInfo::Literal(bits)) => !float_bits_zero(bits),
        ElemV::Str(info) => if e == empty_string_v() {
            false
        } else if info.flags.truthy {
            true
        } else {
            info.literal matches StrLitV::Value(v) && v.len() > 0 && v != seq!['0']
        },
        ElemV::Array { items, non_empty, .. } => e != empty_array_v() && (non_empty || has_required_item(items)),
        ElemV::List { known, non_empty, .. } => non_empty || has_required_element(known),
        ElemV::Mixed(m) => m.truthiness == Truthiness::Truthy,
        ElemV::GenericParameter { constraint, .. } => {
            &&& constraint.elements.len() > 0
            &&& forall|i: int| 0 <= i < constraint.elements.len() ==> elem_is_truthy(constraint.elements[i])
        },
        _ => false,
    }
}

/// Every value of `e` is falsy. Of strings, `""` and `"0"` are falsy.
pub open spec fn elem_is_falsy(e: ElemV) -> bool
    decreases e,
{
    match e {
        ElemV::False | ElemV::Null | ElemV::Void => true,
        ElemV::Int(info) => info == IntInfo::Literal(0),
        ElemV::Float(FloatInfo::Literal(bits)) => float_bits_zero(bits),
        ElemV::Str(info) => info.literal matches StrLitV::Value(v) && (v.len() == 0 || v == seq!['0']),
        ElemV::Array { key, value, items, non_empty } => e == empty_array_v() || (items.len() == 0 && !(key matches Some(
            k) && value matches Some(v) && k != never_type_v() && v != never_type_v()) && !non_empty),
        ElemV::List { element_type, known, non_empty, .. } => known.len() == 0 && element_type == never_type_v()
            && !non_empty,
        ElemV::Mixed(m) => m.truthiness == Truthiness::Falsy,
        ElemV::GenericParameter { constraint, .. } => {
            &&& constraint.elements.len() > 0
            &&& forall|i: int| 0 <= i < constraint.elements.len() ==> elem_is_falsy(constraint.elements[i])
        },
        _ => false,
    }
}

/// Some element of a list shape must be present.
pub open spec fn has_required_element(known: Seq<KnownElemV>) -> bool {
    exists|j: int| 0 <= j < known.len() && !(#[trigger] known[j]).optional
}

/// Some value of `e` could be truthy; `never` and `void` have none.
pub open spec fn elem_could_be_truthy(e: ElemV) -> bool {
    !(e is Never) && !(e is Void) && !elem_is_falsy(e)
}

/// Some value of `e` could be falsy; `never` has no value at all.
pub open spec fn elem_could_be_falsy(e: ElemV) -> bool {
    !(e is Never) && !elem_is_truthy(e)
}

/// `e` stands for a single literal value.
pub open spec fn elem_is_literal(e: ElemV) -> bool {
    match e {
        ElemV::True | ElemV::False | ElemV::Null | ElemV::Void => true,
        ElemV::Int(info) => info is Literal,
        ElemV::Float(info) => info is Literal,
        ElemV::Str(info) => info.literal is Value,
        _ => false,
    }
}

fn is_empty_string(e: &Element) -> (r: bool)
    ensures
        r == (e@ == empty_string_v()),
{
    match e {
        Element::String(s) => {
            let empty = match &s.literal {
                StringLiteral::Value(v) => v.len() == 0,
                _ => false,
            };
            let r = empty && s.casing == crate::element::StringCasing::Unspecified && !s.flags.non_empty
                && !s.flags.truthy && !s.flags.numeric && !s.flags.callable;
            proof {
                if let StringLiteral::Value(v) = &s.literal {
                    if v.len() == 0 {
                        assert(v@ =~= Seq::<char>::empty());
                    }
                }
            }
            r
        },
        _ => false,
    }
}

/// Some element of a list shape must be present.
fn has_required_known_element(known: &Vec<KnownElementEntry>) -> (r: bool)
    ensures
        r == has_required_element(known_elems_view(*known)),
{
    let ghost v = known_elems_view(*known);
    let mut i: usize = 0;
    while i < known.len()
        invariant
            i <= known.len(),
            v == known_elems_view(*known),
            v.len() == known.len(),
            forall|j: int| 0 <= j < i ==> (#[trigger] v[j]).optional,
        decreases known.len() - i,
    {
        assert(v[i as int] == known_elem_view(known@[i as int]));
        if !known[i].optional {
            return true;
        }
        i += 1;
    }
    false
}

/// Every value of `e` is truthy.
pub fn is_truthy(e: &Element) -> (r: bool)
    ensures
        r == elem_is_truthy(e@),
    decreases esize(e@),
{
    match e {
        Element::True | Element::ObjectAny | Element::Object(_) | Element::Enum(_) | Element::ClassLikeString(_)
        | Element::Callable(_) | Element::ObjectShape(_) | Element::HasMethod(_) | Element::HasProperty(_) => true,
        Element::Resource(_) => true,
        Element::Int(IntInfo::Literal(n)) => *n != 0,
        Element::Int(IntInfo::Range(lo, hi)) => {
            if let Some(l) = lo {
                if *l > 0 {
                    return true;
                }
            }
            if let Some(h) = hi {
                if *h < 0 {
                    return true;
                }
            }
            false
        },
        Element::Float(FloatInfo::Literal(bits)) => !(*bits == 0 || *bits == 0x8000_0000_0000_0000),
        Element::String(info) => {
            if is_empty_string(e) {
                return false;
            }
            if info.flags.truthy {
                return true;
            }
            match &info.literal {
                StringLiteral::Value(v) => {
                    let zero = v.len() == 1 && v[0] == '0';
                    assert(zero == (v@ == seq!['0'])) by {
                        if v@ == seq!['0'] {
                            assert(v@.len() == 1 && v@[0] == '0');
                        }
                        if zero {
                            assert(v@ =~= seq!['0']);
                        }
                    }
                    v.len() > 0 && !zero
                },
                _ => false,
            }
        },
        Element::Array(a) => !is_empty_array(e) && (a.non_empty || has_required_known_item(&a.known_items)),
        Element::List(l) => l.non_empty || has_required_known_element(&l.known_elements),
        Element::Mixed(m) => m.truthiness == Truthiness::Truthy,
        Element::GenericParameter(g) => {
            let ghost s = g.constraint@.elements;
            let n = g.constraint.elements.len();
            if n == 0 {
                return false;
            }
            let mut i: usize = 0;
            while i < n
                invariant
                    n == g.constraint.elements.len(),
                    s == g.constraint@.elements,
                    s.len() == n,
                    i <= n,
                    esize(e@) == 2 + crate::element::tsize(g.constraint@),
                    forall|k: int| 0 <= k < i ==> elem_is_truthy(#[trigger] s[k]),
                    elem_is_truthy(e@) == (s.len() > 0 && forall|k: int| 0 <= k < s.len() ==> elem_is_truthy(#[trigger] s[k])),
                decreases n - i,
            {
                assert(s[i as int] == g.constraint.elements@[i as int]@);
                proof {
                    lemma_elem_smaller(g.constraint@, i as int);
                }
                if !is_truthy(&g.constraint.elements[i]) {
                    assert(!elem_is_truthy(s[i as int]));
                    return false;
                }
                i += 1;
            }
            true
        },
        _ => false,
    }
}

/// Every value of `e` is falsy.
pub fn is_falsy(e: &Element) -> (r: bool)
    ensures
        r == elem_is_falsy(e@),
    decreases esize(e@),
{
    match e {
        Element::False | Element::Null | Element::Void => true,
        Element::Int(info) => *info == IntInfo::Literal(0),
        Element::Float(FloatInfo::Literal(bits)) => *bits == 0 || *bits == 0x8000_0000_0000_0000,
        Element::String(info) => match &info.literal {
            StringLiteral::Value(v) => {
                let r = v.len() == 0 || (v.len() == 1 && v[0] == '0');
                proof {
                    if v.len() == 1 && v[0] == '0' {
                        assert(v@ =~= seq!['0']);
                    }
                    if v@ == seq!['0'] {
                        assert(v@.len() == 1 && v@[0] == '0');
                    }
                }
                r
            },
            _ => false,
        },
        Element::Array(a) => {
            if is_empty_array(e) {
                return true;
            }
            if a.known_items.len() != 0 {
                return false;
            }
            if let (Some(k), Some(v)) = (&a.key_param, &a.value_param) {
                if !is_never_type(k) && !is_never_type(v) {
                    return false;
                }
            }
            !a.non_empty
        },
        Element::List(l) => l.known_elements.len() == 0 && is_never_type(&l.element_type) && !l.non_empty,
        Element::Mixed(m) => m.truthiness == Truthiness::Falsy,
        Element::GenericParameter(g) => {
            let ghost s = g.constraint@.elements;
            let n = g.constraint.elements.len();
            if n == 0 {
                return false;
            }
            let mut i: usize = 0;
            while i < n
                invariant
                    n == g.constraint.elements.len(),
                    s == g.constraint@.elements,
                    s.len() == n,
                    i <= n,
                    esize(e@) == 2 + crate::element::tsize(g.constraint@),
                    forall|k: int| 0 <= k < i ==> elem_is_falsy(#[trigger] s[k]),
                    elem_is_falsy(e@) == (s.len() > 0 && forall|k: int| 0 <= k < s.len() ==> elem_is_falsy(#[trigger] s[k])),
                decreases n - i,
            {
                assert(s[i as int] == g.constraint.elements@[i as int]@);
                proof {
                    lemma_elem_smaller(g.constraint@, i as int);
                }
                if !is_falsy(&g.constraint.elements[i]) {
                    assert(!elem_is_falsy(s[i as int]));
                    return false;
                }
                i += 1;
            }
            true
        },
        _ => false,
    }
}

/// Some value of `e` could be truthy.
pub fn could_be_truthy(e: &Element) -> (r: bool)
    ensures
        r == elem_could_be_truthy(e@),
{
    if matches!(e, Element::Never) || matches!(e, Element::Void) {
        return false;
    }
    !is_falsy(e)
}

/// Some value of `e` could be falsy.
pub fn could_be_falsy(e: &Element) -> (r: bool)
    ensures
        r == elem_could_be_falsy(e@),
{
    if matches!(e, Element::Never) {
        return false;
    }
    !is_truthy(e)
}

/// `e` stands for a single literal value.
pub fn is_literal(e: &Element) -> (r: bool)
    ensures
        r == elem_is_literal(e@),
{
    match e {
        Element::True | Element::False | Element::Null | Element::Void => true,
        Element::Int(info) => matches!(info, IntInfo::Literal(_)),
        Element::Float(info) => matches!(info, FloatInfo::Literal(_)),
        Element::String(info) => matches!(info.literal, StringLiteral::Value(_)),
        _ => false,
    }
}

} // verus!
