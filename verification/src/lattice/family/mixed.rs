//! Mixed family. A narrowed `mixed` container (non-null, truthy, falsy,
//! empty, isset-from-loop) accepts an input iff every axis it constrains
//! is implied by the input, either because the input is a `mixed`
//! carrying the same axis or because the input's kind guarantees it.
use vstd::prelude::*;

use crate::element::{
    ElemV, Element, FloatInfo, IntInfo, StrLitV, StringCasing, StringFlags, StringInfoV, StringLiteral,
    Truthiness, TypeV, empty_flags, items_view,
};

verus! {

pub open spec fn never_type_v() -> TypeV {
    TypeV { elements: seq![ElemV::Never], flags: empty_flags() }
}

pub open spec fn empty_string_v() -> ElemV {
    ElemV::Str(
        StringInfoV {
            literal: StrLitV::Value(Seq::empty()),
            casing: StringCasing::Unspecified,
            flags: StringFlags { non_empty: false, truthy: false, numeric: false, callable: false },
        },
    )
}

/// `array{}`: the sealed shape with no entries.
pub open spec fn empty_array_v() -> ElemV {
    ElemV::Array { key: None, value: None, items: Seq::empty(), non_empty: false }
}

/// `0.0` and `-0.0`: the float literals PHP treats as falsy.
pub open spec fn float_bits_zero(bits: u64) -> bool {
    bits == 0 || bits == 0x8000_0000_0000_0000
}

/// Best-known truthiness of a single value of `e`.
pub open spec fn truthiness_of(e: ElemV) -> Truthiness
    decreases e,
{
    match e {
        ElemV::True => Truthiness::Truthy,
        ElemV::False | ElemV::Null => Truthiness::Falsy,
        ElemV::ObjectAny | ElemV::Object { .. } | ElemV::Enum { .. } | ElemV::Resource(_) | ElemV::ClassLikeString(..)
        | ElemV::Callable(_) | ElemV::ObjectShape { .. } | ElemV::HasMethod(_) | ElemV::HasProperty(_) =>
            Truthiness::Truthy,
        ElemV::Int(IntInfo::Literal(n)) => if n == 0 {
            Truthiness::Falsy
        } else {
            Truthiness::Truthy
        },
        ElemV::Int(IntInfo::Range(lo, hi)) => if lo matches Some(l) && l > 0 {
            Truthiness::Truthy
        } else if hi matches Some(h) && h < 0 {
            Truthiness::Truthy
        } else {
            Truthiness::Undetermined
        },
        ElemV::Float(FloatInfo::Literal(bits)) => if float_bits_zero(bits) {
            Truthiness::Falsy
        } else {
            Truthiness::Truthy
        },
        ElemV::Str(info) => if e == empty_string_v() {
            Truthiness::Falsy
        } else if info.flags.truthy {
            Truthiness::Truthy
        } else {
            match info.literal {
                StrLitV::Value(s) => if s.len() == 0 || s == seq!['0'] {
                    Truthiness::Falsy
                } else {
                    Truthiness::Truthy
                },
                _ => Truthiness::Undetermined,
            }
        },
        ElemV::Array { key, value, items, non_empty } => if e == empty_array_v() {
            Truthiness::Falsy
        } else if non_empty {
            Truthiness::Truthy
        } else if key == Some(never_type_v()) && value == Some(never_type_v()) && items.len() == 0 {
            Truthiness::Falsy
        } else {
            Truthiness::Undetermined
        },
        ElemV::List { element_type, known, non_empty, .. } => if non_empty {
            Truthiness::Truthy
        } else if element_type == never_type_v() && known.len() == 0 {
            Truthiness::Falsy
        } else {
            Truthiness::Undetermined
        },
        ElemV::Mixed(m) => if m.empty {
            Truthiness::Falsy
        } else {
            m.truthiness
        },
        ElemV::GenericParameter { constraint, .. } => {
            let s = constraint.elements;
            if s.len() == 0 {
                Truthiness::Undetermined
            } else if forall|i: int| 0 <= i < s.len() ==> truthiness_of(#[trigger] s[i]) == truthiness_of(s[0]) {
                truthiness_of(s[0])
            } else {
                Truthiness::Undetermined
            }
        },
        _ => Truthiness::Undetermined,
    }
}

/// `e` cannot be `null`.
pub open spec fn is_non_null(e: ElemV) -> bool
    decreases e,
{
    match e {
        ElemV::Null | ElemV::Void => false,
        ElemV::Mixed(m) => m.non_null || m.truthiness == Truthiness::Truthy,
        ElemV::GenericParameter { constraint, .. } => forall|i: int|
            0 <= i < constraint.elements.len() ==> is_non_null(constraint.elements[i]),
        _ => true,
    }
}

pub open spec fn mixed_refines(input: ElemV, container: ElemV) -> bool {
    match container {
        ElemV::Mixed(c) => {
            &&& (c.non_null ==> is_non_null(input))
            &&& (c.truthiness == Truthiness::Truthy ==> truthiness_of(input) == Truthiness::Truthy)
            &&& (c.truthiness == Truthiness::Falsy ==> truthiness_of(input) == Truthiness::Falsy)
            &&& (c.empty ==> truthiness_of(input) == Truthiness::Falsy)
            &&& (c.isset_from_loop ==> (input matches ElemV::Mixed(m) && m.isset_from_loop))
        },
        _ => false,
    }
}

fn is_empty_string_elem(e: &Element) -> (r: bool)
    ensures
        r == (e@ == empty_string_v()),
{
    match e {
        Element::String(s) => {
            let lit = match &s.literal {
                StringLiteral::Value(v) => v.len() == 0,
                _ => false,
            };
            let r = lit && s.casing == StringCasing::Unspecified && !s.flags.non_empty && !s.flags.truthy
                && !s.flags.numeric && !s.flags.callable;
            proof {
                if lit {
                    assert(e@->Str_0.literal->Value_0 =~= Seq::<char>::empty());
                }
            }
            r
        },
        _ => false,
    }
}

/// `t` is the canonical `never` type.
pub fn is_never_type(t: &crate::element::Type) -> (r: bool)
    ensures
        r == (t@ == never_type_v()),
{
    if t.elements.len() != 1 {
        assert(t@.elements.len() != 1);
        return false;
    }
    let first_never = matches!(t.elements[0], Element::Never);
    assert(t@.elements[0] == t.elements@[0]@);
    let r = first_never && !t.flags.ignore_nullable_issues && !t.flags.ignore_falsable_issues;
    proof {
        if r {
            assert(t@.elements =~= seq![ElemV::Never]);
        }
    }
    r
}

/// Best-known truthiness of a single value of `input`.
pub fn truthiness(input: &Element) -> (t: Truthiness)
    ensures
        t == truthiness_of(input@),
    decreases input,
{
    match input {
        Element::True => Truthiness::Truthy,
        Element::False | Element::Null => Truthiness::Falsy,
        Element::ObjectAny | Element::Object(_) | Element::Enum(_) | Element::Resource(_)
        | Element::ClassLikeString(_) | Element::Callable(_) | Element::ObjectShape(_) | Element::HasMethod(_)
        | Element::HasProperty(_) => Truthiness::Truthy,
        Element::Int(IntInfo::Literal(n)) => if *n == 0 {
            Truthiness::Falsy
        } else {
            Truthiness::Truthy
        },
        Element::Int(IntInfo::Range(lo, hi)) => {
            if let Some(l) = lo {
                if *l > 0 {
                    return Truthiness::Truthy;
                }
            }
            if let Some(h) = hi {
                if *h < 0 {
                    return Truthiness::Truthy;
                }
            }
            Truthiness::Undetermined
        },
        Element::Float(FloatInfo::Literal(bits)) => if *bits == 0 || *bits == 0x8000_0000_0000_0000u64 {
            Truthiness::Falsy
        } else {
            Truthiness::Truthy
        },
        Element::String(info) => {
            if is_empty_string_elem(input) {
                return Truthiness::Falsy;
            }
            if info.flags.truthy {
                return Truthiness::Truthy;
            }
            match &info.literal {
                StringLiteral::Value(v) => if v.len() == 0 || crate::lattice::family::string::is_zero_string(v) {
                    Truthiness::Falsy
                } else {
                    Truthiness::Truthy
                },
                _ => Truthiness::Undetermined,
            }
        },
        Element::Array(a) => {
            if crate::lattice::family::array::is_empty_array(input) {
                return Truthiness::Falsy;
            }
            if a.non_empty {
                return Truthiness::Truthy;
            }
            let k_never = match &a.key_param {
                Some(k) => is_never_type(k),
                None => false,
            };
            let v_never = match &a.value_param {
                Some(v) => is_never_type(v),
                None => false,
            };
            if k_never && v_never && a.known_items.len() == 0 {
                assert(items_view(a.known_items).len() == 0);
                Truthiness::Falsy
            } else {
                Truthiness::Undetermined
            }
        },
        Element::List(l) => {
            if l.non_empty {
                Truthiness::Truthy
            } else if is_never_type(&l.element_type) && l.known_elements.len() == 0 {
                Truthiness::Falsy
            } else {
                Truthiness::Undetermined
            }
        },
        Element::Mixed(m) => if m.empty {
            Truthiness::Falsy
        } else {
            m.truthiness
        },
        Element::GenericParameter(g) => {
            let elems = &g.constraint.elements;
            if elems.len() == 0 {
                return Truthiness::Undetermined;
            }
            let ghost s = input@->GenericParameter_constraint.elements;
            proof {
                assert(decreases_to!(g.constraint.elements => g.constraint.elements[0]));
                assert(decreases_to!(*input => g.constraint.elements[0]));
                assert(s[0] == g.constraint.elements@[0]@);
            }
            let first = truthiness(&g.constraint.elements[0]);
            let mut i: usize = 1;
            while i < g.constraint.elements.len()
                invariant
                    1 <= i <= g.constraint.elements.len(),
                    s == g.constraint@.elements,
                    s.len() == g.constraint.elements.len(),
                    first == truthiness_of(s[0]),
                    forall|j: int| 0 <= j < i ==> truthiness_of(s[j]) == first,
                    *input == Element::GenericParameter(*g),
                decreases g.constraint.elements.len() - i,
            {
                proof {
                    assert(decreases_to!(g.constraint.elements => g.constraint.elements[i as int]));
                    assert(decreases_to!(*input => g.constraint.elements[i as int]));
                    assert(s[i as int] == g.constraint.elements@[i as int]@);
                }
                if truthiness(&g.constraint.elements[i]) != first {
                    return Truthiness::Undetermined;
                }
                i += 1;
            }
            first
        },
        _ => Truthiness::Undetermined,
    }
}

/// `input` cannot be `null`.
pub fn non_null(input: &Element) -> (r: bool)
    ensures
        r == is_non_null(input@),
    decreases input,
{
    match input {
        Element::Null | Element::Void => false,
        Element::Mixed(m) => m.non_null || m.truthiness == Truthiness::Truthy,
        Element::GenericParameter(g) => {
            let elems = &g.constraint.elements;
            let ghost s = input@->GenericParameter_constraint.elements;
            proof {
                assert(decreases_to!(*input => g.constraint.elements));
                assert(is_non_null(input@) == (forall|j: int| 0 <= j < s.len() ==> is_non_null(s[j])));
            }
            let mut i: usize = 0;
            while i < g.constraint.elements.len()
                invariant
                    i <= g.constraint.elements.len(),
                    s == g.constraint@.elements,
                    s.len() == g.constraint.elements.len(),
                    forall|j: int| 0 <= j < i ==> is_non_null(s[j]),
                    is_non_null(input@) == (forall|j: int| 0 <= j < s.len() ==> is_non_null(s[j])),
                    decreases_to!(*input => g.constraint.elements),
                    *input == Element::GenericParameter(*g),
                decreases g.constraint.elements.len() - i,
            {
                proof {
                    assert(decreases_to!(g.constraint.elements => g.constraint.elements[i as int]));
                    assert(decreases_to!(*input => g.constraint.elements[i as int]));
                    assert(s[i as int] == g.constraint.elements@[i as int]@);
                }
                if !non_null(&g.constraint.elements[i]) {
                    assert(!is_non_null(s[i as int]));

                    return false;
                }
                i += 1;
            }
            true
        },
        _ => true,
    }
}

/// Mixed-family refinement for a `Mixed` container.
pub fn refines(input: &Element, container: &Element) -> (r: bool)
    ensures
        r == mixed_refines(input@, container@),
{
    let c = match container {
        Element::Mixed(c) => *c,
        _ => {
            return false;
        },
    };
    if c.non_null && !non_null(input) {
        return false;
    }
    let t = truthiness(input);
    if c.truthiness == Truthiness::Truthy && t != Truthiness::Truthy {
        return false;
    }
    if c.truthiness == Truthiness::Falsy && t != Truthiness::Falsy {
        return false;
    }
    if c.empty && t != Truthiness::Falsy {
        return false;
    }
    if c.isset_from_loop {
        match input {
            Element::Mixed(m) => {
                if !m.isset_from_loop {
                    return false;
                }
            },
            _ => {
                return false;
            },
        }
    }
    true
}

} // verus!
