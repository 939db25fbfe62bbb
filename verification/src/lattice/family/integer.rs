//! Int family: `int`, `literal-int`, integer literals and ranges.
//!
//! `int` accepts every int; `literal-int` accepts literals and itself; a
//! range accepts the literals inside it and the ranges it contains.
use vstd::prelude::*;

use crate::element::{ElemV, Element, IntInfo};

verus! {

/// The lower and upper bound of an int atom (`None` is infinite).
pub open spec fn int_bounds(info: IntInfo) -> (Option<i64>, Option<i64>) {
    match info {
        IntInfo::Unspecified | IntInfo::UnspecifiedLiteral => (None, None),
        IntInfo::Literal(n) => (Some(n), Some(n)),
        IntInfo::Range(lo, hi) => (lo, hi),
    }
}

/// `n` lies between the bounds.
pub open spec fn bounds_contain(lo: Option<i64>, hi: Option<i64>, n: int) -> bool {
    &&& (lo matches Some(l) ==> l <= n)
    &&& (hi matches Some(h) ==> n <= h)
}

/// The integer `n` is a value of the atom.
pub open spec fn int_contains(info: IntInfo, n: int) -> bool {
    bounds_contain(int_bounds(info).0, int_bounds(info).1, n)
}

/// `outer` bounds contain `inner` bounds, bound by bound.
pub open spec fn bounds_contain_bounds(outer: (Option<i64>, Option<i64>), inner: (Option<i64>, Option<i64>)) -> bool {
    &&& match (outer.0, inner.0) {
        (None, _) => true,
        (Some(_), None) => false,
        (Some(o), Some(i)) => o <= i,
    }
    &&& match (outer.1, inner.1) {
        (None, _) => true,
        (Some(_), None) => false,
        (Some(o), Some(i)) => i <= o,
    }
}

pub open spec fn int_info_refines(input: IntInfo, container: IntInfo) -> bool {
    match (input, container) {
        (_, IntInfo::Unspecified) => true,
        (IntInfo::Literal(_), IntInfo::UnspecifiedLiteral) => true,
        (IntInfo::UnspecifiedLiteral, IntInfo::UnspecifiedLiteral) => true,
        (IntInfo::Literal(n), IntInfo::Range(lo, hi)) => bounds_contain(lo, hi, n as int),
        (IntInfo::Range(a, b), IntInfo::Range(c, d)) => bounds_contain_bounds((c, d), (a, b)),
        _ => false,
    }
}

pub open spec fn int_refines(input: ElemV, container: ElemV) -> bool {
    match (input, container) {
        (ElemV::Int(i), ElemV::Int(c)) => int_info_refines(i, c),
        _ => false,
    }
}

fn range_contains_value(lo: Option<i64>, hi: Option<i64>, n: i64) -> (r: bool)
    ensures
        r == bounds_contain(lo, hi, n as int),
{
    let lower_ok = match lo {
        Some(l) => l <= n,
        None => true,
    };
    let upper_ok = match hi {
        Some(h) => n <= h,
        None => true,
    };
    lower_ok && upper_ok
}

fn range_contains_range(outer: (Option<i64>, Option<i64>), inner: (Option<i64>, Option<i64>)) -> (r: bool)
    ensures
        r == bounds_contain_bounds(outer, inner),
{
    let lower_ok = match (outer.0, inner.0) {
        (None, _) => true,
        (Some(_), None) => false,
        (Some(o), Some(i)) => o <= i,
    };
    let upper_ok = match (outer.1, inner.1) {
        (None, _) => true,
        (Some(_), None) => false,
        (Some(o), Some(i)) => i <= o,
    };
    lower_ok && upper_ok
}

/// Int-family refinement for an `Int` container.
pub fn refines(input: &Element, container: &Element) -> (r: bool)
    ensures
        r == int_refines(input@, container@),
{
    match (input, container) {
        (Element::Int(i), Element::Int(c)) => match (*i, *c) {
            (_, IntInfo::Unspecified) => true,
            (IntInfo::Literal(_), IntInfo::UnspecifiedLiteral) => true,
            (IntInfo::UnspecifiedLiteral, IntInfo::UnspecifiedLiteral) => true,
            (IntInfo::Literal(n), IntInfo::Range(lo, hi)) => range_contains_value(lo, hi, n),
            (IntInfo::Range(a, b), IntInfo::Range(c, d)) => range_contains_range((c, d), (a, b)),
            _ => false,
        },
        _ => false,
    }
}

/// The bounds of an int atom.
pub fn bounds_of(info: IntInfo) -> (r: (Option<i64>, Option<i64>))
    ensures
        r == int_bounds(info),
{
    match info {
        IntInfo::Unspecified | IntInfo::UnspecifiedLiteral => (None, None),
        IntInfo::Literal(n) => (Some(n), Some(n)),
        IntInfo::Range(lo, hi) => (lo, hi),
    }
}

} // verus!
