//! Meet of two int atoms: the intersection of their intervals.
use vstd::prelude::*;

use crate::element::{
    Element, IntInfo,
};
use crate::lattice::family::integer::{bounds_of, int_bounds, int_contains};
use crate::lattice::overlaps::{max_lower, min_upper};

verus! {

/// The intersection of two int atoms, `None` when it is empty; an interval
/// of one value is a literal.
pub open spec fn int_meet_v(a: IntInfo, b: IntInfo) -> Option<IntInfo> {
    let lo = max_lower(int_bounds(a).0, int_bounds(b).0);
    let hi = min_upper(int_bounds(a).1, int_bounds(b).1);
    match (lo, hi) {
        (Some(l), Some(h)) => if l > h {
            None
        } else if l == h {
            Some(IntInfo::Literal(l))
        } else {
            Some(IntInfo::Range(lo, hi))
        },
        _ => Some(IntInfo::Range(lo, hi)),
    }
}

/// Intersect two int atoms.
pub fn int_meet(a: &Element, b: &Element) -> (r: Option<Element>)
    requires
        a@ is Int,
        b@ is Int,
    ensures
        match r {
            Some(e) => int_meet_v(a@->Int_0, b@->Int_0) == Some(e@->Int_0) && e@ is Int,
            None => int_meet_v(a@->Int_0, b@->Int_0) is None,
        },
{
    let (ai, bi) = match (a, b) {
        (Element::Int(x), Element::Int(y)) => (*x, *y),
        _ => {
            return None;
        },
    };
    let (al, au) = bounds_of(ai);
    let (bl, bu) = bounds_of(bi);
    let lo = match (al, bl) {
        (Some(x), Some(y)) => Some(if x >= y { x } else { y }),
        (Some(x), None) => Some(x),
        (None, Some(y)) => Some(y),
        (None, None) => None,
    };
    let hi = match (au, bu) {
        (Some(x), Some(y)) => Some(if x <= y { x } else { y }),
        (Some(x), None) => Some(x),
        (None, Some(y)) => Some(y),
        (None, None) => None,
    };
    match (lo, hi) {
        (Some(l), Some(h)) => {
            if l > h {
                None
            } else if l == h {
                Some(Element::Int(IntInfo::Literal(l)))
            } else {
                Some(Element::Int(IntInfo::Range(lo, hi)))
            }
        },
        _ => Some(Element::Int(IntInfo::Range(lo, hi))),
    }
}

/// The meet of two int atoms holds exactly the integers both hold.
pub proof fn lemma_int_meet_is_intersection(a: IntInfo, b: IntInfo, n: int)
    ensures
        (match int_meet_v(a, b) {
            Some(c) => int_contains(c, n),
            None => false,
        }) <==> (int_contains(a, n) && int_contains(b, n)),
{
}

} // verus!
