//! Difference of two int atoms: up to two intervals, the part of the
//! input below the removed atom and the part above it.
use vstd::prelude::*;

use crate::element::{ElemV, Element, IntInfo};
use crate::lattice::family::integer::{bounds_of, int_bounds, int_contains};

verus! {

/// The interval is not known to be empty.
pub open spec fn non_empty_interval_v(lo: Option<i64>, hi: Option<i64>) -> bool {
    match (lo, hi) {
        (Some(l), Some(h)) => l <= h,
        _ => true,
    }
}

/// The int atom for an interval: a literal when its bounds coincide.
pub open spec fn int_piece(lo: Option<i64>, hi: Option<i64>) -> ElemV {
    match (lo, hi) {
        (Some(l), Some(h)) => if l == h {
            ElemV::Int(IntInfo::Literal(l))
        } else {
            ElemV::Int(IntInfo::Range(lo, hi))
        },
        _ => ElemV::Int(IntInfo::Range(lo, hi)),
    }
}

/// The part of `a` below `b`.
pub open spec fn lower_piece(a: IntInfo, b: IntInfo) -> Seq<ElemV> {
    let (alo, ahi) = int_bounds(a);
    match int_bounds(b).0 {
        Some(bl) => if alo matches Some(x) && x >= bl {
            Seq::empty()
        } else {
            let ub = (bl - 1) as i64;
            let hi = match ahi {
                Some(x) => Some(if x <= ub { x } else { ub }),
                None => Some(ub),
            };
            if non_empty_interval_v(alo, hi) {
                seq![int_piece(alo, hi)]
            } else {
                Seq::empty()
            }
        },
        None => Seq::empty(),
    }
}

/// The part of `a` above `b`.
pub open spec fn upper_piece(a: IntInfo, b: IntInfo) -> Seq<ElemV> {
    let (alo, ahi) = int_bounds(a);
    match int_bounds(b).1 {
        Some(bh) => if bh == i64::MAX || (ahi matches Some(x) && x <= bh) {
            Seq::empty()
        } else {
            let lb = (bh + 1) as i64;
            let lo = match alo {
                Some(x) => Some(if x >= lb { x } else { lb }),
                None => Some(lb),
            };
            if non_empty_interval_v(lo, ahi) {
                seq![int_piece(lo, ahi)]
            } else {
                Seq::empty()
            }
        },
        None => Seq::empty(),
    }
}

/// `a \ b` for int atoms.
pub open spec fn int_minus_v(a: IntInfo, b: IntInfo) -> Seq<ElemV> {
    lower_piece(a, b) + upper_piece(a, b)
}

/// The interval is not known to be empty.
pub fn non_empty_interval(lo: Option<i64>, hi: Option<i64>) -> (r: bool)
    ensures
        r == non_empty_interval_v(lo, hi),
{
    match (lo, hi) {
        (Some(l), Some(h)) => l <= h,
        _ => true,
    }
}

/// The int atom for an interval.
pub fn make_int_piece(lo: Option<i64>, hi: Option<i64>) -> (e: Element)
    ensures
        e@ == int_piece(lo, hi),
{
    match (lo, hi) {
        (Some(l), Some(h)) => if l == h {
            Element::Int(IntInfo::Literal(l))
        } else {
            Element::Int(IntInfo::Range(lo, hi))
        },
        _ => Element::Int(IntInfo::Range(lo, hi)),
    }
}

/// Difference of two int atoms. An input unbounded below cannot have a
/// part below a removed atom that starts at the least `i64`.
pub fn int_minus(a: &Element, b: &Element) -> (r: Vec<Element>)
    requires
        a@ is Int,
        b@ is Int,
        !(int_bounds(a@->Int_0).0 is None && int_bounds(b@->Int_0).0 == Some(i64::MIN)),
    ensures
        r@.map_values(|e: Element| e@) == int_minus_v(a@->Int_0, b@->Int_0),
{
    let (ai, bi) = match (a, b) {
        (Element::Int(x), Element::Int(y)) => (*x, *y),
        _ => {
            return Vec::new();
        },
    };
    let (alo, ahi) = bounds_of(ai);
    let (blo, bhi) = bounds_of(bi);
    let mut pieces: Vec<Element> = Vec::new();
    if let Some(b_low) = blo {
        let a_starts_below = match alo {
            Some(x) => x < b_low,
            None => true,
        };
        if a_starts_below {
            let upper_bound = b_low - 1;
            let piece_hi = match ahi {
                Some(x) => Some(if x <= upper_bound { x } else { upper_bound }),
                None => Some(upper_bound),
            };
            if non_empty_interval(alo, piece_hi) {
                pieces.push(make_int_piece(alo, piece_hi));
            }
        }
    }
    let ghost low = pieces@.map_values(|e: Element| e@);
    assert(low =~= lower_piece(ai, bi));
    if let Some(b_high) = bhi {
        if let Some(lower_bound) = b_high.checked_add(1) {
            let a_ends_above = match ahi {
                Some(x) => x > b_high,
                None => true,
            };
            if a_ends_above {
                let piece_lo = match alo {
                    Some(x) => Some(if x >= lower_bound { x } else { lower_bound }),
                    None => Some(lower_bound),
                };
                if non_empty_interval(piece_lo, ahi) {
                    pieces.push(make_int_piece(piece_lo, ahi));
                }
            }
        }
    }
    assert(pieces@.map_values(|e: Element| e@) =~= low + upper_piece(ai, bi));
    pieces
}

/// Some piece holds `n`.
pub open spec fn pieces_contain(pieces: Seq<ElemV>, n: int) -> bool {
    exists|k: int| 0 <= k < pieces.len() && #[trigger] int_contains(pieces[k]->Int_0, n)
}

/// The pieces of `a \ b` hold exactly the 64-bit integers that `a` holds
/// and `b` does not.
pub proof fn lemma_int_minus_is_difference(a: IntInfo, b: IntInfo, n: i64)
    requires
        !(int_bounds(a).0 is None && int_bounds(b).0 == Some(i64::MIN)),
    ensures
        pieces_contain(int_minus_v(a, b), n as int) <==> (int_contains(a, n as int) && !int_contains(b, n as int)),
{
    let lo = lower_piece(a, b);
    let up = upper_piece(a, b);
    let all = int_minus_v(a, b);
    assert(all =~= lo + up);
    if pieces_contain(all, n as int) {
        let k = choose|k: int| 0 <= k < all.len() && #[trigger] int_contains(all[k]->Int_0, n as int);
        if k < lo.len() {
            assert(all[k] == lo[k]);
        } else {
            assert(all[k] == up[k - lo.len()]);
        }
    }
    if int_contains(a, n as int) && !int_contains(b, n as int) {
        let (blo, bhi) = int_bounds(b);
        if blo matches Some(bl) && (n as int) < bl {
            assert(lo.len() == 1);
            assert(all[0] == lo[0]);
            assert(int_contains(all[0]->Int_0, n as int));
        } else {
            assert(up.len() == 1);
            assert(all[lo.len() as int] == up[0]);
            assert(int_contains(all[lo.len() as int]->Int_0, n as int));
        }
    }
}

} // verus!
