//! Coverage of one input element by several container atoms of its
//! family: int ranges whose union spans the input, `true | false` for
//! `bool`, the empty and non-empty halves of `string`, and
//! `null | non-null-mixed` for `mixed`.
use vstd::prelude::*;

use crate::element::{ElemV, Element, IntInfo, StringCasing, StringLiteral, Type};
use crate::lattice::family::integer::{bounds_contain, bounds_of, int_bounds, int_contains};
use crate::lattice::refines_spec::{
    bool_union_covers, broad_non_empty, broad_string_v, broad_truthy, dominator_members, dominator_union_covers, is_zero_literal, cover_range, int_union_covers, is_empty_literal,
    mixed_union_covers, mixed_v, non_null_mixed_atom, some_range_contains, string_union_covers,
};

verus! {

/// Is `cur` (`None` standing for minus infinity) inside the bounds?
fn reaches(lo: Option<i64>, hi: Option<i64>, cur: Option<i128>) -> (r: bool)
    ensures
        cur matches Some(x) ==> (r == bounds_contain(lo, hi, x as int)),
        cur is None ==> (r == (lo is None)),
{
    let lo_ok = match (lo, cur) {
        (None, _) => true,
        (Some(_), None) => false,
        (Some(l), Some(x)) => (l as i128) <= x,
    };
    let hi_ok = match (hi, cur) {
        (None, _) => true,
        (Some(_), None) => true,
        (Some(h), Some(x)) => x <= (h as i128),
    };
    lo_ok && hi_ok
}

pub open spec fn below_cursor(cur: Option<i128>, n: int) -> bool {
    cur matches Some(x) && n < x
}

pub open spec fn cursor_measure(cur: Option<i128>) -> int {
    match cur {
        None => 0x4_0000_0000_0000_0000,
        Some(x) => 0x8000_0000_0000_0001 - x,
    }
}

/// The int input is covered by the union of the container's int ranges
/// (excluding `literal-int`). Sweeps a cursor upward from the input's
/// lower bound, each time jumping past the farthest-reaching range that
/// contains it.
pub fn int_covers(input: &Element, container: &Type) -> (r: bool)
    ensures
        r == int_union_covers(input@, container@.elements),
{
    let ghost cs = container@.elements;
    let info = match input {
        Element::Int(i) => *i,
        _ => {
            return false;
        },
    };
    if info == IntInfo::UnspecifiedLiteral {
        return false;
    }
    let (lo, hi) = bounds_of(info);
    let crossed = match (lo, hi) {
        (Some(l), Some(h)) => l > h,
        _ => false,
    };
    let mut cur: Option<i128> = match lo {
        Some(l) => Some(l as i128),
        None => None,
    };
    let n_cs = container.elements.len();
    loop
        invariant
            cs == container@.elements,
            n_cs == container.elements.len(),
            n_cs == cs.len(),
            input@ == ElemV::Int(info),
            info != IntInfo::UnspecifiedLiteral,
            (lo, hi) == int_bounds(info),
            crossed == (lo is Some && hi is Some && lo->0 > hi->0),
            crossed ==> cur == Some(lo->0 as i128),
            lo is None ==> (cur is None || cur->0 > i64::MIN),
            lo matches Some(l) ==> (cur matches Some(x) && l <= x),
            !crossed ==> (cur matches Some(x) ==> (hi matches Some(h) ==> x <= h)),
            cur matches Some(x) ==> x <= i64::MAX + 1,
            forall|n: int| bounds_contain(lo, hi, n) && below_cursor(cur, n) ==> #[trigger] some_range_contains(cs, n),
        decreases cursor_measure(cur),
    {
        let mut found = false;
        let mut best_inf = false;
        let mut best: i128 = 0;
        let ghost mut best_j: int = 0;
        let mut j: usize = 0;
        while j < n_cs
            invariant
                cs == container@.elements,
                n_cs == container.elements.len(),
                n_cs == cs.len(),
                j <= n_cs,
                found ==> 0 <= best_j < j && cover_range(cs[best_j]) && ({
                    let (clo, chi) = int_bounds(cs[best_j]->Int_0);
                    &&& (cur matches Some(x) ==> bounds_contain(clo, chi, x as int))
                    &&& (cur is None ==> clo is None)
                    &&& (best_inf ==> chi is None)
                    &&& (!best_inf ==> chi == Some(best as i64))
                }),
                best_inf ==> found,
                !found ==> forall|k: int| 0 <= k < j && cover_range(cs[k]) ==> ({
                    let (clo, chi) = int_bounds(#[trigger] cs[k]->Int_0);
                    &&& (cur matches Some(x) ==> !bounds_contain(clo, chi, x as int))
                    &&& (cur is None ==> clo is Some)
                }),
                i64::MIN <= best <= i64::MAX,
            decreases n_cs - j,
        {
            assert(cs[j as int] == container.elements@[j as int]@);
            match &container.elements[j] {
                Element::Int(ci) => {
                    if *ci != IntInfo::UnspecifiedLiteral {
                        let (clo, chi) = bounds_of(*ci);
                        if reaches(clo, chi, cur) {
                            match chi {
                                None => {
                                    if !best_inf {
                                        proof {
                                            best_j = j as int;
                                        }
                                    }
                                    best_inf = true;
                                    found = true;
                                },
                                Some(h) => {
                                    if !best_inf && (!found || (h as i128) > best) {
                                        best = h as i128;
                                        proof {
                                            best_j = j as int;
                                        }
                                    }
                                    found = true;
                                },
                            }
                        }
                    }
                },
                _ => {},
            }
            j += 1;
        }
        if !found {
            proof {
                match cur {
                    Some(x) => {
                        assert(!some_range_contains(cs, x as int)) by {
                            if some_range_contains(cs, x as int) {
                                let k = choose|k: int|
                                    0 <= k < cs.len() && cover_range(cs[k]) && #[trigger] int_contains(cs[k]->Int_0, x as int);
                                assert(cover_range(cs[k]));
                            }
                        }
                        if !crossed {
                            assert(bounds_contain(lo, hi, x as int));
                        }
                    },
                    None => {
                        let n = i64::MIN - 1;
                        assert(!some_range_contains(cs, n)) by {
                            if some_range_contains(cs, n) {
                                let k = choose|k: int|
                                    0 <= k < cs.len() && cover_range(cs[k]) && #[trigger] int_contains(cs[k]->Int_0, n);
                                assert(cover_range(cs[k]));
                            }
                        }
                        assert(bounds_contain(lo, hi, n));
                    },
                }
            }
            return false;
        }
        let ghost bj = best_j;
        let ghost (blo, bhi) = int_bounds(cs[bj]->Int_0);
        if best_inf {
            proof {
                if crossed {
                    assert(int_contains(cs[bj]->Int_0, lo->0 as int));
                } else {
                    assert forall|n: int| bounds_contain(lo, hi, n) implies #[trigger] some_range_contains(cs, n) by {
                        if !below_cursor(cur, n) {
                            assert(int_contains(cs[bj]->Int_0, n));
                        }
                    }
                }
            }
            return true;
        }
        if let Some(t) = hi {
            if (t as i128) <= best {
                proof {
                    if crossed {
                        assert(int_contains(cs[bj]->Int_0, lo->0 as int));
                    } else {
                        assert forall|n: int| bounds_contain(lo, hi, n) implies #[trigger] some_range_contains(cs, n) by {
                            if !below_cursor(cur, n) {
                                assert(int_contains(cs[bj]->Int_0, n));
                            }
                        }
                    }
                }
                return true;
            }
        }
        proof {
            assert forall|n: int| bounds_contain(lo, hi, n) && below_cursor(Some((best + 1) as i128), n) implies #[trigger] some_range_contains(cs, n) by {
                if !below_cursor(cur, n) {
                    assert(int_contains(cs[bj]->Int_0, n));
                }
            }
        }
        cur = Some(best + 1);
    }
}

/// Broad `string` is covered by the empty literal plus a broad non-empty
/// string.
pub fn string_covers(input: &Element, container: &Type) -> (r: bool)
    ensures
        r == string_union_covers(input@, container@.elements),
{
    let ghost cs = container@.elements;
    let broad = match input {
        Element::String(info) => matches!(info.literal, StringLiteral::Absent) && !info.flags.non_empty
            && !info.flags.truthy && !info.flags.numeric && !info.flags.callable && info.casing
            == StringCasing::Unspecified,
        _ => false,
    };
    if !broad {
        return false;
    }
    assert(input@ == broad_string_v());
    let mut covers_empty = false;
    let mut covers_non_empty = false;
    let mut covers_zero = false;
    let mut covers_truthy = false;
    let mut j: usize = 0;
    while j < container.elements.len()
        invariant
            cs == container@.elements,
            j <= cs.len(),
            cs.len() == container.elements.len(),
            covers_empty == exists|k: int| 0 <= k < j && is_empty_literal(#[trigger] cs[k]),
            covers_non_empty == exists|k: int| 0 <= k < j && broad_non_empty(#[trigger] cs[k]),
            covers_zero == exists|k: int| 0 <= k < j && is_zero_literal(#[trigger] cs[k]),
            covers_truthy == exists|k: int| 0 <= k < j && broad_truthy(#[trigger] cs[k]),
        decreases container.elements.len() - j,
    {
        assert(cs[j as int] == container.elements@[j as int]@);
        if let Element::String(ci) = &container.elements[j] {
            if let StringLiteral::Value(v) = &ci.literal {
                if v.len() == 0 {
                    assert(v@ =~= Seq::<char>::empty());
                    covers_empty = true;
                }
                if v.len() == 1 && v[0] == '0' {
                    assert(v@ =~= seq!['0']);
                    covers_zero = true;
                }
                proof {
                    if v@ == seq!['0'] {
                        assert(v@.len() == 1 && v@[0] == '0');
                    }
                }
            }
            let lit_ok = matches!(ci.literal, StringLiteral::Absent) || matches!(ci.literal, StringLiteral::Unspecified);
            if lit_ok && ci.flags.non_empty && !ci.flags.truthy && !ci.flags.numeric && !ci.flags.callable
                && ci.casing == StringCasing::Unspecified {
                covers_non_empty = true;
            }
            if lit_ok && ci.flags.truthy && !ci.flags.numeric && !ci.flags.callable && ci.casing
                == StringCasing::Unspecified {
                covers_truthy = true;
            }
        }
        j += 1;
    }
    covers_empty && (covers_non_empty || (covers_zero && covers_truthy))
}

fn contains_atom(t: &Type, e: &Element) -> (r: bool)
    ensures
        r == t@.elements.contains(e@),
{
    let ghost cs = t@.elements;
    let mut j: usize = 0;
    while j < t.elements.len()
        invariant
            cs == t@.elements,
            cs.len() == t.elements.len(),
            j <= cs.len(),
            forall|k: int| 0 <= k < j ==> cs[k] != e@,
        decreases t.elements.len() - j,
    {
        assert(cs[j as int] == t.elements@[j as int]@);
        if t.elements[j].same(e) {
            return true;
        }
        j += 1;
    }
    false
}

/// A true-union dominator is covered by all of its members.
pub fn dominator_covers(input: &Element, container: &Type) -> (r: bool)
    ensures
        r == dominator_union_covers(input@, container@.elements),
{
    let ms: Vec<Element> = match input {
        Element::Scalar => vec![
            crate::prelude::BOOL,
            crate::prelude::general_int(),
            crate::prelude::float(),
            crate::prelude::string(),
        ],
        Element::Numeric => vec![crate::prelude::general_int(), crate::prelude::float(), crate::prelude::numeric_string()],
        Element::ArrayKey => vec![crate::prelude::general_int(), crate::prelude::string()],
        _ => {
            return false;
        },
    };
    let ghost members = dominator_members(input@)->0;
    assert(ms@.len() == members.len());
    assert(forall|k: int| 0 <= k < ms@.len() ==> #[trigger] ms@[k]@ == members[k]);
    let mut k: usize = 0;
    while k < ms.len()
        invariant
            k <= ms.len(),
            ms@.len() == members.len(),
            members == dominator_members(input@)->0,
            dominator_members(input@) is Some,
            forall|i: int| 0 <= i < ms@.len() ==> #[trigger] ms@[i]@ == members[i],
            forall|i: int| 0 <= i < k ==> container@.elements.contains(#[trigger] members[i]),
        decreases ms.len() - k,
    {
        if !contains_atom(container, &ms[k]) {
            assert(!container@.elements.contains(members[k as int]));
            return false;
        }
        k += 1;
    }
    true
}

/// Broad `bool` is covered by `true` plus `false`.
pub fn bool_covers(input: &Element, container: &Type) -> (r: bool)
    ensures
        r == bool_union_covers(input@, container@.elements),
{
    let ghost cs = container@.elements;
    if !matches!(input, Element::Bool) {
        return false;
    }
    let mut has_true = false;
    let mut has_false = false;
    let mut j: usize = 0;
    while j < container.elements.len()
        invariant
            cs == container@.elements,
            j <= cs.len(),
            cs.len() == container.elements.len(),
            has_true == exists|k: int| 0 <= k < j && #[trigger] cs[k] == ElemV::True,
            has_false == exists|k: int| 0 <= k < j && #[trigger] cs[k] == ElemV::False,
        decreases container.elements.len() - j,
    {
        assert(cs[j as int] == container.elements@[j as int]@);
        match &container.elements[j] {
            Element::True => {
                has_true = true;
            },
            Element::False => {
                has_false = true;
            },
            _ => {},
        }
        j += 1;
    }
    proof {
        if cs.contains(ElemV::True) {
            let k = choose|k: int| 0 <= k < cs.len() && cs[k] == ElemV::True;
            assert(cs[k] == ElemV::True);
        }
        if cs.contains(ElemV::False) {
            let k = choose|k: int| 0 <= k < cs.len() && cs[k] == ElemV::False;
            assert(cs[k] == ElemV::False);
        }
    }
    has_true && has_false
}

/// Vanilla `mixed` is covered by `null` plus a non-null `mixed`.
pub fn mixed_covers(input: &Element, container: &Type) -> (r: bool)
    ensures
        r == mixed_union_covers(input@, container@.elements),
{
    let ghost cs = container@.elements;
    let vanilla = match input {
        Element::Mixed(m) => !m.non_null && !m.empty && !m.isset_from_loop && m.truthiness
            == crate::element::Truthiness::Undetermined,
        _ => false,
    };
    if !vanilla {
        return false;
    }
    assert(input@ == mixed_v());
    let mut has_null = false;
    let mut has_non_null = false;
    let mut j: usize = 0;
    while j < container.elements.len()
        invariant
            cs == container@.elements,
            j <= cs.len(),
            cs.len() == container.elements.len(),
            has_null == exists|k: int| 0 <= k < j && #[trigger] cs[k] == ElemV::Null,
            has_non_null == exists|k: int| 0 <= k < j && non_null_mixed_atom(#[trigger] cs[k]),
        decreases container.elements.len() - j,
    {
        assert(cs[j as int] == container.elements@[j as int]@);
        match &container.elements[j] {
            Element::Null => {
                has_null = true;
            },
            Element::Mixed(m) => {
                if m.non_null {
                    has_non_null = true;
                }
            },
            _ => {},
        }
        j += 1;
    }
    proof {
        if cs.contains(ElemV::Null) {
            let k = choose|k: int| 0 <= k < cs.len() && cs[k] == ElemV::Null;
            assert(cs[k] == ElemV::Null);
        }
    }
    has_null && has_non_null
}

} // verus!
