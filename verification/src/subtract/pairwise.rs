//! The difference of two types, atom by atom.
//!
//! Difference distributes over union on the left and folds over the atoms
//! on the right: each atom of the input is reduced by the removed atoms
//! one after the other, and the surviving pieces are unioned. A piece
//! less a removed atom is:
//!
//! 1. nothing, when the piece refines the removed atom;
//! 2. the pieces the `int` or `string` family rule gives, kept when the
//!    lattice confirms that each refines the input atom it came from;
//! 3. otherwise the piece unchanged.
//!
//! Where no rule describes the difference, the input stays. The answer
//! stands when the lattice confirms that the input refines it joined with
//! the removed type; otherwise the input stays whole. So the result always
//! refines the input and holds every value of the input outside the
//! removed type, only less precise.
use vstd::prelude::*;

use crate::element::{ElemV, Element, Type, TypeV, canonical};
use crate::lattice::family::integer::bounds_of;
use crate::lattice::family::mixed::never_type_v;
use crate::lattice::options::LatticeOptions;
use crate::lattice::refines::element_refines;
use crate::lattice::refines_spec::{dominator_members, elem_refines_spec, refines_spec, union_v};
use crate::lattice::report::LatticeReport;
use crate::meet::pairwise::{fits_some, lemma_all_fit_some};
use crate::subtract::integer::{
    int_minus, int_minus_v, int_piece, lemma_int_minus_is_difference, lower_piece, non_empty_interval_v, upper_piece,
};
use crate::element::IntInfo;
use crate::lattice::family::integer::{bounds_contain_bounds, int_bounds, int_contains, int_info_refines, int_refines};
use crate::subtract::string::{string_minus, string_minus_v};
use crate::subtract::{SubtractOutcome, dominator_member_covers, member_covers, subtract_outcome_type};
use crate::substitute::views;

verus! {

broadcast use vstd::std_specs::vec::group_vec_axioms;

/// The `int` difference is defined: it cannot step below `i64::MIN`.
pub open spec fn int_minus_defined(x: ElemV, y: ElemV) -> bool {
    &&& x is Int
    &&& y is Int
    &&& !(crate::lattice::family::integer::int_bounds(x->Int_0).0 is None
        && crate::lattice::family::integer::int_bounds(y->Int_0).0 == Some(i64::MIN))
}

/// What the family rules give for `x \ y`.
pub open spec fn family_minus_v(x: ElemV, y: ElemV) -> Option<Seq<ElemV>> {
    if int_minus_defined(x, y) {
        Some(int_minus_v(x->Int_0, y->Int_0))
    } else if x is Str && y is Str {
        string_minus_v(x->Str_0, y->Str_0)
    } else {
        None
    }
}

/// Some member shares an axis with `y`, so splitting narrows something.
pub open spec fn split_helps(ms: Seq<ElemV>, y: ElemV) -> bool {
    exists|i: int| 0 <= i < ms.len() && member_covers(#[trigger] ms[i], y)
}

/// `m \ y` for a member `m` of a dominator: nothing when `m` refines
/// `y`, else what the family rules give, else `m`.
pub open spec fn member_minus(m: ElemV, y: ElemV, o: LatticeOptions, c: u8) -> (Seq<ElemV>, u8) {
    let (r, c1) = elem_refines_spec(m, y, o, c);
    if r {
        (Seq::empty(), c1)
    } else {
        match family_minus_v(m, y) {
            Some(ps) => (ps, c1),
            None => (seq![m], c1),
        }
    }
}

/// The members of `ms` from index `k` on, each less `y`.
pub open spec fn members_minus(ms: Seq<ElemV>, y: ElemV, k: int, o: LatticeOptions, c: u8) -> (Seq<ElemV>, u8)
    decreases ms.len() - k,
{
    if k < 0 || k >= ms.len() {
        (Seq::empty(), c)
    } else {
        let (q, c1) = member_minus(ms[k], y, o, c);
        let (rest, c2) = members_minus(ms, y, k + 1, o, c1);
        (q + rest, c2)
    }
}

/// Every piece refines `x`.
pub open spec fn all_refine(ps: Seq<ElemV>, x: ElemV, o: LatticeOptions) -> bool {
    forall|k: int| 0 <= k < ps.len() ==> #[trigger] elem_refines_spec(ps[k], x, o, 0).0
}

/// `p \ y`, for a piece `p` of the input atom `x`.
pub open spec fn atom_minus_spec(p: ElemV, y: ElemV, x: ElemV, o: LatticeOptions, c: u8) -> (Seq<ElemV>, u8) {
    let (r, c1) = elem_refines_spec(p, y, o, c);
    if r {
        (Seq::empty(), c1)
    } else if dominator_members(p) is Some && split_helps(dominator_members(p)->0, y) {
        let (ps, c2) = members_minus(dominator_members(p)->0, y, 0, o, c1);
        if all_refine(ps, x, o) {
            (ps, c2)
        } else {
            (seq![p], c2)
        }
    } else {
        match family_minus_v(p, y) {
            Some(ps) => if all_refine(ps, x, o) {
                (ps, c1)
            } else {
                (seq![p], c1)
            },
            None => (seq![p], c1),
        }
    }
}

/// Each of the pieces `ps` from index `k` on, less `y`.
pub open spec fn each_minus(ps: Seq<ElemV>, y: ElemV, x: ElemV, k: int, o: LatticeOptions, c: u8) -> (Seq<ElemV>, u8)
    decreases ps.len() - k,
{
    if k < 0 || k >= ps.len() {
        (Seq::empty(), c)
    } else {
        let (q, c1) = atom_minus_spec(ps[k], y, x, o, c);
        let (rest, c2) = each_minus(ps, y, x, k + 1, o, c1);
        (q + rest, c2)
    }
}

/// The pieces `ps` less the removed atoms `b` from index `j` on.
pub open spec fn fold_minus(ps: Seq<ElemV>, b: Seq<ElemV>, x: ElemV, j: int, o: LatticeOptions, c: u8) -> (
    Seq<ElemV>,
    u8,
)
    decreases b.len() - j,
{
    if j < 0 || j >= b.len() {
        (ps, c)
    } else {
        let (next, c1) = each_minus(ps, b[j], x, 0, o, c);
        fold_minus(next, b, x, j + 1, o, c1)
    }
}

/// The atoms of `a` from index `i` on, each less all of `b`.
pub open spec fn all_minus(a: Seq<ElemV>, b: Seq<ElemV>, i: int, o: LatticeOptions, c: u8) -> (Seq<ElemV>, u8)
    decreases a.len() - i,
{
    if i < 0 || i >= a.len() {
        (Seq::empty(), c)
    } else {
        let (row, c1) = fold_minus(seq![a[i]], b, a[i], 0, o, c);
        let (rest, c2) = all_minus(a, b, i + 1, o, c1);
        (row + rest, c2)
    }
}

/// The model of a [`SubtractOutcome`].
pub enum SubtractV {
    Impossible,
    Redundant,
    Narrowed(TypeV),
}

/// `input \ removed` as the atom rules give it, classified.
pub open spec fn tentative_subtract(input: TypeV, removed: TypeV, o: LatticeOptions, c: u8) -> (SubtractV, u8) {
    let (atoms, c1) = all_minus(input.elements, removed.elements, 0, o, c);
    if atoms.len() == 0 {
        (SubtractV::Impossible, c1)
    } else {
        let result = TypeV { elements: canonical(atoms), flags: crate::element::empty_flags() };
        if result == input {
            (SubtractV::Redundant, c1)
        } else {
            (SubtractV::Narrowed(result), c1)
        }
    }
}

/// `input \ removed`, classified, with the causes bits after it. The
/// rules' answer stands when the lattice confirms that the input refines
/// it joined with what was removed; otherwise the input stays.
pub open spec fn subtract_spec(input: TypeV, removed: TypeV, o: LatticeOptions, c: u8) -> (SubtractV, u8) {
    if input == removed {
        (SubtractV::Impossible, c)
    } else {
        let (m, c1) = tentative_subtract(input, removed, o, c);
        if refines_spec(input, union_v(subtract_v_type(m, input).elements + removed.elements), o, 0).0 {
            (m, c1)
        } else {
            (SubtractV::Redundant, c1)
        }
    }
}

/// The type a classified difference stands for.
pub open spec fn subtract_v_type(m: SubtractV, input: TypeV) -> TypeV {
    match m {
        SubtractV::Impossible => never_type_v(),
        SubtractV::Redundant => input,
        SubtractV::Narrowed(t) => t,
    }
}

fn all_refine_exec(ps: &Vec<Element>, x: &Element, o: LatticeOptions) -> (r: bool)
    ensures
        r == all_refine(views(ps@), x@, o),
{
    let mut k: usize = 0;
    while k < ps.len()
        invariant
            k <= ps.len(),
            forall|i: int| 0 <= i < k ==> #[trigger] elem_refines_spec(views(ps@)[i], x@, o, 0).0,
        decreases ps.len() - k,
    {
        let (ok, _) = element_refines(&ps[k], x, o, 0);
        if !ok {
            assert(!elem_refines_spec(views(ps@)[k as int], x@, o, 0).0);
            return false;
        }
        k += 1;
    }
    true
}

fn int_minus_allowed(p: &Element, y: &Element) -> (r: bool)
    ensures
        r == int_minus_defined(p@, y@),
{
    match (p, y) {
        (Element::Int(a), Element::Int(b)) => {
            let (alo, _) = bounds_of(*a);
            let (blo, _) = bounds_of(*b);
            !(alo.is_none() && blo == Some(i64::MIN))
        },
        _ => false,
    }
}

fn single(p: &Element) -> (v: Vec<Element>)
    ensures
        views(v@) == seq![p@],
{
    let v = vec![p.copy()];
    assert(views(v@) =~= seq![p@]);
    v
}

fn dominator_members_exec(p: &Element) -> (r: Option<Vec<Element>>)
    ensures
        match r {
            Some(v) => dominator_members(p@) == Some(views(v@)),
            None => dominator_members(p@) is None,
        },
{
    let v = match p {
        Element::Scalar => vec![
            crate::prelude::BOOL,
            crate::prelude::general_int(),
            crate::prelude::float(),
            crate::prelude::string(),
        ],
        Element::Numeric => vec![crate::prelude::general_int(), crate::prelude::float(), crate::prelude::numeric_string()],
        Element::ArrayKey => vec![crate::prelude::general_int(), crate::prelude::string()],
        _ => {
            return None;
        },
    };
    assert(views(v@) =~= dominator_members(p@)->0);
    Some(v)
}

fn family_minus(p: &Element, y: &Element) -> (r: Option<Vec<Element>>)
    ensures
        match r {
            Some(v) => family_minus_v(p@, y@) == Some(views(v@)),
            None => family_minus_v(p@, y@) is None,
        },
{
    if int_minus_allowed(p, y) {
        let v = int_minus(p, y);
        assert(views(v@) =~= v@.map_values(|e: Element| e@));
        Some(v)
    } else {
        match (p, y) {
            (Element::String(a), Element::String(b)) => {
                let s = string_minus(a, b);
                match s {
                    Some(v) => {
                        assert(views(v@) =~= v@.map_values(|e: Element| e@));
                        Some(v)
                    },
                    None => None,
                }
            },
            _ => None,
        }
    }
}

fn members_minus_exec(ms: &Vec<Element>, y: &Element, o: LatticeOptions, c: u8) -> (r: (Vec<Element>, u8))
    ensures
        (views(r.0@), r.1) == members_minus(views(ms@), y@, 0, o, c),
{
    let ghost s = views(ms@);
    let mut out: Vec<Element> = Vec::new();
    let mut cur = c;
    let mut k: usize = 0;
    while k < ms.len()
        invariant
            s == views(ms@),
            k <= ms.len(),
            members_minus(s, y@, 0, o, c) == (views(out@) + members_minus(s, y@, k as int, o, cur).0, members_minus(
                s,
                y@,
                k as int,
                o,
                cur,
            ).1),
        decreases ms.len() - k,
    {
        let m = &ms[k];
        assert(m@ == s[k as int]);
        let ghost mid = views(out@);
        let ghost cc = cur;
        let (r, c1) = element_refines(m, y, o, cur);
        let q: Vec<Element> = if r {
            Vec::new()
        } else {
            match family_minus(m, y) {
                Some(ps) => ps,
                None => vec![m.copy()],
            }
        };
        assert(views(q@) == member_minus(s[k as int], y@, o, cc).0) by {
            if !r && family_minus_v(m@, y@) is None {
                assert(views(q@) =~= seq![m@]);
            }
            if r {
                assert(views(q@) =~= Seq::<ElemV>::empty());
            }
        }
        cur = c1;
        let mut j: usize = 0;
        while j < q.len()
            invariant
                j <= q.len(),
                views(out@) == mid + views(q@).take(j as int),
            decreases q.len() - j,
        {
            let ghost prev = views(out@);
            out.push(q[j].copy());
            assert(views(out@) =~= prev.push(q@[j as int]@));
            assert(views(q@).take(j + 1) =~= views(q@).take(j as int).push(q@[j as int]@));
            j += 1;
        }
        proof {
            assert(views(q@).take(q.len() as int) =~= views(q@));
            let rest = members_minus(s, y@, k + 1, o, cur).0;
            assert(mid + (views(q@) + rest) =~= (mid + views(q@)) + rest);
        }
        k += 1;
    }
    assert(views(out@) + Seq::<ElemV>::empty() =~= views(out@));
    (out, cur)
}

fn split_helps_exec(ms: &Vec<Element>, y: &Element) -> (r: bool)
    ensures
        r == split_helps(views(ms@), y@),
{
    let mut k: usize = 0;
    while k < ms.len()
        invariant
            k <= ms.len(),
            forall|i: int| 0 <= i < k ==> !member_covers(#[trigger] views(ms@)[i], y@),
        decreases ms.len() - k,
    {
        if dominator_member_covers(&ms[k], y) {
            assert(member_covers(views(ms@)[k as int], y@));
            return true;
        }
        k += 1;
    }
    false
}

fn atom_minus(p: &Element, y: &Element, x: &Element, o: LatticeOptions, c: u8, out: &mut Vec<Element>) -> (c1: u8)
    ensures
        views(final(out)@) == views(old(out)@) + atom_minus_spec(p@, y@, x@, o, c).0,
        c1 == atom_minus_spec(p@, y@, x@, o, c).1,
{
    let ghost before = views(out@);
    let (r, c1) = element_refines(p, y, o, c);
    if r {
        assert(before + Seq::<ElemV>::empty() =~= before);
        return c1;
    }
    let mut c2 = c1;
    let mut split: Option<Vec<Element>> = None;
    if let Some(ms) = dominator_members_exec(p) {
        if split_helps_exec(&ms, y) {
            let (ps, cc) = members_minus_exec(&ms, y, o, c1);
            c2 = cc;
            split = Some(ps);
        }
    }
    let keep: Vec<Element> = match split {
        Some(ps) => if all_refine_exec(&ps, x, o) {
            ps
        } else {
            single(p)
        },
        None => match family_minus(p, y) {
            Some(ps) => if all_refine_exec(&ps, x, o) {
                ps
            } else {
                single(p)
            },
            None => single(p),
        },
    };
    assert(views(keep@) == atom_minus_spec(p@, y@, x@, o, c).0 && c2 == atom_minus_spec(p@, y@, x@, o, c).1);
    let mut k: usize = 0;
    while k < keep.len()
        invariant
            k <= keep.len(),
            views(out@) == before + views(keep@).take(k as int),
        decreases keep.len() - k,
    {
        let ghost prev = views(out@);
        out.push(keep[k].copy());
        assert(views(out@) =~= prev.push(keep@[k as int]@));
        assert(views(keep@).take(k + 1) =~= views(keep@).take(k as int).push(keep@[k as int]@));
        k += 1;
    }
    assert(views(keep@).take(keep.len() as int) =~= views(keep@));
    c2
}

fn subtract_atom(x: &Element, removed: &Type, o: LatticeOptions, c: u8, out: &mut Vec<Element>) -> (c1: u8)
    ensures
        views(final(out)@) == views(old(out)@) + fold_minus(seq![x@], removed@.elements, x@, 0, o, c).0,
        c1 == fold_minus(seq![x@], removed@.elements, x@, 0, o, c).1,
{
    let ghost b = removed@.elements;
    let mut pieces: Vec<Element> = vec![x.copy()];
    let mut cur = c;
    assert(views(pieces@) =~= seq![x@]);
    let mut j: usize = 0;
    while j < removed.elements.len()
        invariant
            b == removed@.elements,
            b.len() == removed.elements.len(),
            j <= b.len(),
            fold_minus(seq![x@], b, x@, 0, o, c) == fold_minus(views(pieces@), b, x@, j as int, o, cur),
        decreases removed.elements.len() - j,
    {
        let y = &removed.elements[j];
        assert(y@ == b[j as int]);
        let ghost ps = views(pieces@);
        let ghost c_here = cur;
        let mut next: Vec<Element> = Vec::new();
        let mut k: usize = 0;
        while k < pieces.len()
            invariant
                ps == views(pieces@),
                y@ == b[j as int],
                k <= pieces.len(),
                each_minus(ps, y@, x@, 0, o, c_here) == (views(next@) + each_minus(ps, y@, x@, k as int, o, cur).0,
                each_minus(ps, y@, x@, k as int, o, cur).1),
            decreases pieces.len() - k,
        {
            assert(pieces@[k as int]@ == ps[k as int]);
            let ghost mid = views(next@);
            let ghost cc = cur;
            cur = atom_minus(&pieces[k], y, x, o, cur, &mut next);
            proof {
                let q = atom_minus_spec(ps[k as int], y@, x@, o, cc).0;
                assert(views(next@) == mid + q);
                let rest = each_minus(ps, y@, x@, k + 1, o, cur).0;
                assert(mid + (q + rest) =~= (mid + q) + rest);
            }
            k += 1;
        }
        assert(views(next@) + Seq::<ElemV>::empty() =~= views(next@));
        pieces = next;
        j += 1;
    }
    let ghost before = views(out@);
    let mut k: usize = 0;
    while k < pieces.len()
        invariant
            k <= pieces.len(),
            views(out@) == before + views(pieces@).take(k as int),
        decreases pieces.len() - k,
    {
        let ghost prev = views(out@);
        out.push(pieces[k].copy());
        assert(views(out@) =~= prev.push(pieces@[k as int]@));
        assert(views(pieces@).take(k + 1) =~= views(pieces@).take(k as int).push(pieces@[k as int]@));
        k += 1;
    }
    assert(views(pieces@).take(pieces.len() as int) =~= views(pieces@));
    cur
}

/// Remove `removed` from `input` and classify the result: `Impossible`
/// when nothing survives, `Redundant` when the input comes back
/// unchanged (carried as is), `Narrowed` otherwise.
pub fn narrow(input: &Type, removed: &Type, options: LatticeOptions, report: &mut LatticeReport) -> (r:
    SubtractOutcome)
    ensures
        ({
            let (m, c) = subtract_spec(input@, removed@, options, old(report).causes.bits);
            &&& final(report).causes.bits == c
            &&& subtract_outcome_type(r) == subtract_v_type(m, input@)
            &&& (r is Impossible <==> m is Impossible)
            &&& (r is Redundant <==> m is Redundant)
        }),
{
    if input.same(removed) {
        return SubtractOutcome::Impossible;
    }
    let ghost a = input@.elements;
    let ghost b = removed@.elements;
    let ghost c0 = report.causes.bits;
    let mut atoms: Vec<Element> = Vec::new();
    let mut cur: u8 = report.causes.bits;
    let mut i: usize = 0;
    while i < input.elements.len()
        invariant
            a == input@.elements,
            b == removed@.elements,
            a.len() == input.elements.len(),
            i <= a.len(),
            all_minus(a, b, 0, options, c0) == (views(atoms@) + all_minus(a, b, i as int, options, cur).0, all_minus(
                a,
                b,
                i as int,
                options,
                cur,
            ).1),
        decreases input.elements.len() - i,
    {
        let x = &input.elements[i];
        assert(x@ == a[i as int]);
        let ghost mid = views(atoms@);
        let ghost cc = cur;
        cur = subtract_atom(x, removed, options, cur, &mut atoms);
        proof {
            let row = fold_minus(seq![a[i as int]], b, a[i as int], 0, options, cc).0;
            let rest = all_minus(a, b, i + 1, options, cur).0;
            assert(mid + (row + rest) =~= (mid + row) + rest);
        }
        i += 1;
    }
    report.causes.bits = cur;
    assert(views(atoms@) + Seq::<ElemV>::empty() =~= views(atoms@));
    assert(views(atoms@) =~= atoms@.map_values(|e: Element| e@));
    let tentative = if atoms.len() == 0 {
        SubtractOutcome::Impossible
    } else {
        let result = Type::union(atoms);
        if result.same(input) {
            SubtractOutcome::Redundant(input.copy())
        } else {
            SubtractOutcome::Narrowed(result)
        }
    };
    let ty = match &tentative {
        SubtractOutcome::Impossible => crate::prelude::type_never(),
        SubtractOutcome::Redundant(t) => t.copy(),
        SubtractOutcome::Narrowed(t) => t.copy(),
    };
    if keeps_outside(input, &ty, removed, options) {
        tentative
    } else {
        SubtractOutcome::Redundant(input.copy())
    }
}

/// The input refines the result joined with what was removed.
fn keeps_outside(input: &Type, result: &Type, removed: &Type, o: LatticeOptions) -> (r: bool)
    ensures
        r == refines_spec(input@, union_v(result@.elements + removed@.elements), o, 0).0,
{
    let mut v: Vec<Element> = Vec::new();
    crate::lattice::refines::append_elements(&mut v, result);
    crate::lattice::refines::append_elements(&mut v, removed);
    assert(v@.map_values(|e: Element| e@) =~= result@.elements + removed@.elements);
    let u = Type::union(v);
    let (r, _) = crate::lattice::refines::walk(input, &u, o, 0);
    r
}

/// `a \ b`: the difference's type, `never` when nothing survives.
pub fn compute(a: &Type, b: &Type, options: LatticeOptions, report: &mut LatticeReport) -> (r: Type)
    ensures
        r@ == subtract_v_type(subtract_spec(a@, b@, options, old(report).causes.bits).0, a@),
        final(report).causes.bits == subtract_spec(a@, b@, options, old(report).causes.bits).1,
{
    narrow(a, b, options, report).into_type()
}

// ---------------------------------------------------------------------
// Laws.
// ---------------------------------------------------------------------
proof fn lemma_each_minus_refines(ps: Seq<ElemV>, y: ElemV, x: ElemV, k: int, o: LatticeOptions, c: u8)
    requires
        0 <= k,
        all_refine(ps, x, o),
    ensures
        all_refine(each_minus(ps, y, x, k, o, c).0, x, o),
    decreases ps.len() - k,
{
    if k < ps.len() {
        let (q, c1) = atom_minus_spec(ps[k], y, x, o, c);
        lemma_each_minus_refines(ps, y, x, k + 1, o, c1);
        let rest = each_minus(ps, y, x, k + 1, o, c1).0;
        assert(all_refine(q, x, o)) by {
            assert(elem_refines_spec(ps[k], x, o, 0).0);
        }
        assert forall|i: int| 0 <= i < (q + rest).len() implies #[trigger] elem_refines_spec((q + rest)[i], x, o, 0).0 by {
            if i < q.len() {
                assert((q + rest)[i] == q[i]);
            } else {
                assert((q + rest)[i] == rest[i - q.len()]);
            }
        }
    }
}

proof fn lemma_fold_minus_refines(ps: Seq<ElemV>, b: Seq<ElemV>, x: ElemV, j: int, o: LatticeOptions, c: u8)
    requires
        0 <= j,
        all_refine(ps, x, o),
    ensures
        all_refine(fold_minus(ps, b, x, j, o, c).0, x, o),
    decreases b.len() - j,
{
    if j < b.len() {
        let (next, c1) = each_minus(ps, b[j], x, 0, o, c);
        lemma_each_minus_refines(ps, b[j], x, 0, o, c);
        lemma_fold_minus_refines(next, b, x, j + 1, o, c1);
    }
}

proof fn lemma_all_minus_refines(a: Seq<ElemV>, b: Seq<ElemV>, i: int, o: LatticeOptions, c: u8)
    requires
        0 <= i,
    ensures
        forall|k: int|
            0 <= k < all_minus(a, b, i, o, c).0.len() ==> fits_some(#[trigger] all_minus(a, b, i, o, c).0[k], a, o),
    decreases a.len() - i,
{
    if i < a.len() {
        let (row, c1) = fold_minus(seq![a[i]], b, a[i], 0, o, c);
        assert(all_refine(seq![a[i]], a[i], o)) by {
            assert(seq![a[i]][0] == a[i]);
        }
        lemma_fold_minus_refines(seq![a[i]], b, a[i], 0, o, c);
        lemma_all_minus_refines(a, b, i + 1, o, c1);
        let rest = all_minus(a, b, i + 1, o, c1).0;
        assert forall|k: int| 0 <= k < (row + rest).len() implies fits_some(#[trigger] (row + rest)[k], a, o) by {
            if k < row.len() {
                assert((row + rest)[k] == row[k]);
                assert(elem_refines_spec(row[k], a[i], o, 0).0);
            } else {
                assert((row + rest)[k] == rest[k - row.len()]);
            }
        }
    }
}

/// No value escapes the input: the difference refines it.
pub proof fn lemma_difference_refines_input(input: TypeV, removed: TypeV, o: LatticeOptions, c: u8)
    requires
        input.elements.len() > 0,
    ensures
        refines_spec(subtract_v_type(subtract_spec(input, removed, o, c).0, input), input, o, c).0,
{
    crate::lattice::laws::lemma_refines_reflexive(input, o, c);
    if input == removed {
        crate::lattice::laws::lemma_never_refines_everything(input, o, c);
    } else {
        let (atoms, c1) = all_minus(input.elements, removed.elements, 0, o, c);
        if atoms.len() == 0 {
            crate::lattice::laws::lemma_never_refines_everything(input, o, c);
        } else {
            lemma_all_minus_refines(input.elements, removed.elements, 0, o, c);
            let result = TypeV { elements: canonical(atoms), flags: crate::element::empty_flags() };
            assert forall|k: int| 0 <= k < result.elements.len() implies fits_some(
                #[trigger] result.elements[k],
                input.elements,
                o,
            ) by {
                let e = result.elements[k];
                crate::element::lemma_dedup_contains(atoms, e);
                assert(result.elements.contains(e));
                let m = choose|m: int| 0 <= m < atoms.len() && atoms[m] == e;
                assert(fits_some(atoms[m], input.elements, o));
            }
            lemma_all_fit_some(result, input, o, 0, c);
        }
    }
}

/// A type whose every atom is an atom of `u` refines `u`.
proof fn lemma_atoms_within(t: TypeV, u: TypeV, o: LatticeOptions, c: u8)
    requires
        forall|k: int| 0 <= k < t.elements.len() ==> u.elements.contains(#[trigger] t.elements[k]),
    ensures
        refines_spec(t, u, o, c).0,
{
    assert forall|k: int| 0 <= k < t.elements.len() implies fits_some(#[trigger] t.elements[k], u.elements, o) by {
        let e = t.elements[k];
        let m = choose|m: int| 0 <= m < u.elements.len() && u.elements[m] == e;
        assert(elem_refines_spec(e, u.elements[m], o, 0).0);
    }
    lemma_all_fit_some(t, u, o, 0, c);
}

/// Every value of the input outside what was removed survives: the input
/// refines the difference joined with the removed type.
pub proof fn lemma_difference_keeps_outside(input: TypeV, removed: TypeV, o: LatticeOptions, c: u8)
    ensures
        refines_spec(
            input,
            union_v(subtract_v_type(subtract_spec(input, removed, o, c).0, input).elements + removed.elements),
            o,
            0,
        ).0,
{
    let keep_input = union_v(input.elements + removed.elements);
    assert forall|k: int| 0 <= k < input.elements.len() implies keep_input.elements.contains(
        #[trigger] input.elements[k],
    ) by {
        let e = input.elements[k];
        let s = input.elements + removed.elements;
        assert(s[k] == e);
        crate::element::lemma_dedup_contains(s, e);
    }
    lemma_atoms_within(input, keep_input, o, 0);
    if input == removed {
        let u = union_v(never_type_v().elements + removed.elements);
        assert forall|k: int| 0 <= k < input.elements.len() implies u.elements.contains(#[trigger] input.elements[k]) by {
            let e = input.elements[k];
            let s = never_type_v().elements + removed.elements;
            assert(s[k + 1] == e);
            crate::element::lemma_dedup_contains(s, e);
        }
        lemma_atoms_within(input, u, o, 0);
    }
}

/// A piece of an int atom, with bounds inside the atom's, refines it.
proof fn lemma_int_piece_refines(x: IntInfo, lo: Option<i64>, hi: Option<i64>, o: LatticeOptions)
    requires
        x != IntInfo::UnspecifiedLiteral,
        bounds_contain_bounds(int_bounds(x), (lo, hi)),
        non_empty_interval_v(lo, hi),
        x is Literal ==> lo == Some(x->Literal_0) && hi == Some(x->Literal_0),
    ensures
        elem_refines_spec(int_piece(lo, hi), ElemV::Int(x), o, 0).0,
{
    let p = int_piece(lo, hi);
    if p != ElemV::Int(x) {
        assert(int_info_refines(p->Int_0, x));
        assert(int_refines(p, ElemV::Int(x)));
    }
}

/// Removing an int atom `y` from an int atom `x` leaves no value of `y`,
/// and, unless `x` refines `y`, keeps every value of `x` outside `y`. This
/// holds for `x` other than `literal-int`, and unless `x` has no lower
/// bound while `y` starts at `i64::MIN` (the piece below would be empty
/// and cannot be written).
pub proof fn lemma_int_difference_is_exact(x: IntInfo, y: IntInfo, o: LatticeOptions, c: u8, n: i64)
    requires
        x != IntInfo::UnspecifiedLiteral,
        !(int_bounds(x).0 is None && int_bounds(y).0 == Some(i64::MIN)),
    ensures
        ({
            let r = atom_minus_spec(ElemV::Int(x), ElemV::Int(y), ElemV::Int(x), o, c).0;
            &&& forall|k: int|
                0 <= k < r.len() ==> (#[trigger] r[k]) is Int && !(int_contains(r[k]->Int_0, n as int) && int_contains(
                    y,
                    n as int,
                ))
            &&& (!elem_refines_spec(ElemV::Int(x), ElemV::Int(y), o, c).0 && int_contains(x, n as int)
                && !int_contains(y, n as int)) ==> exists|k: int|
                0 <= k < r.len() && (#[trigger] r[k]) is Int && int_contains(r[k]->Int_0, n as int)
        }),
{
    let ex = ElemV::Int(x);
    let ey = ElemV::Int(y);
    let (r1, c1) = elem_refines_spec(ex, ey, o, c);
    if !r1 {
        let ps = int_minus_v(x, y);
        assert(family_minus_v(ex, ey) == Some(ps));
        let (alo, ahi) = int_bounds(x);
        assert(all_refine(ps, ex, o)) by {
            assert forall|k: int| 0 <= k < ps.len() implies #[trigger] elem_refines_spec(ps[k], ex, o, 0).0 by {
                let lp = lower_piece(x, y);
                let up = upper_piece(x, y);
                assert(ps == lp + up);
                if k < lp.len() {
                    assert(ps[k] == lp[0]);
                    let bl = int_bounds(y).0->0;
                    let ub = (bl - 1) as i64;
                    let hi = match ahi {
                        Some(v) => Some(if v <= ub { v } else { ub }),
                        None => Some(ub),
                    };
                    lemma_int_piece_refines(x, alo, hi, o);
                } else {
                    assert(ps[k] == up[0]);
                    let bh = int_bounds(y).1->0;
                    let lb = (bh + 1) as i64;
                    let lo = match alo {
                        Some(v) => Some(if v >= lb { v } else { lb }),
                        None => Some(lb),
                    };
                    lemma_int_piece_refines(x, lo, ahi, o);
                }
            }
        }
        assert(atom_minus_spec(ex, ey, ex, o, c).0 == ps);
        lemma_int_minus_is_difference(x, y, n);
        assert forall|k: int| 0 <= k < ps.len() implies (#[trigger] ps[k]) is Int && !(int_contains(
            ps[k]->Int_0,
            n as int,
        ) && int_contains(y, n as int)) by {
            let lp = lower_piece(x, y);
            let up = upper_piece(x, y);
            assert(ps == lp + up);
            if k < lp.len() {
                assert(ps[k] == lp[0]);
            } else {
                assert(ps[k] == up[0]);
            }
            if int_contains(ps[k]->Int_0, n as int) {
                assert(crate::subtract::integer::pieces_contain(ps, n as int));
            }
        }
        if int_contains(x, n as int) && !int_contains(y, n as int) {
            let k = choose|k: int| 0 <= k < ps.len() && #[trigger] int_contains(ps[k]->Int_0, n as int);
            let lp = lower_piece(x, y);
            let up = upper_piece(x, y);
            assert(ps == lp + up);
            if k < lp.len() {
                assert(ps[k] == lp[0]);
            } else {
                assert(ps[k] == up[0]);
            }
        }
    }
}

} // verus!
