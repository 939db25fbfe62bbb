//! The meet of two types, atom pair by atom pair.
//!
//! Intersection distributes over union: every atom of the input is met
//! with every atom of the narrowing, disjoint pairs are dropped, and the
//! surviving atoms are unioned. An atom pair meets by these rules, in
//! order:
//!
//! 1. an atom with no value, or `never`, meets nothing; an atom meets
//!    itself; vanilla `mixed` and the placeholder give way to the other
//!    side; `int` and `float` share no value;
//! 2. subsumption: when one side refines the other, it is the meet;
//! 3. the family rules: two `int` atoms, two `string` atoms, and a truthy
//!    or falsy `mixed` against a string or a collection; a result is kept
//!    when the lattice confirms that it refines both sides;
//! 4. otherwise the pair is dropped.
//!
//! `array-key ∧ numeric` meets in `int | numeric-string`. A pair that
//! does overlap but that no rule describes is dropped: the result stays a
//! lower bound of both sides, only less precise. The classification
//! reports `Impossible` only when the two types share no value; when the
//! rules find no atom of two overlapping types, the result is `never`,
//! reported as a narrowing.
use vstd::prelude::*;

use crate::element::{ElemV, Element, Type, TypeV, canonical};
use crate::lattice::causes::lemma_elem_refines_answer;
use crate::lattice::options::LatticeOptions;
use crate::lattice::refines::{element_refines, is_vanilla_mixed};
use crate::lattice::overlaps::is_uninhabited;
use crate::lattice::refines_spec::{
    all_fit_from, elem_fits, elem_refines_spec, mixed_v, overlaps_spec, refines_spec, skipped, some_refines_from,
    uninhabited,
};
use crate::lattice::family::mixed::never_type_v;
use crate::lattice::report::LatticeReport;
use crate::meet::integer::{int_meet, int_meet_v};
use crate::meet::string::{string_meet, string_meet_v};
use crate::element::StringInfoV;
use crate::meet::{MeetOutcome, cross_dominator_meet, cross_dominator_pair, int_or_numeric_string_v, meet_outcome_type};
use crate::substitute::views;
use crate::meet::truthiness::{
    falsy_collection, falsy_collection_v, force_non_empty, force_non_empty_v, narrow_string_truthy,
    narrow_string_truthy_v,
};

verus! {

broadcast use vstd::std_specs::vec::group_vec_axioms;

/// What a narrowed `mixed` atom `m` meets the other atom `x` in, by the
/// truthiness rules: a truthy string or collection, the empty collection.
pub open spec fn mixed_meet_v(m: ElemV, x: ElemV) -> Option<ElemV> {
    match m {
        ElemV::Mixed(info) => if info.truthiness == crate::element::Truthiness::Truthy {
            match x {
                ElemV::Str(s) => Some(narrow_string_truthy_v(s)),
                ElemV::List { .. } | ElemV::Array { .. } => Some(force_non_empty_v(x)),
                _ => None,
            }
        } else if info.truthiness == crate::element::Truthiness::Falsy {
            falsy_collection_v(x)
        } else {
            None
        },
        _ => None,
    }
}

/// What the family rules give for two atoms neither of which refines the
/// other.
pub open spec fn family_meet_v(a: ElemV, b: ElemV) -> Option<ElemV> {
    if a is Mixed && !(b is Mixed) {
        mixed_meet_v(a, b)
    } else if b is Mixed && !(a is Mixed) {
        mixed_meet_v(b, a)
    } else if a is Int && b is Int {
        match int_meet_v(a->Int_0, b->Int_0) {
            Some(m) => Some(ElemV::Int(m)),
            None => None,
        }
    } else if a is Str && b is Str {
        match string_meet_v(a->Str_0, b->Str_0) {
            Some(s) => Some(ElemV::Str(s)),
            None => None,
        }
    } else {
        None
    }
}

/// The meet of two atoms, `None` when they are taken as disjoint, with the
/// causes bits threaded through the refinement checks.
pub open spec fn atom_meet_spec(a: ElemV, b: ElemV, o: LatticeOptions, c: u8) -> (Option<ElemV>, u8) {
    if uninhabited(a) || uninhabited(b) {
        (None, c)
    } else if a == b {
        (Some(a), c)
    } else if a is Never || b is Never {
        (None, c)
    } else if a == mixed_v() || a is Placeholder {
        (Some(b), c)
    } else if b == mixed_v() || b is Placeholder {
        (Some(a), c)
    } else if (a is Int && b is Float) || (a is Float && b is Int) {
        (None, c)
    } else {
        let (r1, c1) = elem_refines_spec(a, b, o, c);
        if r1 {
            (Some(a), c1)
        } else {
            let (r2, c2) = elem_refines_spec(b, a, o, c1);
            if r2 {
                (Some(b), c2)
            } else {
                match family_meet_v(a, b) {
                    Some(m) => {
                        let (k1, c3) = elem_refines_spec(m, a, o, c2);
                        let (k2, c4) = elem_refines_spec(m, b, o, c3);
                        if k1 && k2 {
                            (Some(m), c4)
                        } else {
                            (None, c4)
                        }
                    },
                    None => (None, c2),
                }
            }
        }
    }
}

/// The atoms two atoms meet in.
pub open spec fn pair_meet_spec(a: ElemV, b: ElemV, o: LatticeOptions, c: u8) -> (Seq<ElemV>, u8) {
    if cross_dominator_pair(a, b) {
        (int_or_numeric_string_v(), c)
    } else {
        match atom_meet_spec(a, b, o, c) {
            (Some(m), c1) => (seq![m], c1),
            (None, c1) => (Seq::empty(), c1),
        }
    }
}

/// The atoms `x` meets the atoms of `b` in, from index `j` on.
pub open spec fn row_meets(x: ElemV, b: Seq<ElemV>, j: int, o: LatticeOptions, c: u8) -> (Seq<ElemV>, u8)
    decreases b.len() - j,
{
    if j < 0 || j >= b.len() {
        (Seq::empty(), c)
    } else {
        let (p, c1) = pair_meet_spec(x, b[j], o, c);
        let (rest, c2) = row_meets(x, b, j + 1, o, c1);
        (p + rest, c2)
    }
}

/// The atoms the atoms of `a` from index `i` on meet those of `b` in.
pub open spec fn all_meets(a: Seq<ElemV>, b: Seq<ElemV>, i: int, o: LatticeOptions, c: u8) -> (Seq<ElemV>, u8)
    decreases a.len() - i,
{
    if i < 0 || i >= a.len() {
        (Seq::empty(), c)
    } else {
        let (row, c1) = row_meets(a[i], b, 0, o, c);
        let (rest, c2) = all_meets(a, b, i + 1, o, c1);
        (row + rest, c2)
    }
}

/// The model of a [`MeetOutcome`].
pub enum MeetV {
    Impossible,
    Redundant,
    Narrowed(TypeV),
}

/// `input ∧ narrowing`, classified, with the causes bits after it.
pub open spec fn narrow_spec(input: TypeV, narrowing: TypeV, o: LatticeOptions, c: u8) -> (MeetV, u8) {
    if input == narrowing {
        (MeetV::Redundant, c)
    } else {
        let (atoms, c1) = all_meets(input.elements, narrowing.elements, 0, o, c);
        if atoms.len() == 0 {
            if overlaps_spec(input, narrowing, o, 0).0 {
                (MeetV::Narrowed(never_type_v()), c1)
            } else {
                (MeetV::Impossible, c1)
            }
        } else {
            let result = TypeV { elements: canonical(atoms), flags: crate::element::empty_flags() };
            if result == input {
                (MeetV::Redundant, c1)
            } else {
                (MeetV::Narrowed(result), c1)
            }
        }
    }
}

/// The type a classified meet stands for.
pub open spec fn meet_v_type(m: MeetV, input: TypeV) -> TypeV {
    match m {
        MeetV::Impossible => never_type_v(),
        MeetV::Redundant => input,
        MeetV::Narrowed(t) => t,
    }
}

#[verifier::rlimit(60)]
fn atom_meet(a: &Element, b: &Element, o: LatticeOptions, c: u8) -> (r: (Option<Element>, u8))
    ensures
        (match r.0 {
            Some(e) => Some(e@),
            None => None,
        }) == atom_meet_spec(a@, b@, o, c).0,
        r.1 == atom_meet_spec(a@, b@, o, c).1,
{
    if is_uninhabited(a) || is_uninhabited(b) {
        return (None, c);
    }
    if a.same(b) {
        return (Some(a.copy()), c);
    }
    if matches!(a, Element::Never) || matches!(b, Element::Never) {
        return (None, c);
    }
    if is_vanilla_mixed(a) || matches!(a, Element::Placeholder) {
        return (Some(b.copy()), c);
    }
    if is_vanilla_mixed(b) || matches!(b, Element::Placeholder) {
        return (Some(a.copy()), c);
    }
    let excluded = match (a, b) {
        (Element::Int(_), Element::Float(_)) | (Element::Float(_), Element::Int(_)) => true,
        _ => false,
    };
    if excluded {
        return (None, c);
    }
    let (r1, c1) = element_refines(a, b, o, c);
    if r1 {
        return (Some(a.copy()), c1);
    }
    let (r2, c2) = element_refines(b, a, o, c1);
    if r2 {
        return (Some(b.copy()), c2);
    }
    let m = match (a, b) {
        (Element::Mixed(_), Element::Mixed(_)) => None,
        (Element::Mixed(info), _) => mixed_meet(info, b),
        (_, Element::Mixed(info)) => mixed_meet(info, a),
        (Element::Int(_), Element::Int(_)) => int_meet(a, b),
        (Element::String(x), Element::String(y)) => match string_meet(x, y) {
            Some(s) => Some(Element::String(s)),
            None => None,
        },
        _ => None,
    };
    match m {
        Some(m) => {
            let (k1, c3) = element_refines(&m, a, o, c2);
            let (k2, c4) = element_refines(&m, b, o, c3);
            if k1 && k2 {
                (Some(m), c4)
            } else {
                (None, c4)
            }
        },
        None => (None, c2),
    }
}

fn mixed_meet(info: &crate::element::MixedInfo, x: &Element) -> (r: Option<Element>)
    requires
        !(x@ is Mixed),
    ensures
        (match r {
            Some(e) => Some(e@),
            None => None,
        }) == mixed_meet_v(ElemV::Mixed(*info), x@),
{
    if info.truthiness == crate::element::Truthiness::Truthy {
        match x {
            Element::String(s) => Some(narrow_string_truthy(s)),
            Element::List(_) | Element::Array(_) => Some(force_non_empty(x)),
            _ => None,
        }
    } else if info.truthiness == crate::element::Truthiness::Falsy {
        falsy_collection(x)
    } else {
        None
    }
}

fn pair_meet(a: &Element, b: &Element, o: LatticeOptions, c: u8, out: &mut Vec<Element>) -> (c1: u8)
    ensures
        views(final(out)@) == views(old(out)@) + pair_meet_spec(a@, b@, o, c).0,
        c1 == pair_meet_spec(a@, b@, o, c).1,
{
    let ghost before = views(out@);
    if let Some(pieces) = cross_dominator_meet(a, b) {
        let mut k: usize = 0;
        while k < pieces.len()
            invariant
                k <= pieces.len(),
                views(out@) == before + views(pieces@).take(k as int),
            decreases pieces.len() - k,
        {
            let ghost prev = views(out@);
            out.push(pieces[k].copy());
            assert(views(out@) =~= prev.push(pieces@[k as int]@));
            assert(views(pieces@).take(k + 1) =~= views(pieces@).take(k as int).push(pieces@[k as int]@));
            assert(views(out@) =~= before + views(pieces@).take(k + 1));
            k += 1;
        }
        assert(views(pieces@).take(pieces.len() as int) =~= views(pieces@));
        assert(views(pieces@) =~= pieces@.map_values(|e: Element| e@));
        return c;
    }
    let (m, c1) = atom_meet(a, b, o, c);
    match m {
        Some(e) => {
            out.push(e);
            assert(views(out@) =~= before + seq![out@[out@.len() - 1]@]);
        },
        None => {
            assert(before + Seq::<ElemV>::empty() =~= before);
        },
    }
    c1
}

/// Meet `input` with `narrowing` and classify the result: `Impossible`
/// when no atom pair survives, `Redundant` when the result is the input
/// (carried unchanged), `Narrowed` otherwise.
pub fn narrow(input: &Type, narrowing: &Type, options: LatticeOptions, report: &mut LatticeReport) -> (r: MeetOutcome)
    ensures
        ({
            let (m, c) = narrow_spec(input@, narrowing@, options, old(report).causes.bits);
            &&& final(report).causes.bits == c
            &&& meet_outcome_type(r) == meet_v_type(m, input@)
            &&& (r is Impossible <==> m is Impossible)
            &&& (r is Redundant <==> m is Redundant)
        }),
{
    if input.same(narrowing) {
        return MeetOutcome::Redundant(input.copy());
    }
    let ghost a = input@.elements;
    let ghost b = narrowing@.elements;
    let ghost c0 = report.causes.bits;
    let mut atoms: Vec<Element> = Vec::new();
    let mut cur: u8 = report.causes.bits;
    let mut i: usize = 0;
    while i < input.elements.len()
        invariant
            a == input@.elements,
            b == narrowing@.elements,
            a.len() == input.elements.len(),
            b.len() == narrowing.elements.len(),
            i <= a.len(),
            all_meets(a, b, 0, options, c0) == (views(atoms@) + all_meets(a, b, i as int, options, cur).0, all_meets(
                a,
                b,
                i as int,
                options,
                cur,
            ).1),
        decreases input.elements.len() - i,
    {
        let ghost row_start = views(atoms@);
        let ghost c_row = cur;
        let x = &input.elements[i];
        assert(x@ == a[i as int]);
        let mut j: usize = 0;
        while j < narrowing.elements.len()
            invariant
                a == input@.elements,
                b == narrowing@.elements,
                a.len() == input.elements.len(),
                b.len() == narrowing.elements.len(),
                i < a.len(),
                j <= b.len(),
                x@ == a[i as int],
                row_meets(a[i as int], b, 0, options, c_row) == (views(atoms@).skip(row_start.len() as int)
                    + row_meets(a[i as int], b, j as int, options, cur).0, row_meets(
                    a[i as int],
                    b,
                    j as int,
                    options,
                    cur,
                ).1),
                views(atoms@).len() >= row_start.len(),
                views(atoms@).take(row_start.len() as int) == row_start,
            decreases narrowing.elements.len() - j,
        {
            let y = &narrowing.elements[j];
            assert(y@ == b[j as int]);
            let ghost mid = views(atoms@);
            let ghost c_here = cur;
            cur = pair_meet(x, y, options, cur, &mut atoms);
            proof {
                let p = pair_meet_spec(a[i as int], b[j as int], options, c_here).0;
                assert(views(atoms@) == mid + p);
                assert(views(atoms@).skip(row_start.len() as int) =~= mid.skip(row_start.len() as int) + p);
                assert(views(atoms@).take(row_start.len() as int) =~= mid.take(row_start.len() as int));
            }
            j += 1;
        }
        proof {
            assert(views(atoms@) =~= row_start + views(atoms@).skip(row_start.len() as int));
        }
        i += 1;
    }
    report.causes.bits = cur;
    assert(views(atoms@) =~= atoms@.map_values(|e: Element| e@));
    if atoms.len() == 0 {
        let (shared, _) = crate::lattice::overlaps::overlaps_walk(input, narrowing, options, 0);
        if shared {
            return MeetOutcome::Narrowed(crate::prelude::type_never());
        }
        return MeetOutcome::Impossible;
    }
    let result = Type::union(atoms);
    if result.same(input) {
        MeetOutcome::Redundant(input.copy())
    } else {
        MeetOutcome::Narrowed(result)
    }
}

/// `a ∧ b`: the meet's type, `never` when the two share no value.
pub fn compute(a: &Type, b: &Type, options: LatticeOptions, report: &mut LatticeReport) -> (r: Type)
    ensures
        r@ == meet_v_type(narrow_spec(a@, b@, options, old(report).causes.bits).0, a@),
        final(report).causes.bits == narrow_spec(a@, b@, options, old(report).causes.bits).1,
{
    narrow(a, b, options, report).into_type()
}

// ---------------------------------------------------------------------
// Laws.
// ---------------------------------------------------------------------
/// `e` refines some atom of `s`.
pub open spec fn fits_some(e: ElemV, s: Seq<ElemV>, o: LatticeOptions) -> bool {
    exists|k: int| 0 <= k < s.len() && #[trigger] elem_refines_spec(e, s[k], o, 0).0
}

proof fn lemma_pair_meet_refines_both(x: ElemV, y: ElemV, o: LatticeOptions, c: u8)
    requires
        !(x is Placeholder),
        !(y is Placeholder),
    ensures
        forall|k: int|
            0 <= k < pair_meet_spec(x, y, o, c).0.len() ==> #[trigger] elem_refines_spec(
                pair_meet_spec(x, y, o, c).0[k],
                x,
                o,
                0,
            ).0 && elem_refines_spec(pair_meet_spec(x, y, o, c).0[k], y, o, 0).0,
{
    if cross_dominator_pair(x, y) {
        let p = int_or_numeric_string_v();
        assert(elem_refines_spec(p[0], x, o, 0).0 && elem_refines_spec(p[0], y, o, 0).0);
        assert(elem_refines_spec(p[1], x, o, 0).0 && elem_refines_spec(p[1], y, o, 0).0);
    } else {
        let (m, c1) = atom_meet_spec(x, y, o, c);
        if let Some(m) = m {
            lemma_elem_refines_answer(x, y, o, c, 0);
            let (r1, c1) = elem_refines_spec(x, y, o, c);
            lemma_elem_refines_answer(y, x, o, c1, 0);
            let (r2, c2) = elem_refines_spec(y, x, o, c1);
            if let Some(f) = family_meet_v(x, y) {
                lemma_elem_refines_answer(f, x, o, c2, 0);
                let (k1, c3) = elem_refines_spec(f, x, o, c2);
                lemma_elem_refines_answer(f, y, o, c3, 0);
            }
            assert(elem_refines_spec(m, x, o, 0).0);
            assert(elem_refines_spec(m, y, o, 0).0);
        }
    }
}

proof fn lemma_row_meets_refine(x: ElemV, b: Seq<ElemV>, j: int, o: LatticeOptions, c: u8)
    requires
        0 <= j,
        !(x is Placeholder),
        forall|l: int| 0 <= l < b.len() ==> !(#[trigger] b[l] is Placeholder),
    ensures
        forall|k: int|
            0 <= k < row_meets(x, b, j, o, c).0.len() ==> #[trigger] elem_refines_spec(
                row_meets(x, b, j, o, c).0[k],
                x,
                o,
                0,
            ).0 && fits_some(row_meets(x, b, j, o, c).0[k], b, o),
    decreases b.len() - j,
{
    if j < b.len() {
        let (p, c1) = pair_meet_spec(x, b[j], o, c);
        lemma_pair_meet_refines_both(x, b[j], o, c);
        lemma_row_meets_refine(x, b, j + 1, o, c1);
        let rest = row_meets(x, b, j + 1, o, c1).0;
        assert forall|k: int| 0 <= k < (p + rest).len() implies #[trigger] elem_refines_spec((p + rest)[k], x, o, 0).0
            && fits_some((p + rest)[k], b, o) by {
            if k < p.len() {
                assert((p + rest)[k] == p[k]);
                assert(elem_refines_spec(p[k], x, o, 0).0);
                assert(elem_refines_spec(p[k], b[j], o, 0).0);
            } else {
                assert((p + rest)[k] == rest[k - p.len()]);
            }
        }
    }
}

proof fn lemma_all_meets_refine(a: Seq<ElemV>, b: Seq<ElemV>, i: int, o: LatticeOptions, c: u8)
    requires
        0 <= i,
        forall|l: int| 0 <= l < a.len() ==> !(#[trigger] a[l] is Placeholder),
        forall|l: int| 0 <= l < b.len() ==> !(#[trigger] b[l] is Placeholder),
    ensures
        forall|k: int|
            0 <= k < all_meets(a, b, i, o, c).0.len() ==> fits_some(#[trigger] all_meets(a, b, i, o, c).0[k], a, o)
                && fits_some(all_meets(a, b, i, o, c).0[k], b, o),
    decreases a.len() - i,
{
    if i < a.len() {
        let (row, c1) = row_meets(a[i], b, 0, o, c);
        lemma_row_meets_refine(a[i], b, 0, o, c);
        lemma_all_meets_refine(a, b, i + 1, o, c1);
        let rest = all_meets(a, b, i + 1, o, c1).0;
        assert forall|k: int| 0 <= k < (row + rest).len() implies fits_some(#[trigger] (row + rest)[k], a, o)
            && fits_some((row + rest)[k], b, o) by {
            if k < row.len() {
                assert((row + rest)[k] == row[k]);
                assert(elem_refines_spec(row[k], a[i], o, 0).0);
            } else {
                assert((row + rest)[k] == rest[k - row.len()]);
            }
        }
    }
}

proof fn lemma_fits_some_fits(e: ElemV, t: TypeV, o: LatticeOptions, j: int, c: u8)
    requires
        0 <= j,
        exists|k: int| j <= k < t.elements.len() && #[trigger] elem_refines_spec(e, t.elements[k], o, 0).0,
    ensures
        some_refines_from(e, t, o, j, c).0,
    decreases t.elements.len() - j,
{
    lemma_elem_refines_answer(e, t.elements[j], o, c, 0);
    let (r, c1) = elem_refines_spec(e, t.elements[j], o, c);
    if !r {
        let k = choose|k: int| j <= k < t.elements.len() && #[trigger] elem_refines_spec(e, t.elements[k], o, 0).0;
        assert(k != j);
        lemma_fits_some_fits(e, t, o, j + 1, c1);
    }
}

pub proof fn lemma_all_fit_some(r: TypeV, t: TypeV, o: LatticeOptions, i: int, c: u8)
    requires
        0 <= i <= r.elements.len(),
        forall|k: int| 0 <= k < r.elements.len() ==> fits_some(#[trigger] r.elements[k], t.elements, o),
    ensures
        all_fit_from(r, t, o, i, c).0,
    decreases r.elements.len() - i,
{
    if i < r.elements.len() {
        if skipped(o, r.elements[i]) {
            lemma_all_fit_some(r, t, o, i + 1, c);
        } else {
            assert(fits_some(r.elements[i], t.elements, o));
            lemma_fits_some_fits(r.elements[i], t, o, 0, c);
            let (ok, c1) = elem_fits(r.elements[i], t, o, c);
            lemma_all_fit_some(r, t, o, i + 1, c1);
        }
    }
}

/// Every atom of the meet refines the input and the narrowing, so the
/// meet refines both: it is a lower bound. Placeholders, which refine
/// nothing, are left out.
pub proof fn lemma_meet_is_lower_bound(input: TypeV, narrowing: TypeV, o: LatticeOptions, c: u8)
    requires
        input.elements.len() > 0,
        narrowing.elements.len() > 0,
        forall|l: int| 0 <= l < input.elements.len() ==> !(#[trigger] input.elements[l] is Placeholder),
        forall|l: int| 0 <= l < narrowing.elements.len() ==> !(#[trigger] narrowing.elements[l] is Placeholder),
    ensures
        ({
            let t = meet_v_type(narrow_spec(input, narrowing, o, c).0, input);
            &&& refines_spec(t, input, o, c).0
            &&& refines_spec(t, narrowing, o, c).0
        }),
{
    let t = meet_v_type(narrow_spec(input, narrowing, o, c).0, input);
    if input == narrowing {
        crate::lattice::laws::lemma_refines_reflexive(input, o, c);
    } else {
        let (atoms, c1) = all_meets(input.elements, narrowing.elements, 0, o, c);
        if atoms.len() == 0 {
            crate::lattice::laws::lemma_never_refines_everything(input, o, c);
            crate::lattice::laws::lemma_never_refines_everything(narrowing, o, c);
        } else {
            lemma_all_meets_refine(input.elements, narrowing.elements, 0, o, c);
            let result = TypeV { elements: canonical(atoms), flags: crate::element::empty_flags() };
            assert forall|k: int| 0 <= k < result.elements.len() implies fits_some(
                #[trigger] result.elements[k],
                input.elements,
                o,
            ) && fits_some(result.elements[k], narrowing.elements, o) by {
                let e = result.elements[k];
                crate::element::lemma_dedup_contains(atoms, e);
                assert(result.elements.contains(e));
                let m = choose|m: int| 0 <= m < atoms.len() && atoms[m] == e;
                assert(fits_some(atoms[m], input.elements, o));
            }
            lemma_all_fit_some(result, input, o, 0, c);
            lemma_all_fit_some(result, narrowing, o, 0, c);
            if result == input {
                assert(t == input);
            }
        }
    }
}

/// The meet is impossible only for types that share no value.
pub proof fn lemma_impossible_means_disjoint(input: TypeV, narrowing: TypeV, o: LatticeOptions, c: u8)
    ensures
        narrow_spec(input, narrowing, o, c).0 is Impossible ==> !overlaps_spec(input, narrowing, o, 0).0,
{
}

proof fn lemma_string_meet_refines_sides(a: StringInfoV, b: StringInfoV, o: LatticeOptions, c: u8)
    requires
        string_meet_v(a, b) is Some,
    ensures
        elem_refines_spec(ElemV::Str(string_meet_v(a, b)->0), ElemV::Str(a), o, c).0,
        elem_refines_spec(ElemV::Str(string_meet_v(a, b)->0), ElemV::Str(b), o, c).0,
{
    let m = string_meet_v(a, b)->0;
    if a.casing != crate::element::StringCasing::Unspecified && b.casing != crate::element::StringCasing::Unspecified
        && a.casing != b.casing {
        assert(m.literal == crate::element::StrLitV::Value(Seq::<char>::empty()));
        if let crate::element::StrLitV::Value(x) = a.literal {
            assert(x =~= Seq::<char>::empty());
        }
        if let crate::element::StrLitV::Value(x) = b.literal {
            assert(x =~= Seq::<char>::empty());
        }
        assert(crate::lattice::family::string::no_upper(Seq::<char>::empty()));
        assert(crate::lattice::family::string::no_lower(Seq::<char>::empty()));
    }
    assert(crate::lattice::family::string::satisfies_literal(m.literal, a.literal));
    assert(crate::lattice::family::string::satisfies_casing(m, a.casing));
    assert(crate::lattice::family::string::satisfies_flags(m, a.flags));
    assert(crate::lattice::family::string::satisfies_literal(m.literal, b.literal));
    assert(crate::lattice::family::string::satisfies_casing(m, b.casing));
    assert(crate::lattice::family::string::satisfies_flags(m, b.flags));
}

/// Two string atoms that share a value under the family rule meet in a
/// string atom: an overlapping string pair is never dropped.
pub proof fn lemma_overlapping_strings_meet(a: StringInfoV, b: StringInfoV, o: LatticeOptions, c: u8)
    requires
        string_meet_v(a, b) is Some,
    ensures
        atom_meet_spec(ElemV::Str(a), ElemV::Str(b), o, c).0 matches Some(m) && m is Str,
{
    let ea = ElemV::Str(a);
    let eb = ElemV::Str(b);
    let (r1, c1) = elem_refines_spec(ea, eb, o, c);
    let (r2, c2) = elem_refines_spec(eb, ea, o, c1);
    let m = string_meet_v(a, b)->0;
    assert(family_meet_v(ea, eb) == Some(ElemV::Str(m)));
    lemma_string_meet_refines_sides(a, b, o, c2);
    let (k1, c3) = elem_refines_spec(ElemV::Str(m), ea, o, c2);
    lemma_string_meet_refines_sides(a, b, o, c3);
}

} // verus!
