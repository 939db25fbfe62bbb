//! Element-level transformation primitives over a [`Type`].
//!
//! [`map`], [`flat_map`], [`filter_map`] and [`filter`] walk a type
//! structurally and post-order (see [`walk`]): the closure is asked at
//! every atom, including atoms buried in nested types, after those nested
//! types were transformed. When the closure keeps every atom at every
//! level, the type comes back as it was.
//!
//! The closures are asked about atoms by reference, and must answer alike
//! for atoms with the same model: the walk's result is stated in terms of
//! that answer.
pub mod walk;

use vstd::prelude::*;

use crate::element::{ElemV, Element, Type, TypeV};
use crate::substitute::views;
use self::walk::{Outcome, OutcomeV, lemma_keep_all_no_change, outcome_view, walk, walk_type};

verus! {

broadcast use vstd::std_specs::vec::group_vec_axioms;

/// The outcome of replacing an atom `e` by the atoms `v`.
pub open spec fn flat_outcome(v: Seq<ElemV>, e: ElemV) -> OutcomeV {
    if v == seq![e] {
        OutcomeV::Unchanged
    } else if v.len() == 1 {
        OutcomeV::Single(v[0])
    } else if v.len() == 0 {
        OutcomeV::Drop
    } else {
        OutcomeV::Many(v)
    }
}

/// The outcome of replacing `e` by the atoms of `v`.
pub fn flat_outcome_of(v: Vec<Element>, e: &Element) -> (o: Outcome)
    ensures
        outcome_view(o) == flat_outcome(views(v@), e@),
{
    let ghost vv = views(v@);
    assert(vv.len() == v@.len());
    if v.len() == 1 {
        if v[0].same(e) {
            assert(vv =~= seq![e@]);
            return Outcome::Unchanged;
        }
        proof {
            if vv == seq![e@] {
                assert(vv[0] == v@[0]@);
            }
        }
        let mut v = v;
        let only = v.pop().unwrap();
        assert(only@ == vv[0]);
        return Outcome::Single(only);
    }
    if v.len() == 0 {
        assert(vv.len() == 0 && vv != seq![e@]);
        return Outcome::Drop;
    }
    assert(vv.len() > 1 && vv != seq![e@]);
    Outcome::Many(v)
}

// ---------------------------------------------------------------------
// map
// ---------------------------------------------------------------------
/// Asked about `e`, the closure may answer `y`.
pub open spec fn map_answers<F: Fn(&Element) -> Element>(f: &F, e: ElemV, y: ElemV) -> bool {
    exists|x: Element, out: Element| x@ == e && #[trigger] call_ensures(*f, (&x,), out) && out@ == y
}

/// The closure can be asked about any atom and answers alike for atoms
/// with the same model.
pub open spec fn map_well_behaved<F: Fn(&Element) -> Element>(f: &F) -> bool {
    &&& forall|x: &Element| #[trigger] f.requires((x,))
    &&& forall|e: ElemV, y1: ElemV, y2: ElemV|
        #[trigger] map_answers(f, e, y1) && #[trigger] map_answers(f, e, y2) ==> y1 == y2
}

/// The closure's answer about `e`; `e` itself for an atom it cannot be
/// asked about.
pub open spec fn map_answer<F: Fn(&Element) -> Element>(f: &F, e: ElemV) -> ElemV {
    if exists|y: ElemV| map_answers(f, e, y) {
        choose|y: ElemV| map_answers(f, e, y)
    } else {
        e
    }
}

/// Each atom is replaced by the closure's answer.
pub open spec fn map_decider<F: Fn(&Element) -> Element>(f: &F) -> spec_fn(ElemV) -> OutcomeV {
    |e: ElemV|
        if map_answer(f, e) == e {
            OutcomeV::Unchanged
        } else {
            OutcomeV::Single(map_answer(f, e))
        }
}

/// Apply `f` to every atom of `ty`, recursively through nested types.
pub fn map<F: Fn(&Element) -> Element>(ty: &Type, f: &F) -> (r: Type)
    requires
        map_well_behaved(f),
    ensures
        r@ == walk_type(ty@, map_decider(f), true),
{
    let step = |x: &Element| -> (o: Outcome)
        requires
            map_well_behaved(f),
        ensures
            outcome_view(o) == map_decider(f)(x@),
        {
            let y = f(x);
            proof {
                assert(map_answers(f, x@, y@));
                let a = map_answer(f, x@);
                assert(map_answers(f, x@, a));
            }
            if y.same(x) {
                Outcome::Unchanged
            } else {
                Outcome::Single(y)
            }
        };
    walk(ty, &step, Ghost(map_decider(f)), true)
}

// ---------------------------------------------------------------------
// flat_map
// ---------------------------------------------------------------------
pub open spec fn flat_answers<F: Fn(&Element) -> Vec<Element>>(f: &F, e: ElemV, v: Seq<ElemV>) -> bool {
    exists|x: Element, out: Vec<Element>| x@ == e && #[trigger] call_ensures(*f, (&x,), out) && views(out@) == v
}

pub open spec fn flat_well_behaved<F: Fn(&Element) -> Vec<Element>>(f: &F) -> bool {
    &&& forall|x: &Element| #[trigger] f.requires((x,))
    &&& forall|e: ElemV, v1: Seq<ElemV>, v2: Seq<ElemV>|
        #[trigger] flat_answers(f, e, v1) && #[trigger] flat_answers(f, e, v2) ==> v1 == v2
}

pub open spec fn flat_answer<F: Fn(&Element) -> Vec<Element>>(f: &F, e: ElemV) -> Seq<ElemV> {
    if exists|v: Seq<ElemV>| flat_answers(f, e, v) {
        choose|v: Seq<ElemV>| flat_answers(f, e, v)
    } else {
        seq![e]
    }
}

/// Each atom is replaced by the atoms the closure answers.
pub open spec fn flat_decider<F: Fn(&Element) -> Vec<Element>>(f: &F) -> spec_fn(ElemV) -> OutcomeV {
    |e: ElemV| flat_outcome(flat_answer(f, e), e)
}

/// Replace every atom by zero or more atoms; an empty answer drops the
/// atom from its union (a union left empty is `never`).
pub fn flat_map<F: Fn(&Element) -> Vec<Element>>(ty: &Type, f: &F) -> (r: Type)
    requires
        flat_well_behaved(f),
    ensures
        r@ == walk_type(ty@, flat_decider(f), true),
{
    let step = |x: &Element| -> (o: Outcome)
        requires
            flat_well_behaved(f),
        ensures
            outcome_view(o) == flat_decider(f)(x@),
        {
            let v = f(x);
            proof {
                assert(flat_answers(f, x@, views(v@)));
                let a = flat_answer(f, x@);
                assert(flat_answers(f, x@, a));
            }
            flat_outcome_of(v, x)
        };
    walk(ty, &step, Ghost(flat_decider(f)), true)
}

// ---------------------------------------------------------------------
// filter_map
// ---------------------------------------------------------------------
pub open spec fn elem_opt_view(o: Option<Element>) -> Option<ElemV> {
    match o {
        Some(e) => Some(e@),
        None => None,
    }
}

pub open spec fn filter_map_answers<F: Fn(&Element) -> Option<Element>>(f: &F, e: ElemV, y: Option<ElemV>) -> bool {
    exists|x: Element, out: Option<Element>|
        x@ == e && #[trigger] call_ensures(*f, (&x,), out) && elem_opt_view(out) == y
}

pub open spec fn filter_map_well_behaved<F: Fn(&Element) -> Option<Element>>(f: &F) -> bool {
    &&& forall|x: &Element| #[trigger] f.requires((x,))
    &&& forall|e: ElemV, y1: Option<ElemV>, y2: Option<ElemV>|
        #[trigger] filter_map_answers(f, e, y1) && #[trigger] filter_map_answers(f, e, y2) ==> y1 == y2
}

pub open spec fn filter_map_answer<F: Fn(&Element) -> Option<Element>>(f: &F, e: ElemV) -> Option<ElemV> {
    if exists|y: Option<ElemV>| filter_map_answers(f, e, y) {
        choose|y: Option<ElemV>| filter_map_answers(f, e, y)
    } else {
        Some(e)
    }
}

/// Each atom is replaced by the closure's answer, or dropped on `None`.
pub open spec fn filter_map_decider<F: Fn(&Element) -> Option<Element>>(f: &F) -> spec_fn(ElemV) -> OutcomeV {
    |e: ElemV|
        match filter_map_answer(f, e) {
            Some(y) => if y == e {
                OutcomeV::Unchanged
            } else {
                OutcomeV::Single(y)
            },
            None => OutcomeV::Drop,
        }
}

/// Replace every atom by the closure's answer, dropping it on `None`.
pub fn filter_map<F: Fn(&Element) -> Option<Element>>(ty: &Type, f: &F) -> (r: Type)
    requires
        filter_map_well_behaved(f),
    ensures
        r@ == walk_type(ty@, filter_map_decider(f), true),
{
    let step = |x: &Element| -> (o: Outcome)
        requires
            filter_map_well_behaved(f),
        ensures
            outcome_view(o) == filter_map_decider(f)(x@),
        {
            let y = f(x);
            proof {
                assert(filter_map_answers(f, x@, elem_opt_view(y)));
                let a = filter_map_answer(f, x@);
                assert(filter_map_answers(f, x@, a));
            }
            match y {
                Some(z) => if z.same(x) {
                    Outcome::Unchanged
                } else {
                    Outcome::Single(z)
                },
                None => Outcome::Drop,
            }
        };
    walk(ty, &step, Ghost(filter_map_decider(f)), true)
}

// ---------------------------------------------------------------------
// filter
// ---------------------------------------------------------------------
pub open spec fn filter_answers<F: Fn(&Element) -> bool>(f: &F, e: ElemV, b: bool) -> bool {
    exists|x: Element| x@ == e && #[trigger] call_ensures(*f, (&x,), b)
}

pub open spec fn filter_well_behaved<F: Fn(&Element) -> bool>(f: &F) -> bool {
    &&& forall|x: &Element| #[trigger] f.requires((x,))
    &&& forall|e: ElemV, b1: bool, b2: bool|
        #[trigger] filter_answers(f, e, b1) && #[trigger] filter_answers(f, e, b2) ==> b1 == b2
}

pub open spec fn filter_answer<F: Fn(&Element) -> bool>(f: &F, e: ElemV) -> bool {
    if exists|b: bool| filter_answers(f, e, b) {
        choose|b: bool| filter_answers(f, e, b)
    } else {
        true
    }
}

/// Atoms the predicate rejects are dropped.
pub open spec fn filter_decider<F: Fn(&Element) -> bool>(f: &F) -> spec_fn(ElemV) -> OutcomeV {
    |e: ElemV|
        if filter_answer(f, e) {
            OutcomeV::Unchanged
        } else {
            OutcomeV::Drop
        }
}

/// Drop every atom for which `predicate` answers `false`.
pub fn filter<F: Fn(&Element) -> bool>(ty: &Type, predicate: &F) -> (r: Type)
    requires
        filter_well_behaved(predicate),
    ensures
        r@ == walk_type(ty@, filter_decider(predicate), true),
{
    let step = |x: &Element| -> (o: Outcome)
        requires
            filter_well_behaved(predicate),
        ensures
            outcome_view(o) == filter_decider(predicate)(x@),
        {
            let keep = predicate(x);
            proof {
                assert(filter_answers(predicate, x@, keep));
                let a = filter_answer(predicate, x@);
                assert(filter_answers(predicate, x@, a));
            }
            if keep {
                Outcome::Unchanged
            } else {
                Outcome::Drop
            }
        };
    walk(ty, &step, Ghost(filter_decider(predicate)), true)
}

// ---------------------------------------------------------------------
// Laws.
// ---------------------------------------------------------------------
/// `map` with a closure that hands every atom back leaves every type as
/// it was.
pub proof fn lemma_map_identity<F: Fn(&Element) -> Element>(f: &F, t: TypeV)
    requires
        forall|x: &Element, out: Element| #[trigger] f.ensures((x,), out) ==> out@ == x@,
    ensures
        walk_type(t, map_decider(f), true) == t,
{
    assert forall|e: ElemV| #[trigger] map_decider(f)(e) == OutcomeV::Unchanged by {
        if exists|y: ElemV| map_answers(f, e, y) {
            let y = choose|y: ElemV| map_answers(f, e, y);
            let (x, out) = choose|x: Element, out: Element| x@ == e && #[trigger] call_ensures(*f, (&x,), out)
                && out@ == y;
            assert(y == e);
        }
    }
    lemma_keep_all_no_change(t, map_decider(f), true);
}

/// `flat_map` with a closure that answers every atom with itself alone
/// leaves every type as it was.
pub proof fn lemma_flat_map_identity<F: Fn(&Element) -> Vec<Element>>(f: &F, t: TypeV)
    requires
        forall|x: &Element, out: Vec<Element>| #[trigger] f.ensures((x,), out) ==> views(out@) == seq![x@],
    ensures
        walk_type(t, flat_decider(f), true) == t,
{
    assert forall|e: ElemV| #[trigger] flat_decider(f)(e) == OutcomeV::Unchanged by {
        if exists|v: Seq<ElemV>| flat_answers(f, e, v) {
            let v = choose|v: Seq<ElemV>| flat_answers(f, e, v);
            let (x, out) = choose|x: Element, out: Vec<Element>| x@ == e && #[trigger] call_ensures(*f, (&x,), out)
                && views(out@) == v;
            assert(v == seq![e]);
        }
    }
    lemma_keep_all_no_change(t, flat_decider(f), true);
}

/// `filter_map` with a closure that answers `Some` of every atom leaves
/// every type as it was.
pub proof fn lemma_filter_map_identity<F: Fn(&Element) -> Option<Element>>(f: &F, t: TypeV)
    requires
        forall|x: &Element, out: Option<Element>| #[trigger] f.ensures((x,), out) ==> elem_opt_view(out) == Some(
            x@,
        ),
    ensures
        walk_type(t, filter_map_decider(f), true) == t,
{
    assert forall|e: ElemV| #[trigger] filter_map_decider(f)(e) == OutcomeV::Unchanged by {
        if exists|y: Option<ElemV>| filter_map_answers(f, e, y) {
            let y = choose|y: Option<ElemV>| filter_map_answers(f, e, y);
            let (x, out) = choose|x: Element, out: Option<Element>| x@ == e && #[trigger] call_ensures(
                *f,
                (&x,),
                out,
            ) && elem_opt_view(out) == y;
            assert(y == Some(e));
        }
    }
    lemma_keep_all_no_change(t, filter_map_decider(f), true);
}

/// `filter` with a predicate that keeps every atom leaves every type as
/// it was.
pub proof fn lemma_filter_identity<F: Fn(&Element) -> bool>(f: &F, t: TypeV)
    requires
        forall|x: &Element, keep: bool| #[trigger] f.ensures((x,), keep) ==> keep,
    ensures
        walk_type(t, filter_decider(f), true) == t,
{
    assert forall|e: ElemV| #[trigger] filter_decider(f)(e) == OutcomeV::Unchanged by {
        if exists|b: bool| filter_answers(f, e, b) {
            let b = choose|b: bool| filter_answers(f, e, b);
            let x = choose|x: Element| x@ == e && #[trigger] call_ensures(*f, (&x,), b);
            assert(b);
        }
    }
    lemma_keep_all_no_change(t, filter_decider(f), true);
}

} // verus!
