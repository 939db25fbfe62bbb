//! Bound reconciliation: the witness of a template parameter from the
//! bounds collected for it.
//!
//! The bounds are taken in a stable order by depth; the least depth is
//! the baseline. Every bound at the baseline depth is relevant, and so is
//! every deeper bound at the argument offset of an equality bound at the
//! baseline depth. Which bounds are relevant does not depend on the order
//! they come in. The witness is the union of the relevant bounds' types;
//! with no bound there is none, and the caller falls back to the
//! parameter's constraint.
use vstd::prelude::*;

use crate::element::{ElemV, Element, Type, TypeV};
use crate::lattice::refines::append_elements;
use crate::lattice::refines_spec::union_v;
use crate::substitute::views;
use crate::template::standin::{BoundV, StandinState, bound_view, bounds_for_v, bounds_view, key_view};
use crate::template::{Bound, BoundKind, TemplateKey};

verus! {

broadcast use vstd::std_specs::vec::group_vec_axioms;

/// How many of the bounds at the indices `ord` are no deeper than `d`.
pub open spec fn count_no_deeper(s: Seq<BoundV>, ord: Seq<int>, d: u32) -> int
    decreases ord.len(),
{
    if ord.len() == 0 {
        0
    } else {
        count_no_deeper(s, ord.drop_last(), d) + if s[ord.last()].depth <= d {
            1int
        } else {
            0int
        }
    }
}

/// The indices of the first `n` bounds in a stable order by depth: each
/// bound goes after every earlier bound no deeper than it.
pub open spec fn depth_order(s: Seq<BoundV>, n: int) -> Seq<int>
    decreases n,
{
    if n <= 0 {
        Seq::empty()
    } else {
        let o = depth_order(s, n - 1);
        o.insert(count_no_deeper(s, o, s[n - 1].depth), n - 1)
    }
}

pub open spec fn sorted_by_depth(s: Seq<BoundV>, ord: Seq<int>) -> bool {
    forall|i: int, j: int| 0 <= i < j < ord.len() ==> s[ord[i]].depth <= s[ord[j]].depth
}

pub open spec fn indices_below(ord: Seq<int>, n: int) -> bool {
    forall|i: int| 0 <= i < ord.len() ==> 0 <= #[trigger] ord[i] < n
}

/// The least depth among the bounds `s`: that of the first in depth order.
pub open spec fn baseline_depth(s: Seq<BoundV>) -> u32 {
    s[depth_order(s, s.len() as int)[0]].depth
}

/// An equality bound at the baseline depth sits at argument offset `off`.
pub open spec fn anchored_at(s: Seq<BoundV>, off: u32) -> bool {
    exists|j: int|
        0 <= j < s.len() && #[trigger] s[j].depth == baseline_depth(s) && s[j].kind == BoundKind::Equality
            && s[j].argument_offset == off
}

/// Reconciliation keeps `b`: it is at the baseline depth, or it is deeper
/// at the offset of an equality bound at the baseline depth.
pub open spec fn is_relevant(s: Seq<BoundV>, b: BoundV) -> bool {
    b.depth == baseline_depth(s) || anchored_at(s, b.argument_offset)
}

/// The bounds reconciliation keeps, in depth order.
pub open spec fn relevant(s: Seq<BoundV>) -> Seq<int> {
    depth_order(s, s.len() as int).filter(|i: int| is_relevant(s, s[i]))
}

/// The atoms of the types of the bounds at the indices `idx`, in order.
pub open spec fn types_at(s: Seq<BoundV>, idx: Seq<int>) -> Seq<ElemV>
    decreases idx.len(),
{
    if idx.len() == 0 {
        Seq::empty()
    } else {
        types_at(s, idx.drop_last()) + s[idx.last()].ty.elements
    }
}

/// The witness the bounds `s` give, if any.
pub open spec fn reconcile_spec(s: Seq<BoundV>) -> Option<TypeV> {
    if s.len() == 0 {
        None
    } else {
        Some(union_v(types_at(s, relevant(s))))
    }
}

proof fn lemma_count_prefix(s: Seq<BoundV>, ord: Seq<int>, d: u32)
    requires
        sorted_by_depth(s, ord),
    ensures
        0 <= count_no_deeper(s, ord, d) <= ord.len(),
        forall|k: int| 0 <= k < count_no_deeper(s, ord, d) ==> s[#[trigger] ord[k]].depth <= d,
        forall|k: int| count_no_deeper(s, ord, d) <= k < ord.len() ==> s[#[trigger] ord[k]].depth > d,
    decreases ord.len(),
{
    if ord.len() > 0 {
        let o = ord.drop_last();
        assert forall|i: int, j: int| 0 <= i < j < o.len() implies s[o[i]].depth <= s[o[j]].depth by {
            assert(o[i] == ord[i] && o[j] == ord[j]);
        }
        lemma_count_prefix(s, o, d);
        let c = count_no_deeper(s, o, d);
        if s[ord.last()].depth <= d {
            assert forall|k: int| c <= k < o.len() implies s[o[k]].depth <= d by {
                assert(o[k] == ord[k]);
                assert(s[ord[k]].depth <= s[ord[ord.len() - 1]].depth);
            }
            assert forall|k: int| 0 <= k < count_no_deeper(s, ord, d) implies s[#[trigger] ord[k]].depth <= d by {
                if k < o.len() {
                    assert(o[k] == ord[k]);
                    if k >= c {
                        assert(s[o[k]].depth <= d);
                    }
                }
            }
        } else {
            assert forall|k: int| count_no_deeper(s, ord, d) <= k < ord.len() implies s[#[trigger] ord[k]].depth
                > d by {
                if k < o.len() {
                    assert(o[k] == ord[k]);
                }
            }
            assert forall|k: int| 0 <= k < count_no_deeper(s, ord, d) implies s[#[trigger] ord[k]].depth <= d by {
                assert(o[k] == ord[k]);
            }
        }
    }
}

/// The depth order holds each of the first `n` indices once, sorted by
/// depth.
proof fn lemma_depth_order(s: Seq<BoundV>, n: int)
    requires
        0 <= n <= s.len(),
    ensures
        depth_order(s, n).len() == n,
        indices_below(depth_order(s, n), n),
        sorted_by_depth(s, depth_order(s, n)),
        forall|i: int| 0 <= i < n ==> #[trigger] depth_order(s, n).contains(i),
    decreases n,
{
    if n > 0 {
        let o = depth_order(s, n - 1);
        lemma_depth_order(s, n - 1);
        let d = s[n - 1].depth;
        let p = count_no_deeper(s, o, d);
        lemma_count_prefix(s, o, d);
        o.insert_ensures(p, n - 1);
        let r = o.insert(p, n - 1);
        assert forall|i: int| 0 <= i < r.len() implies 0 <= #[trigger] r[i] < n by {
            if i < p {
                assert(r[i] == o[i]);
            } else if i > p {
                assert(r[i] == o[i - 1]);
            }
        }
        assert forall|i: int, j: int| 0 <= i < j < r.len() implies s[r[i]].depth <= s[r[j]].depth by {
            if j < p {
                assert(r[i] == o[i] && r[j] == o[j]);
            } else if j == p {
                assert(r[i] == o[i]);
            } else if i < p {
                assert(r[i] == o[i] && r[j] == o[j - 1]);
            } else if i == p {
                assert(r[j] == o[j - 1]);
            } else {
                assert(r[i] == o[i - 1] && r[j] == o[j - 1]);
            }
        }
        assert forall|i: int| 0 <= i < n implies #[trigger] r.contains(i) by {
            if i == n - 1 {
                assert(r[p] == n - 1);
            } else {
                assert(o.contains(i));
                let k = choose|k: int| 0 <= k < o.len() && o[k] == i;
                if k < p {
                    assert(r[k] == o[k]);
                } else {
                    assert(r[k + 1] == o[k]);
                }
            }
        }
    }
}

fn contains_offset(v: &Vec<u32>, x: u32) -> (r: bool)
    ensures
        r == v@.contains(x),
{
    let mut i: usize = 0;
    while i < v.len()
        invariant
            i <= v.len(),
            forall|j: int| 0 <= j < i ==> v@[j] != x,
        decreases v.len() - i,
    {
        if v[i] == x {
            return true;
        }
        i += 1;
    }
    false
}

/// The baseline depth is the least depth of a bound, and some bound has it.
proof fn lemma_baseline_is_least(s: Seq<BoundV>)
    requires
        s.len() > 0,
    ensures
        forall|i: int| 0 <= i < s.len() ==> baseline_depth(s) <= #[trigger] s[i].depth,
        exists|i: int| 0 <= i < s.len() && #[trigger] s[i].depth == baseline_depth(s),
{
    let ord = depth_order(s, s.len() as int);
    lemma_depth_order(s, s.len() as int);
    assert forall|i: int| 0 <= i < s.len() implies baseline_depth(s) <= #[trigger] s[i].depth by {
        assert(ord.contains(i));
        let m = choose|m: int| 0 <= m < ord.len() && ord[m] == i;
        if m > 0 {
            assert(s[ord[0]].depth <= s[ord[m]].depth);
        }
    }
    assert(0 <= ord[0] < s.len());
    assert(s[ord[0]].depth == baseline_depth(s));
}

/// Which bounds reconciliation keeps depends on the bounds alone, not on
/// the order they come in: two lists holding the same bounds agree on
/// every bound.
pub proof fn lemma_relevance_ignores_order(s1: Seq<BoundV>, s2: Seq<BoundV>, b: BoundV)
    requires
        s1.len() > 0,
        forall|x: BoundV| s1.contains(x) <==> s2.contains(x),
    ensures
        is_relevant(s1, b) == is_relevant(s2, b),
{
    lemma_baseline_is_least(s1);
    assert(s1.contains(s1[0]));
    assert(s2.len() > 0);
    lemma_baseline_is_least(s2);
    let i1 = choose|i: int| 0 <= i < s1.len() && #[trigger] s1[i].depth == baseline_depth(s1);
    let i2 = choose|i: int| 0 <= i < s2.len() && #[trigger] s2[i].depth == baseline_depth(s2);
    assert(s1.contains(s1[i1]));
    assert(s2.contains(s1[i1]));
    let j1 = choose|j: int| 0 <= j < s2.len() && s2[j] == s1[i1];
    assert(baseline_depth(s2) <= s2[j1].depth);
    assert(s2.contains(s2[i2]));
    assert(s1.contains(s2[i2]));
    let j2 = choose|j: int| 0 <= j < s1.len() && s1[j] == s2[i2];
    assert(baseline_depth(s1) <= s1[j2].depth);
    assert(baseline_depth(s1) == baseline_depth(s2));
    if anchored_at(s1, b.argument_offset) {
        let j = choose|j: int|
            0 <= j < s1.len() && #[trigger] s1[j].depth == baseline_depth(s1) && s1[j].kind == BoundKind::Equality
                && s1[j].argument_offset == b.argument_offset;
        assert(s1.contains(s1[j]));
        let m = choose|m: int| 0 <= m < s2.len() && s2[m] == s1[j];
        assert(s2[m].depth == baseline_depth(s2));
    }
    if anchored_at(s2, b.argument_offset) {
        let j = choose|j: int|
            0 <= j < s2.len() && #[trigger] s2[j].depth == baseline_depth(s2) && s2[j].kind == BoundKind::Equality
                && s2[j].argument_offset == b.argument_offset;
        assert(s2.contains(s2[j]));
        let m = choose|m: int| 0 <= m < s1.len() && s1[m] == s2[j];
        assert(s1[m].depth == baseline_depth(s1));
    }
}

/// Some relevant bound of `s` holds the atom `e` in its type.
pub open spec fn witness_has(s: Seq<BoundV>, e: ElemV) -> bool {
    exists|i: int| 0 <= i < s.len() && is_relevant(s, s[i]) && #[trigger] s[i].ty.elements.contains(e)
}

proof fn lemma_filter_within(v: Seq<int>, pred: spec_fn(int) -> bool, x: int)
    requires
        v.filter(pred).contains(x),
    ensures
        v.contains(x),
        pred(x),
    decreases v.len(),
{
    reveal(Seq::filter);
    if v.len() > 0 {
        let init = v.drop_last();
        if pred(v.last()) && x == v.last() {
            assert(v[v.len() - 1] == x);
        } else {
            assert(init.filter(pred).contains(x)) by {
                let k = choose|k: int| 0 <= k < v.filter(pred).len() && v.filter(pred)[k] == x;
                if pred(v.last()) {
                    assert(v.filter(pred) == init.filter(pred).push(v.last()));
                    if k == init.filter(pred).len() {
                        assert(x == v.last());
                    } else {
                        assert(init.filter(pred)[k] == x);
                    }
                } else {
                    assert(v.filter(pred) == init.filter(pred));
                }
            }
            lemma_filter_within(init, pred, x);
            let m = choose|m: int| 0 <= m < init.len() && init[m] == x;
            assert(v[m] == x);
        }
    }
}

proof fn lemma_types_at_contains(s: Seq<BoundV>, idx: Seq<int>, e: ElemV)
    ensures
        types_at(s, idx).contains(e) <==> exists|k: int|
            0 <= k < idx.len() && #[trigger] s[idx[k]].ty.elements.contains(e),
    decreases idx.len(),
{
    if idx.len() > 0 {
        let init = idx.drop_last();
        lemma_types_at_contains(s, init, e);
        let a = types_at(s, init);
        let b = s[idx.last()].ty.elements;
        assert(types_at(s, idx) == a + b);
        if (a + b).contains(e) {
            let m = choose|m: int| 0 <= m < (a + b).len() && (a + b)[m] == e;
            if m < a.len() {
                assert(a[m] == e);
                let k = choose|k: int| 0 <= k < init.len() && #[trigger] s[init[k]].ty.elements.contains(e);
                assert(idx[k] == init[k]);
            } else {
                assert(b[m - a.len()] == e);
                assert(s[idx[idx.len() - 1]].ty.elements.contains(e));
            }
        }
        if exists|k: int| 0 <= k < idx.len() && #[trigger] s[idx[k]].ty.elements.contains(e) {
            let k = choose|k: int| 0 <= k < idx.len() && #[trigger] s[idx[k]].ty.elements.contains(e);
            if k < init.len() {
                assert(idx[k] == init[k]);
                assert(s[init[k]].ty.elements.contains(e));
                let m = choose|m: int| 0 <= m < a.len() && a[m] == e;
                assert((a + b)[m] == e);
            } else {
                let m = choose|m: int| 0 <= m < b.len() && b[m] == e;
                assert((a + b)[a.len() + m] == e);
            }
        }
    }
}

proof fn lemma_relevant_atoms(s: Seq<BoundV>, e: ElemV)
    requires
        s.len() > 0,
    ensures
        types_at(s, relevant(s)).contains(e) <==> witness_has(s, e),
{
    let ord = depth_order(s, s.len() as int);
    lemma_depth_order(s, s.len() as int);
    let pred = |i: int| is_relevant(s, s[i]);
    let r = relevant(s);
    assert(r == ord.filter(pred));
    lemma_types_at_contains(s, r, e);
    if types_at(s, r).contains(e) {
        let k = choose|k: int| 0 <= k < r.len() && #[trigger] s[r[k]].ty.elements.contains(e);
        assert(r.contains(r[k]));
        lemma_filter_within(ord, pred, r[k]);
        let m = choose|m: int| 0 <= m < ord.len() && ord[m] == r[k];
        assert(0 <= ord[m] < s.len());
        assert(s[r[k]].ty.elements.contains(e));
    }
    if witness_has(s, e) {
        let i = choose|i: int| 0 <= i < s.len() && is_relevant(s, s[i]) && #[trigger] s[i].ty.elements.contains(e);
        assert(ord.contains(i));
        let m = choose|m: int| 0 <= m < ord.len() && ord[m] == i;
        ord.lemma_filter_contains(pred, m);
        assert(r.contains(i));
        let k = choose|k: int| 0 <= k < r.len() && r[k] == i;
        assert(s[r[k]].ty.elements.contains(e));
    }
}

/// The witness holds the same atoms whatever the order of the bounds:
/// two lists holding the same bounds give unions of the same atoms.
pub proof fn lemma_witness_ignores_order(s1: Seq<BoundV>, s2: Seq<BoundV>, e: ElemV)
    requires
        s1.len() > 0,
        forall|x: BoundV| s1.contains(x) <==> s2.contains(x),
    ensures
        reconcile_spec(s1)->0.elements.contains(e) <==> reconcile_spec(s2)->0.elements.contains(e),
{
    assert(s1.contains(s1[0]));
    assert(s2.len() > 0);
    assert forall|x: ElemV| witness_has(s1, x) <==> witness_has(s2, x) by {
        if witness_has(s1, x) {
            let i = choose|i: int| 0 <= i < s1.len() && is_relevant(s1, s1[i]) && #[trigger] s1[i].ty.elements.contains(x);
            assert(s1.contains(s1[i]));
            let j = choose|j: int| 0 <= j < s2.len() && s2[j] == s1[i];
            lemma_relevance_ignores_order(s1, s2, s1[i]);
            assert(s2[j].ty.elements.contains(x));
        }
        if witness_has(s2, x) {
            let i = choose|i: int| 0 <= i < s2.len() && is_relevant(s2, s2[i]) && #[trigger] s2[i].ty.elements.contains(x);
            assert(s2.contains(s2[i]));
            let j = choose|j: int| 0 <= j < s1.len() && s1[j] == s2[i];
            lemma_relevance_ignores_order(s1, s2, s2[i]);
            assert(s1[j].ty.elements.contains(x));
        }
    }
    let t1 = types_at(s1, relevant(s1));
    let t2 = types_at(s2, relevant(s2));
    assert forall|x: ElemV| t1.contains(x) <==> t2.contains(x) by {
        lemma_relevant_atoms(s1, x);
        lemma_relevant_atoms(s2, x);
    }
    if t1.len() > 0 {
        assert(t1.contains(t1[0]));
        assert(t2.contains(t1[0]));
    }
    if t2.len() > 0 {
        assert(t2.contains(t2[0]));
        assert(t1.contains(t2[0]));
    }
    crate::element::lemma_dedup_contains(t1, e);
    crate::element::lemma_dedup_contains(t2, e);
}

/// Pick the relevant bounds and union their types; `None` when there is
/// no bound.
pub fn reconcile(bounds: &Vec<Bound>) -> (r: Option<Type>)
    ensures
        match r {
            Some(t) => reconcile_spec(bounds_view(bounds@)) == Some(t@),
            None => reconcile_spec(bounds_view(bounds@)) is None,
        },
{
    let ghost s = bounds_view(bounds@);
    if bounds.len() == 0 {
        return None;
    }
    let mut order: Vec<usize> = Vec::new();
    let mut i: usize = 0;
    while i < bounds.len()
        invariant
            s == bounds_view(bounds@),
            s.len() == bounds.len(),
            i <= s.len(),
            order@.map_values(|x: usize| x as int) == depth_order(s, i as int),
        decreases bounds.len() - i,
    {
        let ghost o = depth_order(s, i as int);
        proof {
            lemma_depth_order(s, i as int);
        }
        let d = bounds[i].depth;
        assert(s[i as int].depth == d);
        let mut p: usize = 0;
        let mut k: usize = 0;
        while k < order.len()
            invariant
                s == bounds_view(bounds@),
                s.len() == bounds.len(),
                i < s.len(),
                o == depth_order(s, i as int),
                o.len() == i,
                indices_below(o, i as int),
                order@.map_values(|x: usize| x as int) == o,
                k <= order.len(),
                p <= k,
                p == count_no_deeper(s, o.take(k as int), d),
            decreases order.len() - k,
        {
            assert(o[k as int] == order@[k as int] as int);
            assert(o.take(k + 1).drop_last() =~= o.take(k as int));
            assert(o.take(k + 1).last() == o[k as int]);
            assert(s[o[k as int]] == bound_view(bounds@[order@[k as int] as int]));
            if bounds[order[k]].depth <= d {
                p += 1;
            }
            k += 1;
        }
        assert(o.take(o.len() as int) =~= o);
        let ghost before_order = order@;
        order.insert(p, i);
        proof {
            before_order.insert_ensures(p as int, i);
            o.insert_ensures(p as int, i as int);
            let m = order@.map_values(|x: usize| x as int);
            assert forall|j: int| 0 <= j < m.len() implies m[j] == o.insert(p as int, i as int)[j] by {
                if j < p {
                    assert(order@[j] == before_order[j]);
                } else if j > p {
                    assert(order@[j] == before_order[j - 1]);
                }
            }
        }
        assert(order@.map_values(|x: usize| x as int) =~= o.insert(p as int, i as int));
        i += 1;
    }
    let ghost ord = depth_order(s, s.len() as int);
    proof {
        lemma_depth_order(s, s.len() as int);
    }
    assert(order@.len() == ord.len());
    assert(ord[0] == order@[0] as int);
    let base = &bounds[order[0]];
    assert(s[ord[0]] == bound_view(*base));
    let baseline = base.depth;
    assert(baseline == baseline_depth(s));
    let ghost pred = |x: int| is_relevant(s, s[x]);
    assert(relevant(s) == ord.filter(pred));
    let mut eq_offsets: Vec<u32> = Vec::new();
    let mut elements: Vec<Element> = Vec::new();
    let mut k: usize = 0;
    while k < order.len()
        invariant
            s == bounds_view(bounds@),
            s.len() == bounds.len(),
            ord == depth_order(s, s.len() as int),
            ord.len() == s.len(),
            order@.map_values(|x: usize| x as int) == ord,
            indices_below(ord, s.len() as int),
            sorted_by_depth(s, ord),
            forall|i: int| 0 <= i < s.len() ==> #[trigger] ord.contains(i),
            baseline == baseline_depth(s),
            baseline == s[ord[0]].depth,
            pred == (|x: int| is_relevant(s, s[x])),
            k <= ord.len(),
            forall|off: u32|
                #[trigger] eq_offsets@.contains(off) <==> exists|j: int|
                    0 <= j < k && #[trigger] s[ord[j]].depth == baseline && s[ord[j]].kind == BoundKind::Equality
                        && s[ord[j]].argument_offset == off,
            views(elements@) == types_at(s, ord.take(k as int).filter(pred)),
        decreases order.len() - k,
    {
        assert(ord[k as int] == order@[k as int] as int);
        let b = &bounds[order[k]];
        assert(s[ord[k as int]] == bound_view(*b));
        let ghost x = ord[k as int];
        let ghost before = views(elements@);
        let ghost t1 = ord.take(k + 1);
        let ghost old_offsets = eq_offsets@;
        proof {
            reveal(Seq::filter);
        }
        assert(t1.drop_last() =~= ord.take(k as int));
        assert(t1.last() == x);
        assert(t1.len() == k + 1);
        assert(t1.filter(pred) == if pred(t1.last()) {
            t1.drop_last().filter(pred).push(t1.last())
        } else {
            t1.drop_last().filter(pred)
        });
        assert(types_at(s, ord.take(k as int).filter(pred).push(x)) == types_at(s, ord.take(k as int).filter(pred))
            + s[x].ty.elements) by {
            assert(ord.take(k as int).filter(pred).push(x).drop_last() =~= ord.take(k as int).filter(pred));
        }
        if b.depth == baseline {
            if b.kind == BoundKind::Equality {
                eq_offsets.push(b.argument_offset);
            }
            append_elements(&mut elements, &b.ty);
            assert(pred(x));
            assert(ord.take(k + 1).filter(pred) == ord.take(k as int).filter(pred).push(x));
            assert(views(elements@) =~= before + s[x].ty.elements);
        } else {
            assert(s[ord[0]].depth <= s[x].depth);
            let anchored = contains_offset(&eq_offsets, b.argument_offset);
            assert(anchored == anchored_at(s, b.argument_offset)) by {
                if anchored {
                    let j = choose|j: int|
                        0 <= j < k && #[trigger] s[ord[j]].depth == baseline && s[ord[j]].kind == BoundKind::Equality
                            && s[ord[j]].argument_offset == b.argument_offset;
                    assert(0 <= ord[j] < s.len());
                    assert(s[ord[j]].depth == baseline_depth(s));
                }
                if anchored_at(s, b.argument_offset) {
                    let i = choose|i: int|
                        0 <= i < s.len() && #[trigger] s[i].depth == baseline_depth(s) && s[i].kind
                            == BoundKind::Equality && s[i].argument_offset == b.argument_offset;
                    assert(ord.contains(i));
                    let m = choose|m: int| 0 <= m < ord.len() && ord[m] == i;
                    if m >= k {
                        assert(s[ord[k as int]].depth <= s[ord[m]].depth);
                    }
                    assert(s[ord[m]].depth == baseline);
                    assert(eq_offsets@.contains(b.argument_offset));
                }
            }
            if anchored {
                append_elements(&mut elements, &b.ty);
                assert(pred(x));
                assert(ord.take(k + 1).filter(pred) == ord.take(k as int).filter(pred).push(x));
                assert(views(elements@) =~= before + s[x].ty.elements);
            } else {
                assert(!pred(x));
                assert(ord.take(k + 1).filter(pred) == ord.take(k as int).filter(pred));
            }
        }
        assert forall|off: u32|
            #[trigger] eq_offsets@.contains(off) <==> exists|j: int|
                0 <= j < k + 1 && #[trigger] s[ord[j]].depth == baseline && s[ord[j]].kind == BoundKind::Equality
                    && s[ord[j]].argument_offset == off by {
            if eq_offsets@.contains(off) {
                if old_offsets.contains(off) {
                    let j = choose|j: int|
                        0 <= j < k && #[trigger] s[ord[j]].depth == baseline && s[ord[j]].kind == BoundKind::Equality
                            && s[ord[j]].argument_offset == off;
                    assert(0 <= j < k + 1);
                } else {
                    let q = choose|q: int| 0 <= q < eq_offsets@.len() && eq_offsets@[q] == off;
                    if q < old_offsets.len() {
                        assert(old_offsets[q] == off);
                    }
                    assert(s[ord[k as int]].depth == baseline);
                }
            }
            if exists|j: int|
                0 <= j < k + 1 && #[trigger] s[ord[j]].depth == baseline && s[ord[j]].kind == BoundKind::Equality
                    && s[ord[j]].argument_offset == off {
                let j = choose|j: int|
                    0 <= j < k + 1 && #[trigger] s[ord[j]].depth == baseline && s[ord[j]].kind == BoundKind::Equality
                        && s[ord[j]].argument_offset == off;
                if j < k {
                    assert(old_offsets.contains(off));
                    let q = choose|q: int| 0 <= q < old_offsets.len() && old_offsets[q] == off;
                    assert(eq_offsets@[q] == off);
                } else {
                    assert(eq_offsets@[eq_offsets@.len() - 1] == off);
                }
            }
        }
        k += 1;
    }
    assert(ord.take(ord.len() as int) =~= ord);
    let t = Type::union(elements);
    Some(t)
}

impl StandinState {
    /// The witness of `key`: what its bounds reconcile to, or `fallback`
    /// (typically the parameter's constraint) when none was recorded.
    pub fn witness(&self, key: &TemplateKey, fallback: Type) -> (r: Type)
        ensures
            r@ == match reconcile_spec(bounds_for_v(self@, key_view(*key))) {
                Some(t) => t,
                None => fallback@,
            },
    {
        let bounds = self.bounds_for(key);
        match reconcile(&bounds) {
            Some(t) => t,
            None => fallback,
        }
    }
}

} // verus!
