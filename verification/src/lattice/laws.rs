//! Laws of the lattice relations, stated over their mathematical models.
use vstd::prelude::*;

use crate::element::{ElemV, IntInfo, ItemV, KeyV, PropV, StrLitV, StringCasing, StringFlags, StringInfoV, TypeV, esize, lemma_elem_smaller, tsize};
use crate::lattice::family::object::{first_named, props_met_from};
use crate::lattice::family::mixed::empty_array_v;
use crate::lattice::causes::{lemma_elem_overlaps_answer, lemma_elem_refines_answer, lemma_overlaps_answer};
use crate::lattice::overlaps::family_overlap;
use crate::meet::string::string_meet_v;
use crate::lattice::family::integer::{int_bounds, int_contains, int_info_refines};
use crate::lattice::family::mixed::never_type_v;
use crate::lattice::options::LatticeOptions;
use crate::lattice::refines_spec::{
    all_fit_from, atom_overlaps_from, cover_range, elem_fits, elem_overlaps_spec, elem_refines_spec, int_union_covers,
    lemma_esize_pos, mixed_v, overlaps_from, overlaps_spec, refines_spec, single_v, some_range_contains,
    some_refines_from, array_union_covers, container_items_met_from, extra_required_item, first_with_key,
    generic_union_covers, list_union_covers, required_never_item, skipped, uninhabited,
};

verus! {

proof fn lemma_some_refines_finds(e: ElemV, b: TypeV, o: LatticeOptions, j: int, c: u8)
    requires
        0 <= j,
        exists|k: int| j <= k < b.elements.len() && b.elements[k] == e,
    ensures
        some_refines_from(e, b, o, j, c).0,
    decreases b.elements.len() - j,
{
    if b.elements[j] == e {
        assert(elem_refines_spec(e, e, o, c) == (true, c));
    } else {
        let (r, c1) = elem_refines_spec(e, b.elements[j], o, c);
        if !r {
            let k = choose|k: int| j <= k < b.elements.len() && b.elements[k] == e;
            assert(j + 1 <= k);
            lemma_some_refines_finds(e, b, o, j + 1, c1);
        }
    }
}

proof fn lemma_all_fit_self(t: TypeV, o: LatticeOptions, i: int, c: u8)
    requires
        0 <= i <= t.elements.len(),
    ensures
        all_fit_from(t, t, o, i, c).0,
    decreases t.elements.len() - i,
{
    if i < t.elements.len() {
        if skipped(o, t.elements[i]) {
            lemma_all_fit_self(t, o, i + 1, c);
        } else {
            lemma_some_refines_finds(t.elements[i], t, o, 0, c);
            let (ok, c1) = elem_fits(t.elements[i], t, o, c);
            assert(ok);
            lemma_all_fit_self(t, o, i + 1, c1);
        }
    }
}

/// Reflexivity: every type refines itself, whatever the options; without
/// the `null` / `false` skips no cause is recorded either.
pub proof fn lemma_refines_reflexive(t: TypeV, o: LatticeOptions, c: u8)
    ensures
        refines_spec(t, t, o, c).0,
        !o.ignore_null && !o.ignore_false ==> refines_spec(t, t, o, c) == (true, c),
{
    lemma_all_fit_self(t, o, 0, c);
}

/// Bottom: `never` refines every type, whatever the options. A type holds
/// at least one atom: the union of no atom is stored as `never`.
pub proof fn lemma_never_refines_everything(b: TypeV, o: LatticeOptions, c: u8)
    requires
        b.elements.len() > 0,
    ensures
        refines_spec(never_type_v(), b, o, c).0,
{
    let a = never_type_v();
    if !(a == b && !o.ignore_null && !o.ignore_false) {
        assert(elem_refines_spec(ElemV::Never, b.elements[0], o, c) == (true, c));
        assert(some_refines_from(ElemV::Never, b, o, 0, c) == (true, c));
        assert(elem_fits(ElemV::Never, b, o, c) == (true, c));
        assert(all_fit_from(a, b, o, 1, c) == (true, c));
        assert(all_fit_from(a, b, o, 0, c) == (true, c));
    }
}

proof fn lemma_fit_mixed_from(a: TypeV, o: LatticeOptions, i: int, c: u8)
    requires
        0 <= i <= a.elements.len(),
    ensures
        all_fit_from(a, single_v(mixed_v()), o, i, c) == (true, c),
    decreases a.elements.len() - i,
{
    let m = single_v(mixed_v());
    if i < a.elements.len() {
        lemma_fit_mixed_from(a, o, i + 1, c);
        let e = a.elements[i];
        assert(elem_refines_spec(e, mixed_v(), o, c) == (true, c));
        assert(some_refines_from(e, m, o, 0, c) == (true, c));
        assert(elem_fits(e, m, o, c) == (true, c));
    }
}

/// Top: every type refines vanilla `mixed`, with no cause recorded.
pub proof fn lemma_everything_refines_mixed(a: TypeV, o: LatticeOptions, c: u8)
    ensures
        refines_spec(a, single_v(mixed_v()), o, c) == (true, c),
{
    lemma_fit_mixed_from(a, o, 0, c);
}

proof fn lemma_int_info_refines_includes(r1: IntInfo, r2: IntInfo, n: int)
    requires
        int_info_refines(r1, r2),
        int_contains(r1, n),
    ensures
        int_contains(r2, n),
{
}

/// For int atoms other than `literal-int` whose bounds are not crossed,
/// refinement is exactly the inclusion of their value sets.
pub proof fn lemma_int_refinement_is_inclusion(r1: IntInfo, r2: IntInfo, o: LatticeOptions, c: u8)
    requires
        r1 != IntInfo::UnspecifiedLiteral,
        r2 != IntInfo::UnspecifiedLiteral,
        !(int_bounds(r1).0 matches Some(l) && int_bounds(r1).1 matches Some(h) && l > h),
    ensures
        refines_spec(single_v(ElemV::Int(r1)), single_v(ElemV::Int(r2)), o, c).0 <==> (forall|n: int|
            int_contains(r1, n) ==> #[trigger] int_contains(r2, n)),
{
    let e = ElemV::Int(r1);
    let a = single_v(e);
    let b = single_v(ElemV::Int(r2));
    let incl = forall|n: int| int_contains(r1, n) ==> #[trigger] int_contains(r2, n);
    if int_info_refines(r1, r2) {
        assert forall|n: int| int_contains(r1, n) implies #[trigger] int_contains(r2, n) by {
            lemma_int_info_refines_includes(r1, r2, n);
        }
    }
    if a == b {
        assert(r1 == r2);
    } else {
        assert(b.elements[0] == ElemV::Int(r2));
        let (r, c1) = elem_refines_spec(e, ElemV::Int(r2), o, c);
        assert(r == int_info_refines(r1, r2));
        assert(some_refines_from(e, b, o, 1, c1) == (false, c1));
        assert(some_refines_from(e, b, o, 0, c) == (r, c1));
        assert forall|n: int| #[trigger] some_range_contains(b.elements, n) <==> int_contains(r2, n) by {
            if some_range_contains(b.elements, n) {
                let j = choose|j: int|
                    0 <= j < b.elements.len() && cover_range(b.elements[j]) && #[trigger] int_contains(
                        b.elements[j]->Int_0,
                        n,
                    );
                assert(j == 0);
            }
            if int_contains(r2, n) {
                assert(cover_range(b.elements[0]) && int_contains(b.elements[0]->Int_0, n));
            }
        }
        let (lo, hi) = int_bounds(r1);
        if incl {
            assert forall|n: int| crate::lattice::family::integer::bounds_contain(lo, hi, n) implies #[trigger] some_range_contains(
                b.elements,
                n,
            ) by {
                assert(int_contains(r1, n));
            }
        }
        if int_union_covers(e, b.elements) {
            assert forall|n: int| int_contains(r1, n) implies #[trigger] int_contains(r2, n) by {
                assert(some_range_contains(b.elements, n));
            }
        }
        assert(int_union_covers(e, b.elements) == incl);
        assert(elem_fits(e, b, o, c).0 == (r || incl));
        let (f, c2) = elem_fits(e, b, o, c);
        if f {
            assert(all_fit_from(a, b, o, 1, c2) == (true, c2));
        }
        assert(all_fit_from(a, b, o, 0, c).0 == f);
    }
}

// ---------------------------------------------------------------------
// Overlap is symmetric.
// ---------------------------------------------------------------------
/// The atom `x` overlaps some atom of `b` from index `j` on.
pub open spec fn overlaps_some_atom(x: ElemV, b: TypeV, o: LatticeOptions, j: int) -> bool {
    exists|k: int| j <= k < b.elements.len() && #[trigger] elem_overlaps_spec(x, b.elements[k], o, 0).0
}

/// Some atom of `a` from index `i` on overlaps some atom of `b`.
pub open spec fn overlapping_pair(a: TypeV, b: TypeV, o: LatticeOptions, i: int) -> bool {
    exists|k: int, l: int|
        i <= k < a.elements.len() && 0 <= l < b.elements.len() && #[trigger] elem_overlaps_spec(
            a.elements[k],
            b.elements[l],
            o,
            0,
        ).0
}

proof fn lemma_atom_overlaps_exists(x: ElemV, b: TypeV, o: LatticeOptions, j: int, c: u8)
    requires
        0 <= j,
    ensures
        atom_overlaps_from(x, b, o, j, c).0 == overlaps_some_atom(x, b, o, j),
    decreases b.elements.len() - j,
{
    if j < b.elements.len() {
        lemma_elem_overlaps_answer(x, b.elements[j], o, c, 0);
        let (r, c1) = elem_overlaps_spec(x, b.elements[j], o, c);
        lemma_atom_overlaps_exists(x, b, o, j + 1, c1);
        if overlaps_some_atom(x, b, o, j) && !r {
            let k = choose|k: int| j <= k < b.elements.len() && #[trigger] elem_overlaps_spec(x, b.elements[k], o, 0).0;
            assert(k != j);
            assert(overlaps_some_atom(x, b, o, j + 1));
        }
    }
}

proof fn lemma_overlaps_exists(a: TypeV, b: TypeV, o: LatticeOptions, i: int, c: u8)
    requires
        0 <= i,
    ensures
        overlaps_from(a, b, o, i, c).0 == overlapping_pair(a, b, o, i),
    decreases a.elements.len() - i,
{
    if i < a.elements.len() {
        let x = a.elements[i];
        lemma_atom_overlaps_exists(x, b, o, 0, c);
        let (r, c1) = atom_overlaps_from(x, b, o, 0, c);
        lemma_overlaps_exists(a, b, o, i + 1, c1);
        if r {
            let l = choose|l: int| 0 <= l < b.elements.len() && #[trigger] elem_overlaps_spec(x, b.elements[l], o, 0).0;
            assert(elem_overlaps_spec(a.elements[i], b.elements[l], o, 0).0);
        }
        if overlapping_pair(a, b, o, i) && !r {
            let (k, l) = choose|k: int, l: int|
                i <= k < a.elements.len() && 0 <= l < b.elements.len() && #[trigger] elem_overlaps_spec(
                    a.elements[k],
                    b.elements[l],
                    o,
                    0,
                ).0;
            if k == i {
                assert(overlaps_some_atom(x, b, o, 0));
            }
            assert(overlapping_pair(a, b, o, i + 1));
        }
    }
}

proof fn lemma_string_meet_symmetric(a: crate::element::StringInfoV, b: crate::element::StringInfoV)
    ensures
        string_meet_v(a, b) == string_meet_v(b, a),
{
}

proof fn lemma_family_overlap_symmetric(a: ElemV, b: ElemV)
    ensures
        family_overlap(a, b) == family_overlap(b, a),
{
}

proof fn lemma_pairs_symmetric(a: TypeV, b: TypeV, o: LatticeOptions)
    ensures
        overlapping_pair(a, b, o, 0) == overlapping_pair(b, a, o, 0),
    decreases tsize(a) + tsize(b), 1int,
{
    if overlapping_pair(a, b, o, 0) {
        let (k, l) = choose|k: int, l: int|
            0 <= k < a.elements.len() && 0 <= l < b.elements.len() && #[trigger] elem_overlaps_spec(
                a.elements[k],
                b.elements[l],
                o,
                0,
            ).0;
        lemma_elem_smaller(a, k);
        lemma_elem_smaller(b, l);
        lemma_elem_overlaps_symmetric(a.elements[k], b.elements[l], o);
        assert(elem_overlaps_spec(b.elements[l], a.elements[k], o, 0).0);
    }
    if overlapping_pair(b, a, o, 0) {
        let (l, k) = choose|l: int, k: int|
            0 <= l < b.elements.len() && 0 <= k < a.elements.len() && #[trigger] elem_overlaps_spec(
                b.elements[l],
                a.elements[k],
                o,
                0,
            ).0;
        lemma_elem_smaller(a, k);
        lemma_elem_smaller(b, l);
        lemma_elem_overlaps_symmetric(a.elements[k], b.elements[l], o);
        assert(elem_overlaps_spec(a.elements[k], b.elements[l], o, 0).0);
    }
}

proof fn lemma_types_overlap_symmetric(a: TypeV, b: TypeV, o: LatticeOptions)
    ensures
        overlaps_spec(a, b, o, 0).0 == overlaps_spec(b, a, o, 0).0,
    decreases tsize(a) + tsize(b), 2int,
{
    lemma_overlaps_exists(a, b, o, 0, 0);
    lemma_overlaps_exists(b, a, o, 0, 0);
    lemma_pairs_symmetric(a, b, o);
}

proof fn lemma_elem_overlaps_symmetric(x: ElemV, y: ElemV, o: LatticeOptions)
    ensures
        elem_overlaps_spec(x, y, o, 0).0 == elem_overlaps_spec(y, x, o, 0).0,
    decreases esize(x) + esize(y), 0int,
{
    lemma_esize_pos(x);
    lemma_esize_pos(y);
    if x is GenericParameter && y is GenericParameter {
        lemma_types_overlap_symmetric(x->GenericParameter_constraint, y->GenericParameter_constraint, o);
    } else if x is Str && y is Str {
        lemma_string_meet_symmetric(x->Str_0, y->Str_0);
    } else if x is List && y is List {
        lemma_types_overlap_symmetric(x->List_element_type, y->List_element_type, o);
    } else if x is Array && y is Array {
        if let (Some(xk), Some(yk), Some(xv), Some(yv)) = (x->Array_key, y->Array_key, x->Array_value, y->Array_value) {
            lemma_types_overlap_symmetric(xk, yk, o);
            lemma_types_overlap_symmetric(xv, yv, o);
            let (_, c1) = overlaps_spec(xk, yk, o, 0);
            let (_, c2) = overlaps_spec(yk, xk, o, 0);
            lemma_overlaps_answer(xv, yv, o, c1, 0);
            lemma_overlaps_answer(yv, xv, o, c2, 0);
        }
    } else {
        let (_, c1) = elem_refines_spec(x, y, o, 0);
        let (_, c2) = elem_refines_spec(y, x, o, 0);
        lemma_elem_refines_answer(y, x, o, c1, 0);
        lemma_elem_refines_answer(x, y, o, c2, 0);
        lemma_family_overlap_symmetric(x, y);
    }
}

/// Overlap is symmetric: `a` and `b` share a value exactly when `b` and
/// `a` do, whatever causes were recorded before.
pub proof fn lemma_overlaps_symmetric(a: TypeV, b: TypeV, o: LatticeOptions, c1: u8, c2: u8)
    ensures
        overlaps_spec(a, b, o, c1).0 == overlaps_spec(b, a, o, c2).0,
{
    lemma_overlaps_answer(a, b, o, c1, 0);
    lemma_overlaps_answer(b, a, o, c2, 0);
    lemma_types_overlap_symmetric(a, b, o);
}

/// A keyed-array shape of the single entry `k: v`, required or optional.
pub open spec fn one_entry_shape(k: KeyV, v: TypeV, optional: bool) -> ElemV {
    ElemV::Array { key: None, value: None, items: seq![ItemV { key: k, value: v, optional }], non_empty: false }
}

/// Whether a list or keyed array must be non-empty.
pub open spec fn must_be_non_empty(e: ElemV) -> bool {
    match e {
        ElemV::List { non_empty, .. } => non_empty,
        ElemV::Array { non_empty, .. } => non_empty,
        _ => false,
    }
}

/// The empty array `array{}` refines every list and every keyed array that
/// may be empty, and no list or keyed array that must be non-empty.
pub proof fn lemma_empty_array_fits_collections(cont: ElemV, o: LatticeOptions, c: u8)
    requires
        cont is List || cont is Array,
    ensures
        refines_spec(single_v(empty_array_v()), single_v(cont), o, c).0 == !must_be_non_empty(cont),
{
    let a = single_v(empty_array_v());
    let b = single_v(cont);
    let e = empty_array_v();
    assert(!required_never_item(Seq::<ItemV>::empty()));
    assert(!uninhabited(e));
    if !(a == b && !o.ignore_null && !o.ignore_false) {
        assert(!skipped(o, e));
        assert(elem_refines_spec(e, cont, o, c).0 == !must_be_non_empty(cont));
        assert(some_refines_from(e, b, o, 1, elem_refines_spec(e, cont, o, c).1).0 == false);
        let (_, c1) = some_refines_from(e, b, o, 0, c);
        assert(!int_union_covers(e, b.elements));
        assert(list_union_covers(e, b, o, c1).0 == false);
        let (_, c2) = list_union_covers(e, b, o, c1);
        assert(array_union_covers(e, b, o, c2).0 == false);
        let (_, c3) = array_union_covers(e, b, o, c2);
        assert(generic_union_covers(e, b, o, c3).0 == false);
        assert(elem_fits(e, b, o, c).0 == !must_be_non_empty(cont));
        let (r, c4) = elem_fits(e, b, o, c);
        assert(all_fit_from(a, b, o, 1, c4) == (true, c4));
    }
}

/// A required entry meets an optional one, and an optional entry does not
/// meet a required one: `array{k: v}` refines `array{k?: v}`, and
/// `array{k?: v}` does not refine `array{k: v}`.
pub proof fn lemma_required_entry_meets_optional(k: KeyV, v: TypeV, o: LatticeOptions, c: u8)
    requires
        !o.ignore_null,
        !o.ignore_false,
    ensures
        refines_spec(single_v(one_entry_shape(k, v, false)), single_v(one_entry_shape(k, v, true)), o, c).0,
        !refines_spec(single_v(one_entry_shape(k, v, true)), single_v(one_entry_shape(k, v, false)), o, c).0,
{
    let req = one_entry_shape(k, v, false);
    let opt = one_entry_shape(k, v, true);
    let ri = req->Array_items;
    let oi = opt->Array_items;
    assert(first_with_key(ri, k, 0) == Some(0int));
    assert(first_with_key(oi, k, 0) == Some(0int));
    lemma_refines_reflexive(v, o, c);
    // The required entry meets the optional one.
    assert(!extra_required_item(ri, oi));
    assert(container_items_met_from(ri, oi, o, 1, c) == (true, c));
    assert(container_items_met_from(ri, oi, o, 0, c) == (true, c));
    assert(elem_refines_spec(req, opt, o, c).0);
    lemma_fits_first(req, single_v(opt), o, c);
    // The optional entry does not meet the required one.
    assert(!required_never_item(oi)) by {
        assert(!required_never_item(oi.drop_last()));
    }
    assert(!uninhabited(opt));
    assert(container_items_met_from(oi, ri, o, 0, c).0 == false);
    assert(elem_refines_spec(opt, req, o, c).0 == false);
    let b = single_v(req);
    assert(some_refines_from(opt, b, o, 1, elem_refines_spec(opt, req, o, c).1).0 == false);
    let (_, c1) = some_refines_from(opt, b, o, 0, c);
    assert(list_union_covers(opt, b, o, c1).0 == false);
    let (_, c2) = list_union_covers(opt, b, o, c1);
    assert(array_union_covers(opt, b, o, c2).0 == false);
    let (_, c3) = array_union_covers(opt, b, o, c2);
    assert(generic_union_covers(opt, b, o, c3).0 == false);
    assert(!int_union_covers(opt, b.elements));
    assert(elem_fits(opt, b, o, c).0 == false);
}

/// An unsealed object shape of the single property `name: v`, required or
/// optional.
pub open spec fn one_property_shape(name: Seq<char>, v: TypeV, optional: bool) -> ElemV {
    ElemV::ObjectShape { props: seq![PropV { name, value: v, optional }], sealed: false }
}

/// As for array shapes, a required property meets an optional one, and an
/// optional property does not meet a required one.
pub proof fn lemma_required_property_meets_optional(name: Seq<char>, v: TypeV, o: LatticeOptions, c: u8)
    requires
        !o.ignore_null,
        !o.ignore_false,
    ensures
        refines_spec(single_v(one_property_shape(name, v, false)), single_v(one_property_shape(name, v, true)), o, c).0,
        !refines_spec(single_v(one_property_shape(name, v, true)), single_v(one_property_shape(name, v, false)), o, c).0,
{
    let req = one_property_shape(name, v, false);
    let opt = one_property_shape(name, v, true);
    let rp = req->ObjectShape_props;
    let op = opt->ObjectShape_props;
    assert(first_named(rp, name, 0) == Some(0int));
    assert(first_named(op, name, 0) == Some(0int));
    lemma_refines_reflexive(v, o, c);
    assert(props_met_from(rp, op, o, 1, c) == (true, c));
    assert(props_met_from(rp, op, o, 0, c) == (true, c));
    assert(elem_refines_spec(req, opt, o, c).0);
    lemma_fits_first(req, single_v(opt), o, c);
    assert(props_met_from(op, rp, o, 0, c).0 == false);
    assert(elem_refines_spec(opt, req, o, c).0 == false);
    let b = single_v(req);
    assert(some_refines_from(opt, b, o, 1, elem_refines_spec(opt, req, o, c).1).0 == false);
    let (_, c1) = some_refines_from(opt, b, o, 0, c);
    assert(list_union_covers(opt, b, o, c1).0 == false);
    let (_, c2) = list_union_covers(opt, b, o, c1);
    assert(array_union_covers(opt, b, o, c2).0 == false);
    let (_, c3) = array_union_covers(opt, b, o, c2);
    assert(generic_union_covers(opt, b, o, c3).0 == false);
    assert(!int_union_covers(opt, b.elements));
    assert(elem_fits(opt, b, o, c).0 == false);
}

/// An atom that refines a container atom on its own refines the single-atom
/// type made of it.
proof fn lemma_fits_first(e: ElemV, b: TypeV, o: LatticeOptions, c: u8)
    requires
        b.elements.len() == 1,
        elem_refines_spec(e, b.elements[0], o, c).0,
        !skipped(o, e),
    ensures
        refines_spec(single_v(e), b, o, c).0,
{
    let a = single_v(e);
    assert(some_refines_from(e, b, o, 0, c).0);
    assert(elem_fits(e, b, o, c).0);
    let (_, c1) = elem_fits(e, b, o, c);
    assert(all_fit_from(a, b, o, 1, c1) == (true, c1));
}

/// Transitivity on int atoms: refinement among them is inclusion of value
/// sets, so it chains.
pub proof fn lemma_int_refinement_transitive(r1: IntInfo, r2: IntInfo, r3: IntInfo, o: LatticeOptions, c: u8)
    requires
        r1 != IntInfo::UnspecifiedLiteral,
        r2 != IntInfo::UnspecifiedLiteral,
        r3 != IntInfo::UnspecifiedLiteral,
        !(int_bounds(r1).0 matches Some(l) && int_bounds(r1).1 matches Some(h) && l > h),
        !(int_bounds(r2).0 matches Some(l) && int_bounds(r2).1 matches Some(h) && l > h),
        refines_spec(single_v(ElemV::Int(r1)), single_v(ElemV::Int(r2)), o, c).0,
        refines_spec(single_v(ElemV::Int(r2)), single_v(ElemV::Int(r3)), o, c).0,
    ensures
        refines_spec(single_v(ElemV::Int(r1)), single_v(ElemV::Int(r3)), o, c).0,
{
    lemma_int_refinement_is_inclusion(r1, r2, o, c);
    lemma_int_refinement_is_inclusion(r2, r3, o, c);
    lemma_int_refinement_is_inclusion(r1, r3, o, c);
    assert forall|n: int| int_contains(r1, n) implies #[trigger] int_contains(r3, n) by {
        assert(int_contains(r2, n));
    }
}

/// The empty string is not a number.
pub proof fn lemma_empty_string_is_not_numeric()
    ensures
        !crate::lattice::family::string::is_numeric_literal(Seq::<char>::empty()),
{
    let e = Seq::<char>::empty();
    assert(crate::lattice::family::string::unsigned_part(e) =~= e);
    assert(crate::lattice::family::string::leading_digits(e) == 0);
    assert(e.skip(0) =~= e);
}

/// Every string atom whose values are all non-empty (it is non-empty,
/// truthy, numeric or callable, or a non-empty literal) refines
/// `non-empty-string`; in particular `numeric-string` does.
pub proof fn lemma_non_empty_strings_refine_non_empty_string(i: StringInfoV, o: LatticeOptions, c: u8)
    requires
        i.flags.non_empty || i.flags.truthy || i.flags.numeric || i.flags.callable || (i.literal matches StrLitV::Value(
            v,
        ) && v.len() > 0),
    ensures
        refines_spec(
            single_v(ElemV::Str(i)),
            single_v(
                ElemV::Str(
                    StringInfoV {
                        literal: StrLitV::Absent,
                        casing: StringCasing::Unspecified,
                        flags: StringFlags { non_empty: true, truthy: false, numeric: false, callable: false },
                    },
                ),
            ),
            o,
            c,
        ).0,
{
    let a = ElemV::Str(i);
    let b = ElemV::Str(
        StringInfoV {
            literal: StrLitV::Absent,
            casing: StringCasing::Unspecified,
            flags: StringFlags { non_empty: true, truthy: false, numeric: false, callable: false },
        },
    );
    if !(single_v(a) == single_v(b) && !o.ignore_null && !o.ignore_false) {
        assert(elem_refines_spec(a, b, o, c).0);
        assert(some_refines_from(a, single_v(b), o, 0, c).0);
        let (ok, c1) = elem_fits(a, single_v(b), o, c);
        assert(all_fit_from(single_v(a), single_v(b), o, 1, c1).0);
    }
}

/// A non-null `mixed` shares no value with `null`, either way round.
pub proof fn lemma_non_null_mixed_misses_null(m: crate::element::MixedInfo, o: LatticeOptions, c: u8)
    requires
        m.non_null,
    ensures
        !overlaps_spec(single_v(ElemV::Null), single_v(ElemV::Mixed(m)), o, c).0,
        !overlaps_spec(single_v(ElemV::Mixed(m)), single_v(ElemV::Null), o, c).0,
{
    let n = single_v(ElemV::Null);
    let x = single_v(ElemV::Mixed(m));
    assert(!elem_overlaps_spec(ElemV::Null, ElemV::Mixed(m), o, c).0);
    assert(!elem_overlaps_spec(ElemV::Mixed(m), ElemV::Null, o, c).0);
    let (r1, c1) = elem_overlaps_spec(ElemV::Null, ElemV::Mixed(m), o, c);
    assert(atom_overlaps_from(ElemV::Null, x, o, 1, c1) == (false, c1));
    assert(overlaps_from(n, x, o, 1, c1) == (false, c1));
    let (r2, c2) = elem_overlaps_spec(ElemV::Mixed(m), ElemV::Null, o, c);
    assert(atom_overlaps_from(ElemV::Mixed(m), n, o, 1, c2) == (false, c2));
    assert(overlaps_from(x, n, o, 1, c2) == (false, c2));
}

/// A truthy `mixed` shares no value with `null` or `false`, and a falsy
/// one none with `true`.
pub proof fn lemma_truthiness_of_mixed_excludes(m: crate::element::MixedInfo, o: LatticeOptions, c: u8)
    ensures
        m.truthiness == crate::element::Truthiness::Truthy ==> !elem_overlaps_spec(ElemV::Mixed(m), ElemV::Null, o, c).0
            && !elem_overlaps_spec(ElemV::Null, ElemV::Mixed(m), o, c).0 && !elem_overlaps_spec(
            ElemV::Mixed(m),
            ElemV::False,
            o,
            c,
        ).0 && !elem_overlaps_spec(ElemV::False, ElemV::Mixed(m), o, c).0,
        m.truthiness == crate::element::Truthiness::Falsy ==> !elem_overlaps_spec(ElemV::Mixed(m), ElemV::True, o, c).0
            && !elem_overlaps_spec(ElemV::True, ElemV::Mixed(m), o, c).0,
{
}

} // verus!
