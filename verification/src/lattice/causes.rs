//! The answers of the lattice relations do not depend on the coercion
//! causes recorded before the call: the causes only flow into the causes
//! returned.
use vstd::prelude::*;

use crate::element::{
    CallV, ElemV, ItemV, KnownElemV, ParamV, PropV, SigV, TypeV, lemma_props_size_elem, props_size, esize, items_size, kelems_size, lemma_elem_smaller,
    lemma_items_size_elem, lemma_kelems_size_elem, lemma_pssize_elem, pssize, sigsize, tsize,
};
use crate::lattice::family::object::{first_named, lemma_first_named, object_shape_refines, props_met_from};
use crate::lattice::options::LatticeOptions;
use crate::lattice::refines_spec::{
    callable_container_refines, lemma_array_keys_size, lemma_array_values_size, lemma_list_elements_size,
    lemma_represented_smaller, lemma_same_parameter_constraints_size, lemma_single_size, lemma_union_size,
    parameters_refine, params_refine_from, signature_refines,
    all_fit_from, array_container_refines, array_keys, array_union_covers, array_values, atom_overlaps_from,
    class_like_string_refines, dispatch_spec, elem_fits, elem_overlaps_spec, elem_refines_spec, generic_union_covers,
    input_represented, int_v, iterable_array_overlap, iterable_container_refines, iterable_list_overlap,
    lemma_esize_pos, lemma_input_represented_smaller, list_array_overlap, list_container_refines, list_elements,
    list_union_covers, mixed_v, overlaps_from, overlaps_spec, refines_spec, represented, same_parameter_constraints,
    single_v, skipped, some_refines_from, uninhabited, union_v, items_fit_from, container_items_met_from,
    first_with_key, lemma_first_with_key, key_type_v, lemma_key_type_size, first_at_index, lemma_first_at_index,
    list_entries_met_from, rest_fit_from,
};

verus! {

pub proof fn lemma_refines_answer(a: TypeV, b: TypeV, o: LatticeOptions, c1: u8, c2: u8)
    ensures
        refines_spec(a, b, o, c1).0 == refines_spec(a, b, o, c2).0,
    decreases tsize(a) + tsize(b), a.elements.len() + 2,
{
    if !(a == b && !o.ignore_null && !o.ignore_false) {
        lemma_all_fit_answer(a, b, o, 0, c1, c2);
    }
}

pub proof fn lemma_all_fit_answer(a: TypeV, b: TypeV, o: LatticeOptions, i: int, c1: u8, c2: u8)
    ensures
        all_fit_from(a, b, o, i, c1).0 == all_fit_from(a, b, o, i, c2).0,
    decreases tsize(a) + tsize(b), a.elements.len() + 1 - i,
{
    if 0 <= i < a.elements.len() {
        if skipped(o, a.elements[i]) {
            lemma_all_fit_answer(a, b, o, i + 1, c1, c2);
        } else {
            lemma_elem_smaller(a, i);
            lemma_fits_answer(a.elements[i], b, o, c1, c2);
            let (_, d1) = elem_fits(a.elements[i], b, o, c1);
            let (_, d2) = elem_fits(a.elements[i], b, o, c2);
            lemma_all_fit_answer(a, b, o, i + 1, d1, d2);
        }
    }
}

pub proof fn lemma_fits_answer(e: ElemV, b: TypeV, o: LatticeOptions, c1: u8, c2: u8)
    ensures
        elem_fits(e, b, o, c1).0 == elem_fits(e, b, o, c2).0,
    decreases esize(e) + tsize(b), b.elements.len() + 5,
{
    lemma_some_refines_answer(e, b, o, 0, c1, c2);
    let (_, x1) = some_refines_from(e, b, o, 0, c1);
    let (_, x2) = some_refines_from(e, b, o, 0, c2);
    lemma_list_union_answer(e, b, o, x1, x2);
    let (_, y1) = list_union_covers(e, b, o, x1);
    let (_, y2) = list_union_covers(e, b, o, x2);
    lemma_array_union_answer(e, b, o, y1, y2);
    let (_, z1) = array_union_covers(e, b, o, y1);
    let (_, z2) = array_union_covers(e, b, o, y2);
    lemma_generic_union_answer(e, b, o, z1, z2);
}

pub proof fn lemma_some_refines_answer(e: ElemV, b: TypeV, o: LatticeOptions, j: int, c1: u8, c2: u8)
    ensures
        some_refines_from(e, b, o, j, c1).0 == some_refines_from(e, b, o, j, c2).0,
    decreases esize(e) + tsize(b), b.elements.len() + 3 - j,
{
    if 0 <= j < b.elements.len() {
        lemma_elem_smaller(b, j);
        lemma_elem_refines_answer(e, b.elements[j], o, c1, c2);
        let (_, d1) = elem_refines_spec(e, b.elements[j], o, c1);
        let (_, d2) = elem_refines_spec(e, b.elements[j], o, c2);
        lemma_some_refines_answer(e, b, o, j + 1, d1, d2);
    }
}

pub proof fn lemma_list_union_answer(e: ElemV, b: TypeV, o: LatticeOptions, c1: u8, c2: u8)
    ensures
        list_union_covers(e, b, o, c1).0 == list_union_covers(e, b, o, c2).0,
    decreases esize(e) + tsize(b), 0int,
{
    if let ElemV::List { element_type, .. } = e {
        lemma_list_elements_size(b.elements);
        lemma_union_size(list_elements(b.elements));
        lemma_refines_answer(element_type, union_v(list_elements(b.elements)), o, c1, c2);
    }
}

pub proof fn lemma_array_union_answer(e: ElemV, b: TypeV, o: LatticeOptions, c1: u8, c2: u8)
    ensures
        array_union_covers(e, b, o, c1).0 == array_union_covers(e, b, o, c2).0,
    decreases esize(e) + tsize(b), 0int,
{
    if let ElemV::Array { key: Some(key), value: Some(value), .. } = e {
        lemma_array_keys_size(b.elements);
        lemma_union_size(array_keys(b.elements));
        lemma_array_values_size(b.elements);
        lemma_union_size(array_values(b.elements));
        let ku = union_v(array_keys(b.elements));
        let vu = union_v(array_values(b.elements));
        lemma_refines_answer(key, ku, o, c1, c2);
        let (_, d1) = refines_spec(key, ku, o, c1);
        let (_, d2) = refines_spec(key, ku, o, c2);
        lemma_refines_answer(value, vu, o, d1, d2);
    }
}

pub proof fn lemma_generic_union_answer(e: ElemV, b: TypeV, o: LatticeOptions, c1: u8, c2: u8)
    ensures
        generic_union_covers(e, b, o, c1).0 == generic_union_covers(e, b, o, c2).0,
    decreases esize(e) + tsize(b), 0int,
{
    if let ElemV::GenericParameter { name, entity, constraint } = e {
        let rhs = same_parameter_constraints(b.elements, name, entity);
        lemma_same_parameter_constraints_size(b.elements, name, entity);
        lemma_union_size(rhs);
        lemma_refines_answer(constraint, union_v(rhs), o, c1, c2);
    }
}

pub proof fn lemma_elem_refines_answer(a: ElemV, b: ElemV, o: LatticeOptions, c1: u8, c2: u8)
    ensures
        elem_refines_spec(a, b, o, c1).0 == elem_refines_spec(a, b, o, c2).0,
    decreases esize(a) + esize(b), 2int,
{
    lemma_esize_pos(a);
    lemma_esize_pos(b);
    lemma_single_size(b);
    if a == b || a is Never || uninhabited(a) || (a is Void && b is Null) || (a is Null && b is Void) || b
        == mixed_v() {
    } else if a is GenericParameter && !(b is GenericParameter) {
        lemma_refines_answer(a->GenericParameter_constraint, single_v(b), o, c1, c2);
    } else {
        lemma_dispatch_answer(a, b, o, c1, c2);
    }
}

pub proof fn lemma_dispatch_answer(a: ElemV, b: ElemV, o: LatticeOptions, c1: u8, c2: u8)
    ensures
        dispatch_spec(a, b, o, c1).0 == dispatch_spec(a, b, o, c2).0,
    decreases esize(a) + esize(b), 1int,
{
    match b {
        ElemV::ClassLikeString(kind, spec) => lemma_class_like_string_answer(a, kind, spec, o, c1, c2),
        ElemV::List { .. } => lemma_list_container_answer(a, b, o, c1, c2),
        ElemV::Array { .. } => lemma_array_container_answer(a, b, o, c1, c2),
        ElemV::Iterable { key, value } => lemma_iterable_container_answer(a, key, value, o, c1, c2),
        ElemV::Callable(cc) => lemma_callable_answer(a, cc, o, c1, c2),
        ElemV::ObjectShape { .. } => lemma_object_shape_answer(a, b, o, c1, c2),
        _ => {},
    }
}

pub proof fn lemma_object_shape_answer(a: ElemV, cont: ElemV, o: LatticeOptions, c1: u8, c2: u8)
    ensures
        object_shape_refines(a, cont, o, c1).0 == object_shape_refines(a, cont, o, c2).0,
    decreases esize(a) + esize(cont), 0int,
{
    if let (ElemV::ObjectShape { props, .. }, ElemV::ObjectShape { props: cprops, .. }) = (a, cont) {
        lemma_props_met_answer(props, cprops, o, 0, c1, c2);
    }
}

pub proof fn lemma_props_met_answer(
    props: Seq<PropV>,
    cprops: Seq<PropV>,
    o: LatticeOptions,
    k: int,
    c1: u8,
    c2: u8,
)
    ensures
        props_met_from(props, cprops, o, k, c1).0 == props_met_from(props, cprops, o, k, c2).0,
    decreases props_size(props) + props_size(cprops), cprops.len() - k,
{
    if 0 <= k < cprops.len() {
        match first_named(props, cprops[k].name, 0) {
            Some(j) => {
                lemma_first_named(props, cprops[k].name, 0);
                lemma_props_size_elem(props, j);
                lemma_props_size_elem(cprops, k);
                if !(!cprops[k].optional && props[j].optional) {
                    lemma_refines_answer(props[j].value, cprops[k].value, o, c1, c2);
                    let (_, d1) = refines_spec(props[j].value, cprops[k].value, o, c1);
                    let (_, d2) = refines_spec(props[j].value, cprops[k].value, o, c2);
                    lemma_props_met_answer(props, cprops, o, k + 1, d1, d2);
                }
            },
            None => lemma_props_met_answer(props, cprops, o, k + 1, c1, c2),
        }
    }
}

pub proof fn lemma_callable_answer(a: ElemV, cc: CallV, o: LatticeOptions, c1: u8, c2: u8)
    ensures
        callable_container_refines(a, cc, o, c1).0 == callable_container_refines(a, cc, o, c2).0,
    decreases esize(a) + esize(ElemV::Callable(cc)), 0int,
{
    if !(a matches ElemV::Str(info) && info.flags.callable) {
        if let ElemV::Callable(ac) = a {
            match (ac, cc) {
                (CallV::Sig(si), CallV::Sig(so)) => lemma_signature_answer(si, so, o, c1, c2),
                (CallV::Closure(si), CallV::Sig(so)) => lemma_signature_answer(si, so, o, c1, c2),
                (CallV::Closure(si), CallV::Closure(so)) => lemma_signature_answer(si, so, o, c1, c2),
                _ => {},
            }
        }
    }
}

pub proof fn lemma_signature_answer(si: SigV, so: SigV, o: LatticeOptions, c1: u8, c2: u8)
    ensures
        signature_refines(si, so, o, c1).0 == signature_refines(si, so, o, c2).0,
    decreases sigsize(si) + sigsize(so), 5int,
{
    if si != so {
        lemma_refines_answer(si.ret, so.ret, o, c1, c2);
        let (_, d1) = refines_spec(si.ret, so.ret, o, c1);
        let (_, d2) = refines_spec(si.ret, so.ret, o, c2);
        if let (Some(ti), Some(to)) = (si.throws, so.throws) {
            lemma_refines_answer(ti, to, o, d1, d2);
        }
        let (_, e1) = match (si.throws, so.throws) {
            (_, None) => (true, d1),
            (None, Some(_)) => (false, d1),
            (Some(ti), Some(to)) => refines_spec(ti, to, o, d1),
        };
        let (_, e2) = match (si.throws, so.throws) {
            (_, None) => (true, d2),
            (None, Some(_)) => (false, d2),
            (Some(ti), Some(to)) => refines_spec(ti, to, o, d2),
        };
        lemma_parameters_answer(si, so, o, e1, e2);
    }
}

pub proof fn lemma_parameters_answer(si: SigV, so: SigV, o: LatticeOptions, c1: u8, c2: u8)
    ensures
        parameters_refine(si, so, o, c1).0 == parameters_refine(si, so, o, c2).0,
    decreases sigsize(si) + sigsize(so), 4int,
{
    if let (Some(ins), Some(outs)) = (si.params, so.params) {
        lemma_params_from_answer(ins, outs, si.is_variadic, 0, o, c1, c2);
    }
}

pub proof fn lemma_params_from_answer(
    ins: Seq<ParamV>,
    outs: Seq<ParamV>,
    v: bool,
    idx: int,
    o: LatticeOptions,
    c1: u8,
    c2: u8,
)
    ensures
        params_refine_from(ins, outs, v, idx, o, c1).0 == params_refine_from(ins, outs, v, idx, o, c2).0,
    decreases pssize(ins) + pssize(outs), outs.len() + 1 - idx,
{
    if 0 <= idx < outs.len() && !(idx >= ins.len() && !(v && ins.len() > 0)) {
        let k = if idx < ins.len() {
            idx
        } else {
            ins.len() - 1
        };
        lemma_pssize_elem(ins, k);
        lemma_pssize_elem(outs, idx);
        lemma_refines_answer(outs[idx].ty, ins[k].ty, o, c1, c2);
        let (_, d1) = refines_spec(outs[idx].ty, ins[k].ty, o, c1);
        let (_, d2) = refines_spec(outs[idx].ty, ins[k].ty, o, c2);
        lemma_params_from_answer(ins, outs, v, idx + 1, o, d1, d2);
    }
}

pub proof fn lemma_class_like_string_answer(
    a: ElemV,
    kind: crate::element::ClassLikeKind,
    spec: crate::element::ClsSpecV,
    o: LatticeOptions,
    c1: u8,
    c2: u8,
)
    ensures
        class_like_string_refines(a, kind, spec, o, c1).0 == class_like_string_refines(a, kind, spec, o, c2).0,
    decreases esize(a) + esize(ElemV::ClassLikeString(kind, spec)), 0int,
{
    if !(spec is Any) && crate::lattice::family::class_like_string::matches_kind(a, kind) {
        if let (Some(it), Some(ct)) = (input_represented(a), represented(spec)) {
            lemma_input_represented_smaller(a);
            lemma_represented_smaller(kind, spec);
            lemma_refines_answer(it, ct, o, c1, c2);
        }
    }
}

pub proof fn lemma_list_container_answer(a: ElemV, cont: ElemV, o: LatticeOptions, c1: u8, c2: u8)
    ensures
        list_container_refines(a, cont, o, c1).0 == list_container_refines(a, cont, o, c2).0,
    decreases esize(a) + esize(cont), 0int,
{
    if let ElemV::List { element_type: cet, known: cknown, .. } = cont {
        if a != crate::lattice::family::mixed::empty_array_v() {
            if let ElemV::List { element_type, known, .. } = a {
                lemma_refines_answer(element_type, cet, o, c1, c2);
                let (_, d1) = refines_spec(element_type, cet, o, c1);
                let (_, d2) = refines_spec(element_type, cet, o, c2);
                lemma_rest_fit_answer(known, cknown, cet, o, 0, d1, d2);
                let (_, e1) = rest_fit_from(known, cknown, cet, o, 0, d1);
                let (_, e2) = rest_fit_from(known, cknown, cet, o, 0, d2);
                lemma_list_entries_answer(known, cknown, o, 0, e1, e2);
            }
        }
    }
}

pub proof fn lemma_rest_fit_answer(
    known: Seq<KnownElemV>,
    cknown: Seq<KnownElemV>,
    cet: TypeV,
    o: LatticeOptions,
    i: int,
    c1: u8,
    c2: u8,
)
    ensures
        rest_fit_from(known, cknown, cet, o, i, c1).0 == rest_fit_from(known, cknown, cet, o, i, c2).0,
    decreases kelems_size(known) + tsize(cet), known.len() - i,
{
    if 0 <= i < known.len() {
        if first_at_index(cknown, known[i].index, 0) is Some {
            lemma_rest_fit_answer(known, cknown, cet, o, i + 1, c1, c2);
        } else {
            lemma_kelems_size_elem(known, i);
            lemma_refines_answer(known[i].value, cet, o, c1, c2);
            let (_, d1) = refines_spec(known[i].value, cet, o, c1);
            let (_, d2) = refines_spec(known[i].value, cet, o, c2);
            lemma_rest_fit_answer(known, cknown, cet, o, i + 1, d1, d2);
        }
    }
}

pub proof fn lemma_list_entries_answer(
    known: Seq<KnownElemV>,
    cknown: Seq<KnownElemV>,
    o: LatticeOptions,
    k: int,
    c1: u8,
    c2: u8,
)
    ensures
        list_entries_met_from(known, cknown, o, k, c1).0 == list_entries_met_from(known, cknown, o, k, c2).0,
    decreases kelems_size(known) + kelems_size(cknown), cknown.len() - k,
{
    if 0 <= k < cknown.len() {
        match first_at_index(known, cknown[k].index, 0) {
            Some(j) => {
                lemma_first_at_index(known, cknown[k].index, 0);
                lemma_kelems_size_elem(known, j);
                lemma_kelems_size_elem(cknown, k);
                if !(!cknown[k].optional && known[j].optional) {
                    lemma_refines_answer(known[j].value, cknown[k].value, o, c1, c2);
                    let (_, d1) = refines_spec(known[j].value, cknown[k].value, o, c1);
                    let (_, d2) = refines_spec(known[j].value, cknown[k].value, o, c2);
                    lemma_list_entries_answer(known, cknown, o, k + 1, d1, d2);
                }
            },
            None => lemma_list_entries_answer(known, cknown, o, k + 1, c1, c2),
        }
    }
}

pub proof fn lemma_items_fit_answer(
    items: Seq<ItemV>,
    ck: TypeV,
    cv: TypeV,
    o: LatticeOptions,
    i: int,
    c1: u8,
    c2: u8,
)
    ensures
        items_fit_from(items, ck, cv, o, i, c1).0 == items_fit_from(items, ck, cv, o, i, c2).0,
    decreases items_size(items) + tsize(ck) + tsize(cv), items.len() - i,
{
    if 0 <= i < items.len() {
        lemma_items_size_elem(items, i);
        lemma_key_type_size(items[i].key);
        let kt = key_type_v(items[i].key);
        lemma_refines_answer(kt, ck, o, c1, c2);
        let (_, d1) = refines_spec(kt, ck, o, c1);
        let (_, d2) = refines_spec(kt, ck, o, c2);
        lemma_refines_answer(items[i].value, cv, o, d1, d2);
        let (_, e1) = refines_spec(items[i].value, cv, o, d1);
        let (_, e2) = refines_spec(items[i].value, cv, o, d2);
        lemma_items_fit_answer(items, ck, cv, o, i + 1, e1, e2);
    }
}

pub proof fn lemma_container_items_answer(
    items: Seq<ItemV>,
    citems: Seq<ItemV>,
    o: LatticeOptions,
    k: int,
    c1: u8,
    c2: u8,
)
    ensures
        container_items_met_from(items, citems, o, k, c1).0 == container_items_met_from(items, citems, o, k, c2).0,
    decreases items_size(items) + items_size(citems), citems.len() - k,
{
    if 0 <= k < citems.len() {
        match first_with_key(items, citems[k].key, 0) {
            Some(j) => {
                lemma_first_with_key(items, citems[k].key, 0);
                lemma_items_size_elem(items, j);
                lemma_items_size_elem(citems, k);
                if !(!citems[k].optional && items[j].optional) {
                    lemma_refines_answer(items[j].value, citems[k].value, o, c1, c2);
                    let (_, d1) = refines_spec(items[j].value, citems[k].value, o, c1);
                    let (_, d2) = refines_spec(items[j].value, citems[k].value, o, c2);
                    lemma_container_items_answer(items, citems, o, k + 1, d1, d2);
                }
            },
            None => lemma_container_items_answer(items, citems, o, k + 1, c1, c2),
        }
    }
}

pub proof fn lemma_array_container_answer(a: ElemV, cont: ElemV, o: LatticeOptions, c1: u8, c2: u8)
    ensures
        array_container_refines(a, cont, o, c1).0 == array_container_refines(a, cont, o, c2).0,
    decreases esize(a) + esize(cont), 0int,
{
    if let ElemV::Array { key: ck, value: cv, items: citems, .. } = cont {
        if a != crate::lattice::family::mixed::empty_array_v() {
            match a {
                ElemV::Array { key, value, items, .. } => {
                    if ck is None && cv is None {
                        lemma_container_items_answer(items, citems, o, 0, c1, c2);
                    } else if let (Some(ckt), Some(cvt)) = (ck, cv) {
                        lemma_items_fit_answer(items, ckt, cvt, o, 0, c1, c2);
                        let (_, d1) = items_fit_from(items, ckt, cvt, o, 0, c1);
                        let (_, d2) = items_fit_from(items, ckt, cvt, o, 0, c2);
                        if let (Some(k), Some(v)) = (key, value) {
                            lemma_refines_answer(k, ckt, o, d1, d2);
                            let (_, e1) = refines_spec(k, ckt, o, d1);
                            let (_, e2) = refines_spec(k, ckt, o, d2);
                            lemma_refines_answer(v, cvt, o, e1, e2);
                        }
                    }
                },
                ElemV::List { element_type, .. } => {
                    if let (Some(ckt), Some(cvt)) = (ck, cv) {
                        crate::element::lemma_tsize_pos(element_type);
                        lemma_refines_answer(single_v(int_v()), ckt, o, c1, c2);
                        let (_, d1) = refines_spec(single_v(int_v()), ckt, o, c1);
                        let (_, d2) = refines_spec(single_v(int_v()), ckt, o, c2);
                        lemma_refines_answer(element_type, cvt, o, d1, d2);
                    }
                },
                _ => {},
            }
        }
    }
}

pub proof fn lemma_iterable_container_answer(a: ElemV, ck: TypeV, cv: TypeV, o: LatticeOptions, c1: u8, c2: u8)
    ensures
        iterable_container_refines(a, ck, cv, o, c1).0 == iterable_container_refines(a, ck, cv, o, c2).0,
    decreases esize(a) + esize(ElemV::Iterable { key: ck, value: cv }), 0int,
{
    if a != crate::lattice::family::mixed::empty_array_v() {
        match a {
            ElemV::Iterable { key, value } => {
                lemma_refines_answer(key, ck, o, c1, c2);
                let (_, d1) = refines_spec(key, ck, o, c1);
                let (_, d2) = refines_spec(key, ck, o, c2);
                lemma_refines_answer(value, cv, o, d1, d2);
            },
            ElemV::List { element_type, .. } => {
                crate::element::lemma_tsize_pos(element_type);
                lemma_refines_answer(single_v(int_v()), ck, o, c1, c2);
                let (_, d1) = refines_spec(single_v(int_v()), ck, o, c1);
                let (_, d2) = refines_spec(single_v(int_v()), ck, o, c2);
                lemma_refines_answer(element_type, cv, o, d1, d2);
            },
            ElemV::Array { key, value, .. } => {
                lemma_single_size(ElemV::ArrayKey);
                let kt = match key {
                    Some(k) => k,
                    None => single_v(ElemV::ArrayKey),
                };
                lemma_refines_answer(kt, ck, o, c1, c2);
                let (_, d1) = refines_spec(kt, ck, o, c1);
                let (_, d2) = refines_spec(kt, ck, o, c2);
                match value {
                    Some(v) => lemma_refines_answer(v, cv, o, d1, d2),
                    None => lemma_refines_answer(cv, cv, o, d1, d2),
                }
            },
            _ => {},
        }
    }
}

pub proof fn lemma_overlaps_answer(a: TypeV, b: TypeV, o: LatticeOptions, c1: u8, c2: u8)
    ensures
        overlaps_spec(a, b, o, c1).0 == overlaps_spec(a, b, o, c2).0,
    decreases tsize(a) + tsize(b), a.elements.len() + 3,
{
    lemma_overlaps_from_answer(a, b, o, 0, c1, c2);
}

pub proof fn lemma_overlaps_from_answer(a: TypeV, b: TypeV, o: LatticeOptions, i: int, c1: u8, c2: u8)
    ensures
        overlaps_from(a, b, o, i, c1).0 == overlaps_from(a, b, o, i, c2).0,
    decreases tsize(a) + tsize(b), a.elements.len() + 2 - i,
{
    if 0 <= i < a.elements.len() {
        lemma_elem_smaller(a, i);
        lemma_atom_overlaps_answer(a.elements[i], b, o, 0, c1, c2);
        let (_, d1) = atom_overlaps_from(a.elements[i], b, o, 0, c1);
        let (_, d2) = atom_overlaps_from(a.elements[i], b, o, 0, c2);
        lemma_overlaps_from_answer(a, b, o, i + 1, d1, d2);
    }
}

pub proof fn lemma_atom_overlaps_answer(x: ElemV, b: TypeV, o: LatticeOptions, j: int, c1: u8, c2: u8)
    ensures
        atom_overlaps_from(x, b, o, j, c1).0 == atom_overlaps_from(x, b, o, j, c2).0,
    decreases esize(x) + tsize(b), b.elements.len() + 2 - j,
{
    if 0 <= j < b.elements.len() {
        lemma_elem_smaller(b, j);
        lemma_elem_overlaps_answer(x, b.elements[j], o, c1, c2);
        let (_, d1) = elem_overlaps_spec(x, b.elements[j], o, c1);
        let (_, d2) = elem_overlaps_spec(x, b.elements[j], o, c2);
        lemma_atom_overlaps_answer(x, b, o, j + 1, d1, d2);
    }
}

pub proof fn lemma_elem_overlaps_answer(a: ElemV, b: ElemV, o: LatticeOptions, c1: u8, c2: u8)
    ensures
        elem_overlaps_spec(a, b, o, c1).0 == elem_overlaps_spec(a, b, o, c2).0,
    decreases esize(a) + esize(b), 3int,
{
    lemma_esize_pos(a);
    lemma_esize_pos(b);
    if a is Never || b is Never || uninhabited(a) || uninhabited(b) || a == b || a == mixed_v() || b == mixed_v()
        || a is Placeholder || b is Placeholder {
    } else if a is GenericParameter && b is GenericParameter {
        lemma_overlaps_answer(a->GenericParameter_constraint, b->GenericParameter_constraint, o, c1, c2);
    } else if a is GenericParameter {
        lemma_overlaps_answer(a->GenericParameter_constraint, single_v(b), o, c1, c2);
    } else if b is GenericParameter {
        lemma_overlaps_answer(b->GenericParameter_constraint, single_v(a), o, c1, c2);
    } else if a is Object && b is Object {
    } else if a is Str && b is Str {
    } else if a is List && b is List {
        lemma_overlaps_answer(a->List_element_type, b->List_element_type, o, c1, c2);
    } else if a is Array && b is Array {
        if let (Some(ak), Some(bk), Some(av), Some(bv)) = (a->Array_key, b->Array_key, a->Array_value, b->Array_value) {
            lemma_overlaps_answer(ak, bk, o, c1, c2);
            let (_, d1) = overlaps_spec(ak, bk, o, c1);
            let (_, d2) = overlaps_spec(ak, bk, o, c2);
            lemma_overlaps_answer(av, bv, o, d1, d2);
        }
    } else if a is List && b is Array {
        lemma_list_array_answer(a, b, o, c1, c2);
    } else if a is Array && b is List {
        lemma_list_array_answer(b, a, o, c1, c2);
    } else if a is Iterable && b is Iterable {
    } else if a is Iterable && b is Array {
        lemma_iterable_array_answer(a, b, o, c1, c2);
    } else if a is Array && b is Iterable {
        lemma_iterable_array_answer(b, a, o, c1, c2);
    } else if a is Iterable && b is List {
        lemma_iterable_list_answer(a, b, o, c1, c2);
    } else if a is List && b is Iterable {
        lemma_iterable_list_answer(b, a, o, c1, c2);
    } else {
        lemma_elem_refines_answer(a, b, o, c1, c2);
        let (_, d1) = elem_refines_spec(a, b, o, c1);
        let (_, d2) = elem_refines_spec(a, b, o, c2);
        lemma_elem_refines_answer(b, a, o, d1, d2);
    }
}

pub proof fn lemma_list_array_answer(l: ElemV, ar: ElemV, o: LatticeOptions, c1: u8, c2: u8)
    ensures
        list_array_overlap(l, ar, o, c1).0 == list_array_overlap(l, ar, o, c2).0,
    decreases esize(l) + esize(ar), 2int,
{
    if let (ElemV::List { element_type, .. }, ElemV::Array { key, value, .. }) = (l, ar) {
        lemma_single_size(mixed_v());
        let vt = match value {
            Some(v) => v,
            None => single_v(mixed_v()),
        };
        match key {
            Some(k) => {
                lemma_refines_answer(single_v(int_v()), k, o, c1, c2);
                let (_, d1) = refines_spec(single_v(int_v()), k, o, c1);
                let (_, d2) = refines_spec(single_v(int_v()), k, o, c2);
                lemma_overlaps_answer(element_type, vt, o, d1, d2);
            },
            None => lemma_overlaps_answer(element_type, vt, o, c1, c2),
        }
    }
}

pub proof fn lemma_iterable_array_answer(it: ElemV, ar: ElemV, o: LatticeOptions, c1: u8, c2: u8)
    ensures
        iterable_array_overlap(it, ar, o, c1).0 == iterable_array_overlap(it, ar, o, c2).0,
    decreases esize(it) + esize(ar), 2int,
{
    if let (ElemV::Iterable { key: ik, value: iv }, ElemV::Array { key, value, .. }) = (it, ar) {
        lemma_single_size(mixed_v());
        lemma_single_size(ElemV::ArrayKey);
        let kt = match key {
            Some(k) => k,
            None => single_v(ElemV::ArrayKey),
        };
        let vt = match value {
            Some(v) => v,
            None => single_v(mixed_v()),
        };
        lemma_overlaps_answer(ik, kt, o, c1, c2);
        let (_, d1) = overlaps_spec(ik, kt, o, c1);
        let (_, d2) = overlaps_spec(ik, kt, o, c2);
        lemma_overlaps_answer(iv, vt, o, d1, d2);
    }
}

pub proof fn lemma_iterable_list_answer(it: ElemV, l: ElemV, o: LatticeOptions, c1: u8, c2: u8)
    ensures
        iterable_list_overlap(it, l, o, c1).0 == iterable_list_overlap(it, l, o, c2).0,
    decreases esize(it) + esize(l), 2int,
{
    if let (ElemV::Iterable { key: ik, value: iv }, ElemV::List { element_type, .. }) = (it, l) {
        lemma_refines_answer(single_v(int_v()), ik, o, c1, c2);
        let (_, d1) = refines_spec(single_v(int_v()), ik, o, c1);
        let (_, d2) = refines_spec(single_v(int_v()), ik, o, c2);
        lemma_overlaps_answer(iv, element_type, o, d1, d2);
    }
}

} // verus!
