//! List and keyed-array containers.
//!
//! A list container accepts the empty array (unless it is non-empty) and
//! lists whose element type refines its own, whose known entries at indices
//! it does not declare refine its element type, and whose entries meet its
//! own shape index by index. A keyed-array container accepts the empty
//! array unless it is non-empty; a sealed one
//! (`array{...}`) accepts sealed shapes that carry no entry it does not
//! declare and meet each of its entries (a required entry by a required
//! one, every present value refining); an unsealed one accepts arrays whose
//! known entries and parameters refine its parameters, and lists, read as
//! arrays keyed by `int`.
use vstd::prelude::*;

use crate::element::{
    ArrayKey, ElemV, Element, IntInfo, ItemV, KnownElementEntry, KnownItemEntry, StringCasing, StringFlags,
    StringInfo, StringLiteral, Type, copy_chars, esize, item_view, items_size, items_view, kelems_size, key_view,
    known_elem_view, known_elems_view, lemma_items_size_elem, lemma_kelems_size_elem, lemma_tsize_pos, otv, tsize,
};
use crate::lattice::family::mixed::empty_array_v;
use crate::lattice::options::LatticeOptions;
use crate::lattice::refines::walk;
use crate::lattice::refines_spec::{
    array_container_refines, container_items_met_from, extra_required_item, first_at_index, first_with_key,
    has_required_item, int_v, items_fit_from, key_type_v, lemma_first_at_index, lemma_first_with_key,
    lemma_key_type_size, list_container_refines, list_entries_met_from, rest_fit_from, single_v,
};

verus! {

/// The element is the empty array `array{}`.
pub fn is_empty_array(e: &Element) -> (r: bool)
    ensures
        r == (e@ == empty_array_v()),
{
    match e {
        Element::Array(a) => {
            let r = !a.non_empty && a.key_param.is_none() && a.value_param.is_none() && a.known_items.len() == 0;
            proof {
                assert(e@ == ElemV::Array {
                    key: otv(a.key_param),
                    value: otv(a.value_param),
                    items: items_view(a.known_items),
                    non_empty: a.non_empty,
                });
                assert(items_view(a.known_items).len() == a.known_items.len());
                if a.known_items.len() == 0 {
                    assert(items_view(a.known_items) =~= Seq::<ItemV>::empty());
                }
            }
            r
        },
        _ => false,
    }
}

/// The type `int`.
pub fn int_type() -> (t: Type)
    ensures
        t@ == single_v(int_v()),
{
    let t = Type::single(Element::Int(IntInfo::Unspecified));
    assert(t@ == single_v(int_v()));
    t
}

/// The type a shape key stands for: its literal, or `array-key` for a class
/// constant.
pub fn key_to_type(k: &ArrayKey) -> (t: Type)
    ensures
        t@ == key_type_v(key_view(*k)),
{
    let e = match k {
        ArrayKey::Int(n) => Element::Int(IntInfo::Literal(*n)),
        ArrayKey::String(s) => Element::String(
            StringInfo {
                literal: StringLiteral::Value(copy_chars(s)),
                casing: StringCasing::Unspecified,
                flags: StringFlags { non_empty: false, truthy: false, numeric: false, callable: false },
            },
        ),
        ArrayKey::Const { .. } => Element::ArrayKey,
    };
    let t = Type::single(e);
    assert(t@ =~= key_type_v(key_view(*k)));
    t
}

/// Some entry must be present.
pub fn has_required_known_item(items: &Vec<KnownItemEntry>) -> (r: bool)
    ensures
        r == has_required_item(items_view(*items)),
{
    let ghost v = items_view(*items);
    let mut i: usize = 0;
    while i < items.len()
        invariant
            i <= items.len(),
            v == items_view(*items),
            v.len() == items.len(),
            forall|j: int| 0 <= j < i ==> (#[trigger] v[j]).optional,
        decreases items.len() - i,
    {
        if !items[i].optional {
            assert(!v[i as int].optional);
            return true;
        }
        i += 1;
    }
    false
}

/// The position of the first entry written with key `k`.
pub fn find_key(items: &Vec<KnownItemEntry>, k: &ArrayKey) -> (r: Option<usize>)
    ensures
        match r {
            Some(j) => first_with_key(items_view(*items), key_view(*k), 0) == Some(j as int),
            None => first_with_key(items_view(*items), key_view(*k), 0) is None,
        },
{
    let ghost v = items_view(*items);
    let ghost kv = key_view(*k);
    let mut i: usize = 0;
    while i < items.len()
        invariant
            i <= items.len(),
            v == items_view(*items),
            kv == key_view(*k),
            v.len() == items.len(),
            first_with_key(v, kv, 0) == first_with_key(v, kv, i as int),
        decreases items.len() - i,
    {
        assert(v[i as int] == item_view(items@[i as int]));
        if items[i].key.same(k) {
            return Some(i);
        }
        i += 1;
    }
    None
}

/// Some required entry of `items` carries a key that `citems` does not
/// declare.
pub fn has_extra_required_item(items: &Vec<KnownItemEntry>, citems: &Vec<KnownItemEntry>) -> (r: bool)
    ensures
        r == extra_required_item(items_view(*items), items_view(*citems)),
{
    let ghost v = items_view(*items);
    let ghost cv = items_view(*citems);
    let mut i: usize = 0;
    while i < items.len()
        invariant
            i <= items.len(),
            v == items_view(*items),
            cv == items_view(*citems),
            v.len() == items.len(),
            forall|j: int|
                0 <= j < i ==> (#[trigger] v[j]).optional || first_with_key(cv, v[j].key, 0) is Some,
        decreases items.len() - i,
    {
        assert(v[i as int] == item_view(items@[i as int]));
        if !items[i].optional && find_key(citems, &items[i].key).is_none() {
            assert(!v[i as int].optional && first_with_key(cv, v[i as int].key, 0) is None);
            return true;
        }
        i += 1;
    }
    false
}

/// Every entry of `items` has a key fitting `ck` and a value fitting `cv`.
fn items_fit(items: &Vec<KnownItemEntry>, ck: &Type, cv: &Type, o: LatticeOptions, c: u8) -> (r: (bool, u8))
    ensures
        r == items_fit_from(items_view(*items), ck@, cv@, o, 0, c),
    decreases items_size(items_view(*items)) + tsize(ck@) + tsize(cv@), 0int,
{
    let ghost v = items_view(*items);
    let mut cur = c;
    let mut i: usize = 0;
    while i < items.len()
        invariant
            i <= items.len(),
            v == items_view(*items),
            v.len() == items.len(),
            items_fit_from(v, ck@, cv@, o, 0, c) == items_fit_from(v, ck@, cv@, o, i as int, cur),
        decreases items.len() - i,
    {
        assert(v[i as int] == item_view(items@[i as int]));
        proof {
            lemma_items_size_elem(v, i as int);
            lemma_key_type_size(v[i as int].key);
        }
        let kt = key_to_type(&items[i].key);
        let (r1, c1) = walk(&kt, ck, o, cur);
        if !r1 {
            return (false, c1);
        }
        let (r2, c2) = walk(&items[i].value, cv, o, c1);
        if !r2 {
            return (false, c2);
        }
        cur = c2;
        i += 1;
    }
    (true, cur)
}

/// Every entry of the sealed container `citems` is met by `items`.
fn container_items_met(
    items: &Vec<KnownItemEntry>,
    citems: &Vec<KnownItemEntry>,
    o: LatticeOptions,
    c: u8,
) -> (r: (bool, u8))
    ensures
        r == container_items_met_from(items_view(*items), items_view(*citems), o, 0, c),
    decreases items_size(items_view(*items)) + items_size(items_view(*citems)), 0int,
{
    let ghost v = items_view(*items);
    let ghost cv = items_view(*citems);
    let mut cur = c;
    let mut k: usize = 0;
    while k < citems.len()
        invariant
            k <= citems.len(),
            v == items_view(*items),
            cv == items_view(*citems),
            v.len() == items.len(),
            cv.len() == citems.len(),
            container_items_met_from(v, cv, o, 0, c) == container_items_met_from(v, cv, o, k as int, cur),
        decreases citems.len() - k,
    {
        assert(cv[k as int] == item_view(citems@[k as int]));
        match find_key(items, &citems[k].key) {
            Some(j) => {
                proof {
                    lemma_first_with_key(v, cv[k as int].key, 0);
                    lemma_items_size_elem(v, j as int);
                    lemma_items_size_elem(cv, k as int);
                }
                assert(v[j as int] == item_view(items@[j as int]));
                if !citems[k].optional && items[j].optional {
                    return (false, cur);
                }
                let (r, c1) = walk(&items[j].value, &citems[k].value, o, cur);
                if !r {
                    return (false, c1);
                }
                cur = c1;
            },
            None => {
                if !citems[k].optional {
                    return (false, cur);
                }
            },
        }
        k += 1;
    }
    (true, cur)
}

pub fn refines(input: &Element, container: &Element, o: LatticeOptions, c: u8) -> (r: (bool, u8))
    requires
        container@ is List || container@ is Array,
    ensures
        container@ is List ==> r == list_container_refines(input@, container@, o, c),
        container@ is Array ==> r == array_container_refines(input@, container@, o, c),
    decreases esize(input@) + esize(container@), 4int,
{
    match container {
        Element::List(_) => refines_list(input, container, o, c),
        _ => refines_keyed(input, container, o, c),
    }
}

/// A list container: the empty array unless it must be non-empty, and
/// lists whose elements fit.
fn refines_list(input: &Element, container: &Element, o: LatticeOptions, c: u8) -> (r: (bool, u8))
    requires
        container@ is List,
    ensures
        r == list_container_refines(input@, container@, o, c),
    decreases esize(input@) + esize(container@), 3int,
{
    let cl = match container {
        Element::List(cl) => cl,
        _ => {
            return (false, c);
        },
    };
    if is_empty_array(input) {
        return (!cl.non_empty, c);
    }
    match input {
        Element::List(l) => list_refines_list(input, container, o, c),
        _ => (false, c),
    }
}

/// A list input against a list container: a non-empty container needs a
/// non-empty input, and the element types must refine.
fn list_refines_list(input: &Element, container: &Element, o: LatticeOptions, c: u8) -> (r: (bool, u8))
    requires
        input@ is List,
        container@ is List,
        input@ != empty_array_v(),
    ensures
        r == list_container_refines(input@, container@, o, c),
    decreases esize(input@) + esize(container@), 2int,
{
    match (input, container) {
        (Element::List(l), Element::List(cl)) => {
            if cl.non_empty && !l.non_empty {
                return (false, c);
            }
            let (r1, c1) = walk(&l.element_type, &cl.element_type, o, c);
            if !r1 {
                return (false, c1);
            }
            let (r2, c2) = rest_fit(&l.known_elements, &cl.known_elements, &cl.element_type, o, c1);
            if !r2 {
                return (false, c2);
            }
            list_entries_met(&l.known_elements, &cl.known_elements, o, c2)
        },
        _ => (false, c),
    }
}

/// The position of the first list-shape entry at index `idx`.
pub fn find_index(known: &Vec<KnownElementEntry>, idx: u32) -> (r: Option<usize>)
    ensures
        match r {
            Some(j) => first_at_index(known_elems_view(*known), idx, 0) == Some(j as int),
            None => first_at_index(known_elems_view(*known), idx, 0) is None,
        },
{
    let ghost v = known_elems_view(*known);
    let mut i: usize = 0;
    while i < known.len()
        invariant
            i <= known.len(),
            v == known_elems_view(*known),
            v.len() == known.len(),
            first_at_index(v, idx, 0) == first_at_index(v, idx, i as int),
        decreases known.len() - i,
    {
        assert(v[i as int] == known_elem_view(known@[i as int]));
        if known[i].index == idx {
            return Some(i);
        }
        i += 1;
    }
    None
}

/// Every entry of `known` at an index `cknown` does not declare refines
/// `cet`.
fn rest_fit(
    known: &Vec<KnownElementEntry>,
    cknown: &Vec<KnownElementEntry>,
    cet: &Type,
    o: LatticeOptions,
    c: u8,
) -> (r: (bool, u8))
    ensures
        r == rest_fit_from(known_elems_view(*known), known_elems_view(*cknown), cet@, o, 0, c),
    decreases kelems_size(known_elems_view(*known)) + tsize(cet@), 0int,
{
    let ghost v = known_elems_view(*known);
    let ghost cv = known_elems_view(*cknown);
    let mut cur = c;
    let mut i: usize = 0;
    while i < known.len()
        invariant
            i <= known.len(),
            v == known_elems_view(*known),
            cv == known_elems_view(*cknown),
            v.len() == known.len(),
            rest_fit_from(v, cv, cet@, o, 0, c) == rest_fit_from(v, cv, cet@, o, i as int, cur),
        decreases known.len() - i,
    {
        assert(v[i as int] == known_elem_view(known@[i as int]));
        if find_index(cknown, known[i].index).is_none() {
            proof {
                lemma_kelems_size_elem(v, i as int);
            }
            let (r, c1) = walk(&known[i].value, cet, o, cur);
            if !r {
                return (false, c1);
            }
            cur = c1;
        }
        i += 1;
    }
    (true, cur)
}

/// Every entry of the container's list shape `cknown` is met by the entry
/// of `known` at its index.
fn list_entries_met(
    known: &Vec<KnownElementEntry>,
    cknown: &Vec<KnownElementEntry>,
    o: LatticeOptions,
    c: u8,
) -> (r: (bool, u8))
    ensures
        r == list_entries_met_from(known_elems_view(*known), known_elems_view(*cknown), o, 0, c),
    decreases kelems_size(known_elems_view(*known)) + kelems_size(known_elems_view(*cknown)), 0int,
{
    let ghost v = known_elems_view(*known);
    let ghost cv = known_elems_view(*cknown);
    let mut cur = c;
    let mut k: usize = 0;
    while k < cknown.len()
        invariant
            k <= cknown.len(),
            v == known_elems_view(*known),
            cv == known_elems_view(*cknown),
            v.len() == known.len(),
            cv.len() == cknown.len(),
            list_entries_met_from(v, cv, o, 0, c) == list_entries_met_from(v, cv, o, k as int, cur),
        decreases cknown.len() - k,
    {
        assert(cv[k as int] == known_elem_view(cknown@[k as int]));
        match find_index(known, cknown[k].index) {
            Some(j) => {
                proof {
                    lemma_first_at_index(v, cv[k as int].index, 0);
                    lemma_kelems_size_elem(v, j as int);
                    lemma_kelems_size_elem(cv, k as int);
                }
                assert(v[j as int] == known_elem_view(known@[j as int]));
                if !cknown[k].optional && known[j].optional {
                    return (false, cur);
                }
                let (r, c1) = walk(&known[j].value, &cknown[k].value, o, cur);
                if !r {
                    return (false, c1);
                }
                cur = c1;
            },
            None => {
                if !cknown[k].optional {
                    return (false, cur);
                }
            },
        }
        k += 1;
    }
    (true, cur)
}

/// A keyed-array container: the empty array unless it must be non-empty,
/// keyed arrays by [`keyed_refines_keyed`], and lists when the container
/// has parameters admitting `int` keys and the list's elements.
fn refines_keyed(input: &Element, container: &Element, o: LatticeOptions, c: u8) -> (r: (bool, u8))
    requires
        container@ is Array,
    ensures
        r == array_container_refines(input@, container@, o, c),
    decreases esize(input@) + esize(container@), 3int,
{
    let ca = match container {
        Element::Array(ca) => ca,
        _ => {
            return (false, c);
        },
    };
    if is_empty_array(input) {
        return (!ca.non_empty, c);
    }
    match input {
        Element::Array(_) => keyed_refines_keyed(input, container, o, c),
        Element::List(l) => match (&ca.key_param, &ca.value_param) {
            (Some(ck), Some(cv)) => {
                if ca.non_empty && !l.non_empty {
                    return (false, c);
                }
                proof {
                    lemma_tsize_pos(l.element_type@);
                }
                let it = int_type();
                let (r1, c1) = walk(&it, ck, o, c);
                if !r1 {
                    return (false, c1);
                }
                walk(&l.element_type, cv, o, c1)
            },
            _ => (false, c),
        },
        _ => (false, c),
    }
}

/// A keyed array against a keyed-array container. A non-empty container
/// needs a non-empty input or one with a required entry; a sealed
/// container is met by [`sealed_refines_sealed`]; an unsealed one needs
/// every known entry, and the input's parameters when it has both, to fit
/// its parameters.
fn keyed_refines_keyed(input: &Element, container: &Element, o: LatticeOptions, c: u8) -> (r: (bool, u8))
    requires
        input@ is Array,
        container@ is Array,
        input@ != empty_array_v(),
    ensures
        r == array_container_refines(input@, container@, o, c),
    decreases esize(input@) + esize(container@), 2int,
{
    let (a, ca) = match (input, container) {
        (Element::Array(a), Element::Array(ca)) => (a, ca),
        _ => {
            return (false, c);
        },
    };
    if ca.non_empty && !a.non_empty && !has_required_known_item(&a.known_items) {
        return (false, c);
    }
    if ca.key_param.is_none() && ca.value_param.is_none() {
        return sealed_refines_sealed(input, container, o, c);
    }
    match (&ca.key_param, &ca.value_param) {
        (Some(ck), Some(cv)) => {
            let (r1, c1) = items_fit(&a.known_items, ck, cv, o, c);
            if !r1 {
                return (false, c1);
            }
            match (&a.key_param, &a.value_param) {
                (Some(k), Some(v)) => {
                    let (r2, c2) = walk(k, ck, o, c1);
                    if !r2 {
                        return (false, c2);
                    }
                    walk(v, cv, o, c2)
                },
                _ => (true, c1),
            }
        },
        _ => (false, c),
    }
}

/// A keyed array against a sealed shape: the input must be sealed too,
/// carry no required entry the container does not declare, and meet every
/// entry of the container.
fn sealed_refines_sealed(input: &Element, container: &Element, o: LatticeOptions, c: u8) -> (r: (bool, u8))
    requires
        input@ is Array,
        container@ matches ElemV::Array { key: None, value: None, .. },
        input@ != empty_array_v(),
        !(container@->Array_non_empty && !input@->Array_non_empty && !has_required_item(input@->Array_items)),
    ensures
        r == array_container_refines(input@, container@, o, c),
    decreases esize(input@) + esize(container@), 1int,
{
    let (a, ca) = match (input, container) {
        (Element::Array(a), Element::Array(ca)) => (a, ca),
        _ => {
            return (false, c);
        },
    };
    if a.key_param.is_some() || a.value_param.is_some() || has_extra_required_item(&a.known_items, &ca.known_items) {
        return (false, c);
    }
    container_items_met(&a.known_items, &ca.known_items, o, c)
}

} // verus!
