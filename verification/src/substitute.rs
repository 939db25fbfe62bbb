//! Capture-free substitution of template parameters in a [`Type`].
//!
//! Every template parameter met on a structural walk is handed to the
//! caller's closure: `Some(replacement)` replaces it, the replacement's
//! atoms flowing into the surrounding union; `None` leaves it in place
//! (its constraint is not entered). The walk enters object type arguments,
//! list element types, array keys and values, the values of shape entries,
//! iterable keys and values and
//! class-like-string targets. A level where nothing changed is returned as
//! it was; a changed level is rebuilt as a union with its flow flags.
use vstd::prelude::*;

use crate::element::{
    item_size, kelem_size,
    ClassLikeStringInfo, ClassLikeStringSpecifier, ClsSpecV, ElemV, Element, GenericParameterInfo, ItemV,
    IterableInfo, KeyedArrayInfo, KnownElemV, KnownElementEntry, KnownItemEntry, ListInfo, ObjectInfo, Type, TypeV,
    canonical, copy_chars, entity_view, esize, item_view, items_same, items_size, items_view, kelems_size,
    known_elem_view, known_elements_same, known_elems_view, lemma_elem_smaller, lemma_items_size_elem,
    lemma_kelems_size_elem, lemma_tsize_pos, lemma_tssize_elem, opt_type_same, otsize, otv, ssize, tsize, tssize,
    tvs, union_of,
};
use crate::lattice::refines::append_elements;
use crate::lattice::refines_spec::lemma_esize_pos;

verus! {

broadcast use vstd::std_specs::vec::group_vec_axioms;

/// The model of a template parameter's payload.
pub open spec fn gp_view(g: GenericParameterInfo) -> ElemV {
    ElemV::GenericParameter { name: g.name@, entity: entity_view(g.defining_entity), constraint: g.constraint@ }
}

pub open spec fn opt_view(o: Option<Type>) -> Option<TypeV> {
    match o {
        Some(t) => Some(t@),
        None => None,
    }
}

/// Asked about the parameter `e`, the closure may answer `res`.
pub open spec fn answers<F: Fn(&GenericParameterInfo) -> Option<Type>>(f: &F, e: ElemV, res: Option<TypeV>) -> bool {
    exists|g: GenericParameterInfo, out: Option<Type>|
        gp_view(g) == e && #[trigger] call_ensures(*f, (&g,), out) && opt_view(out) == res
}

/// The closure answers alike for equal parameters.
pub open spec fn consistent<F: Fn(&GenericParameterInfo) -> Option<Type>>(f: &F) -> bool {
    forall|e: ElemV, r1: Option<TypeV>, r2: Option<TypeV>|
        #[trigger] answers(f, e, r1) && #[trigger] answers(f, e, r2) ==> r1 == r2
}

/// The closure's answer about the parameter `e`; `None` for an atom it
/// cannot be asked about.
pub open spec fn decision<F: Fn(&GenericParameterInfo) -> Option<Type>>(f: &F, e: ElemV) -> Option<TypeV> {
    if exists|r: Option<TypeV>| answers(f, e, r) {
        choose|r: Option<TypeV>| answers(f, e, r)
    } else {
        None
    }
}

/// The closure can be asked about any parameter and answers alike for
/// equal ones.
pub open spec fn well_behaved<F: Fn(&GenericParameterInfo) -> Option<Type>>(f: &F) -> bool {
    &&& forall|x: &GenericParameterInfo| #[trigger] f.requires((x,))
    &&& consistent(f)
}

/// Ask the closure about `g`; the answer is its decision.
pub fn ask<F: Fn(&GenericParameterInfo) -> Option<Type>>(g: &GenericParameterInfo, subst: &F) -> (r: Option<Type>)
    requires
        well_behaved(subst),
    ensures
        opt_view(r) == decision(subst, gp_view(*g)),
{
    let r = subst(g);
    proof {
        let e = gp_view(*g);
        assert(answers(subst, e, opt_view(r)));
        let d = decision(subst, e);
        assert(answers(subst, e, d));
    }
    r
}

/// `t` after substitution.
pub open spec fn subst_type<F: Fn(&GenericParameterInfo) -> Option<Type>>(t: TypeV, f: &F) -> TypeV
    decreases tsize(t), 2int,
{
    let (outs, changed) = subst_seq(t.elements, f);
    if !changed {
        t
    } else {
        TypeV { elements: canonical(outs), flags: t.flags }
    }
}

/// The atoms replacing those of `s`, and whether any changed.
pub open spec fn subst_seq<F: Fn(&GenericParameterInfo) -> Option<Type>>(s: Seq<ElemV>, f: &F) -> (Seq<ElemV>, bool)
    decreases ssize(s), 1int,
{
    if s.len() == 0 {
        (Seq::empty(), false)
    } else {
        proof {
            lemma_esize_pos(s.last());
        }
        let (o1, c1) = subst_seq(s.drop_last(), f);
        let (o2, c2) = subst_elem(s.last(), f);
        (o1 + o2, c1 || c2)
    }
}

/// Each type of `s` after substitution.
pub open spec fn subst_args<F: Fn(&GenericParameterInfo) -> Option<Type>>(s: Seq<TypeV>, f: &F) -> Seq<TypeV>
    decreases tssize(s), 3int,
{
    if s.len() == 0 {
        Seq::empty()
    } else {
        proof {
            lemma_tsize_pos(s.last());
        }
        subst_args(s.drop_last(), f).push(subst_type(s.last(), f))
    }
}

/// An optional type after substitution.
pub open spec fn subst_opt<F: Fn(&GenericParameterInfo) -> Option<Type>>(t: Option<TypeV>, f: &F) -> Option<TypeV>
    decreases otsize(t), 3int,
{
    match t {
        Some(x) => Some(subst_type(x, f)),
        None => None,
    }
}

/// Each shape entry of `s` with its value substituted.
pub open spec fn subst_items<F: Fn(&GenericParameterInfo) -> Option<Type>>(s: Seq<ItemV>, f: &F) -> Seq<ItemV>
    decreases items_size(s), 3int,
{
    if s.len() == 0 {
        Seq::empty()
    } else {
        proof {
            assert(items_size(s) == items_size(s.drop_last()) + item_size(s.last()));
            assert(item_size(s.last()) == 5 + tsize(s.last().value));
        }
        subst_items(s.drop_last(), f).push(ItemV { value: subst_type(s.last().value, f), ..s.last() })
    }
}

/// Each list-shape entry of `s` with its value substituted.
pub open spec fn subst_known<F: Fn(&GenericParameterInfo) -> Option<Type>>(s: Seq<KnownElemV>, f: &F) -> Seq<
    KnownElemV,
>
    decreases kelems_size(s), 3int,
{
    if s.len() == 0 {
        Seq::empty()
    } else {
        proof {
            assert(kelems_size(s) == kelems_size(s.drop_last()) + kelem_size(s.last()));
            assert(kelem_size(s.last()) == 1 + tsize(s.last().value));
        }
        subst_known(s.drop_last(), f).push(KnownElemV { value: subst_type(s.last().value, f), ..s.last() })
    }
}

pub proof fn lemma_subst_items<F: Fn(&GenericParameterInfo) -> Option<Type>>(s: Seq<ItemV>, f: &F)
    ensures
        subst_items(s, f).len() == s.len(),
        forall|k: int|
            0 <= k < s.len() ==> #[trigger] subst_items(s, f)[k] == (ItemV { value: subst_type(s[k].value, f), ..s[k] }),
    decreases s.len(),
{
    if s.len() > 0 {
        lemma_subst_items(s.drop_last(), f);
        assert forall|k: int| 0 <= k < s.len() implies #[trigger] subst_items(s, f)[k] == (ItemV {
            value: subst_type(s[k].value, f),
            ..s[k]
        }) by {
            if k < s.len() - 1 {
                assert(s.drop_last()[k] == s[k]);
            }
        }
    }
}

pub proof fn lemma_subst_known<F: Fn(&GenericParameterInfo) -> Option<Type>>(s: Seq<KnownElemV>, f: &F)
    ensures
        subst_known(s, f).len() == s.len(),
        forall|k: int|
            0 <= k < s.len() ==> #[trigger] subst_known(s, f)[k] == (KnownElemV {
                value: subst_type(s[k].value, f),
                ..s[k]
            }),
    decreases s.len(),
{
    if s.len() > 0 {
        lemma_subst_known(s.drop_last(), f);
        assert forall|k: int| 0 <= k < s.len() implies #[trigger] subst_known(s, f)[k] == (KnownElemV {
            value: subst_type(s[k].value, f),
            ..s[k]
        }) by {
            if k < s.len() - 1 {
                assert(s.drop_last()[k] == s[k]);
            }
        }
    }
}

/// The atoms replacing `e`, and whether it changed.
pub open spec fn subst_elem<F: Fn(&GenericParameterInfo) -> Option<Type>>(e: ElemV, f: &F) -> (Seq<ElemV>, bool)
    decreases esize(e), 0int,
{
    match e {
        ElemV::GenericParameter { .. } => match decision(f, e) {
            None => (seq![e], false),
            Some(t) => (t.elements, true),
        },
        ElemV::Object { name, args } => {
            let n = subst_args(args, f);
            if n == args {
                (seq![e], false)
            } else {
                (seq![ElemV::Object { name, args: n }], true)
            }
        },
        ElemV::List { element_type, known, count, non_empty } => {
            let n = subst_type(element_type, f);
            let nk = subst_known(known, f);
            if n == element_type && nk == known {
                (seq![e], false)
            } else {
                (seq![ElemV::List { element_type: n, known: nk, count, non_empty }], true)
            }
        },
        ElemV::Array { key, value, items, non_empty } => {
            let nk = subst_opt(key, f);
            let nv = subst_opt(value, f);
            let ni = subst_items(items, f);
            if nk == key && nv == value && ni == items {
                (seq![e], false)
            } else {
                (seq![ElemV::Array { key: nk, value: nv, items: ni, non_empty }], true)
            }
        },
        ElemV::Iterable { key, value } => {
            let nk = subst_type(key, f);
            let nv = subst_type(value, f);
            if nk == key && nv == value {
                (seq![e], false)
            } else {
                (seq![ElemV::Iterable { key: nk, value: nv }], true)
            }
        },
        ElemV::ClassLikeString(kind, ClsSpecV::OfType(t)) => {
            let n = subst_type(t, f);
            if n == t {
                (seq![e], false)
            } else {
                (seq![ElemV::ClassLikeString(kind, ClsSpecV::OfType(n))], true)
            }
        },
        ElemV::ClassLikeString(kind, ClsSpecV::Generic(t)) => {
            let n = subst_type(t, f);
            if n == t {
                (seq![e], false)
            } else {
                (seq![ElemV::ClassLikeString(kind, ClsSpecV::Generic(n))], true)
            }
        },
        _ => (seq![e], false),
    }
}

pub proof fn lemma_subst_args<F: Fn(&GenericParameterInfo) -> Option<Type>>(s: Seq<TypeV>, f: &F)
    ensures
        subst_args(s, f).len() == s.len(),
        forall|k: int| 0 <= k < s.len() ==> #[trigger] subst_args(s, f)[k] == subst_type(s[k], f),
    decreases s.len(),
{
    if s.len() > 0 {
        lemma_subst_args(s.drop_last(), f);
        assert forall|k: int| 0 <= k < s.len() implies #[trigger] subst_args(s, f)[k] == subst_type(s[k], f) by {
            if k < s.len() - 1 {
                assert(s.drop_last()[k] == s[k]);
            }
        }
    }
}

/// The closure answers `None` about every template parameter.
pub open spec fn never_substitutes<F: Fn(&GenericParameterInfo) -> Option<Type>>(f: &F) -> bool {
    forall|g: &GenericParameterInfo, out: Option<Type>| #[trigger] f.ensures((g,), out) ==> out is None
}

/// A closure that substitutes nothing leaves every type as it was.
pub proof fn lemma_no_substitution_no_change<F: Fn(&GenericParameterInfo) -> Option<Type>>(t: TypeV, f: &F)
    requires
        never_substitutes(f),
    ensures
        subst_type(t, f) == t,
    decreases tsize(t), 2int,
{
    lemma_no_substitution_seq(t.elements, f);
}

pub proof fn lemma_no_substitution_seq<F: Fn(&GenericParameterInfo) -> Option<Type>>(s: Seq<ElemV>, f: &F)
    requires
        never_substitutes(f),
    ensures
        subst_seq(s, f) == (s, false),
    decreases ssize(s), 1int,
{
    if s.len() > 0 {
        lemma_esize_pos(s.last());
        lemma_no_substitution_seq(s.drop_last(), f);
        lemma_no_substitution_elem(s.last(), f);
        assert(s.drop_last() + seq![s.last()] =~= s);
    }
}

pub proof fn lemma_no_substitution_args<F: Fn(&GenericParameterInfo) -> Option<Type>>(s: Seq<TypeV>, f: &F)
    requires
        never_substitutes(f),
    ensures
        subst_args(s, f) == s,
    decreases tssize(s), 3int,
{
    if s.len() > 0 {
        lemma_tsize_pos(s.last());
        lemma_no_substitution_args(s.drop_last(), f);
        lemma_no_substitution_no_change(s.last(), f);
        assert(s.drop_last().push(s.last()) =~= s);
    }
}

pub proof fn lemma_no_substitution_elem<F: Fn(&GenericParameterInfo) -> Option<Type>>(e: ElemV, f: &F)
    requires
        never_substitutes(f),
    ensures
        subst_elem(e, f) == (seq![e], false),
    decreases esize(e), 0int,
{
    match e {
        ElemV::GenericParameter { .. } => {
            if exists|r: Option<TypeV>| answers(f, e, r) {
                let r = choose|r: Option<TypeV>| answers(f, e, r);
                let (g, out) = choose|g: GenericParameterInfo, out: Option<Type>|
                    gp_view(g) == e && #[trigger] call_ensures(*f, (&g,), out) && opt_view(out) == r;
                assert(out is None);
            }
            assert(decision(f, e) is None);
        },
        ElemV::Object { args, .. } => lemma_no_substitution_args(args, f),
        ElemV::List { element_type, known, .. } => {
            lemma_no_substitution_no_change(element_type, f);
            lemma_subst_known(known, f);
            assert forall|k: int| 0 <= k < known.len() implies #[trigger] subst_known(known, f)[k] == known[k] by {
                lemma_kelems_size_elem(known, k);
                lemma_no_substitution_no_change(known[k].value, f);
            }
            assert(subst_known(known, f) =~= known);
        },
        ElemV::Array { key, value, items, .. } => {
            if let Some(k) = key {
                lemma_no_substitution_no_change(k, f);
            }
            if let Some(v) = value {
                lemma_no_substitution_no_change(v, f);
            }
            lemma_subst_items(items, f);
            assert forall|k: int| 0 <= k < items.len() implies #[trigger] subst_items(items, f)[k] == items[k] by {
                lemma_items_size_elem(items, k);
                lemma_no_substitution_no_change(items[k].value, f);
            }
            assert(subst_items(items, f) =~= items);
        },
        ElemV::Iterable { key, value } => {
            lemma_no_substitution_no_change(key, f);
            lemma_no_substitution_no_change(value, f);
        },
        ElemV::ClassLikeString(_, ClsSpecV::OfType(t)) => lemma_no_substitution_no_change(t, f),
        ElemV::ClassLikeString(_, ClsSpecV::Generic(t)) => lemma_no_substitution_no_change(t, f),
        _ => {},
    }
}

/// The views of a vector of elements.
pub open spec fn views(v: Seq<Element>) -> Seq<ElemV> {
    v.map_values(|e: Element| e@)
}

/// The single-atom vector holding a copy of `e`.
fn copy_one(e: &Element) -> (v: Vec<Element>)
    ensures
        views(v@) == seq![e@],
{
    let mut v: Vec<Element> = Vec::new();
    v.push(e.copy());
    assert(views(v@) =~= seq![e@]);
    v
}

fn one(e: Element) -> (v: Vec<Element>)
    ensures
        views(v@) == seq![e@],
{
    let mut v: Vec<Element> = Vec::new();
    v.push(e);
    assert(views(v@) =~= seq![e@]);
    v
}

/// Apply a substitution closure to every free template parameter in `ty`.
pub fn substitute<F: Fn(&GenericParameterInfo) -> Option<Type>>(ty: &Type, subst: &F) -> (r: Type)
    requires
        well_behaved(subst),
    ensures
        r@ == subst_type(ty@, subst),
    decreases tsize(ty@), 2int,
{
    let ghost s = ty@.elements;
    let mut new_elements: Vec<Element> = Vec::new();
    let mut changed = false;
    let mut i: usize = 0;
    while i < ty.elements.len()
        invariant
            well_behaved(subst),
            s == ty@.elements,
            s.len() == ty.elements.len(),
            i <= s.len(),
            (views(new_elements@), changed) == subst_seq(s.take(i as int), subst),
        decreases ty.elements.len() - i,
    {
        let e = &ty.elements[i];
        assert(s[i as int] == e@);
        proof {
            lemma_elem_smaller(ty@, i as int);
        }
        let (outs, c) = substitute_in_element(e, subst);
        let ghost before = views(new_elements@);
        let mut outs = outs;
        new_elements.append(&mut outs);
        assert(views(new_elements@) =~= before + subst_elem(s[i as int], subst).0);
        changed = changed || c;
        assert(s.take(i + 1).drop_last() =~= s.take(i as int));
        assert(s.take(i + 1).last() == s[i as int]);
        i += 1;
    }
    assert(s.take(s.len() as int) =~= s);
    if !changed {
        return ty.copy();
    }
    union_of(new_elements, ty.flags)
}

/// An optional type after substitution.
fn substitute_opt<F: Fn(&GenericParameterInfo) -> Option<Type>>(t: &Option<Type>, subst: &F) -> (r: Option<Type>)
    requires
        well_behaved(subst),
    ensures
        otv(r) == subst_opt(otv(*t), subst),
    decreases otsize(otv(*t)), 3int,
{
    match t {
        Some(x) => Some(substitute(x, subst)),
        None => None,
    }
}

/// Each shape entry with its value substituted.
fn substitute_items<F: Fn(&GenericParameterInfo) -> Option<Type>>(es: &Vec<KnownItemEntry>, subst: &F) -> (r: Vec<
    KnownItemEntry,
>)
    requires
        well_behaved(subst),
    ensures
        items_view(r) == subst_items(items_view(*es), subst),
    decreases items_size(items_view(*es)), 3int,
{
    let ghost v = items_view(*es);
    let mut out: Vec<KnownItemEntry> = Vec::new();
    let mut j: usize = 0;
    while j < es.len()
        invariant
            well_behaved(subst),
            v == items_view(*es),
            v.len() == es.len(),
            j <= v.len(),
            out@.len() == j,
            forall|k: int|
                0 <= k < j ==> #[trigger] item_view(out@[k]) == (ItemV { value: subst_type(v[k].value, subst), ..v[k] }),
        decreases es.len() - j,
    {
        assert(v[j as int] == item_view(es@[j as int]));
        proof {
            lemma_items_size_elem(v, j as int);
        }
        let e = &es[j];
        out.push(KnownItemEntry { key: e.key.copy(), value: substitute(&e.value, subst), optional: e.optional });
        j += 1;
    }
    proof {
        lemma_subst_items(v, subst);
        assert forall|k: int| 0 <= k < v.len() implies #[trigger] items_view(out)[k] == subst_items(v, subst)[k] by {
            assert(item_view(out@[k]) == (ItemV { value: subst_type(v[k].value, subst), ..v[k] }));
        }
    }
    assert(items_view(out) =~= subst_items(v, subst));
    out
}

/// Each list-shape entry with its value substituted.
fn substitute_known<F: Fn(&GenericParameterInfo) -> Option<Type>>(es: &Vec<KnownElementEntry>, subst: &F) -> (r: Vec<
    KnownElementEntry,
>)
    requires
        well_behaved(subst),
    ensures
        known_elems_view(r) == subst_known(known_elems_view(*es), subst),
    decreases kelems_size(known_elems_view(*es)), 3int,
{
    let ghost v = known_elems_view(*es);
    let mut out: Vec<KnownElementEntry> = Vec::new();
    let mut j: usize = 0;
    while j < es.len()
        invariant
            well_behaved(subst),
            v == known_elems_view(*es),
            v.len() == es.len(),
            j <= v.len(),
            out@.len() == j,
            forall|k: int|
                0 <= k < j ==> #[trigger] known_elem_view(out@[k]) == (KnownElemV {
                    value: subst_type(v[k].value, subst),
                    ..v[k]
                }),
        decreases es.len() - j,
    {
        assert(v[j as int] == known_elem_view(es@[j as int]));
        proof {
            lemma_kelems_size_elem(v, j as int);
        }
        let e = &es[j];
        out.push(KnownElementEntry { index: e.index, value: substitute(&e.value, subst), optional: e.optional });
        j += 1;
    }
    proof {
        lemma_subst_known(v, subst);
        assert forall|k: int| 0 <= k < v.len() implies #[trigger] known_elems_view(out)[k] == subst_known(
            v,
            subst,
        )[k] by {
            assert(known_elem_view(out@[k]) == (KnownElemV { value: subst_type(v[k].value, subst), ..v[k] }));
        }
    }
    assert(known_elems_view(out) =~= subst_known(v, subst));
    out
}

/// The atoms replacing `e`, and whether it changed.
fn substitute_in_element<F: Fn(&GenericParameterInfo) -> Option<Type>>(e: &Element, subst: &F) -> (r: (
    Vec<Element>,
    bool,
))
    requires
        well_behaved(subst),
    ensures
        (views(r.0@), r.1) == subst_elem(e@, subst),
    decreases esize(e@), 0int,
{
    match e {
        Element::GenericParameter(g) => {
            match ask(g, subst) {
                None => (copy_one(e), false),
                Some(replacement) => {
                    let mut v: Vec<Element> = Vec::new();
                    append_elements(&mut v, &replacement);
                    assert(views(v@) =~= replacement@.elements);
                    (v, true)
                },
            }
        },
        Element::Object(o) => {
            let ghost args = tvs(o.type_args);
            proof {
                lemma_subst_args(args, subst);
            }
            let mut new_args: Vec<Type> = Vec::new();
            let mut all_same = true;
            let mut j: usize = 0;
            while j < o.type_args.len()
                invariant
                    well_behaved(subst),
                    args == tvs(o.type_args),
                    args.len() == o.type_args.len(),
                    j <= args.len(),
                    e@ == (ElemV::Object { name: o.name@, args }),
                    new_args@.len() == j,
                    forall|k: int| 0 <= k < j ==> #[trigger] new_args@[k]@ == subst_type(args[k], subst),
                    all_same == forall|k: int| 0 <= k < j ==> #[trigger] subst_type(args[k], subst) == args[k],
                decreases o.type_args.len() - j,
            {
                assert(args[j as int] == o.type_args@[j as int]@);
                proof {
                    lemma_tssize_elem(args, j as int);
                }
                let n = substitute(&o.type_args[j], subst);
                if !n.same(&o.type_args[j]) {
                    all_same = false;
                }
                new_args.push(n);
                j += 1;
            }
            proof {
                lemma_subst_args(args, subst);
            }
            if all_same {
                assert(subst_args(args, subst) =~= args);
                (copy_one(e), false)
            } else {
                assert forall|k: int| 0 <= k < args.len() implies #[trigger] tvs(new_args)[k] == subst_args(
                    args,
                    subst,
                )[k] by {
                    assert(new_args@[k]@ == subst_type(args[k], subst));
                }
                assert(tvs(new_args) =~= subst_args(args, subst));
                proof {
                    if subst_args(args, subst) == args {
                        let k = choose|k: int| 0 <= k < args.len() && subst_type(args[k], subst) != args[k];
                        assert(subst_args(args, subst)[k] == args[k]);
                    }
                }
                (one(Element::Object(ObjectInfo { name: copy_chars(&o.name), type_args: new_args })), true)
            }
        },
        Element::List(l) => {
            let n = substitute(&l.element_type, subst);
            let nk = substitute_known(&l.known_elements, subst);
            if n.same(&l.element_type) && known_elements_same(&nk, &l.known_elements) {
                (copy_one(e), false)
            } else {
                (
                    one(
                        Element::List(
                            ListInfo {
                                element_type: n,
                                known_elements: nk,
                                known_count: l.known_count,
                                non_empty: l.non_empty,
                            },
                        ),
                    ),
                    true,
                )
            }
        },
        Element::Array(a) => {
            let nk = substitute_opt(&a.key_param, subst);
            let nv = substitute_opt(&a.value_param, subst);
            let ni = substitute_items(&a.known_items, subst);
            if opt_type_same(&nk, &a.key_param) && opt_type_same(&nv, &a.value_param) && items_same(
                &ni,
                &a.known_items,
            ) {
                (copy_one(e), false)
            } else {
                (
                    one(
                        Element::Array(
                            KeyedArrayInfo { key_param: nk, value_param: nv, known_items: ni, non_empty: a.non_empty },
                        ),
                    ),
                    true,
                )
            }
        },
        Element::Iterable(it) => {
            let nk = substitute(&it.key_type, subst);
            let nv = substitute(&it.value_type, subst);
            if nk.same(&it.key_type) && nv.same(&it.value_type) {
                (copy_one(e), false)
            } else {
                (one(Element::Iterable(IterableInfo { key_type: nk, value_type: nv })), true)
            }
        },
        Element::ClassLikeString(c) => match &c.specifier {
            ClassLikeStringSpecifier::OfType(t) => {
                let n = substitute(t, subst);
                if n.same(t) {
                    (copy_one(e), false)
                } else {
                    (
                        one(
                            Element::ClassLikeString(
                                ClassLikeStringInfo { kind: c.kind, specifier: ClassLikeStringSpecifier::OfType(n) },
                            ),
                        ),
                        true,
                    )
                }
            },
            ClassLikeStringSpecifier::Generic(t) => {
                let n = substitute(t, subst);
                if n.same(t) {
                    (copy_one(e), false)
                } else {
                    (
                        one(
                            Element::ClassLikeString(
                                ClassLikeStringInfo { kind: c.kind, specifier: ClassLikeStringSpecifier::Generic(n) },
                            ),
                        ),
                        true,
                    )
                }
            },
            _ => (copy_one(e), false),
        },
        _ => (copy_one(e), false),
    }
}

} // verus!
