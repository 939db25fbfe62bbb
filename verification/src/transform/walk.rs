//! The structural walker behind the transformation primitives.
//!
//! Post-order: at each atom the nested types (object type arguments, list
//! element types, array keys and values, the values of shape entries and
//! object-shape properties,
//! iterable keys and values,
//! class-string targets, generic constraints, signature return, thrown and
//! parameter types, the four types of a conditional, the operands of a
//! derived type) are walked first, the atom is rebuilt when one of them
//! changed, and then the per-atom decision is taken on the rebuilt atom. A level where nothing changed is returned as
//! it was; a changed level is rebuilt as a union with its flow flags.
use vstd::prelude::*;

use crate::element::{
    item_size, kelem_size,
    CallV, CallableInfo, ClassLikeStringInfo, ClassLikeStringSpecifier, ClsSpecV, ConditionalInfo, DerivedInfo,
    DerivedV, ElemV, Element, GenericParameterInfo, ItemV, IterableInfo, KeyedArrayInfo, KnownElemV,
    KnownElementEntry, KnownItemEntry, KnownPropertyEntry, ObjectShapeInfo, PropV, lemma_props_size_elem, prop_size,
    prop_view, props_same, props_size, props_view, ListInfo, ObjectInfo, ParamInfo, ParamV, ReferenceInfo, SigV, Signature,
    Type, TypeV, canonical, copy_chars, esize, item_view, items_same, items_size, items_view, kelems_size,
    known_elem_view, known_elements_same, known_elems_view, lemma_elem_smaller, lemma_items_size_elem,
    lemma_kelems_size_elem, lemma_pssize_elem, lemma_tsize_pos, lemma_tssize_elem, opt_type_same, otsize, otv,
    params_view, psize, pssize, sig_view, sigsize, ssize, tsize, tssize, tvs, union_of,
};
use crate::lattice::refines_spec::lemma_esize_pos;
use crate::substitute::views;

verus! {

broadcast use vstd::std_specs::vec::group_vec_axioms;

/// What the per-atom decision returns.
#[derive(Debug)]
pub enum Outcome {
    /// Keep the atom.
    Unchanged,
    /// Replace the atom by another.
    Single(Element),
    /// Replace the atom by several.
    Many(Vec<Element>),
    /// Drop the atom from its union.
    Drop,
}

/// The model of an [`Outcome`].
pub enum OutcomeV {
    Unchanged,
    Single(ElemV),
    Many(Seq<ElemV>),
    Drop,
}

pub open spec fn outcome_view(o: Outcome) -> OutcomeV {
    match o {
        Outcome::Unchanged => OutcomeV::Unchanged,
        Outcome::Single(e) => OutcomeV::Single(e@),
        Outcome::Many(v) => OutcomeV::Many(views(v@)),
        Outcome::Drop => OutcomeV::Drop,
    }
}

/// The closure can be called on any atom and its outcome is `d` of the
/// atom.
pub open spec fn decides<F: Fn(&Element) -> Outcome>(f: F, d: spec_fn(ElemV) -> OutcomeV) -> bool {
    &&& forall|x: &Element| #[trigger] f.requires((x,))
    &&& forall|x: &Element, o: Outcome| #[trigger] f.ensures((x,), o) ==> outcome_view(o) == d(x@)
}

/// `t` after the walk.
pub open spec fn walk_type(t: TypeV, d: spec_fn(ElemV) -> OutcomeV, deep: bool) -> TypeV
    decreases tsize(t), 3int,
{
    let (outs, changed) = walk_seq(t.elements, d, deep);
    if !changed {
        t
    } else {
        TypeV { elements: canonical(outs), flags: t.flags }
    }
}

/// The atoms replacing those of `s`, and whether any changed.
pub open spec fn walk_seq(s: Seq<ElemV>, d: spec_fn(ElemV) -> OutcomeV, deep: bool) -> (Seq<ElemV>, bool)
    decreases ssize(s), 2int,
{
    if s.len() == 0 {
        (Seq::empty(), false)
    } else {
        proof {
            lemma_esize_pos(s.last());
        }
        let (o1, c1) = walk_seq(s.drop_last(), d, deep);
        let (o2, c2) = walk_elem(s.last(), d, deep);
        (o1 + o2, c1 || c2)
    }
}

/// The atoms replacing `e`, and whether it changed.
pub open spec fn walk_elem(e: ElemV, d: spec_fn(ElemV) -> OutcomeV, deep: bool) -> (Seq<ElemV>, bool)
    decreases esize(e), 1int,
{
    let (x, nested) = rebuild(e, d, deep);
    match d(x) {
        OutcomeV::Unchanged => (seq![x], nested),
        OutcomeV::Single(y) => (seq![y], true),
        OutcomeV::Many(v) => (v, true),
        OutcomeV::Drop => (Seq::empty(), true),
    }
}

/// Each type of `s` after the walk.
pub open spec fn walk_args(s: Seq<TypeV>, d: spec_fn(ElemV) -> OutcomeV, deep: bool) -> Seq<TypeV>
    decreases tssize(s), 4int,
{
    if s.len() == 0 {
        Seq::empty()
    } else {
        proof {
            lemma_tsize_pos(s.last());
        }
        walk_args(s.drop_last(), d, deep).push(walk_type(s.last(), d, deep))
    }
}

/// `e` with its nested types walked, and whether one of them changed.
pub open spec fn rebuild(e: ElemV, d: spec_fn(ElemV) -> OutcomeV, deep: bool) -> (ElemV, bool)
    decreases esize(e), 0int,
{
    match e {
        ElemV::Object { name, args } => {
            let n = walk_args(args, d, deep);
            if n == args {
                (e, false)
            } else {
                (ElemV::Object { name, args: n }, true)
            }
        },
        ElemV::List { element_type, known, count, non_empty } => {
            let n = walk_type(element_type, d, deep);
            let nk = walk_known(known, d, deep);
            if n == element_type && nk == known {
                (e, false)
            } else {
                (ElemV::List { element_type: n, known: nk, count, non_empty }, true)
            }
        },
        ElemV::Array { key, value, items, non_empty } => {
            let nk = walk_opt(key, d, deep);
            let nv = walk_opt(value, d, deep);
            let ni = walk_items(items, d, deep);
            if nk == key && nv == value && ni == items {
                (e, false)
            } else {
                (ElemV::Array { key: nk, value: nv, items: ni, non_empty }, true)
            }
        },
        ElemV::Iterable { key, value } => {
            let nk = walk_type(key, d, deep);
            let nv = walk_type(value, d, deep);
            if nk == key && nv == value {
                (e, false)
            } else {
                (ElemV::Iterable { key: nk, value: nv }, true)
            }
        },
        ElemV::ObjectShape { props, sealed } => {
            let np = walk_props(props, d, deep);
            if np == props {
                (e, false)
            } else {
                (ElemV::ObjectShape { props: np, sealed }, true)
            }
        },
        ElemV::ClassLikeString(kind, ClsSpecV::OfType(t)) => {
            let n = walk_type(t, d, deep);
            if n == t {
                (e, false)
            } else {
                (ElemV::ClassLikeString(kind, ClsSpecV::OfType(n)), true)
            }
        },
        ElemV::ClassLikeString(kind, ClsSpecV::Generic(t)) => {
            let n = walk_type(t, d, deep);
            if n == t {
                (e, false)
            } else {
                (ElemV::ClassLikeString(kind, ClsSpecV::Generic(n)), true)
            }
        },
        ElemV::GenericParameter { name, entity, constraint } => {
            let n = walk_type(constraint, d, deep);
            if !deep || n == constraint {
                (e, false)
            } else {
                (ElemV::GenericParameter { name, entity, constraint: n }, true)
            }
        },
        ElemV::Reference { name, args } => {
            let n = walk_args(args, d, deep);
            if n == args {
                (e, false)
            } else {
                (ElemV::Reference { name, args: n }, true)
            }
        },
        ElemV::Callable(CallV::Sig(sig)) => {
            let n = walk_sig(sig, d, deep);
            if n == sig {
                (e, false)
            } else {
                (ElemV::Callable(CallV::Sig(n)), true)
            }
        },
        ElemV::Callable(CallV::Closure(sig)) => {
            let n = walk_sig(sig, d, deep);
            if n == sig {
                (e, false)
            } else {
                (ElemV::Callable(CallV::Closure(n)), true)
            }
        },
        ElemV::Conditional { subject, target, then_type, otherwise, negated } => {
            let n = ElemV::Conditional {
                subject: walk_type(subject, d, deep),
                target: walk_type(target, d, deep),
                then_type: walk_type(then_type, d, deep),
                otherwise: walk_type(otherwise, d, deep),
                negated,
            };
            if n == e {
                (e, false)
            } else {
                (n, true)
            }
        },
        ElemV::Derived(dv) => {
            let n = match dv {
                DerivedV::KeyOf(t) => DerivedV::KeyOf(walk_type(t, d, deep)),
                DerivedV::ValueOf(t) => DerivedV::ValueOf(walk_type(t, d, deep)),
                DerivedV::PropertiesOf(t, v) => DerivedV::PropertiesOf(walk_type(t, d, deep), v),
                DerivedV::IndexAccess(t, i) => DerivedV::IndexAccess(walk_type(t, d, deep), walk_type(i, d, deep)),
                DerivedV::IntMask(ts) => DerivedV::IntMask(walk_args(ts, d, deep)),
                DerivedV::IntMaskOf(t) => DerivedV::IntMaskOf(walk_type(t, d, deep)),
                DerivedV::TemplateType(o, c, k) => DerivedV::TemplateType(
                    walk_type(o, d, deep),
                    walk_type(c, d, deep),
                    walk_type(k, d, deep),
                ),
                DerivedV::New(t) => DerivedV::New(walk_type(t, d, deep)),
            };
            if n == dv {
                (e, false)
            } else {
                (ElemV::Derived(n), true)
            }
        },
        _ => (e, false),
    }
}

/// A signature with its return, thrown and parameter types walked.
pub open spec fn walk_sig(s: SigV, d: spec_fn(ElemV) -> OutcomeV, deep: bool) -> SigV
    decreases sigsize(s), 5int,
{
    SigV {
        ret: walk_type(s.ret, d, deep),
        throws: match s.throws {
            Some(t) => Some(walk_type(t, d, deep)),
            None => None,
        },
        params: match s.params {
            Some(ps) => Some(walk_params(ps, d, deep)),
            None => None,
        },
        ..s
    }
}

/// An optional type, walked where present.
pub open spec fn walk_opt(t: Option<TypeV>, d: spec_fn(ElemV) -> OutcomeV, deep: bool) -> Option<TypeV>
    decreases otsize(t), 4int,
{
    match t {
        Some(x) => Some(walk_type(x, d, deep)),
        None => None,
    }
}

/// Each shape entry of `s` with its value type walked.
pub open spec fn walk_items(s: Seq<ItemV>, d: spec_fn(ElemV) -> OutcomeV, deep: bool) -> Seq<ItemV>
    decreases items_size(s), 4int,
{
    if s.len() == 0 {
        Seq::empty()
    } else {
        proof {
            assert(items_size(s) == items_size(s.drop_last()) + item_size(s.last()));
            assert(item_size(s.last()) == 5 + tsize(s.last().value));
        }
        walk_items(s.drop_last(), d, deep).push(ItemV { value: walk_type(s.last().value, d, deep), ..s.last() })
    }
}

/// Each property of `s` with its value type walked.
pub open spec fn walk_props(s: Seq<PropV>, d: spec_fn(ElemV) -> OutcomeV, deep: bool) -> Seq<PropV>
    decreases props_size(s), 4int,
{
    if s.len() == 0 {
        Seq::empty()
    } else {
        proof {
            assert(props_size(s) == props_size(s.drop_last()) + prop_size(s.last()));
            assert(prop_size(s.last()) == 1 + tsize(s.last().value));
        }
        walk_props(s.drop_last(), d, deep).push(PropV { value: walk_type(s.last().value, d, deep), ..s.last() })
    }
}

pub proof fn lemma_walk_props(s: Seq<PropV>, d: spec_fn(ElemV) -> OutcomeV, deep: bool)
    ensures
        walk_props(s, d, deep).len() == s.len(),
        forall|k: int|
            0 <= k < s.len() ==> #[trigger] walk_props(s, d, deep)[k] == (PropV { value: walk_type(s[k].value, d, deep), ..s[k] }),
    decreases s.len(),
{
    if s.len() > 0 {
        lemma_walk_props(s.drop_last(), d, deep);
        assert forall|k: int| 0 <= k < s.len() implies #[trigger] walk_props(s, d, deep)[k] == (PropV {
            value: walk_type(s[k].value, d, deep),
            ..s[k]
        }) by {
            if k < s.len() - 1 {
                assert(s.drop_last()[k] == s[k]);
            }
        }
    }
}

/// Each list-shape entry of `s` with its value type walked.
pub open spec fn walk_known(s: Seq<KnownElemV>, d: spec_fn(ElemV) -> OutcomeV, deep: bool) -> Seq<KnownElemV>
    decreases kelems_size(s), 4int,
{
    if s.len() == 0 {
        Seq::empty()
    } else {
        proof {
            assert(kelems_size(s) == kelems_size(s.drop_last()) + kelem_size(s.last()));
            assert(kelem_size(s.last()) == 1 + tsize(s.last().value));
        }
        walk_known(s.drop_last(), d, deep).push(KnownElemV { value: walk_type(s.last().value, d, deep), ..s.last() })
    }
}

pub proof fn lemma_walk_items(s: Seq<ItemV>, d: spec_fn(ElemV) -> OutcomeV, deep: bool)
    ensures
        walk_items(s, d, deep).len() == s.len(),
        forall|k: int|
            0 <= k < s.len() ==> #[trigger] walk_items(s, d, deep)[k] == (ItemV { value: walk_type(s[k].value, d, deep), ..s[k] }),
    decreases s.len(),
{
    if s.len() > 0 {
        lemma_walk_items(s.drop_last(), d, deep);
        assert forall|k: int| 0 <= k < s.len() implies #[trigger] walk_items(s, d, deep)[k] == (ItemV {
            value: walk_type(s[k].value, d, deep),
            ..s[k]
        }) by {
            if k < s.len() - 1 {
                assert(s.drop_last()[k] == s[k]);
            }
        }
    }
}

pub proof fn lemma_walk_known(s: Seq<KnownElemV>, d: spec_fn(ElemV) -> OutcomeV, deep: bool)
    ensures
        walk_known(s, d, deep).len() == s.len(),
        forall|k: int|
            0 <= k < s.len() ==> #[trigger] walk_known(s, d, deep)[k] == (KnownElemV {
                value: walk_type(s[k].value, d, deep),
                ..s[k]
            }),
    decreases s.len(),
{
    if s.len() > 0 {
        lemma_walk_known(s.drop_last(), d, deep);
        assert forall|k: int| 0 <= k < s.len() implies #[trigger] walk_known(s, d, deep)[k] == (KnownElemV {
            value: walk_type(s[k].value, d, deep),
            ..s[k]
        }) by {
            if k < s.len() - 1 {
                assert(s.drop_last()[k] == s[k]);
            }
        }
    }
}

/// Each parameter of `s` with its type walked.
pub open spec fn walk_params(s: Seq<ParamV>, d: spec_fn(ElemV) -> OutcomeV, deep: bool) -> Seq<ParamV>
    decreases pssize(s), 4int,
{
    if s.len() == 0 {
        Seq::empty()
    } else {
        proof {
            assert(pssize(s) == pssize(s.drop_last()) + psize(s.last()));
            assert(psize(s.last()) == 1 + tsize(s.last().ty));
        }
        walk_params(s.drop_last(), d, deep).push(ParamV { ty: walk_type(s.last().ty, d, deep), ..s.last() })
    }
}

pub proof fn lemma_walk_params(s: Seq<ParamV>, d: spec_fn(ElemV) -> OutcomeV, deep: bool)
    ensures
        walk_params(s, d, deep).len() == s.len(),
        forall|k: int|
            0 <= k < s.len() ==> #[trigger] walk_params(s, d, deep)[k] == (ParamV { ty: walk_type(s[k].ty, d, deep), ..s[k] }),
    decreases s.len(),
{
    if s.len() > 0 {
        lemma_walk_params(s.drop_last(), d, deep);
        assert forall|k: int| 0 <= k < s.len() implies #[trigger] walk_params(s, d, deep)[k] == (ParamV {
            ty: walk_type(s[k].ty, d, deep),
            ..s[k]
        }) by {
            if k < s.len() - 1 {
                assert(s.drop_last()[k] == s[k]);
            }
        }
    }
}

pub proof fn lemma_walk_args(s: Seq<TypeV>, d: spec_fn(ElemV) -> OutcomeV, deep: bool)
    ensures
        walk_args(s, d, deep).len() == s.len(),
        forall|k: int| 0 <= k < s.len() ==> #[trigger] walk_args(s, d, deep)[k] == walk_type(s[k], d, deep),
    decreases s.len(),
{
    if s.len() > 0 {
        lemma_walk_args(s.drop_last(), d, deep);
        assert forall|k: int| 0 <= k < s.len() implies #[trigger] walk_args(s, d, deep)[k] == walk_type(s[k], d, deep) by {
            if k < s.len() - 1 {
                assert(s.drop_last()[k] == s[k]);
            }
        }
    }
}

/// The decision keeps every atom.
pub open spec fn keeps_all(d: spec_fn(ElemV) -> OutcomeV) -> bool {
    forall|e: ElemV| #[trigger] d(e) == OutcomeV::Unchanged
}

/// A walk whose decision keeps every atom leaves every type as it was.
pub proof fn lemma_keep_all_no_change(t: TypeV, d: spec_fn(ElemV) -> OutcomeV, deep: bool)
    requires
        keeps_all(d),
    ensures
        walk_type(t, d, deep) == t,
    decreases tsize(t), 3int,
{
    lemma_keep_all_seq(t.elements, d, deep);
}

pub proof fn lemma_keep_all_seq(s: Seq<ElemV>, d: spec_fn(ElemV) -> OutcomeV, deep: bool)
    requires
        keeps_all(d),
    ensures
        walk_seq(s, d, deep) == (s, false),
    decreases ssize(s), 2int,
{
    if s.len() > 0 {
        lemma_esize_pos(s.last());
        lemma_keep_all_seq(s.drop_last(), d, deep);
        lemma_keep_all_rebuild(s.last(), d, deep);
        assert(d(s.last()) == OutcomeV::Unchanged);
        assert(walk_elem(s.last(), d, deep) == (seq![s.last()], false));
        assert(s.drop_last() + seq![s.last()] =~= s);
    }
}

pub proof fn lemma_keep_all_args(s: Seq<TypeV>, d: spec_fn(ElemV) -> OutcomeV, deep: bool)
    requires
        keeps_all(d),
    ensures
        walk_args(s, d, deep) == s,
    decreases tssize(s), 4int,
{
    if s.len() > 0 {
        lemma_tsize_pos(s.last());
        lemma_keep_all_args(s.drop_last(), d, deep);
        lemma_keep_all_no_change(s.last(), d, deep);
        assert(s.drop_last().push(s.last()) =~= s);
    }
}

pub proof fn lemma_keep_all_rebuild(e: ElemV, d: spec_fn(ElemV) -> OutcomeV, deep: bool)
    requires
        keeps_all(d),
    ensures
        rebuild(e, d, deep) == (e, false),
    decreases esize(e), 0int,
{
    match e {
        ElemV::Object { args, .. } => lemma_keep_all_args(args, d, deep),
        ElemV::List { element_type, known, .. } => {
            lemma_keep_all_no_change(element_type, d, deep);
            lemma_keep_all_known(known, d, deep);
        },
        ElemV::Array { key, value, items, .. } => {
            if let Some(k) = key {
                lemma_keep_all_no_change(k, d, deep);
            }
            if let Some(v) = value {
                lemma_keep_all_no_change(v, d, deep);
            }
            lemma_keep_all_items(items, d, deep);
        },
        ElemV::Iterable { key, value } => {
            lemma_keep_all_no_change(key, d, deep);
            lemma_keep_all_no_change(value, d, deep);
        },
        ElemV::ObjectShape { props, .. } => lemma_keep_all_props(props, d, deep),
        ElemV::ClassLikeString(_, ClsSpecV::OfType(t)) => lemma_keep_all_no_change(t, d, deep),
        ElemV::ClassLikeString(_, ClsSpecV::Generic(t)) => lemma_keep_all_no_change(t, d, deep),
        ElemV::GenericParameter { constraint, .. } => lemma_keep_all_no_change(constraint, d, deep),
        ElemV::Reference { args, .. } => lemma_keep_all_args(args, d, deep),
        ElemV::Callable(CallV::Sig(sig)) => lemma_keep_all_sig(sig, d, deep),
        ElemV::Callable(CallV::Closure(sig)) => lemma_keep_all_sig(sig, d, deep),
        ElemV::Conditional { subject, target, then_type, otherwise, .. } => {
            lemma_keep_all_no_change(subject, d, deep);
            lemma_keep_all_no_change(target, d, deep);
            lemma_keep_all_no_change(then_type, d, deep);
            lemma_keep_all_no_change(otherwise, d, deep);
        },
        ElemV::Derived(dv) => match dv {
            DerivedV::KeyOf(t) => lemma_keep_all_no_change(t, d, deep),
            DerivedV::ValueOf(t) => lemma_keep_all_no_change(t, d, deep),
            DerivedV::PropertiesOf(t, _) => lemma_keep_all_no_change(t, d, deep),
            DerivedV::IndexAccess(t, i) => {
                lemma_keep_all_no_change(t, d, deep);
                lemma_keep_all_no_change(i, d, deep);
            },
            DerivedV::IntMask(ts) => lemma_keep_all_args(ts, d, deep),
            DerivedV::IntMaskOf(t) => lemma_keep_all_no_change(t, d, deep),
            DerivedV::TemplateType(o, c, k) => {
                lemma_keep_all_no_change(o, d, deep);
                lemma_keep_all_no_change(c, d, deep);
                lemma_keep_all_no_change(k, d, deep);
            },
            DerivedV::New(t) => lemma_keep_all_no_change(t, d, deep),
        },
        _ => {},
    }
}

pub proof fn lemma_keep_all_sig(s: SigV, d: spec_fn(ElemV) -> OutcomeV, deep: bool)
    requires
        keeps_all(d),
    ensures
        walk_sig(s, d, deep) == s,
    decreases sigsize(s), 5int,
{
    lemma_keep_all_no_change(s.ret, d, deep);
    if let Some(t) = s.throws {
        lemma_keep_all_no_change(t, d, deep);
    }
    if let Some(ps) = s.params {
        lemma_keep_all_params(ps, d, deep);
    }
}

pub proof fn lemma_keep_all_items(s: Seq<ItemV>, d: spec_fn(ElemV) -> OutcomeV, deep: bool)
    requires
        keeps_all(d),
    ensures
        walk_items(s, d, deep) == s,
    decreases items_size(s), 4int,
{
    if s.len() > 0 {
        assert(items_size(s) == items_size(s.drop_last()) + item_size(s.last()));
        assert(item_size(s.last()) == 5 + tsize(s.last().value));
        lemma_keep_all_items(s.drop_last(), d, deep);
        lemma_keep_all_no_change(s.last().value, d, deep);
        assert(s.drop_last().push(s.last()) =~= s);
    }
}

pub proof fn lemma_keep_all_props(s: Seq<PropV>, d: spec_fn(ElemV) -> OutcomeV, deep: bool)
    requires
        keeps_all(d),
    ensures
        walk_props(s, d, deep) == s,
    decreases props_size(s), 4int,
{
    if s.len() > 0 {
        assert(props_size(s) == props_size(s.drop_last()) + prop_size(s.last()));
        assert(prop_size(s.last()) == 1 + tsize(s.last().value));
        lemma_keep_all_props(s.drop_last(), d, deep);
        lemma_keep_all_no_change(s.last().value, d, deep);
        assert(s.drop_last().push(s.last()) =~= s);
    }
}

pub proof fn lemma_keep_all_known(s: Seq<KnownElemV>, d: spec_fn(ElemV) -> OutcomeV, deep: bool)
    requires
        keeps_all(d),
    ensures
        walk_known(s, d, deep) == s,
    decreases kelems_size(s), 4int,
{
    if s.len() > 0 {
        assert(kelems_size(s) == kelems_size(s.drop_last()) + kelem_size(s.last()));
        assert(kelem_size(s.last()) == 1 + tsize(s.last().value));
        lemma_keep_all_known(s.drop_last(), d, deep);
        lemma_keep_all_no_change(s.last().value, d, deep);
        assert(s.drop_last().push(s.last()) =~= s);
    }
}

pub proof fn lemma_keep_all_params(s: Seq<ParamV>, d: spec_fn(ElemV) -> OutcomeV, deep: bool)
    requires
        keeps_all(d),
    ensures
        walk_params(s, d, deep) == s,
    decreases pssize(s), 4int,
{
    if s.len() > 0 {
        assert(pssize(s) == pssize(s.drop_last()) + psize(s.last()));
        lemma_keep_all_params(s.drop_last(), d, deep);
        lemma_keep_all_no_change(s.last().ty, d, deep);
        assert(s.drop_last().push(s.last()) =~= s);
    }
}

/// Walk `ty` post-order, taking `f`'s decision at every atom; `deep` says
/// whether the constraint of a template parameter is walked too.
pub fn walk<F: Fn(&Element) -> Outcome>(ty: &Type, f: &F, Ghost(d): Ghost<spec_fn(ElemV) -> OutcomeV>, deep: bool) -> (r: Type)
    requires
        decides(*f, d),
    ensures
        r@ == walk_type(ty@, d, deep),
    decreases tsize(ty@), 3int,
{
    let ghost s = ty@.elements;
    let mut new_elements: Vec<Element> = Vec::new();
    let mut changed = false;
    let mut i: usize = 0;
    while i < ty.elements.len()
        invariant
            decides(*f, d),
            s == ty@.elements,
            s.len() == ty.elements.len(),
            i <= s.len(),
            (views(new_elements@), changed) == walk_seq(s.take(i as int), d, deep),
        decreases ty.elements.len() - i,
    {
        let e = &ty.elements[i];
        assert(s[i as int] == e@);
        proof {
            lemma_elem_smaller(ty@, i as int);
        }
        let rebuilt = walk_nested(e, f, Ghost(d), deep);
        let (target, nested) = match rebuilt {
            Some(x) => (x, true),
            None => (e.copy(), false),
        };
        assert(rebuild(e@, d, deep) == (target@, nested));
        let ghost before = views(new_elements@);
        let o = f(&target);
        assert(outcome_view(o) == d(target@));
        let ghost step = walk_elem(s[i as int], d, deep);
        match o {
            Outcome::Unchanged => {
                new_elements.push(target);
                assert(step == (seq![target@], nested));
                assert(views(new_elements@) =~= before + seq![target@]);
                changed = changed || nested;
            },
            Outcome::Single(x) => {
                let ghost xv = x@;
                new_elements.push(x);
                assert(step == (seq![xv], true));
                assert(views(new_elements@) =~= before + seq![xv]);
                changed = true;
            },
            Outcome::Many(v) => {
                let ghost vv = views(v@);
                let mut v = v;
                new_elements.append(&mut v);
                assert(step == (vv, true));
                assert(views(new_elements@) =~= before + vv);
                changed = true;
            },
            Outcome::Drop => {
                assert(step == (Seq::<ElemV>::empty(), true));
                assert(views(new_elements@) =~= before + Seq::<ElemV>::empty());
                changed = true;
            },
        }
        assert(s.take(i + 1).drop_last() =~= s.take(i as int));
        assert(s.take(i + 1).last() == s[i as int]);
        i += 1;
    }
    assert(s.take(s.len() as int) =~= s);
    if !changed {
        return ty.copy();
    }
    union_of(new_elements, ty.flags)
}

/// `e` rebuilt with its nested types walked, when one of them changed.
fn walk_nested<F: Fn(&Element) -> Outcome>(e: &Element, f: &F, Ghost(d): Ghost<spec_fn(ElemV) -> OutcomeV>, deep: bool) -> (r:
    Option<Element>)
    requires
        decides(*f, d),
    ensures
        match r {
            Some(x) => rebuild(e@, d, deep) == (x@, true),
            None => rebuild(e@, d, deep) == (e@, false),
        },
    decreases esize(e@), 2int,
{
    match e {
        Element::Object(o) => walk_object(o, f, Ghost(d), deep),
        Element::List(l) => walk_list(l, f, Ghost(d), deep),
        Element::Array(a) => walk_keyed_array(a, f, Ghost(d), deep),
        Element::ObjectShape(sh) => walk_object_shape(sh, f, Ghost(d), deep),
        Element::Iterable(it) => walk_iterable(it, f, Ghost(d), deep),
        Element::ClassLikeString(c) => walk_class_like_string(c, f, Ghost(d), deep),
        Element::GenericParameter(g) => walk_generic_parameter(g, f, Ghost(d), deep),
        Element::Reference(rf) => walk_reference(rf, f, Ghost(d), deep),
        Element::Callable(c) => walk_callable(c, f, Ghost(d), deep),
        Element::Conditional(c) => walk_conditional(c, f, Ghost(d), deep),
        Element::Derived(dv) => walk_derived(dv, f, Ghost(d), deep),
        _ => None,
    }
}

/// Walk the types of `ts`; `None` when none of them changed.
fn walk_types<F: Fn(&Element) -> Outcome>(ts: &Vec<Type>, f: &F, Ghost(d): Ghost<spec_fn(ElemV) -> OutcomeV>, deep: bool) -> (r:
    Option<Vec<Type>>)
    requires
        decides(*f, d),
    ensures
        match r {
            Some(n) => tvs(n) == walk_args(tvs(*ts), d, deep) && walk_args(tvs(*ts), d, deep) != tvs(*ts),
            None => walk_args(tvs(*ts), d, deep) == tvs(*ts),
        },
    decreases tssize(tvs(*ts)), 4int,
{
    let ghost args = tvs(*ts);
    proof {
        lemma_walk_args(args, d, deep);
    }
    let mut new_args: Vec<Type> = Vec::new();
    let mut all_same = true;
    let mut j: usize = 0;
    while j < ts.len()
        invariant
            decides(*f, d),
            args == tvs(*ts),
            args.len() == ts.len(),
            j <= args.len(),
            new_args@.len() == j,
            forall|k: int| 0 <= k < j ==> #[trigger] new_args@[k]@ == walk_type(args[k], d, deep),
            all_same == forall|k: int| 0 <= k < j ==> #[trigger] walk_type(args[k], d, deep) == args[k],
        decreases ts.len() - j,
    {
        assert(args[j as int] == ts@[j as int]@);
        proof {
            lemma_tssize_elem(args, j as int);
        }
        let n = walk(&ts[j], f, Ghost(d), deep);
        if !n.same(&ts[j]) {
            all_same = false;
        }
        new_args.push(n);
        j += 1;
    }
    proof {
        lemma_walk_args(args, d, deep);
    }
    if all_same {
        assert(walk_args(args, d, deep) =~= args);
        None
    } else {
        assert forall|k: int| 0 <= k < args.len() implies #[trigger] tvs(new_args)[k] == walk_args(args, d, deep)[k] by {
            assert(new_args@[k]@ == walk_type(args[k], d, deep));
        }
        assert(tvs(new_args) =~= walk_args(args, d, deep));
        proof {
            if walk_args(args, d, deep) == args {
                let k = choose|k: int| 0 <= k < args.len() && walk_type(args[k], d, deep) != args[k];
                assert(walk_args(args, d, deep)[k] == args[k]);
            }
        }
        Some(new_args)
    }
}

fn walk_object<F: Fn(&Element) -> Outcome>(o: &ObjectInfo, f: &F, Ghost(d): Ghost<spec_fn(ElemV) -> OutcomeV>, deep: bool) -> (r:
    Option<Element>)
    requires
        decides(*f, d),
    ensures
        ({
            let e = ElemV::Object { name: o.name@, args: tvs(o.type_args) };
            match r {
                Some(x) => rebuild(e, d, deep) == (x@, true),
                None => rebuild(e, d, deep) == (e, false),
            }
        }),
    decreases esize(ElemV::Object { name: o.name@, args: tvs(o.type_args) }), 1int,
{
    match walk_types(&o.type_args, f, Ghost(d), deep) {
        Some(n) => Some(Element::Object(ObjectInfo { name: copy_chars(&o.name), type_args: n })),
        None => None,
    }
}

fn walk_reference<F: Fn(&Element) -> Outcome>(
    rf: &ReferenceInfo,
    f: &F,
    Ghost(d): Ghost<spec_fn(ElemV) -> OutcomeV>, deep: bool,
) -> (r: Option<Element>)
    requires
        decides(*f, d),
    ensures
        ({
            let e = ElemV::Reference { name: rf.name@, args: tvs(rf.type_args) };
            match r {
                Some(x) => rebuild(e, d, deep) == (x@, true),
                None => rebuild(e, d, deep) == (e, false),
            }
        }),
    decreases esize(ElemV::Reference { name: rf.name@, args: tvs(rf.type_args) }), 1int,
{
    match walk_types(&rf.type_args, f, Ghost(d), deep) {
        Some(n) => Some(Element::Reference(ReferenceInfo { name: copy_chars(&rf.name), type_args: n })),
        None => None,
    }
}

fn walk_list<F: Fn(&Element) -> Outcome>(l: &ListInfo, f: &F, Ghost(d): Ghost<spec_fn(ElemV) -> OutcomeV>, deep: bool) -> (r:
    Option<Element>)
    requires
        decides(*f, d),
    ensures
        ({
            let e = Element::List(*l)@;
            match r {
                Some(x) => rebuild(e, d, deep) == (x@, true),
                None => rebuild(e, d, deep) == (e, false),
            }
        }),
    decreases esize(Element::List(*l)@), 1int,
{
    let n = walk(&l.element_type, f, Ghost(d), deep);
    let nk = walk_known_list(&l.known_elements, f, Ghost(d), deep);
    if n.same(&l.element_type) && known_elements_same(&nk, &l.known_elements) {
        None
    } else {
        Some(
            Element::List(
                ListInfo { element_type: n, known_elements: nk, known_count: l.known_count, non_empty: l.non_empty },
            ),
        )
    }
}

/// An optional type, walked where present.
fn walk_opt_type<F: Fn(&Element) -> Outcome>(
    t: &Option<Type>,
    f: &F,
    Ghost(d): Ghost<spec_fn(ElemV) -> OutcomeV>, deep: bool,
) -> (r: Option<Type>)
    requires
        decides(*f, d),
    ensures
        otv(r) == walk_opt(otv(*t), d, deep),
    decreases otsize(otv(*t)), 4int,
{
    match t {
        Some(x) => Some(walk(x, f, Ghost(d), deep)),
        None => None,
    }
}

fn walk_keyed_array<F: Fn(&Element) -> Outcome>(
    a: &KeyedArrayInfo,
    f: &F,
    Ghost(d): Ghost<spec_fn(ElemV) -> OutcomeV>, deep: bool,
) -> (r: Option<Element>)
    requires
        decides(*f, d),
    ensures
        ({
            let e = Element::Array(*a)@;
            match r {
                Some(x) => rebuild(e, d, deep) == (x@, true),
                None => rebuild(e, d, deep) == (e, false),
            }
        }),
    decreases esize(Element::Array(*a)@), 1int,
{
    let nk = walk_opt_type(&a.key_param, f, Ghost(d), deep);
    let nv = walk_opt_type(&a.value_param, f, Ghost(d), deep);
    let ni = walk_item_list(&a.known_items, f, Ghost(d), deep);
    if opt_type_same(&nk, &a.key_param) && opt_type_same(&nv, &a.value_param) && items_same(&ni, &a.known_items) {
        None
    } else {
        Some(Element::Array(KeyedArrayInfo { key_param: nk, value_param: nv, known_items: ni, non_empty: a.non_empty }))
    }
}

/// Each shape entry of `es` with its value type walked.
fn walk_item_list<F: Fn(&Element) -> Outcome>(
    es: &Vec<KnownItemEntry>,
    f: &F,
    Ghost(d): Ghost<spec_fn(ElemV) -> OutcomeV>, deep: bool,
) -> (r: Vec<KnownItemEntry>)
    requires
        decides(*f, d),
    ensures
        items_view(r) == walk_items(items_view(*es), d, deep),
    decreases items_size(items_view(*es)), 4int,
{
    let ghost v = items_view(*es);
    proof {
        lemma_walk_items(v, d, deep);
    }
    let mut out: Vec<KnownItemEntry> = Vec::new();
    let mut j: usize = 0;
    while j < es.len()
        invariant
            decides(*f, d),
            v == items_view(*es),
            v.len() == es.len(),
            j <= v.len(),
            out@.len() == j,
            forall|k: int|
                0 <= k < j ==> #[trigger] item_view(out@[k]) == (ItemV { value: walk_type(v[k].value, d, deep), ..v[k] }),
        decreases es.len() - j,
    {
        assert(v[j as int] == item_view(es@[j as int]));
        proof {
            lemma_items_size_elem(v, j as int);
        }
        let e = &es[j];
        out.push(KnownItemEntry { key: e.key.copy(), value: walk(&e.value, f, Ghost(d), deep), optional: e.optional });
        j += 1;
    }
    proof {
        lemma_walk_items(v, d, deep);
        assert forall|k: int| 0 <= k < v.len() implies #[trigger] items_view(out)[k] == walk_items(v, d, deep)[k] by {
            assert(item_view(out@[k]) == (ItemV { value: walk_type(v[k].value, d, deep), ..v[k] }));
        }
    }
    assert(items_view(out) =~= walk_items(v, d, deep));
    out
}

/// An object shape with its property types walked; `None` when none
/// changed.
fn walk_object_shape<F: Fn(&Element) -> Outcome>(
    sh: &ObjectShapeInfo,
    f: &F,
    Ghost(d): Ghost<spec_fn(ElemV) -> OutcomeV>, deep: bool,
) -> (r: Option<Element>)
    requires
        decides(*f, d),
    ensures
        ({
            let e = Element::ObjectShape(*sh)@;
            match r {
                Some(x) => rebuild(e, d, deep) == (x@, true),
                None => rebuild(e, d, deep) == (e, false),
            }
        }),
    decreases esize(Element::ObjectShape(*sh)@), 1int,
{
    let ghost v = props_view(sh.known_properties);
    proof {
        lemma_walk_props(v, d, deep);
    }
    let mut out: Vec<KnownPropertyEntry> = Vec::new();
    let mut j: usize = 0;
    while j < sh.known_properties.len()
        invariant
            decides(*f, d),
            v == props_view(sh.known_properties),
            v.len() == sh.known_properties.len(),
            props_size(v) < esize(Element::ObjectShape(*sh)@),
            j <= v.len(),
            out@.len() == j,
            forall|k: int|
                0 <= k < j ==> #[trigger] prop_view(out@[k]) == (PropV { value: walk_type(v[k].value, d, deep), ..v[k] }),
        decreases sh.known_properties.len() - j,
    {
        assert(v[j as int] == prop_view(sh.known_properties@[j as int]));
        proof {
            lemma_props_size_elem(v, j as int);
        }
        let e = &sh.known_properties[j];
        out.push(KnownPropertyEntry { name: copy_chars(&e.name), value: walk(&e.value, f, Ghost(d), deep), optional: e.optional });
        j += 1;
    }
    proof {
        lemma_walk_props(v, d, deep);
        assert forall|k: int| 0 <= k < v.len() implies #[trigger] props_view(out)[k] == walk_props(v, d, deep)[k] by {
            assert(prop_view(out@[k]) == (PropV { value: walk_type(v[k].value, d, deep), ..v[k] }));
        }
    }
    assert(props_view(out) =~= walk_props(v, d, deep));
    if props_same(&out, &sh.known_properties) {
        None
    } else {
        Some(Element::ObjectShape(ObjectShapeInfo { known_properties: out, sealed: sh.sealed }))
    }
}

/// Each list-shape entry of `es` with its value type walked.
fn walk_known_list<F: Fn(&Element) -> Outcome>(
    es: &Vec<KnownElementEntry>,
    f: &F,
    Ghost(d): Ghost<spec_fn(ElemV) -> OutcomeV>, deep: bool,
) -> (r: Vec<KnownElementEntry>)
    requires
        decides(*f, d),
    ensures
        known_elems_view(r) == walk_known(known_elems_view(*es), d, deep),
    decreases kelems_size(known_elems_view(*es)), 4int,
{
    let ghost v = known_elems_view(*es);
    proof {
        lemma_walk_known(v, d, deep);
    }
    let mut out: Vec<KnownElementEntry> = Vec::new();
    let mut j: usize = 0;
    while j < es.len()
        invariant
            decides(*f, d),
            v == known_elems_view(*es),
            v.len() == es.len(),
            j <= v.len(),
            out@.len() == j,
            forall|k: int|
                0 <= k < j ==> #[trigger] known_elem_view(out@[k]) == (KnownElemV {
                    value: walk_type(v[k].value, d, deep),
                    ..v[k]
                }),
        decreases es.len() - j,
    {
        assert(v[j as int] == known_elem_view(es@[j as int]));
        proof {
            lemma_kelems_size_elem(v, j as int);
        }
        let e = &es[j];
        out.push(KnownElementEntry { index: e.index, value: walk(&e.value, f, Ghost(d), deep), optional: e.optional });
        j += 1;
    }
    proof {
        lemma_walk_known(v, d, deep);
        assert forall|k: int| 0 <= k < v.len() implies #[trigger] known_elems_view(out)[k] == walk_known(v, d, deep)[k] by {
            assert(known_elem_view(out@[k]) == (KnownElemV { value: walk_type(v[k].value, d, deep), ..v[k] }));
        }
    }
    assert(known_elems_view(out) =~= walk_known(v, d, deep));
    out
}

fn walk_iterable<F: Fn(&Element) -> Outcome>(it: &IterableInfo, f: &F, Ghost(d): Ghost<spec_fn(ElemV) -> OutcomeV>, deep: bool) -> (r:
    Option<Element>)
    requires
        decides(*f, d),
    ensures
        ({
            let e = ElemV::Iterable { key: it.key_type@, value: it.value_type@ };
            match r {
                Some(x) => rebuild(e, d, deep) == (x@, true),
                None => rebuild(e, d, deep) == (e, false),
            }
        }),
    decreases esize(ElemV::Iterable { key: it.key_type@, value: it.value_type@ }), 1int,
{
    let nk = walk(&it.key_type, f, Ghost(d), deep);
    let nv = walk(&it.value_type, f, Ghost(d), deep);
    if nk.same(&it.key_type) && nv.same(&it.value_type) {
        None
    } else {
        Some(Element::Iterable(IterableInfo { key_type: nk, value_type: nv }))
    }
}

fn walk_class_like_string<F: Fn(&Element) -> Outcome>(
    c: &ClassLikeStringInfo,
    f: &F,
    Ghost(d): Ghost<spec_fn(ElemV) -> OutcomeV>, deep: bool,
) -> (r: Option<Element>)
    requires
        decides(*f, d),
    ensures
        ({
            let e = Element::ClassLikeString(*c)@;
            match r {
                Some(x) => rebuild(e, d, deep) == (x@, true),
                None => rebuild(e, d, deep) == (e, false),
            }
        }),
    decreases esize(Element::ClassLikeString(*c)@), 1int,
{
    match &c.specifier {
        ClassLikeStringSpecifier::OfType(t) => {
            let n = walk(t, f, Ghost(d), deep);
            if n.same(t) {
                None
            } else {
                Some(
                    Element::ClassLikeString(
                        ClassLikeStringInfo { kind: c.kind, specifier: ClassLikeStringSpecifier::OfType(n) },
                    ),
                )
            }
        },
        ClassLikeStringSpecifier::Generic(t) => {
            let n = walk(t, f, Ghost(d), deep);
            if n.same(t) {
                None
            } else {
                Some(
                    Element::ClassLikeString(
                        ClassLikeStringInfo { kind: c.kind, specifier: ClassLikeStringSpecifier::Generic(n) },
                    ),
                )
            }
        },
        _ => None,
    }
}

fn walk_generic_parameter<F: Fn(&Element) -> Outcome>(
    g: &GenericParameterInfo,
    f: &F,
    Ghost(d): Ghost<spec_fn(ElemV) -> OutcomeV>, deep: bool,
) -> (r: Option<Element>)
    requires
        decides(*f, d),
    ensures
        ({
            let e = Element::GenericParameter(*g)@;
            match r {
                Some(x) => rebuild(e, d, deep) == (x@, true),
                None => rebuild(e, d, deep) == (e, false),
            }
        }),
    decreases esize(Element::GenericParameter(*g)@), 1int,
{
    if !deep {
        return None;
    }
    let n = walk(&g.constraint, f, Ghost(d), deep);
    if n.same(&g.constraint) {
        None
    } else {
        Some(
            Element::GenericParameter(
                GenericParameterInfo {
                    name: copy_chars(&g.name),
                    defining_entity: g.defining_entity.copy(),
                    constraint: n,
                },
            ),
        )
    }
}

/// Each parameter of `ps` with its type walked.
fn walk_param_list<F: Fn(&Element) -> Outcome>(
    ps: &Vec<ParamInfo>,
    f: &F,
    Ghost(d): Ghost<spec_fn(ElemV) -> OutcomeV>, deep: bool,
) -> (r: Vec<ParamInfo>)
    requires
        decides(*f, d),
    ensures
        params_view(r) == walk_params(params_view(*ps), d, deep),
    decreases pssize(params_view(*ps)), 4int,
{
    let ghost v = params_view(*ps);
    proof {
        lemma_walk_params(v, d, deep);
    }
    let mut out: Vec<ParamInfo> = Vec::new();
    let mut j: usize = 0;
    while j < ps.len()
        invariant
            decides(*f, d),
            v == params_view(*ps),
            v.len() == ps.len(),
            j <= v.len(),
            out@.len() == j,
            forall|k: int|
                0 <= k < j ==> #[trigger] crate::element::param_view(out@[k]) == (ParamV {
                    ty: walk_type(v[k].ty, d, deep),
                    ..v[k]
                }),
        decreases ps.len() - j,
    {
        assert(v[j as int] == crate::element::param_view(ps@[j as int]));
        proof {
            lemma_pssize_elem(v, j as int);
        }
        let p = &ps[j];
        out.push(
            ParamInfo {
                name: copy_chars(&p.name),
                type_: walk(&p.type_, f, Ghost(d), deep),
                has_default: p.has_default,
                by_reference: p.by_reference,
                variadic: p.variadic,
            },
        );
        j += 1;
    }
    proof {
        lemma_walk_params(v, d, deep);
        assert forall|k: int| 0 <= k < v.len() implies #[trigger] params_view(out)[k] == walk_params(v, d, deep)[k] by {
            assert(crate::element::param_view(out@[k]) == (ParamV { ty: walk_type(v[k].ty, d, deep), ..v[k] }));
        }
    }
    assert(params_view(out) =~= walk_params(v, d, deep));
    out
}

/// A signature with its return, thrown and parameter types walked; `None`
/// when none of them changed.
fn walk_signature<F: Fn(&Element) -> Outcome>(
    s: &Signature,
    f: &F,
    Ghost(d): Ghost<spec_fn(ElemV) -> OutcomeV>, deep: bool,
) -> (r: Option<Signature>)
    requires
        decides(*f, d),
    ensures
        match r {
            Some(n) => sig_view(n) == walk_sig(sig_view(*s), d, deep) && walk_sig(sig_view(*s), d, deep) != sig_view(*s),
            None => walk_sig(sig_view(*s), d, deep) == sig_view(*s),
        },
    decreases sigsize(sig_view(*s)), 6int,
{
    let return_type = walk(&s.return_type, f, Ghost(d), deep);
    let throws = match &s.throws {
        Some(t) => Some(walk(t, f, Ghost(d), deep)),
        None => None,
    };
    let parameters = match &s.parameters {
        Some(ps) => Some(walk_param_list(ps, f, Ghost(d), deep)),
        None => None,
    };
    let n = Signature { return_type, throws, parameters, is_variadic: s.is_variadic, is_pure: s.is_pure };
    if crate::element::signature_same(&n, s) {
        None
    } else {
        Some(n)
    }
}

fn walk_callable<F: Fn(&Element) -> Outcome>(c: &CallableInfo, f: &F, Ghost(d): Ghost<spec_fn(ElemV) -> OutcomeV>, deep: bool) -> (r:
    Option<Element>)
    requires
        decides(*f, d),
    ensures
        ({
            let e = ElemV::Callable(crate::element::call_view(*c));
            match r {
                Some(x) => rebuild(e, d, deep) == (x@, true),
                None => rebuild(e, d, deep) == (e, false),
            }
        }),
    decreases esize(ElemV::Callable(crate::element::call_view(*c))), 1int,
{
    match c {
        CallableInfo::Signature(s) => match walk_signature(s, f, Ghost(d), deep) {
            Some(n) => Some(Element::Callable(CallableInfo::Signature(n))),
            None => None,
        },
        CallableInfo::Closure(s) => match walk_signature(s, f, Ghost(d), deep) {
            Some(n) => Some(Element::Callable(CallableInfo::Closure(n))),
            None => None,
        },
        _ => None,
    }
}

fn walk_conditional<F: Fn(&Element) -> Outcome>(
    c: &ConditionalInfo,
    f: &F,
    Ghost(d): Ghost<spec_fn(ElemV) -> OutcomeV>, deep: bool,
) -> (r: Option<Element>)
    requires
        decides(*f, d),
    ensures
        ({
            let e = Element::Conditional(*c)@;
            match r {
                Some(x) => rebuild(e, d, deep) == (x@, true),
                None => rebuild(e, d, deep) == (e, false),
            }
        }),
    decreases esize(Element::Conditional(*c)@), 1int,
{
    let subject = walk(&c.subject, f, Ghost(d), deep);
    let target = walk(&c.target, f, Ghost(d), deep);
    let then_type = walk(&c.then_type, f, Ghost(d), deep);
    let otherwise = walk(&c.otherwise, f, Ghost(d), deep);
    if subject.same(&c.subject) && target.same(&c.target) && then_type.same(&c.then_type) && otherwise.same(
        &c.otherwise,
    ) {
        None
    } else {
        Some(Element::Conditional(ConditionalInfo { subject, target, then_type, otherwise, negated: c.negated }))
    }
}

fn walk_derived<F: Fn(&Element) -> Outcome>(dv: &DerivedInfo, f: &F, Ghost(d): Ghost<spec_fn(ElemV) -> OutcomeV>, deep: bool) -> (r:
    Option<Element>)
    requires
        decides(*f, d),
    ensures
        ({
            let e = ElemV::Derived(crate::element::derived_view(*dv));
            match r {
                Some(x) => rebuild(e, d, deep) == (x@, true),
                None => rebuild(e, d, deep) == (e, false),
            }
        }),
    decreases esize(ElemV::Derived(crate::element::derived_view(*dv))), 1int,
{
    let walked = match dv {
        DerivedInfo::KeyOf(t) => {
            let w = walk(t, f, Ghost(d), deep);
            if w.same(t) {
                return None;
            }
            DerivedInfo::KeyOf(w)
        },
        DerivedInfo::ValueOf(t) => {
            let w = walk(t, f, Ghost(d), deep);
            if w.same(t) {
                return None;
            }
            DerivedInfo::ValueOf(w)
        },
        DerivedInfo::IndexAccess { target, index } => {
            let target_w = walk(target, f, Ghost(d), deep);
            let index_w = walk(index, f, Ghost(d), deep);
            if target_w.same(target) && index_w.same(index) {
                return None;
            }
            DerivedInfo::IndexAccess { target: target_w, index: index_w }
        },
        DerivedInfo::PropertiesOf { target, visibility } => {
            let target_w = walk(target, f, Ghost(d), deep);
            if target_w.same(target) {
                return None;
            }
            DerivedInfo::PropertiesOf { target: target_w, visibility: *visibility }
        },
        DerivedInfo::IntMask(ts) => match walk_types(ts, f, Ghost(d), deep) {
            Some(n) => DerivedInfo::IntMask(n),
            None => {
                return None;
            },
        },
        DerivedInfo::IntMaskOf(t) => {
            let w = walk(t, f, Ghost(d), deep);
            if w.same(t) {
                return None;
            }
            DerivedInfo::IntMaskOf(w)
        },
        DerivedInfo::TemplateType { object, class_name, template_name } => {
            let o = walk(object, f, Ghost(d), deep);
            let c = walk(class_name, f, Ghost(d), deep);
            let t = walk(template_name, f, Ghost(d), deep);
            if o.same(object) && c.same(class_name) && t.same(template_name) {
                return None;
            }
            DerivedInfo::TemplateType { object: o, class_name: c, template_name: t }
        },
        DerivedInfo::New(t) => {
            let w = walk(t, f, Ghost(d), deep);
            if w.same(t) {
                return None;
            }
            DerivedInfo::New(w)
        },
    };
    Some(Element::Derived(walked))
}

} // verus!
