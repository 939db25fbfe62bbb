//! The refinement relation as a mathematical function.
//!
//! `refines_spec(a, b, o, c)` is the pair (does `a` refine `b` under the
//! options `o`, the coercion causes after the walk when it starts with the
//! causes `c`). The walk visits the input's elements in order; an element
//! fits when some container element accepts it, or when the container's
//! atoms of its family jointly cover it.
use vstd::prelude::*;

use crate::element::{
    item_size, kelem_size,
    CallV, ClassLikeKind, ClsSpecV, ElemV, IntInfo, ItemV, KeyV, KnownElemV, ParamV, SigV, StrLitV, StringCasing,
    StringFlags, StringInfoV, TypeV, canonical, empty_flags, esize, items_size, kelems_size, lemma_elem_smaller,
    lemma_items_size_elem, lemma_kelems_size_elem,
    lemma_pssize_elem, pssize, sigsize, ssize, tsize,
};
use crate::lattice::family::callable::required_from;
use crate::lattice::family::array_key::array_key_refines;
use crate::lattice::family::bool::bool_refines;
use crate::lattice::family::class_like_string::{matches_kind, valid_class_name};
use crate::lattice::family::float::float_refines;
use crate::lattice::family::generic::same_parameter;
use crate::lattice::family::integer::{bounds_contain, int_bounds, int_contains, int_refines};
use crate::lattice::family::mixed::{empty_array_v, mixed_refines};
use crate::lattice::family::numeric::numeric_refines;
use crate::lattice::family::object::{
    enum_refines, has_method_refines, has_property_refines, is_object_family, is_structural, object_shape_refines,
};
use crate::lattice::family::reference::reference_refines;
use crate::lattice::family::resource::resource_refines;
use crate::lattice::family::scalar::scalar_refines;
use crate::lattice::family::string::string_refines;
use crate::lattice::options::{LatticeOptions, default_options};
use crate::lattice::overlaps::{callables_overlap, family_overlap};
use crate::meet::string::string_meet_v;
use crate::lattice::report::{
    FROM_AS_MIXED_BIT, NESTED_MIXED_BIT, OBJECT_ANY_DOWN_BIT, PHP_RUNTIME_COERCE_BIT, TRUE_UNION_NARROW_BIT,
};
use crate::prelude::{no_string_flags, vanilla_mixed};

verus! {

pub open spec fn single_v(e: ElemV) -> TypeV {
    TypeV { elements: seq![e], flags: empty_flags() }
}

pub open spec fn union_v(s: Seq<ElemV>) -> TypeV {
    TypeV { elements: canonical(s), flags: empty_flags() }
}

pub open spec fn mixed_v() -> ElemV {
    ElemV::Mixed(vanilla_mixed())
}

pub open spec fn int_v() -> ElemV {
    ElemV::Int(IntInfo::Unspecified)
}

/// The element is dropped from the input by `ignore_null` / `ignore_false`.
pub open spec fn skipped(o: LatticeOptions, e: ElemV) -> bool {
    (o.ignore_null && e == ElemV::Null) || (o.ignore_false && e == ElemV::False)
}

/// Kinds whose values span several disjoint sub-families.
pub open spec fn true_union_kind(e: ElemV) -> bool {
    e is Mixed || e is ArrayKey || e is Bool || e is ObjectAny || e is Scalar || e is Numeric
}

// ---------------------------------------------------------------------
// Uninhabited atoms.
// ---------------------------------------------------------------------
/// Every atom of `s` is `never` or uninhabited.
pub open spec fn all_never(s: Seq<ElemV>) -> bool
    decreases ssize(s), 2int,
{
    if s.len() == 0 {
        true
    } else {
        proof {
            lemma_esize_pos(s.last());
        }
        all_never(s.drop_last()) && (s.last() == ElemV::Never || uninhabited(s.last()))
    }
}

/// No value inhabits `t`: each of its atoms is `never` or uninhabited.
pub open spec fn value_never(t: TypeV) -> bool
    decreases tsize(t), 3int,
{
    all_never(t.elements)
}

/// `int|string`, the keys an array can have.
pub open spec fn int_or_string_v() -> TypeV {
    TypeV { elements: seq![int_v(), broad_string_v()], flags: empty_flags() }
}

/// An atom with no value: a non-empty list of nothing; a non-empty array
/// whose key type admits no `int` or `string`, or whose key or value type
/// is empty.
pub open spec fn uninhabited(e: ElemV) -> bool
    decreases esize(e), 1int,
{
    match e {
        ElemV::List { element_type, known, non_empty, .. } => (non_empty && value_never(element_type))
            || required_never_element(known),
        ElemV::Array { key, value, items, non_empty } => {
            proof {
                lemma_int_or_string_size();
            }
            (non_empty && (match key {
                Some(k) => !overlaps_spec(k, int_or_string_v(), default_options(), 0).0 || value_never(k),
                None => false,
            } || match value {
                Some(v) => value_never(v),
                None => false,
            })) || required_never_item(items)
        },
        _ => false,
    }
}

/// Some entry that must be present has a type with no value.
pub open spec fn required_never_item(items: Seq<ItemV>) -> bool
    decreases items_size(items), 4int,
{
    if items.len() == 0 {
        false
    } else {
        proof {
            assert(items_size(items) == items_size(items.drop_last()) + item_size(items.last()));
            assert(item_size(items.last()) == 5 + tsize(items.last().value));
        }
        required_never_item(items.drop_last()) || (!items.last().optional && value_never(items.last().value))
    }
}

/// Some element that must be present has a type with no value.
pub open spec fn required_never_element(known: Seq<KnownElemV>) -> bool
    decreases kelems_size(known), 4int,
{
    if known.len() == 0 {
        false
    } else {
        proof {
            assert(kelems_size(known) == kelems_size(known.drop_last()) + kelem_size(known.last()));
            assert(kelem_size(known.last()) == 1 + tsize(known.last().value));
        }
        required_never_element(known.drop_last()) || (!known.last().optional && value_never(known.last().value))
    }
}

/// A list with no known entries.
pub open spec fn plain_list(e: ElemV) -> bool {
    e matches ElemV::List { known, .. } && known.len() == 0
}

/// A keyed array with both parameters and no known entries.
pub open spec fn plain_array(e: ElemV) -> bool {
    e matches ElemV::Array { key, value, items, .. } && key is Some && value is Some && items.len() == 0
}

pub proof fn lemma_int_or_string_size()
    ensures
        tsize(int_or_string_v()) == 5,
{
    let s = int_or_string_v().elements;
    assert(s.drop_last().drop_last() =~= Seq::<ElemV>::empty());
    assert(s.drop_last().last() == int_v());
    assert(s.last() == broad_string_v());
    assert(ssize(Seq::<ElemV>::empty()) == 0);
    assert(esize(int_v()) == 1);
    assert(esize(broad_string_v()) == 3);
    assert(ssize(s.drop_last()) == 1);
    assert(ssize(s) == 4);
}

pub proof fn lemma_esize_pos(e: ElemV)
    ensures
        esize(e) >= 1,
{
}

pub proof fn lemma_single_size(e: ElemV)
    ensures
        tsize(single_v(e)) == 1 + esize(e),
{
    assert(single_v(e).elements.drop_last() =~= Seq::<ElemV>::empty());
    assert(ssize(Seq::<ElemV>::empty()) == 0);
}

pub proof fn lemma_ssize_concat(x: Seq<ElemV>, y: Seq<ElemV>)
    ensures
        ssize(x + y) == ssize(x) + ssize(y),
    decreases y.len(),
{
    if y.len() == 0 {
        assert(x + y =~= x);
    } else {
        lemma_ssize_concat(x, y.drop_last());
        assert((x + y).drop_last() =~= x + y.drop_last());
        assert((x + y).last() == y.last());
    }
}

pub proof fn lemma_dedup_ssize(s: Seq<ElemV>)
    ensures
        ssize(crate::element::dedup(s)) <= ssize(s),
    decreases s.len(),
{
    if s.len() > 0 {
        lemma_dedup_ssize(s.drop_last());
        let d = crate::element::dedup(s.drop_last());
        assert(d.push(s.last()).drop_last() =~= d);
    }
}

/// A union is at most two larger than the atoms it is built from.
pub proof fn lemma_union_size(s: Seq<ElemV>)
    ensures
        tsize(union_v(s)) <= ssize(s) + 2,
{
    if s.len() == 0 {
        assert(seq![ElemV::Never].drop_last() =~= Seq::<ElemV>::empty());
        assert(ssize(Seq::<ElemV>::empty()) == 0);
    } else {
        lemma_dedup_ssize(s);
    }
}

pub proof fn lemma_list_elements_size(cs: Seq<ElemV>)
    ensures
        ssize(list_elements(cs)) <= ssize(cs),
    decreases cs.len(),
{
    if cs.len() > 0 {
        lemma_list_elements_size(cs.drop_last());
        let tail = if plain_list(cs.last()) {
            cs.last()->List_element_type.elements
        } else {
            Seq::empty()
        };
        lemma_ssize_concat(list_elements(cs.drop_last()), tail);
        assert(ssize(Seq::<ElemV>::empty()) == 0);
        assert(ssize(cs) == ssize(cs.drop_last()) + esize(cs.last()));
        match cs.last() {
            ElemV::List { element_type, .. } => assert(tsize(element_type) == 1 + ssize(element_type.elements)),
            ElemV::Array { key, value, .. } => {
                if let Some(k) = key {
                    assert(tsize(k) == 1 + ssize(k.elements));
                }
                if let Some(v) = value {
                    assert(tsize(v) == 1 + ssize(v.elements));
                }
            },
            _ => {},
        }
    }
}

pub proof fn lemma_array_keys_size(cs: Seq<ElemV>)
    ensures
        ssize(array_keys(cs)) <= ssize(cs),
    decreases cs.len(),
{
    if cs.len() > 0 {
        lemma_array_keys_size(cs.drop_last());
        let tail = if plain_array(cs.last()) {
            cs.last()->Array_key->0.elements
        } else {
            Seq::empty()
        };
        lemma_ssize_concat(array_keys(cs.drop_last()), tail);
        assert(ssize(Seq::<ElemV>::empty()) == 0);
        assert(ssize(cs) == ssize(cs.drop_last()) + esize(cs.last()));
        match cs.last() {
            ElemV::List { element_type, .. } => assert(tsize(element_type) == 1 + ssize(element_type.elements)),
            ElemV::Array { key, value, .. } => {
                if let Some(k) = key {
                    assert(tsize(k) == 1 + ssize(k.elements));
                }
                if let Some(v) = value {
                    assert(tsize(v) == 1 + ssize(v.elements));
                }
            },
            _ => {},
        }
    }
}

pub proof fn lemma_array_values_size(cs: Seq<ElemV>)
    ensures
        ssize(array_values(cs)) <= ssize(cs),
    decreases cs.len(),
{
    if cs.len() > 0 {
        lemma_array_values_size(cs.drop_last());
        let tail = if plain_array(cs.last()) {
            cs.last()->Array_value->0.elements
        } else {
            Seq::empty()
        };
        lemma_ssize_concat(array_values(cs.drop_last()), tail);
        assert(ssize(Seq::<ElemV>::empty()) == 0);
        assert(ssize(cs) == ssize(cs.drop_last()) + esize(cs.last()));
        match cs.last() {
            ElemV::List { element_type, .. } => assert(tsize(element_type) == 1 + ssize(element_type.elements)),
            ElemV::Array { key, value, .. } => {
                if let Some(k) = key {
                    assert(tsize(k) == 1 + ssize(k.elements));
                }
                if let Some(v) = value {
                    assert(tsize(v) == 1 + ssize(v.elements));
                }
            },
            _ => {},
        }
    }
}

pub proof fn lemma_same_parameter_constraints_size(cs: Seq<ElemV>, name: Seq<char>, entity: crate::element::EntityV)
    ensures
        ssize(same_parameter_constraints(cs, name, entity)) <= ssize(cs),
    decreases cs.len(),
{
    if cs.len() > 0 {
        lemma_same_parameter_constraints_size(cs.drop_last(), name, entity);
        let tail = match cs.last() {
            ElemV::GenericParameter { name: n, entity: d, constraint } => if n == name && d == entity {
                constraint.elements
            } else {
                Seq::empty()
            },
            _ => Seq::empty(),
        };
        lemma_ssize_concat(same_parameter_constraints(cs.drop_last(), name, entity), tail);
        assert(ssize(Seq::<ElemV>::empty()) == 0);
        assert(ssize(cs) == ssize(cs.drop_last()) + esize(cs.last()));
        if let ElemV::GenericParameter { constraint, .. } = cs.last() {
            assert(tsize(constraint) == 1 + ssize(constraint.elements));
        }
    }
}

pub proof fn lemma_represented_smaller(kind: ClassLikeKind, spec: ClsSpecV)
    requires
        represented(spec) is Some,
    ensures
        tsize(represented(spec)->0) < esize(ElemV::ClassLikeString(kind, spec)),
{
    if let ClsSpecV::Literal(n) = spec {
        let obj = ElemV::Object { name: n, args: Seq::<TypeV>::empty() };
        lemma_single_size(obj);
        assert(crate::element::tssize(Seq::<TypeV>::empty()) == 0);
    }
}

// ---------------------------------------------------------------------
// Coverage by several container atoms of one family.
// ---------------------------------------------------------------------
pub open spec fn cover_range(c: ElemV) -> bool {
    c is Int && c->Int_0 != IntInfo::UnspecifiedLiteral
}

/// Some int container (other than `literal-int`) contains `n`.
pub open spec fn some_range_contains(cs: Seq<ElemV>, n: int) -> bool {
    exists|j: int| 0 <= j < cs.len() && cover_range(cs[j]) && #[trigger] int_contains(cs[j]->Int_0, n)
}

/// The int input's values are all inside the union of the int
/// containers. An input whose bounds are crossed (no value) counts as
/// covered when some container contains its lower bound.
pub open spec fn int_union_covers(e: ElemV, cs: Seq<ElemV>) -> bool {
    match e {
        ElemV::Int(info) => {
            let (lo, hi) = int_bounds(info);
            &&& info != IntInfo::UnspecifiedLiteral
            &&& if lo is Some && hi is Some && lo->0 > hi->0 {
                some_range_contains(cs, lo->0 as int)
            } else {
                forall|n: int| bounds_contain(lo, hi, n) ==> #[trigger] some_range_contains(cs, n)
            }
        },
        _ => false,
    }
}

pub open spec fn broad_string_v() -> ElemV {
    ElemV::Str(crate::element::StringInfoV { literal: StrLitV::Absent, casing: StringCasing::Unspecified, flags: no_string_flags() })
}

/// A string atom covering every non-empty string.
pub open spec fn broad_non_empty(c: ElemV) -> bool {
    match c {
        ElemV::Str(i) => {
            &&& (i.literal is Absent || i.literal is Unspecified)
            &&& i.flags.non_empty
            &&& !i.flags.truthy
            &&& !i.flags.numeric
            &&& !i.flags.callable
            &&& i.casing == StringCasing::Unspecified
        },
        _ => false,
    }
}

pub open spec fn is_empty_literal(c: ElemV) -> bool {
    c matches ElemV::Str(i) && i.literal == StrLitV::Value(Seq::<char>::empty())
}

/// The literal `"0"`.
pub open spec fn is_zero_literal(c: ElemV) -> bool {
    c matches ElemV::Str(i) && i.literal == StrLitV::Value(seq!['0'])
}

/// A string atom covering every truthy string.
pub open spec fn broad_truthy(c: ElemV) -> bool {
    match c {
        ElemV::Str(i) => {
            &&& (i.literal is Absent || i.literal is Unspecified)
            &&& i.flags.truthy
            &&& !i.flags.numeric
            &&& !i.flags.callable
            &&& i.casing == StringCasing::Unspecified
        },
        _ => false,
    }
}

/// Broad `string` is covered by the empty literal together with a broad
/// non-empty string, or with the literal `"0"` and a broad truthy string.
pub open spec fn string_union_covers(e: ElemV, cs: Seq<ElemV>) -> bool {
    &&& e == broad_string_v()
    &&& exists|j: int| 0 <= j < cs.len() && is_empty_literal(#[trigger] cs[j])
    &&& ((exists|j: int| 0 <= j < cs.len() && broad_non_empty(#[trigger] cs[j])) || ((exists|j: int|
        0 <= j < cs.len() && is_zero_literal(#[trigger] cs[j])) && (exists|j: int|
        0 <= j < cs.len() && broad_truthy(#[trigger] cs[j]))))
}

/// The members a true-union dominator is the union of: `scalar` of
/// `bool`, `int`, `float` and `string`; `numeric` of `int`, `float` and
/// `numeric-string`; `array-key` of `int` and `string`.
pub open spec fn dominator_members(p: ElemV) -> Option<Seq<ElemV>> {
    let int_atom = ElemV::Int(IntInfo::Unspecified);
    let float = ElemV::Float(crate::element::FloatInfo::Unspecified);
    let numeric_string = ElemV::Str(
        crate::element::StringInfoV {
            literal: StrLitV::Absent,
            casing: StringCasing::Unspecified,
            flags: crate::element::StringFlags { numeric: true, ..no_string_flags() },
        },
    );
    match p {
        ElemV::Scalar => Some(seq![ElemV::Bool, int_atom, float, broad_string_v()]),
        ElemV::Numeric => Some(seq![int_atom, float, numeric_string]),
        ElemV::ArrayKey => Some(seq![int_atom, broad_string_v()]),
        _ => None,
    }
}

/// A true-union dominator is covered by all of its members.
pub open spec fn dominator_union_covers(e: ElemV, cs: Seq<ElemV>) -> bool {
    dominator_members(e) matches Some(ms) && forall|k: int| 0 <= k < ms.len() ==> cs.contains(#[trigger] ms[k])
}

/// Broad `bool` is covered by `true` together with `false`.
pub open spec fn bool_union_covers(e: ElemV, cs: Seq<ElemV>) -> bool {
    e is Bool && cs.contains(ElemV::True) && cs.contains(ElemV::False)
}

pub open spec fn non_null_mixed_atom(c: ElemV) -> bool {
    c matches ElemV::Mixed(m) && m.non_null
}

/// Vanilla `mixed` is covered by `null` together with a non-null `mixed`.
pub open spec fn mixed_union_covers(e: ElemV, cs: Seq<ElemV>) -> bool {
    &&& e == mixed_v()
    &&& cs.contains(ElemV::Null)
    &&& exists|j: int| 0 <= j < cs.len() && non_null_mixed_atom(#[trigger] cs[j])
}

/// The element types of the plain list atoms of `cs`, concatenated in
/// order.
pub open spec fn list_elements(cs: Seq<ElemV>) -> Seq<ElemV>
    decreases cs.len(),
{
    if cs.len() == 0 {
        Seq::empty()
    } else {
        list_elements(cs.drop_last()) + if plain_list(cs.last()) {
            cs.last()->List_element_type.elements
        } else {
            Seq::empty()
        }
    }
}

/// The key types of the plain array atoms of `cs`, concatenated in order.
pub open spec fn array_keys(cs: Seq<ElemV>) -> Seq<ElemV>
    decreases cs.len(),
{
    if cs.len() == 0 {
        Seq::empty()
    } else {
        array_keys(cs.drop_last()) + if plain_array(cs.last()) {
            cs.last()->Array_key->0.elements
        } else {
            Seq::empty()
        }
    }
}

/// The value types of the plain array atoms of `cs`, concatenated in order.
pub open spec fn array_values(cs: Seq<ElemV>) -> Seq<ElemV>
    decreases cs.len(),
{
    if cs.len() == 0 {
        Seq::empty()
    } else {
        array_values(cs.drop_last()) + if plain_array(cs.last()) {
            cs.last()->Array_value->0.elements
        } else {
            Seq::empty()
        }
    }
}

/// The constraints of the atoms of `cs` naming the parameter `name` of
/// `entity`, concatenated in order.
pub open spec fn same_parameter_constraints(cs: Seq<ElemV>, name: Seq<char>, entity: crate::element::EntityV) -> Seq<ElemV>
    decreases cs.len(),
{
    if cs.len() == 0 {
        Seq::empty()
    } else {
        same_parameter_constraints(cs.drop_last(), name, entity) + match cs.last() {
            ElemV::GenericParameter { name: n, entity: d, constraint } => if n == name && d == entity {
                constraint.elements
            } else {
                Seq::empty()
            },
            _ => Seq::empty(),
        }
    }
}

pub open spec fn has_list(cs: Seq<ElemV>) -> bool {
    exists|j: int| 0 <= j < cs.len() && plain_list(#[trigger] cs[j])
}

pub open spec fn has_possibly_empty_list(cs: Seq<ElemV>) -> bool {
    exists|j: int| 0 <= j < cs.len() && plain_list(#[trigger] cs[j]) && !cs[j]->List_non_empty
}

pub open spec fn has_array(cs: Seq<ElemV>) -> bool {
    exists|j: int| 0 <= j < cs.len() && plain_array(#[trigger] cs[j])
}

pub open spec fn has_possibly_empty_array(cs: Seq<ElemV>) -> bool {
    exists|j: int| 0 <= j < cs.len() && plain_array(#[trigger] cs[j]) && !cs[j]->Array_non_empty
}

// ---------------------------------------------------------------------
// The walk.
// ---------------------------------------------------------------------
/// `a <: b`, and the causes recorded along the way.
pub open spec fn refines_spec(a: TypeV, b: TypeV, o: LatticeOptions, c: u8) -> (bool, u8)
    decreases tsize(a) + tsize(b), a.elements.len() + 2,
{
    if a == b && !o.ignore_null && !o.ignore_false {
        (true, c)
    } else {
        all_fit_from(a, b, o, 0, c)
    }
}

/// Every input element from index `i` on (not skipped) fits the container.
pub open spec fn all_fit_from(a: TypeV, b: TypeV, o: LatticeOptions, i: int, c: u8) -> (bool, u8)
    decreases tsize(a) + tsize(b), a.elements.len() + 1 - i,
{
    if i < 0 || i >= a.elements.len() {
        (true, c)
    } else if skipped(o, a.elements[i]) {
        all_fit_from(a, b, o, i + 1, c)
    } else {
        proof {
            lemma_elem_smaller(a, i);
        }
        let (ok, c1) = elem_fits(a.elements[i], b, o, c);
        if !ok {
            (false, c1)
        } else {
            all_fit_from(a, b, o, i + 1, c1)
        }
    }
}

/// The input element fits the container union.
pub open spec fn elem_fits(e: ElemV, b: TypeV, o: LatticeOptions, c: u8) -> (bool, u8)
    decreases esize(e) + tsize(b), b.elements.len() + 5,
{
    let (r1, c1) = some_refines_from(e, b, o, 0, c);
    if r1 {
        (true, c1)
    } else if int_union_covers(e, b.elements) || string_union_covers(e, b.elements) || bool_union_covers(
        e,
        b.elements,
    ) || mixed_union_covers(e, b.elements) || dominator_union_covers(e, b.elements) {
        (true, c1)
    } else {
        let (r2, c2) = list_union_covers(e, b, o, c1);
        if r2 {
            (true, c2)
        } else {
            let (r3, c3) = array_union_covers(e, b, o, c2);
            if r3 {
                (true, c3)
            } else {
                generic_union_covers(e, b, o, c3)
            }
        }
    }
}

/// Some container element from index `j` on accepts `e` on its own.
pub open spec fn some_refines_from(e: ElemV, b: TypeV, o: LatticeOptions, j: int, c: u8) -> (bool, u8)
    decreases esize(e) + tsize(b), b.elements.len() + 3 - j,
{
    if j < 0 || j >= b.elements.len() {
        (false, c)
    } else {
        proof {
            lemma_elem_smaller(b, j);
        }
        let (r, c1) = elem_refines_spec(e, b.elements[j], o, c);
        if r {
            (true, c1)
        } else {
            some_refines_from(e, b, o, j + 1, c1)
        }
    }
}

pub open spec fn list_union_covers(e: ElemV, b: TypeV, o: LatticeOptions, c: u8) -> (bool, u8)
    decreases esize(e) + tsize(b), 0int,
{
    match e {
        ElemV::List { element_type, known, non_empty, .. } => {
            if known.len() != 0 || !has_list(b.elements) {
                (false, c)
            } else if !non_empty && !has_possibly_empty_list(b.elements) {
                (false, c)
            } else {
                proof {
                    lemma_list_elements_size(b.elements);
                    lemma_union_size(list_elements(b.elements));
                }
                refines_spec(element_type, union_v(list_elements(b.elements)), o, c)
            }
        },
        _ => (false, c),
    }
}

pub open spec fn array_union_covers(e: ElemV, b: TypeV, o: LatticeOptions, c: u8) -> (bool, u8)
    decreases esize(e) + tsize(b), 0int,
{
    match e {
        ElemV::Array { key: Some(key), value: Some(value), items, non_empty } => {
            if items.len() != 0 || !has_array(b.elements) {
                (false, c)
            } else if !non_empty && !has_possibly_empty_array(b.elements) {
                (false, c)
            } else {
                proof {
                    lemma_array_keys_size(b.elements);
                    lemma_union_size(array_keys(b.elements));
                    lemma_array_values_size(b.elements);
                    lemma_union_size(array_values(b.elements));
                }
                let (r1, c1) = refines_spec(key, union_v(array_keys(b.elements)), o, c);
                if !r1 {
                    (false, c1)
                } else {
                    refines_spec(value, union_v(array_values(b.elements)), o, c1)
                }
            }
        },
        _ => (false, c),
    }
}

pub open spec fn generic_union_covers(e: ElemV, b: TypeV, o: LatticeOptions, c: u8) -> (bool, u8)
    decreases esize(e) + tsize(b), 0int,
{
    match e {
        ElemV::GenericParameter { name, entity, constraint } => {
            let rhs = same_parameter_constraints(b.elements, name, entity);
            if rhs.len() == 0 {
                (false, c)
            } else {
                proof {
                    lemma_same_parameter_constraints_size(b.elements, name, entity);
                    lemma_union_size(rhs);
                }
                refines_spec(constraint, union_v(rhs), o, c)
            }
        },
        _ => (false, c),
    }
}

/// One element refines another.
pub open spec fn elem_refines_spec(a: ElemV, b: ElemV, o: LatticeOptions, c: u8) -> (bool, u8)
    decreases esize(a) + esize(b), 2int,
{
    proof {
        lemma_esize_pos(a);
        lemma_esize_pos(b);
        lemma_single_size(b);
    }
    if a == b || a is Never || uninhabited(a) || (a is Void && b is Null) || (a is Null && b is Void) || b
        == mixed_v() {
        (true, c)
    } else if a is GenericParameter && !(b is GenericParameter) {
        let constraint = a->GenericParameter_constraint;
        let (r, c1) = refines_spec(constraint, single_v(b), o, c);
        if !r && b != mixed_v() && constraint.elements.contains(mixed_v()) {
            (r, (((c1 & !NESTED_MIXED_BIT) | TRUE_UNION_NARROW_BIT) | FROM_AS_MIXED_BIT))
        } else {
            (r, c1)
        }
    } else {
        let (r, c1) = dispatch_spec(a, b, o, c);
        if r {
            if a is Int && b is Float {
                (true, c1 | PHP_RUNTIME_COERCE_BIT)
            } else {
                (true, c1)
            }
        } else if true_union_kind(a) {
            let c2 = c1 | TRUE_UNION_NARROW_BIT;
            if a is Mixed {
                (false, c2 | NESTED_MIXED_BIT)
            } else if a is ObjectAny {
                (false, c2 | OBJECT_ANY_DOWN_BIT)
            } else {
                (false, c2)
            }
        } else {
            (false, c1)
        }
    }
}

/// The type a class-like-string specifier stands for.
pub open spec fn represented(spec: ClsSpecV) -> Option<TypeV> {
    match spec {
        ClsSpecV::Any => None,
        ClsSpecV::Literal(n) => Some(single_v(ElemV::Object { name: n, args: Seq::empty() })),
        ClsSpecV::OfType(t) => Some(t),
        ClsSpecV::Generic(t) => Some(t),
    }
}

/// The type a class-like-string input stands for.
pub open spec fn input_represented(a: ElemV) -> Option<TypeV> {
    match a {
        ElemV::ClassLikeString(_, spec) => represented(spec),
        ElemV::Str(info) => match info.literal {
            StrLitV::Value(v) => if valid_class_name(v) {
                Some(single_v(ElemV::Object { name: v, args: Seq::empty() }))
            } else {
                None
            },
            _ => None,
        },
        _ => None,
    }
}

pub proof fn lemma_input_represented_smaller(a: ElemV)
    requires
        input_represented(a) is Some,
    ensures
        tsize(input_represented(a)->0) < esize(a),
{
    let obj = |n: Seq<char>| ElemV::Object { name: n, args: Seq::<TypeV>::empty() };
    match a {
        ElemV::ClassLikeString(_, spec) => {
            if let ClsSpecV::Literal(n) = spec {
                let t = single_v(obj(n));
                assert(t.elements.drop_last() =~= Seq::<ElemV>::empty());
                assert(crate::element::ssize(Seq::<ElemV>::empty()) == 0);
                assert(crate::element::tssize(Seq::<TypeV>::empty()) == 0);
                assert(t.elements.last() == obj(n));
                assert(esize(obj(n)) == 1);
                assert(crate::element::ssize(t.elements) == esize(obj(n)));
            }
        },
        ElemV::Str(info) => {
            if let StrLitV::Value(v) = info.literal {
                let t = single_v(obj(v));
                assert(t.elements.drop_last() =~= Seq::<ElemV>::empty());
                assert(crate::element::ssize(Seq::<ElemV>::empty()) == 0);
                assert(crate::element::tssize(Seq::<TypeV>::empty()) == 0);
                assert(t.elements.last() == obj(v));
                assert(esize(obj(v)) == 1);
                assert(crate::element::ssize(t.elements) == esize(obj(v)));
            }
        },
        _ => {},
    }
}

pub open spec fn class_like_string_refines(a: ElemV, kind: ClassLikeKind, spec: ClsSpecV, o: LatticeOptions, c: u8) -> (bool, u8)
    decreases esize(a) + esize(ElemV::ClassLikeString(kind, spec)), 0int,
{
    if spec is Any {
        (matches_kind(a, kind), c)
    } else if !matches_kind(a, kind) {
        (false, c)
    } else {
        match (input_represented(a), represented(spec)) {
            (Some(it), Some(ct)) => {
                proof {
                    lemma_input_represented_smaller(a);
                    lemma_represented_smaller(kind, spec);
                }
                refines_spec(it, ct, o, c)
            },
            _ => (false, c),
        }
    }
}

/// A list container. The empty array fits unless the container must be
/// non-empty. A list fits when it is non-empty wherever the container must
/// be, its element type refines the container's, each of its known entries
/// at an index the container does not declare refines the container's
/// element type, and each entry the container declares is met, index by
/// index, by the input's entry there (a required one by a required entry).
pub open spec fn list_container_refines(a: ElemV, cont: ElemV, o: LatticeOptions, c: u8) -> (bool, u8)
    decreases esize(a) + esize(cont), 0int,
{
    match cont {
        ElemV::List { element_type: cet, known: cknown, non_empty: cne, .. } => if a == empty_array_v() {
            (!cne, c)
        } else {
            match a {
                ElemV::List { element_type, known, non_empty, .. } => if cne && !non_empty {
                    (false, c)
                } else {
                    let (r1, c1) = refines_spec(element_type, cet, o, c);
                    if !r1 {
                        (false, c1)
                    } else {
                        let (r2, c2) = rest_fit_from(known, cknown, cet, o, 0, c1);
                        if !r2 {
                            (false, c2)
                        } else {
                            list_entries_met_from(known, cknown, o, 0, c2)
                        }
                    }
                },
                _ => (false, c),
            }
        },
        _ => (false, c),
    }
}

/// The first entry of `known`, from `i` on, at the list index `idx`.
pub open spec fn first_at_index(known: Seq<KnownElemV>, idx: u32, i: int) -> Option<int>
    decreases known.len() - i,
{
    if i < 0 || i >= known.len() {
        None
    } else if known[i].index == idx {
        Some(i)
    } else {
        first_at_index(known, idx, i + 1)
    }
}

pub proof fn lemma_first_at_index(known: Seq<KnownElemV>, idx: u32, i: int)
    requires
        0 <= i,
    ensures
        first_at_index(known, idx, i) matches Some(j) ==> i <= j < known.len() && known[j].index == idx,
        first_at_index(known, idx, i) is None ==> forall|j: int| i <= j < known.len() ==> known[j].index != idx,
    decreases known.len() - i,
{
    if i < known.len() && known[i].index != idx {
        lemma_first_at_index(known, idx, i + 1);
    }
}

/// Every entry of `known` from `i` on at an index `cknown` does not
/// declare refines `cet`.
pub open spec fn rest_fit_from(
    known: Seq<KnownElemV>,
    cknown: Seq<KnownElemV>,
    cet: TypeV,
    o: LatticeOptions,
    i: int,
    c: u8,
) -> (bool, u8)
    decreases kelems_size(known) + tsize(cet), known.len() - i,
{
    if i < 0 || i >= known.len() {
        (true, c)
    } else if first_at_index(cknown, known[i].index, 0) is Some {
        rest_fit_from(known, cknown, cet, o, i + 1, c)
    } else {
        proof {
            lemma_kelems_size_elem(known, i);
        }
        let (r, c1) = refines_spec(known[i].value, cet, o, c);
        if !r {
            (false, c1)
        } else {
            rest_fit_from(known, cknown, cet, o, i + 1, c1)
        }
    }
}

/// Every entry of the container's list shape from `k` on is met by the
/// input's entry at its index: a required one by a required entry whose
/// value fits, an optional one by no entry or by one whose value fits.
pub open spec fn list_entries_met_from(
    known: Seq<KnownElemV>,
    cknown: Seq<KnownElemV>,
    o: LatticeOptions,
    k: int,
    c: u8,
) -> (bool, u8)
    decreases kelems_size(known) + kelems_size(cknown), cknown.len() - k,
{
    if k < 0 || k >= cknown.len() {
        (true, c)
    } else {
        match first_at_index(known, cknown[k].index, 0) {
            Some(j) => {
                proof {
                    lemma_first_at_index(known, cknown[k].index, 0);
                    lemma_kelems_size_elem(known, j);
                    lemma_kelems_size_elem(cknown, k);
                }
                if !cknown[k].optional && known[j].optional {
                    (false, c)
                } else {
                    let (r, c1) = refines_spec(known[j].value, cknown[k].value, o, c);
                    if !r {
                        (false, c1)
                    } else {
                        list_entries_met_from(known, cknown, o, k + 1, c1)
                    }
                }
            },
            None => if !cknown[k].optional {
                (false, c)
            } else {
                list_entries_met_from(known, cknown, o, k + 1, c)
            },
        }
    }
}

/// The type of a key written in a shape: its literal, or `array-key` for a
/// class constant.
pub open spec fn key_type_v(k: KeyV) -> TypeV {
    match k {
        KeyV::Int(n) => single_v(ElemV::Int(IntInfo::Literal(n))),
        KeyV::Str(s) => single_v(string_literal_v(s)),
        KeyV::Const(..) => single_v(ElemV::ArrayKey),
    }
}

pub open spec fn string_literal_v(s: Seq<char>) -> ElemV {
    ElemV::Str(
        StringInfoV {
            literal: StrLitV::Value(s),
            casing: StringCasing::Unspecified,
            flags: StringFlags { non_empty: false, truthy: false, numeric: false, callable: false },
        },
    )
}

pub proof fn lemma_key_type_size(k: KeyV)
    ensures
        tsize(key_type_v(k)) <= 4,
{
    lemma_single_size(match k {
        KeyV::Int(n) => ElemV::Int(IntInfo::Literal(n)),
        KeyV::Str(s) => string_literal_v(s),
        KeyV::Const(..) => ElemV::ArrayKey,
    });
}

/// Some entry that must be present.
pub open spec fn has_required_item(items: Seq<ItemV>) -> bool {
    exists|j: int| 0 <= j < items.len() && !(#[trigger] items[j]).optional
}

/// The first entry of `items`, from index `i` on, written with key `k`.
pub open spec fn first_with_key(items: Seq<ItemV>, k: KeyV, i: int) -> Option<int>
    decreases items.len() - i,
{
    if i < 0 || i >= items.len() {
        None
    } else if items[i].key == k {
        Some(i)
    } else {
        first_with_key(items, k, i + 1)
    }
}

pub proof fn lemma_first_with_key(items: Seq<ItemV>, k: KeyV, i: int)
    requires
        0 <= i,
    ensures
        first_with_key(items, k, i) matches Some(j) ==> i <= j < items.len() && items[j].key == k,
        first_with_key(items, k, i) is None ==> forall|j: int| i <= j < items.len() ==> items[j].key != k,
    decreases items.len() - i,
{
    if i < items.len() && items[i].key != k {
        lemma_first_with_key(items, k, i + 1);
    }
}

/// An entry of `items` that must be present and whose key `citems` does
/// not declare.
pub open spec fn extra_required_item(items: Seq<ItemV>, citems: Seq<ItemV>) -> bool {
    exists|j: int|
        0 <= j < items.len() && !(#[trigger] items[j]).optional && first_with_key(citems, items[j].key, 0) is None
}

/// Every entry of `items` from index `i` on has a key that fits `ck` and a
/// value that fits `cv`.
pub open spec fn items_fit_from(items: Seq<ItemV>, ck: TypeV, cv: TypeV, o: LatticeOptions, i: int, c: u8) -> (bool, u8)
    decreases items_size(items) + tsize(ck) + tsize(cv), items.len() - i,
{
    if i < 0 || i >= items.len() {
        (true, c)
    } else {
        proof {
            lemma_items_size_elem(items, i);
            lemma_key_type_size(items[i].key);
        }
        let (r1, c1) = refines_spec(key_type_v(items[i].key), ck, o, c);
        if !r1 {
            (false, c1)
        } else {
            let (r2, c2) = refines_spec(items[i].value, cv, o, c1);
            if !r2 {
                (false, c2)
            } else {
                items_fit_from(items, ck, cv, o, i + 1, c2)
            }
        }
    }
}

/// Every entry of the sealed container from index `k` on is met by the
/// input: a required one by a required entry of the input with the same
/// key and a value that fits, an optional one by no entry or by one whose
/// value fits.
pub open spec fn container_items_met_from(items: Seq<ItemV>, citems: Seq<ItemV>, o: LatticeOptions, k: int, c: u8) -> (
    bool,
    u8,
)
    decreases items_size(items) + items_size(citems), citems.len() - k,
{
    if k < 0 || k >= citems.len() {
        (true, c)
    } else {
        match first_with_key(items, citems[k].key, 0) {
            Some(j) => {
                proof {
                    lemma_first_with_key(items, citems[k].key, 0);
                    lemma_items_size_elem(items, j);
                    lemma_items_size_elem(citems, k);
                }
                if !citems[k].optional && items[j].optional {
                    (false, c)
                } else {
                    let (r, c1) = refines_spec(items[j].value, citems[k].value, o, c);
                    if !r {
                        (false, c1)
                    } else {
                        container_items_met_from(items, citems, o, k + 1, c1)
                    }
                }
            },
            None => if !citems[k].optional {
                (false, c)
            } else {
                container_items_met_from(items, citems, o, k + 1, c)
            },
        }
    }
}

/// A keyed-array container. The empty array fits unless it must be
/// non-empty. A keyed array: a sealed container takes a sealed input with
/// no extra required entry whose entries meet its own; an unsealed one
/// takes inputs whose entries and parameters fit its parameters. A list
/// fits an unsealed container whose key admits `int` and whose value admits
/// the list's elements.
pub open spec fn array_container_refines(a: ElemV, cont: ElemV, o: LatticeOptions, c: u8) -> (bool, u8)
    decreases esize(a) + esize(cont), 0int,
{
    match cont {
        ElemV::Array { key: ck, value: cv, items: citems, non_empty: cne } => if a == empty_array_v() {
            (!cne, c)
        } else {
            match a {
                ElemV::Array { key, value, items, non_empty } => if cne && !non_empty && !has_required_item(items) {
                    (false, c)
                } else if ck is None && cv is None {
                    if key is Some || value is Some || extra_required_item(items, citems) {
                        (false, c)
                    } else {
                        container_items_met_from(items, citems, o, 0, c)
                    }
                } else {
                    match (ck, cv) {
                        (Some(ckt), Some(cvt)) => {
                            let (r1, c1) = items_fit_from(items, ckt, cvt, o, 0, c);
                            if !r1 {
                                (false, c1)
                            } else {
                                match (key, value) {
                                    (Some(k), Some(v)) => {
                                        let (r2, c2) = refines_spec(k, ckt, o, c1);
                                        if !r2 {
                                            (false, c2)
                                        } else {
                                            refines_spec(v, cvt, o, c2)
                                        }
                                    },
                                    _ => (true, c1),
                                }
                            }
                        },
                        _ => (false, c),
                    }
                },
                ElemV::List { element_type, non_empty, .. } => match (ck, cv) {
                    (Some(ckt), Some(cvt)) => if cne && !non_empty {
                        (false, c)
                    } else {
                        let (r1, c1) = refines_spec(single_v(int_v()), ckt, o, c);
                        if !r1 {
                            (false, c1)
                        } else {
                            refines_spec(element_type, cvt, o, c1)
                        }
                    },
                    _ => (false, c),
                },
                _ => (false, c),
            }
        },
        _ => (false, c),
    }
}

/// An iterable container. A keyed array without parameters is read as
/// keyed by `array-key`, with values the container admits.
pub open spec fn iterable_container_refines(a: ElemV, ck: TypeV, cv: TypeV, o: LatticeOptions, c: u8) -> (bool, u8)
    decreases esize(a) + esize(ElemV::Iterable { key: ck, value: cv }), 0int,
{
    if a == empty_array_v() {
        (true, c)
    } else {
        match a {
            ElemV::Iterable { key, value } => {
                let (r1, c1) = refines_spec(key, ck, o, c);
                if !r1 {
                    (false, c1)
                } else {
                    refines_spec(value, cv, o, c1)
                }
            },
            ElemV::List { element_type, .. } => {
                let (r1, c1) = refines_spec(single_v(int_v()), ck, o, c);
                if !r1 {
                    (false, c1)
                } else {
                    refines_spec(element_type, cv, o, c1)
                }
            },
            ElemV::Array { key, value, .. } => {
                proof {
                    lemma_single_size(ElemV::ArrayKey);
                }
                let kt = match key {
                    Some(k) => k,
                    None => single_v(ElemV::ArrayKey),
                };
                let (r1, c1) = refines_spec(kt, ck, o, c);
                if !r1 {
                    (false, c1)
                } else {
                    match value {
                        Some(v) => refines_spec(v, cv, o, c1),
                        None => refines_spec(cv, cv, o, c1),
                    }
                }
            },
            _ => (false, c),
        }
    }
}

/// A callable container: a callable string fits any; otherwise the input
/// must be a callable. `callable` takes every callable; a `Closure`
/// signature refines an anonymous or `Closure` signature, an anonymous one
/// only an anonymous one; a known callable only itself.
pub open spec fn callable_container_refines(a: ElemV, cc: CallV, o: LatticeOptions, c: u8) -> (bool, u8)
    decreases esize(a) + esize(ElemV::Callable(cc)), 0int,
{
    if a matches ElemV::Str(info) && info.flags.callable {
        (true, c)
    } else {
        match a {
            ElemV::Callable(ac) => match (ac, cc) {
                (_, CallV::Any) => (true, c),
                (CallV::Any, _) => (false, c),
                (CallV::Sig(si), CallV::Sig(so)) => signature_refines(si, so, o, c),
                (CallV::Closure(si), CallV::Sig(so)) => signature_refines(si, so, o, c),
                (CallV::Closure(si), CallV::Closure(so)) => signature_refines(si, so, o, c),
                (CallV::Alias(x), CallV::Alias(y)) => (x == y, c),
                _ => (false, c),
            },
            _ => (false, c),
        }
    }
}

/// Signatures compare covariantly on the return and thrown types,
/// contravariantly on the parameters, and the input must be pure when the
/// container is.
pub open spec fn signature_refines(si: SigV, so: SigV, o: LatticeOptions, c: u8) -> (bool, u8)
    decreases sigsize(si) + sigsize(so), 5int,
{
    if si == so {
        (true, c)
    } else {
        let (r1, c1) = refines_spec(si.ret, so.ret, o, c);
        if !r1 {
            (false, c1)
        } else if so.is_pure && !si.is_pure {
            (false, c1)
        } else {
            let (r2, c2) = match (si.throws, so.throws) {
                (_, None) => (true, c1),
                (None, Some(_)) => (false, c1),
                (Some(ti), Some(to)) => refines_spec(ti, to, o, c1),
            };
            if !r2 {
                (false, c2)
            } else {
                parameters_refine(si, so, o, c2)
            }
        }
    }
}

/// An unspecified container parameter list takes any; an unspecified
/// input list fits no specified one. The input may not require more
/// arguments, must be variadic when the container is, and otherwise has at
/// least as many parameters.
pub open spec fn parameters_refine(si: SigV, so: SigV, o: LatticeOptions, c: u8) -> (bool, u8)
    decreases sigsize(si) + sigsize(so), 4int,
{
    match so.params {
        None => (true, c),
        Some(outs) => match si.params {
            None => (false, c),
            Some(ins) => if required_from(ins, 0) > required_from(outs, 0) {
                (false, c)
            } else if so.is_variadic && !si.is_variadic {
                (false, c)
            } else if !si.is_variadic && ins.len() < outs.len() {
                (false, c)
            } else {
                params_refine_from(ins, outs, si.is_variadic, 0, o, c)
            },
        },
    }
}

/// Each container parameter from `idx` on refines the input parameter at
/// its position, or the input's last one when that is variadic.
pub open spec fn params_refine_from(
    ins: Seq<ParamV>,
    outs: Seq<ParamV>,
    in_variadic: bool,
    idx: int,
    o: LatticeOptions,
    c: u8,
) -> (bool, u8)
    decreases pssize(ins) + pssize(outs), outs.len() + 1 - idx,
{
    if idx < 0 || idx >= outs.len() {
        (true, c)
    } else if idx >= ins.len() && !(in_variadic && ins.len() > 0) {
        (false, c)
    } else {
        let k = if idx < ins.len() {
            idx
        } else {
            ins.len() - 1
        };
        proof {
            lemma_pssize_elem(ins, k);
            lemma_pssize_elem(outs, idx);
        }
        let (r, c1) = refines_spec(outs[idx].ty, ins[k].ty, o, c);
        if !r {
            (false, c1)
        } else {
            params_refine_from(ins, outs, in_variadic, idx + 1, o, c1)
        }
    }
}

/// Dispatch on the container's family.
pub open spec fn dispatch_spec(a: ElemV, b: ElemV, o: LatticeOptions, c: u8) -> (bool, u8)
    decreases esize(a) + esize(b), 1int,
{
    match b {
        ElemV::Bool => (bool_refines(a), c),
        ElemV::Resource(_) => (resource_refines(a, b), c),
        ElemV::Int(_) => (int_refines(a, b), c),
        ElemV::Float(_) => (float_refines(a, b), c),
        ElemV::Str(_) => (string_refines(a, b), c),
        ElemV::ClassLikeString(kind, spec) => class_like_string_refines(a, kind, spec, o, c),
        ElemV::ArrayKey => (array_key_refines(a), c),
        ElemV::Numeric => (numeric_refines(a), c),
        ElemV::Scalar => (scalar_refines(a), c),
        ElemV::ObjectAny => (is_object_family(a), c),
        ElemV::Enum { .. } => (enum_refines(a, b), c),
        ElemV::List { .. } => list_container_refines(a, b, o, c),
        ElemV::Array { .. } => array_container_refines(a, b, o, c),
        ElemV::Iterable { key, value } => iterable_container_refines(a, key, value, o, c),
        ElemV::Mixed(_) => (mixed_refines(a, b), c),
        ElemV::GenericParameter { .. } => (same_parameter(a, b), c),
        ElemV::Callable(cc) => callable_container_refines(a, cc, o, c),
        ElemV::HasMethod(m) => (has_method_refines(a, m), c),
        ElemV::HasProperty(p) => (has_property_refines(a, p), c),
        ElemV::ObjectShape { .. } => object_shape_refines(a, b, o, c),
        ElemV::Variable(_) | ElemV::Reference { .. } | ElemV::MemberReference { .. } | ElemV::GlobalReference(_)
        | ElemV::Alias { .. } | ElemV::Conditional { .. } | ElemV::Derived(_) => (reference_refines(a, b), c),
        _ => (false, c),
    }
}

// ---------------------------------------------------------------------
// Overlap: some value inhabits both sides.
// ---------------------------------------------------------------------
/// `a ∩ b ≠ ∅`, and the causes recorded along the way.
pub open spec fn overlaps_spec(a: TypeV, b: TypeV, o: LatticeOptions, c: u8) -> (bool, u8)
    decreases tsize(a) + tsize(b), a.elements.len() + 3,
{
    overlaps_from(a, b, o, 0, c)
}

/// Some input atom from index `i` on overlaps the other side.
pub open spec fn overlaps_from(a: TypeV, b: TypeV, o: LatticeOptions, i: int, c: u8) -> (bool, u8)
    decreases tsize(a) + tsize(b), a.elements.len() + 2 - i,
{
    if i < 0 || i >= a.elements.len() {
        (false, c)
    } else {
        proof {
            lemma_elem_smaller(a, i);
        }
        let (r, c1) = atom_overlaps_from(a.elements[i], b, o, 0, c);
        if r {
            (true, c1)
        } else {
            overlaps_from(a, b, o, i + 1, c1)
        }
    }
}

/// The atom `x` overlaps some atom of `b` from index `j` on.
pub open spec fn atom_overlaps_from(x: ElemV, b: TypeV, o: LatticeOptions, j: int, c: u8) -> (bool, u8)
    decreases esize(x) + tsize(b), b.elements.len() + 2 - j,
{
    if j < 0 || j >= b.elements.len() {
        (false, c)
    } else {
        proof {
            lemma_elem_smaller(b, j);
        }
        let (r, c1) = elem_overlaps_spec(x, b.elements[j], o, c);
        if r {
            (true, c1)
        } else {
            atom_overlaps_from(x, b, o, j + 1, c1)
        }
    }
}

/// Two atoms share a value.
pub open spec fn elem_overlaps_spec(a: ElemV, b: ElemV, o: LatticeOptions, c: u8) -> (bool, u8)
    decreases esize(a) + esize(b), 3int,
{
    proof {
        lemma_esize_pos(a);
        lemma_esize_pos(b);
    }
    if a is Never || b is Never {
        (false, c)
    } else if uninhabited(a) || uninhabited(b) {
        (false, c)
    } else if a == b {
        (true, c)
    } else if a == mixed_v() || b == mixed_v() || a is Placeholder || b is Placeholder {
        (true, c)
    } else if a is GenericParameter && b is GenericParameter {
        if a->GenericParameter_name != b->GenericParameter_name || a->GenericParameter_entity
            != b->GenericParameter_entity {
            (false, c)
        } else {
            overlaps_spec(a->GenericParameter_constraint, b->GenericParameter_constraint, o, c)
        }
    } else if a is GenericParameter {
        overlaps_spec(a->GenericParameter_constraint, single_v(b), o, c)
    } else if b is GenericParameter {
        overlaps_spec(b->GenericParameter_constraint, single_v(a), o, c)
    } else if a is Object && b is Object {
        // Without a codebase any two named objects may share a value;
        // `object_overlap` answers with one.
        (true, c)
    } else if a is Str && b is Str {
        (string_meet_v(a->Str_0, b->Str_0) is Some, c)
    } else if a is List && b is List {
        lists_overlap(a, b, o, c)
    } else if a is Array && b is Array {
        arrays_overlap(a, b, o, c)
    } else if a is List && b is Array {
        list_array_overlap(a, b, o, c)
    } else if a is Array && b is List {
        list_array_overlap(b, a, o, c)
    } else if a is Callable && b is Callable {
        (callables_overlap(a->Callable_0, b->Callable_0), c)
    } else if a is Iterable && b is Iterable {
        (true, c)
    } else if a is Iterable && b is Array {
        iterable_array_overlap(a, b, o, c)
    } else if a is Array && b is Iterable {
        iterable_array_overlap(b, a, o, c)
    } else if a is Iterable && b is List {
        iterable_list_overlap(a, b, o, c)
    } else if a is List && b is Iterable {
        iterable_list_overlap(b, a, o, c)
    } else if is_structural(a) && is_structural(b) && !(a is ObjectShape && b is ObjectShape) {
        (true, c)
    } else if (a is Object && is_structural(b)) || (is_structural(a) && b is Object) {
        (true, c)
    } else {
        let (r1, c1) = elem_refines_spec(a, b, o, c);
        if r1 {
            (true, c1)
        } else {
            let (r2, c2) = elem_refines_spec(b, a, o, c1);
            if r2 {
                (true, c2)
            } else {
                (family_overlap(a, b), c2)
            }
        }
    }
}

/// Two lists share the empty list unless one must be non-empty; otherwise
/// their element types must overlap.
pub open spec fn lists_overlap(a: ElemV, b: ElemV, o: LatticeOptions, c: u8) -> (bool, u8)
    decreases esize(a) + esize(b), 2int,
{
    match (a, b) {
        (ElemV::List { element_type: ea, non_empty: na, .. }, ElemV::List { element_type: eb, non_empty: nb, .. }) => {
            if !na && !nb {
                (true, c)
            } else {
                overlaps_spec(ea, eb, o, c)
            }
        },
        _ => (false, c),
    }
}

/// Two keyed arrays share the empty array unless one must be non-empty;
/// otherwise, when both have parameters, keys and values must overlap.
pub open spec fn arrays_overlap(a: ElemV, b: ElemV, o: LatticeOptions, c: u8) -> (bool, u8)
    decreases esize(a) + esize(b), 2int,
{
    match (a, b) {
        (ElemV::Array { key: ka, value: va, non_empty: na, .. }, ElemV::Array { key: kb, value: vb, non_empty: nb, .. }) => {
            if !na && !nb {
                (true, c)
            } else {
                match (ka, kb, va, vb) {
                    (Some(ak), Some(bk), Some(av), Some(bv)) => {
                        let (r1, c1) = overlaps_spec(ak, bk, o, c);
                        if !r1 {
                            (false, c1)
                        } else {
                            overlaps_spec(av, bv, o, c1)
                        }
                    },
                    _ => (true, c),
                }
            }
        },
        _ => (false, c),
    }
}

/// A list and an array share the empty array unless one side is
/// non-empty; otherwise the array must take `int` keys and the element
/// types must overlap.
pub open spec fn list_array_overlap(l: ElemV, ar: ElemV, o: LatticeOptions, c: u8) -> (bool, u8)
    decreases esize(l) + esize(ar), 2int,
{
    match (l, ar) {
        (ElemV::List { element_type, non_empty: lne, .. }, ElemV::Array { key, value, non_empty: ane, .. }) => {
            proof {
                lemma_single_size(mixed_v());
            }
            let vt = match value {
                Some(v) => v,
                None => single_v(mixed_v()),
            };
            if !lne && !ane {
                (true, c)
            } else {
                match key {
                    Some(k) => {
                        let (r1, c1) = refines_spec(single_v(int_v()), k, o, c);
                        if !r1 {
                            (false, c1)
                        } else {
                            overlaps_spec(element_type, vt, o, c1)
                        }
                    },
                    None => overlaps_spec(element_type, vt, o, c),
                }
            }
        },
        _ => (false, c),
    }
}

/// An iterable and an array share the empty array unless the array is
/// non-empty; otherwise keys and values must overlap.
pub open spec fn iterable_array_overlap(it: ElemV, ar: ElemV, o: LatticeOptions, c: u8) -> (bool, u8)
    decreases esize(it) + esize(ar), 2int,
{
    match (it, ar) {
        (ElemV::Iterable { key: ik, value: iv }, ElemV::Array { key, value, non_empty, .. }) => {
            proof {
                lemma_single_size(mixed_v());
                lemma_single_size(ElemV::ArrayKey);
            }
            let kt = match key {
                Some(k) => k,
                None => single_v(ElemV::ArrayKey),
            };
            let vt = match value {
                Some(v) => v,
                None => single_v(mixed_v()),
            };
            if !non_empty {
                (true, c)
            } else {
                let (r1, c1) = overlaps_spec(ik, kt, o, c);
                if !r1 {
                    (false, c1)
                } else {
                    overlaps_spec(iv, vt, o, c1)
                }
            }
        },
        _ => (false, c),
    }
}

/// An iterable and a list overlap when the iterable takes `int` keys and,
/// for a non-empty list, the values overlap.
pub open spec fn iterable_list_overlap(it: ElemV, l: ElemV, o: LatticeOptions, c: u8) -> (bool, u8)
    decreases esize(it) + esize(l), 2int,
{
    match (it, l) {
        (ElemV::Iterable { key: ik, value: iv }, ElemV::List { element_type, non_empty, .. }) => {
            let (r1, c1) = refines_spec(single_v(int_v()), ik, o, c);
            if !r1 {
                (false, c1)
            } else if !non_empty {
                (true, c1)
            } else {
                overlaps_spec(iv, element_type, o, c1)
            }
        },
        _ => (false, c),
    }
}

} // verus!
