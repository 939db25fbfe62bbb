//! Refinement (subtype) relation: `refines(a, b)` is `true` iff every value
//! of type `a` is also a value of type `b` (`a <: b`).
//!
//! Every input atom (less those the options skip) must fit the container:
//! some container atom accepts it on its own, or the container atoms of its
//! family jointly cover it. A single pair of atoms is decided by the
//! universal axioms (reflexivity, `never`, uninhabited atoms, `mixed`),
//! generic-parameter projection, and then the container's family.
use vstd::prelude::*;

use crate::element::{
    Element, Truthiness, Type, esize, lemma_elem_smaller, tsize,
};
use crate::lattice::covers::{bool_covers, int_covers, mixed_covers, string_covers};
use crate::lattice::family;
use crate::lattice::options::LatticeOptions;
use crate::lattice::overlaps::is_uninhabited;
use crate::lattice::refines_spec::{
    all_fit_from, array_keys, array_values, dispatch_spec, elem_fits, elem_refines_spec, lemma_array_keys_size,
    lemma_array_values_size, lemma_esize_pos, lemma_list_elements_size, lemma_same_parameter_constraints_size,
    lemma_single_size, lemma_union_size, list_elements, mixed_v, refines_spec, same_parameter_constraints, single_v,
    skipped, some_refines_from, true_union_kind, union_v, plain_array, plain_list,
};
use crate::lattice::report::{
    FROM_AS_MIXED_BIT, LatticeReport, NESTED_MIXED_BIT, OBJECT_ANY_DOWN_BIT, PHP_RUNTIME_COERCE_BIT,
    TRUE_UNION_NARROW_BIT,
};

use crate::lattice::hierarchy::{refines_spec_in, walk_in};
use crate::world::World;

verus! {

broadcast use vstd::std_specs::vec::group_vec_axioms;

/// The report is left alone but for its causes.
pub open spec fn only_causes_changed(before: LatticeReport, after: LatticeReport) -> bool {
    &&& after.replacement == before.replacement
    &&& after.replacement_element == before.replacement_element
    &&& after.bounds == before.bounds
}

/// `true` iff `input <: container`: every runtime value of `input` is also
/// a value of `container`, with the class hierarchy of `world`. The causes
/// of any coercion observed on the way are added to `report`.
pub fn refines<W: World>(input: &Type, container: &Type, world: &W, options: LatticeOptions, report: &mut LatticeReport) -> (r:
    bool)
    ensures
        (r, final(report).causes.bits) == refines_spec_in(*world, input@, container@, options, old(report).causes.bits),
        only_causes_changed(*old(report), *final(report)),
{
    let (r, c) = walk_in(input, container, world, options, report.causes.bits);
    report.causes.bits = c;
    r
}

/// `true` iff `a :> b`: every value of `b` is also a value of `a`.
pub fn generalizes<W: World>(a: &Type, b: &Type, world: &W, options: LatticeOptions, report: &mut LatticeReport) -> (r:
    bool)
    ensures
        (r, final(report).causes.bits) == refines_spec_in(*world, b@, a@, options, old(report).causes.bits),
        only_causes_changed(*old(report), *final(report)),
{
    refines(b, a, world, options, report)
}

/// The element is the vanilla top type.
pub fn is_vanilla_mixed(e: &Element) -> (r: bool)
    ensures
        r == (e@ == mixed_v()),
{
    match e {
        Element::Mixed(m) => !m.non_null && m.truthiness == Truthiness::Undetermined && !m.empty
            && !m.isset_from_loop,
        _ => false,
    }
}

/// Some atom of `t` is the vanilla top type.
pub fn contains_vanilla_mixed(t: &Type) -> (r: bool)
    ensures
        r == t@.elements.contains(mixed_v()),
{
    let ghost s = t@.elements;
    let mut i: usize = 0;
    while i < t.elements.len()
        invariant
            s == t@.elements,
            s.len() == t.elements.len(),
            i <= s.len(),
            forall|k: int| 0 <= k < i ==> s[k] != mixed_v(),
        decreases t.elements.len() - i,
    {
        assert(s[i as int] == t.elements@[i as int]@);
        if is_vanilla_mixed(&t.elements[i]) {
            assert(s[i as int] == mixed_v());
            return true;
        }
        i += 1;
    }
    proof {
        if s.contains(mixed_v()) {
            let k = choose|k: int| 0 <= k < s.len() && s[k] == mixed_v();
            assert(s[k] == mixed_v());
        }
    }
    false
}

/// Append copies of the atoms of `t` to `out`.
pub fn append_elements(out: &mut Vec<Element>, t: &Type)
    ensures
        final(out)@.map_values(|e: Element| e@) == old(out)@.map_values(|e: Element| e@) + t@.elements,
{
    let ghost start = old(out)@.map_values(|e: Element| e@);
    let mut k: usize = 0;
    while k < t.elements.len()
        invariant
            k <= t.elements.len(),
            t@.elements.len() == t.elements.len(),
            out@.map_values(|e: Element| e@) == start + t@.elements.take(k as int),
        decreases t.elements.len() - k,
    {
        let ghost before = out@.map_values(|e: Element| e@);
        out.push(t.elements[k].copy());
        assert(t@.elements[k as int] == t.elements@[k as int]@);
        assert(t@.elements.take(k + 1) =~= t@.elements.take(k as int).push(t@.elements[k as int]));
        assert(out@.map_values(|e: Element| e@) =~= before.push(t@.elements[k as int]));
        k += 1;
    }
    assert(t@.elements.take(t.elements.len() as int) =~= t@.elements);
}

/// The options drop this input atom.
pub(crate) fn is_skipped(o: LatticeOptions, e: &Element) -> (r: bool)
    ensures
        r == skipped(o, e@),
{
    (o.ignore_null && matches!(e, Element::Null)) || (o.ignore_false && matches!(e, Element::False))
}

/// The walk behind [`refines`], on the causes bits alone.
pub fn walk(input: &Type, container: &Type, o: LatticeOptions, c: u8) -> (r: (bool, u8))
    ensures
        r == refines_spec(input@, container@, o, c),
    decreases tsize(input@) + tsize(container@), input@.elements.len() + 2,
{
    if !o.ignore_null && !o.ignore_false && input.same(container) {
        return (true, c);
    }
    let ghost a = input@;
    let ghost b = container@;
    assert(refines_spec(a, b, o, c) == all_fit_from(a, b, o, 0, c));
    let mut cur = c;
    let mut i: usize = 0;
    while i < input.elements.len()
        invariant
            a == input@,
            b == container@,
            a.elements.len() == input.elements.len(),
            i <= a.elements.len(),
            refines_spec(a, b, o, c) == all_fit_from(a, b, o, i as int, cur),
        decreases input.elements.len() - i,
    {
        let e = &input.elements[i];
        assert(a.elements[i as int] == e@);
        let skip = is_skipped(o, e);
        if !skip {
            proof {
                lemma_elem_smaller(a, i as int);
            }
            let (ok, c1) = fits(e, container, o, cur);
            if !ok {
                assert(all_fit_from(a, b, o, i as int, cur) == (false, c1));
                return (false, c1);
            }
            cur = c1;
        }
        i += 1;
    }
    (true, cur)
}

/// The input atom fits the container: one container atom accepts it, or
/// the container atoms of its family jointly cover it.
pub(crate) fn fits(e: &Element, container: &Type, o: LatticeOptions, c: u8) -> (r: (bool, u8))
    ensures
        r == elem_fits(e@, container@, o, c),
    decreases esize(e@) + tsize(container@), container@.elements.len() + 5,
{
    let ghost b = container@;
    let mut cur = c;
    let mut j: usize = 0;
    while j < container.elements.len()
        invariant
            b == container@,
            b.elements.len() == container.elements.len(),
            j <= b.elements.len(),
            some_refines_from(e@, b, o, 0, c) == some_refines_from(e@, b, o, j as int, cur),
        decreases container.elements.len() - j,
    {
        assert(b.elements[j as int] == container.elements@[j as int]@);
        proof {
            lemma_elem_smaller(b, j as int);
        }
        let (r, c1) = element_refines(e, &container.elements[j], o, cur);
        if r {
            return (true, c1);
        }
        cur = c1;
        j += 1;
    }
    if int_covers(e, container) || string_covers(e, container) || bool_covers(e, container) || mixed_covers(
        e,
        container,
    ) || crate::lattice::covers::dominator_covers(e, container) {
        return (true, cur);
    }
    let (r2, c2) = list_union_covers(e, container, o, cur);
    if r2 {
        return (true, c2);
    }
    let (r3, c3) = array_union_covers(e, container, o, c2);
    if r3 {
        return (true, c3);
    }
    generic_parameter_union_covers(e, container, o, c3)
}

/// A `list<E>` input covered by the union of the container's lists: the
/// empty list needs a possibly-empty container, and `E` must refine the
/// union of their element types.
fn list_union_covers(e: &Element, container: &Type, o: LatticeOptions, c: u8) -> (r: (bool, u8))
    ensures
        r == crate::lattice::refines_spec::list_union_covers(e@, container@, o, c),
    decreases esize(e@) + tsize(container@), 0int,
{
    let l = match e {
        Element::List(l) => l,
        _ => {
            return (false, c);
        },
    };
    if l.known_elements.len() != 0 {
        return (false, c);
    }
    let ghost cs = container@.elements;
    let mut elems: Vec<Element> = Vec::new();
    let mut has_list = false;
    let mut covers_empty = false;
    let mut j: usize = 0;
    while j < container.elements.len()
        invariant
            cs == container@.elements,
            cs.len() == container.elements.len(),
            j <= cs.len(),
            elems@.map_values(|x: Element| x@) == list_elements(cs.take(j as int)),
            has_list == exists|k: int| 0 <= k < j && plain_list(#[trigger] cs[k]),
            covers_empty == exists|k: int| 0 <= k < j && plain_list(#[trigger] cs[k]) && !cs[k]->List_non_empty,
        decreases container.elements.len() - j,
    {
        assert(cs[j as int] == container.elements@[j as int]@);
        assert(cs.take(j + 1).drop_last() =~= cs.take(j as int));
        assert(cs.take(j + 1).last() == cs[j as int]);
        if let Element::List(cl) = &container.elements[j] {
            if cl.known_elements.len() == 0 {
                has_list = true;
                if !cl.non_empty {
                    covers_empty = true;
                }
                append_elements(&mut elems, &cl.element_type);
            }
        }
        j += 1;
    }
    assert(cs.take(cs.len() as int) =~= cs);
    if !has_list {
        return (false, c);
    }
    if !l.non_empty && !covers_empty {
        return (false, c);
    }
    let u = Type::union(elems);
    assert(u@ == union_v(list_elements(cs)));
    proof {
        lemma_list_elements_size(cs);
        lemma_union_size(list_elements(cs));
    }
    walk(&l.element_type, &u, o, c)
}

/// An `array<K, V>` input covered by the union of the container's arrays:
/// `K` and `V` must refine the unions of their key and value types.
fn array_union_covers(e: &Element, container: &Type, o: LatticeOptions, c: u8) -> (r: (bool, u8))
    ensures
        r == crate::lattice::refines_spec::array_union_covers(e@, container@, o, c),
    decreases esize(e@) + tsize(container@), 0int,
{
    let (a, ak, av) = match e {
        Element::Array(a) => match (&a.key_param, &a.value_param) {
            (Some(k), Some(v)) => (a, k, v),
            _ => {
                return (false, c);
            },
        },
        _ => {
            return (false, c);
        },
    };
    if a.known_items.len() != 0 {
        return (false, c);
    }
    let ghost cs = container@.elements;
    let mut keys: Vec<Element> = Vec::new();
    let mut values: Vec<Element> = Vec::new();
    let mut has_array = false;
    let mut covers_empty = false;
    let mut j: usize = 0;
    while j < container.elements.len()
        invariant
            cs == container@.elements,
            cs.len() == container.elements.len(),
            j <= cs.len(),
            keys@.map_values(|x: Element| x@) == array_keys(cs.take(j as int)),
            values@.map_values(|x: Element| x@) == array_values(cs.take(j as int)),
            has_array == exists|k: int| 0 <= k < j && plain_array(#[trigger] cs[k]),
            covers_empty == exists|k: int| 0 <= k < j && plain_array(#[trigger] cs[k]) && !cs[k]->Array_non_empty,
        decreases container.elements.len() - j,
    {
        assert(cs[j as int] == container.elements@[j as int]@);
        assert(cs.take(j + 1).drop_last() =~= cs.take(j as int));
        assert(cs.take(j + 1).last() == cs[j as int]);
        if let Element::Array(ca) = &container.elements[j] {
            if let (Some(ck), Some(cv)) = (&ca.key_param, &ca.value_param) {
                if ca.known_items.len() == 0 {
                    has_array = true;
                    if !ca.non_empty {
                        covers_empty = true;
                    }
                    append_elements(&mut keys, ck);
                    append_elements(&mut values, cv);
                }
            }
        }
        j += 1;
    }
    assert(cs.take(cs.len() as int) =~= cs);
    if !has_array {
        return (false, c);
    }
    if !a.non_empty && !covers_empty {
        return (false, c);
    }
    let key_union = Type::union(keys);
    let value_union = Type::union(values);
    assert(key_union@ == union_v(array_keys(cs)));
    assert(value_union@ == union_v(array_values(cs)));
    proof {
        lemma_array_keys_size(cs);
        lemma_union_size(array_keys(cs));
        lemma_array_values_size(cs);
        lemma_union_size(array_values(cs));
    }
    let (r1, c1) = walk(ak, &key_union, o, c);
    if !r1 {
        return (false, c1);
    }
    walk(av, &value_union, o, c1)
}

/// A generic-parameter input `T of X` covered by the container atoms that
/// name the same parameter: `X` must refine the union of their constraints.
fn generic_parameter_union_covers(e: &Element, container: &Type, o: LatticeOptions, c: u8) -> (r: (bool, u8))
    ensures
        r == crate::lattice::refines_spec::generic_union_covers(e@, container@, o, c),
    decreases esize(e@) + tsize(container@), 0int,
{
    let g = match e {
        Element::GenericParameter(g) => g,
        _ => {
            return (false, c);
        },
    };
    let ghost cs = container@.elements;
    let ghost name = g.name@;
    let ghost entity = crate::element::entity_view(g.defining_entity);
    let mut rhs: Vec<Element> = Vec::new();
    let mut j: usize = 0;
    while j < container.elements.len()
        invariant
            cs == container@.elements,
            cs.len() == container.elements.len(),
            j <= cs.len(),
            name == g.name@,
            entity == crate::element::entity_view(g.defining_entity),
            rhs@.map_values(|x: Element| x@) == same_parameter_constraints(cs.take(j as int), name, entity),
        decreases container.elements.len() - j,
    {
        assert(cs[j as int] == container.elements@[j as int]@);
        assert(cs.take(j + 1).drop_last() =~= cs.take(j as int));
        assert(cs.take(j + 1).last() == cs[j as int]);
        if let Element::GenericParameter(cg) = &container.elements[j] {
            if crate::element::chars_eq(&cg.name, &g.name) && cg.defining_entity.same(&g.defining_entity) {
                append_elements(&mut rhs, &cg.constraint);
            } else {
                assert(rhs@.map_values(|x: Element| x@) =~= same_parameter_constraints(
                    cs.take(j + 1),
                    name,
                    entity,
                ));
            }
        }
        j += 1;
    }
    assert(cs.take(cs.len() as int) =~= cs);
    if rhs.len() == 0 {
        assert(same_parameter_constraints(cs, name, entity).len() == 0);
        return (false, c);
    }
    let combined = Type::union(rhs);
    assert(combined@ == union_v(same_parameter_constraints(cs, name, entity)));
    proof {
        lemma_same_parameter_constraints_size(cs, name, entity);
        lemma_union_size(same_parameter_constraints(cs, name, entity));
    }
    walk(&g.constraint, &combined, o, c)
}

/// Kinds whose values span several disjoint sub-families.
pub fn is_true_union_kind(e: &Element) -> (r: bool)
    ensures
        r == true_union_kind(e@),
{
    matches!(
        e,
        Element::Mixed(_) | Element::ArrayKey | Element::Bool | Element::ObjectAny | Element::Scalar
            | Element::Numeric
    )
}

/// Decide whether one atom refines another. A rejected atom of a
/// true-union kind records the narrowing among the causes.
pub fn element_refines(input: &Element, container: &Element, o: LatticeOptions, c: u8) -> (r: (bool, u8))
    ensures
        r == elem_refines_spec(input@, container@, o, c),
    decreases esize(input@) + esize(container@), 6int,
{
    proof {
        lemma_esize_pos(input@);
        lemma_esize_pos(container@);
        lemma_single_size(container@);
    }
    if input.same(container) || matches!(input, Element::Never) || is_uninhabited(input) || (matches!(
        input,
        Element::Void,
    ) && matches!(container, Element::Null)) || (matches!(input, Element::Null) && matches!(
        container,
        Element::Void,
    )) || is_vanilla_mixed(container) {
        return (true, c);
    }
    if let Element::GenericParameter(g) = input {
        if !matches!(container, Element::GenericParameter(_)) {
            let target = Type::single(container.copy());
            assert(target@ == single_v(container@));
            let (r, c1) = walk(&g.constraint, &target, o, c);
            if !r && !is_vanilla_mixed(container) && contains_vanilla_mixed(&g.constraint) {
                return (r, ((c1 & !NESTED_MIXED_BIT) | TRUE_UNION_NARROW_BIT) | FROM_AS_MIXED_BIT);
            }
            return (r, c1);
        }
    }
    let (r, c1) = dispatch_refines(input, container, o, c);
    if r {
        if matches!(input, Element::Int(_)) && matches!(container, Element::Float(_)) {
            (true, c1 | PHP_RUNTIME_COERCE_BIT)
        } else {
            (true, c1)
        }
    } else if is_true_union_kind(input) {
        let c2 = c1 | TRUE_UNION_NARROW_BIT;
        match input {
            Element::Mixed(_) => (false, c2 | NESTED_MIXED_BIT),
            Element::ObjectAny => (false, c2 | OBJECT_ANY_DOWN_BIT),
            _ => (false, c2),
        }
    } else {
        (false, c1)
    }
}

/// Dispatch on the container's family.
#[verifier::rlimit(40)]
#[verifier::spinoff_prover]
fn dispatch_refines(input: &Element, container: &Element, o: LatticeOptions, c: u8) -> (r: (bool, u8))
    ensures
        r == dispatch_spec(input@, container@, o, c),
    decreases esize(input@) + esize(container@), 5int,
{
    match container {
        Element::Bool => (family::bool::refines(input, container), c),
        Element::Resource(_) => (family::resource::refines(input, container), c),
        Element::Int(_) => (family::integer::refines(input, container), c),
        Element::Float(_) => (family::float::refines(input, container), c),
        Element::String(_) => (family::string::refines(input, container), c),
        Element::ClassLikeString(_) => family::class_like_string::refines(input, container, o, c),
        Element::ArrayKey => (family::array_key::refines(input, container), c),
        Element::Numeric => (family::numeric::refines(input, container), c),
        Element::Scalar => (family::scalar::refines(input, container), c),
        Element::ObjectAny => (family::object::refines_object_any(input, container), c),
        Element::Enum(_) => (family::object::refines_enum(input, container), c),
        Element::HasMethod(m) => (family::object::refines_has_method(input, m), c),
        Element::HasProperty(p) => (family::object::refines_has_property(input, p), c),
        Element::ObjectShape(_) => family::object::refines_object_shape(input, container, o, c),
        Element::List(_) | Element::Array(_) => family::array::refines(input, container, o, c),
        Element::Iterable(_) => family::iterable::refines(input, container, o, c),
        Element::Mixed(_) => (family::mixed::refines(input, container), c),
        Element::GenericParameter(_) => (family::generic::refines(input, container), c),
        Element::Callable(_) => family::callable::refines(input, container, o, c),
        Element::Variable(_) | Element::Reference(_) | Element::MemberReference { .. } | Element::GlobalReference(_)
        | Element::Alias { .. } | Element::Conditional(_) | Element::Derived(_) => (
            family::reference::refines(input, container),
            c,
        ),
        _ => (false, c),
    }
}

} // verus!
