//! Object family: `object` accepts every object-family atom; an enum
//! accepts its cases. Named classes refine each other only by identity:
//! the library carries no class hierarchy, so what a class declares is
//! not known here.
//!
//! Structural narrowings: `HasMethod(m)` accepts `HasMethod(m)` and any
//! object shape; `HasProperty(p)` accepts `HasProperty(p)`, any object
//! shape, and enums when `p` is `name`, which every case has. An object
//! shape accepts shapes that meet each of its properties (a required one by
//! a required property whose value refines) and, when it is sealed, are
//! sealed and carry no property it does not declare; a named object fits a
//! shape all of whose properties are optional.
use vstd::prelude::*;

use crate::element::{
    ElemV, Element, KnownPropertyEntry, PropV, chars_eq, esize, lemma_props_size_elem, prop_view, props_size,
    props_view,
};
use crate::lattice::options::LatticeOptions;
use crate::lattice::refines::walk;
use crate::lattice::refines_spec::refines_spec;

verus! {

pub open spec fn is_object_family(e: ElemV) -> bool {
    e is Object || e is Enum || e is ObjectAny || e is ObjectShape || e is HasMethod || e is HasProperty
}

/// The structural narrowings of the object family.
pub open spec fn is_structural(e: ElemV) -> bool {
    e is ObjectShape || e is HasMethod || e is HasProperty
}

/// `HasMethod(m)` as a container.
pub open spec fn has_method_refines(a: ElemV, m: Seq<char>) -> bool {
    match a {
        ElemV::HasMethod(x) => x == m,
        ElemV::ObjectShape { .. } => true,
        _ => false,
    }
}

/// `HasProperty(p)` as a container.
pub open spec fn has_property_refines(a: ElemV, p: Seq<char>) -> bool {
    match a {
        ElemV::HasProperty(x) => x == p,
        ElemV::ObjectShape { .. } => true,
        ElemV::Enum { .. } => p == seq!['n', 'a', 'm', 'e'],
        _ => false,
    }
}

/// The first property of `props`, from `i` on, named `name`.
pub open spec fn first_named(props: Seq<PropV>, name: Seq<char>, i: int) -> Option<int>
    decreases props.len() - i,
{
    if i < 0 || i >= props.len() {
        None
    } else if props[i].name == name {
        Some(i)
    } else {
        first_named(props, name, i + 1)
    }
}

pub proof fn lemma_first_named(props: Seq<PropV>, name: Seq<char>, i: int)
    requires
        0 <= i,
    ensures
        first_named(props, name, i) matches Some(j) ==> i <= j < props.len() && props[j].name == name,
        first_named(props, name, i) is None ==> forall|j: int| i <= j < props.len() ==> props[j].name != name,
    decreases props.len() - i,
{
    if i < props.len() && props[i].name != name {
        lemma_first_named(props, name, i + 1);
    }
}

/// Some property of `props` is not declared by `cprops`.
pub open spec fn extra_property(props: Seq<PropV>, cprops: Seq<PropV>) -> bool {
    exists|j: int| 0 <= j < props.len() && first_named(cprops, (#[trigger] props[j]).name, 0) is None
}

/// Every property of `cprops`, from `k` on, is met by the property of
/// `props` with its name.
pub open spec fn props_met_from(props: Seq<PropV>, cprops: Seq<PropV>, o: LatticeOptions, k: int, c: u8) -> (
    bool,
    u8,
)
    decreases props_size(props) + props_size(cprops), cprops.len() - k,
{
    if k < 0 || k >= cprops.len() {
        (true, c)
    } else {
        match first_named(props, cprops[k].name, 0) {
            Some(j) => {
                proof {
                    lemma_first_named(props, cprops[k].name, 0);
                    lemma_props_size_elem(props, j);
                    lemma_props_size_elem(cprops, k);
                }
                if !cprops[k].optional && props[j].optional {
                    (false, c)
                } else {
                    let (r, c1) = refines_spec(props[j].value, cprops[k].value, o, c);
                    if !r {
                        (false, c1)
                    } else {
                        props_met_from(props, cprops, o, k + 1, c1)
                    }
                }
            },
            None => if !cprops[k].optional {
                (false, c)
            } else {
                props_met_from(props, cprops, o, k + 1, c)
            },
        }
    }
}

/// An object-shape container.
pub open spec fn object_shape_refines(a: ElemV, cont: ElemV, o: LatticeOptions, c: u8) -> (bool, u8)
    decreases esize(a) + esize(cont), 0int,
{
    match cont {
        ElemV::ObjectShape { props: cprops, sealed: csealed } => match a {
            ElemV::ObjectShape { props, sealed } => if csealed && !sealed {
                (false, c)
            } else {
                let (r, c1) = props_met_from(props, cprops, o, 0, c);
                if !r {
                    (false, c1)
                } else {
                    (!(csealed && extra_property(props, cprops)), c1)
                }
            },
            ElemV::Object { .. } => (forall|k: int| 0 <= k < cprops.len() ==> (#[trigger] cprops[k]).optional, c),
            _ => (false, c),
        },
        _ => (false, c),
    }
}

/// Container is `object`: accept anything in the object family.
pub fn refines_object_any(input: &Element, _container: &Element) -> (r: bool)
    ensures
        r == is_object_family(input@),
{
    match input {
        Element::Object(_) | Element::Enum(_) | Element::ObjectAny | Element::ObjectShape(_) | Element::HasMethod(_)
        | Element::HasProperty(_) => true,
        _ => false,
    }
}

/// An enum container with no case accepts every case of that enum; with
/// a case, only that case (the identity rule).
pub open spec fn enum_refines(input: ElemV, container: ElemV) -> bool {
    match (input, container) {
        (ElemV::Enum { name: a, .. }, ElemV::Enum { name: b, case: None }) => a == b,
        _ => false,
    }
}

pub fn refines_enum(input: &Element, container: &Element) -> (r: bool)
    ensures
        r == enum_refines(input@, container@),
{
    match (input, container) {
        (Element::Enum(a), Element::Enum(b)) => b.case.is_none() && crate::element::chars_eq(&a.name, &b.name),
        _ => false,
    }
}

/// `HasMethod(m)` as a container.
pub fn refines_has_method(input: &Element, m: &Vec<char>) -> (r: bool)
    ensures
        r == has_method_refines(input@, m@),
{
    match input {
        Element::HasMethod(x) => chars_eq(x, m),
        Element::ObjectShape(_) => true,
        _ => false,
    }
}

/// `HasProperty(p)` as a container.
pub fn refines_has_property(input: &Element, p: &Vec<char>) -> (r: bool)
    ensures
        r == has_property_refines(input@, p@),
{
    match input {
        Element::HasProperty(x) => chars_eq(x, p),
        Element::ObjectShape(_) => true,
        Element::Enum(_) => {
            let name = vec!['n', 'a', 'm', 'e'];
            assert(name@ =~= seq!['n', 'a', 'm', 'e']);
            chars_eq(p, &name)
        },
        _ => false,
    }
}

/// The position of the first property named `name`.
fn find_named(props: &Vec<KnownPropertyEntry>, name: &Vec<char>) -> (r: Option<usize>)
    ensures
        match r {
            Some(j) => first_named(props_view(*props), name@, 0) == Some(j as int),
            None => first_named(props_view(*props), name@, 0) is None,
        },
{
    let ghost v = props_view(*props);
    let mut i: usize = 0;
    while i < props.len()
        invariant
            i <= props.len(),
            v == props_view(*props),
            v.len() == props.len(),
            first_named(v, name@, 0) == first_named(v, name@, i as int),
        decreases props.len() - i,
    {
        assert(v[i as int] == prop_view(props@[i as int]));
        if chars_eq(&props[i].name, name) {
            return Some(i);
        }
        i += 1;
    }
    None
}

/// Every property of `cprops` is met by the property of `props` with its
/// name.
fn props_met(props: &Vec<KnownPropertyEntry>, cprops: &Vec<KnownPropertyEntry>, o: LatticeOptions, c: u8) -> (r: (
    bool,
    u8,
))
    ensures
        r == props_met_from(props_view(*props), props_view(*cprops), o, 0, c),
    decreases props_size(props_view(*props)) + props_size(props_view(*cprops)), 0int,
{
    let ghost v = props_view(*props);
    let ghost cv = props_view(*cprops);
    let mut cur = c;
    let mut k: usize = 0;
    while k < cprops.len()
        invariant
            k <= cprops.len(),
            v == props_view(*props),
            cv == props_view(*cprops),
            v.len() == props.len(),
            cv.len() == cprops.len(),
            props_met_from(v, cv, o, 0, c) == props_met_from(v, cv, o, k as int, cur),
        decreases cprops.len() - k,
    {
        assert(cv[k as int] == prop_view(cprops@[k as int]));
        match find_named(props, &cprops[k].name) {
            Some(j) => {
                proof {
                    lemma_first_named(v, cv[k as int].name, 0);
                    lemma_props_size_elem(v, j as int);
                    lemma_props_size_elem(cv, k as int);
                }
                assert(v[j as int] == prop_view(props@[j as int]));
                if !cprops[k].optional && props[j].optional {
                    return (false, cur);
                }
                let (r, c1) = walk(&props[j].value, &cprops[k].value, o, cur);
                if !r {
                    return (false, c1);
                }
                cur = c1;
            },
            None => {
                if !cprops[k].optional {
                    return (false, cur);
                }
            },
        }
        k += 1;
    }
    (true, cur)
}

/// Some property of `props` is not declared by `cprops`.
fn has_extra_property(props: &Vec<KnownPropertyEntry>, cprops: &Vec<KnownPropertyEntry>) -> (r: bool)
    ensures
        r == extra_property(props_view(*props), props_view(*cprops)),
{
    let ghost v = props_view(*props);
    let ghost cv = props_view(*cprops);
    let mut i: usize = 0;
    while i < props.len()
        invariant
            i <= props.len(),
            v == props_view(*props),
            cv == props_view(*cprops),
            v.len() == props.len(),
            forall|j: int| 0 <= j < i ==> first_named(cv, (#[trigger] v[j]).name, 0) is Some,
        decreases props.len() - i,
    {
        assert(v[i as int] == prop_view(props@[i as int]));
        if find_named(cprops, &props[i].name).is_none() {
            return true;
        }
        i += 1;
    }
    false
}

/// An object-shape container: shapes by [`shape_refines_shape`], named
/// objects by [`named_refines_shape`].
pub fn refines_object_shape(input: &Element, container: &Element, o: LatticeOptions, c: u8) -> (r: (bool, u8))
    requires
        container@ is ObjectShape,
    ensures
        r == object_shape_refines(input@, container@, o, c),
    decreases esize(input@) + esize(container@), 4int,
{
    match input {
        Element::ObjectShape(_) => shape_refines_shape(input, container, o, c),
        Element::Object(_) => (named_refines_shape(input, container), c),
        _ => (false, c),
    }
}

/// A shape against a shape: a sealed container needs a sealed input that
/// carries no property it does not declare, and each of its properties
/// must be met.
fn shape_refines_shape(input: &Element, container: &Element, o: LatticeOptions, c: u8) -> (r: (bool, u8))
    requires
        input@ is ObjectShape,
        container@ is ObjectShape,
    ensures
        r == object_shape_refines(input@, container@, o, c),
    decreases esize(input@) + esize(container@), 3int,
{
    match (input, container) {
        (Element::ObjectShape(ish), Element::ObjectShape(cs)) => {
            if cs.sealed && !ish.sealed {
                return (false, c);
            }
            let (r, c1) = props_met(&ish.known_properties, &cs.known_properties, o, c);
            if !r {
                return (false, c1);
            }
            (!(cs.sealed && has_extra_property(&ish.known_properties, &cs.known_properties)), c1)
        },
        _ => (false, c),
    }
}

/// A named object against a shape: with no knowledge of what the class
/// declares, it fits only a shape all of whose properties are optional.
fn named_refines_shape(input: &Element, container: &Element) -> (r: bool)
    requires
        input@ is Object,
        container@ is ObjectShape,
    ensures
        r == forall|k: int|
            0 <= k < container@->ObjectShape_props.len() ==> (#[trigger] container@->ObjectShape_props[k]).optional,
{
    let cs = match container {
        Element::ObjectShape(cs) => cs,
        _ => {
            return false;
        },
    };
    let ghost cv = props_view(cs.known_properties);
    assert(container@ == ElemV::ObjectShape { props: cv, sealed: cs.sealed });
    let mut k: usize = 0;
    while k < cs.known_properties.len()
        invariant
            k <= cs.known_properties.len(),
            cv == props_view(cs.known_properties),
            cv.len() == cs.known_properties.len(),
            container@ == (ElemV::ObjectShape { props: cv, sealed: cs.sealed }),
            forall|j: int| 0 <= j < k ==> (#[trigger] cv[j]).optional,
        decreases cs.known_properties.len() - k,
    {
        assert(cv[k as int] == prop_view(cs.known_properties@[k as int]));
        if !cs.known_properties[k].optional {
            assert(!cv[k as int].optional);
            assert(container@->ObjectShape_props[k as int] == cv[k as int]);
            return false;
        }
        k += 1;
    }
    true
}

} // verus!
