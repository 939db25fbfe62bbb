//! Iterable containers: `iterable<K, V>` accepts the empty array, other
//! iterables, arrays and lists (keyed by `int`) whose key and value types
//! refine its own.
use vstd::prelude::*;

use crate::element::{ElemV, Element, Type, esize, lemma_tsize_pos};
use crate::lattice::refines_spec::{lemma_single_size, single_v};
use crate::lattice::family::array::{int_type, is_empty_array};
use crate::lattice::options::LatticeOptions;
use crate::lattice::refines::walk;
use crate::lattice::refines_spec::iterable_container_refines;

verus! {

#[verifier::rlimit(40)]
#[verifier::spinoff_prover]
pub fn refines(input: &Element, container: &Element, o: LatticeOptions, c: u8) -> (r: (bool, u8))
    requires
        container@ is Iterable,
    ensures
        container@ matches ElemV::Iterable { key, value } ==> r == iterable_container_refines(
            input@,
            key,
            value,
            o,
            c,
        ),
    decreases esize(input@) + esize(container@), 0int,
{
    if is_empty_array(input) {
        return (true, c);
    }
    let ci = match container {
        Element::Iterable(ci) => ci,
        _ => {
            return (false, c);
        },
    };
    match input {
        Element::Iterable(it) => {
            let (r1, c1) = walk(&it.key_type, &ci.key_type, o, c);
            if !r1 {
                return (false, c1);
            }
            walk(&it.value_type, &ci.value_type, o, c1)
        },
        Element::List(l) => {
            proof {
                lemma_tsize_pos(l.element_type@);
            }
            let int_t = int_type();
            let (r1, c1) = walk(&int_t, &ci.key_type, o, c);
            if !r1 {
                return (false, c1);
            }
            walk(&l.element_type, &ci.value_type, o, c1)
        },
        Element::Array(a) => {
            proof {
                lemma_single_size(ElemV::ArrayKey);
            }
            let (r1, c1) = match &a.key_param {
                Some(k) => walk(k, &ci.key_type, o, c),
                None => {
                    let ak = Type::single(Element::ArrayKey);
                    assert(ak@ == single_v(ElemV::ArrayKey));
                    walk(&ak, &ci.key_type, o, c)
                },
            };
            if !r1 {
                return (false, c1);
            }
            match &a.value_param {
                Some(v) => walk(v, &ci.value_type, o, c1),
                None => walk(&ci.value_type, &ci.value_type, o, c1),
            }
        },
        _ => (false, c),
    }
}

} // verus!
