//! Generic-parameter containers: `T <: T` when both sides name the same
//! parameter of the same defining entity.
use vstd::prelude::*;

use crate::element::{ElemV, Element};

verus! {

pub open spec fn same_parameter(input: ElemV, container: ElemV) -> bool {
    match (input, container) {
        (
            ElemV::GenericParameter { name: n1, entity: e1, .. },
            ElemV::GenericParameter { name: n2, entity: e2, .. },
        ) => n1 == n2 && e1 == e2,
        _ => false,
    }
}

pub fn refines(input: &Element, container: &Element) -> (r: bool)
    ensures
        r == same_parameter(input@, container@),
{
    match (input, container) {
        (Element::GenericParameter(a), Element::GenericParameter(b)) => {
            crate::element::chars_eq(&a.name, &b.name) && a.defining_entity.same(&b.defining_entity)
        },
        _ => false,
    }
}

} // verus!
