//! `scalar` container: bools, ints, floats, strings, class-like strings,
//! `array-key`, `numeric` and `scalar` fit. `null`, resources, objects,
//! arrays and `mixed` do not.
use vstd::prelude::*;

use crate::element::{ElemV, Element};

verus! {

pub open spec fn scalar_refines(input: ElemV) -> bool {
    ||| input is Bool
    ||| input is True
    ||| input is False
    ||| input is Int
    ||| input is Float
    ||| input is Str
    ||| input is ClassLikeString
    ||| input is ArrayKey
    ||| input is Numeric
    ||| input is Scalar
}

pub fn refines(input: &Element, _container: &Element) -> (r: bool)
    ensures
        r == scalar_refines(input@),
{
    match input {
        Element::Bool | Element::True | Element::False | Element::Int(_) | Element::Float(_)
        | Element::String(_) | Element::ClassLikeString(_) | Element::ArrayKey | Element::Numeric
        | Element::Scalar => true,
        _ => false,
    }
}

} // verus!
