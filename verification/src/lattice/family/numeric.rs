//! `numeric` container: ints, floats, numeric strings and string literals
//! that parse as numbers. A general `string` is not numeric.
use vstd::prelude::*;

use crate::element::{ElemV, Element};
use crate::lattice::family::string::{input_is_numeric, numeric_input};

verus! {

pub open spec fn numeric_refines(input: ElemV) -> bool {
    match input {
        ElemV::Int(_) | ElemV::Float(_) => true,
        ElemV::Str(info) => input_is_numeric(info),
        _ => false,
    }
}

pub fn refines(input: &Element, _container: &Element) -> (r: bool)
    ensures
        r == numeric_refines(input@),
{
    match input {
        Element::Int(_) | Element::Float(_) => true,
        Element::String(info) => numeric_input(info),
        _ => false,
    }
}

} // verus!
