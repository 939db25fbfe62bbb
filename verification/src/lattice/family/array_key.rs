//! `array-key` container: ints, strings and class-like strings fit;
//! floats and bools do not.
use vstd::prelude::*;

use crate::element::{ElemV, Element};

verus! {

pub open spec fn array_key_refines(input: ElemV) -> bool {
    input is Int || input is Str || input is ClassLikeString
}

pub fn refines(input: &Element, _container: &Element) -> (r: bool)
    ensures
        r == array_key_refines(input@),
{
    match input {
        Element::Int(_) | Element::String(_) | Element::ClassLikeString(_) => true,
        _ => false,
    }
}

} // verus!
