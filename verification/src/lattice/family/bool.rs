//! Bool family: `true` and `false` both refine `bool`; they do not refine
//! each other, and `bool` refines neither.
use vstd::prelude::*;

use crate::element::{ElemV, Element};

verus! {

pub open spec fn bool_refines(input: ElemV) -> bool {
    input is True || input is False
}

/// `true | false <: bool`. Reflexivity is the dispatcher's job.
pub fn refines(input: &Element, _container: &Element) -> (r: bool)
    ensures
        r == bool_refines(input@),
{
    match input {
        Element::True | Element::False => true,
        _ => false,
    }
}

} // verus!
