//! Float family: `float` accepts every float, `literal-float` accepts
//! literals and itself. `int` is not a subtype of `float`.
use vstd::prelude::*;

use crate::element::{ElemV, Element, FloatInfo};

verus! {

pub open spec fn float_refines(input: ElemV, container: ElemV) -> bool {
    match (input, container) {
        (ElemV::Float(_), ElemV::Float(FloatInfo::Unspecified)) => true,
        (ElemV::Float(FloatInfo::Literal(_)), ElemV::Float(FloatInfo::UnspecifiedLiteral)) => true,
        (ElemV::Float(FloatInfo::UnspecifiedLiteral), ElemV::Float(FloatInfo::UnspecifiedLiteral)) => true,
        _ => false,
    }
}

pub fn refines(input: &Element, container: &Element) -> (r: bool)
    ensures
        r == float_refines(input@, container@),
{
    match (input, container) {
        (Element::Float(_), Element::Float(FloatInfo::Unspecified)) => true,
        (Element::Float(FloatInfo::Literal(_)), Element::Float(FloatInfo::UnspecifiedLiteral)) => true,
        (Element::Float(FloatInfo::UnspecifiedLiteral), Element::Float(FloatInfo::UnspecifiedLiteral)) => true,
        _ => false,
    }
}

} // verus!
