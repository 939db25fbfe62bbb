//! Resource family: open and closed resources refine `resource`; they do
//! not refine each other.
use vstd::prelude::*;

use crate::element::{ElemV, Element, ResourceInfo};

verus! {

pub open spec fn resource_refines(input: ElemV, container: ElemV) -> bool {
    &&& container == ElemV::Resource(ResourceInfo::Any)
    &&& (input == ElemV::Resource(ResourceInfo::Open) || input == ElemV::Resource(ResourceInfo::Closed))
}

/// `open <: resource` and `closed <: resource`.
pub fn refines(input: &Element, container: &Element) -> (r: bool)
    ensures
        r == resource_refines(input@, container@),
{
    match (input, container) {
        (Element::Resource(ResourceInfo::Open), Element::Resource(ResourceInfo::Any)) => true,
        (Element::Resource(ResourceInfo::Closed), Element::Resource(ResourceInfo::Any)) => true,
        _ => false,
    }
}

} // verus!
