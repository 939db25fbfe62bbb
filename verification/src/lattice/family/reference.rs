//! Indirection atoms (variables, references, aliases, conditionals,
//! derived types) are resolved before subtyping is asked; unresolved, they
//! refine an indirection container only by structural identity.
use vstd::prelude::*;

use crate::element::{ElemV, Element};

verus! {

/// The atom stands for a type that is known only once resolved.
pub open spec fn indirection(e: ElemV) -> bool {
    ||| e is Variable
    ||| e is Reference
    ||| e is MemberReference
    ||| e is GlobalReference
    ||| e is Alias
    ||| e is Conditional
    ||| e is Derived
}

pub open spec fn reference_refines(input: ElemV, container: ElemV) -> bool {
    indirection(container) && input == container
}

pub fn is_indirection_kind(e: &Element) -> (r: bool)
    ensures
        r == indirection(e@),
{
    matches!(
        e,
        Element::Variable(_) | Element::Reference(_) | Element::MemberReference { .. } | Element::GlobalReference(_)
            | Element::Alias { .. } | Element::Conditional(_) | Element::Derived(_)
    )
}

pub fn refines(input: &Element, container: &Element) -> (r: bool)
    ensures
        r == reference_refines(input@, container@),
{
    if !is_indirection_kind(container) {
        return false;
    }
    input.same(container)
}

} // verus!
