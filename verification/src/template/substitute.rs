//! Capture-free substitution of template parameters, as a structural walk.
//!
//! Every atom is visited post-order, nested types first, and each
//! template parameter met is handed to the caller's closure:
//! `Some(replacement)` puts the replacement's atoms in its place in the
//! surrounding union, `None` leaves the parameter as it is, constraint
//! included. The walk does not enter a parameter's constraint; a closure
//! that wants it rewritten does so itself.
use vstd::prelude::*;

use crate::element::{ElemV, Element, GenericParameterInfo, Type};
use crate::substitute::{ask, decision, views, well_behaved};
use crate::transform::walk::{Outcome, OutcomeV, outcome_view, walk, walk_type};
use crate::transform::{flat_outcome, flat_outcome_of};

verus! {

/// The closure's decision on a template parameter; any other atom stays.
pub open spec fn substitution_decider<F: Fn(&GenericParameterInfo) -> Option<Type>>(f: &F) -> spec_fn(
    ElemV,
) -> OutcomeV {
    |e: ElemV|
        if e is GenericParameter {
            match decision(f, e) {
                Some(t) => flat_outcome(t.elements, e),
                None => OutcomeV::Unchanged,
            }
        } else {
            OutcomeV::Unchanged
        }
}

/// Apply a substitution closure to every template parameter in `ty`.
pub fn substitute<F: Fn(&GenericParameterInfo) -> Option<Type>>(ty: &Type, subst: &F) -> (r: Type)
    requires
        well_behaved(subst),
    ensures
        r@ == walk_type(ty@, substitution_decider(subst), false),
{
    let step = |x: &Element| -> (o: Outcome)
        requires
            well_behaved(subst),
        ensures
            outcome_view(o) == substitution_decider(subst)(x@),
        {
            match x {
                Element::GenericParameter(g) => match ask(g, subst) {
                    Some(replacement) => {
                        let mut v: Vec<Element> = Vec::new();
                        crate::lattice::refines::append_elements(&mut v, &replacement);
                        assert(views(v@) =~= replacement@.elements);
                        flat_outcome_of(v, x)
                    },
                    None => Outcome::Unchanged,
                },
                _ => Outcome::Unchanged,
            }
        };
    walk(ty, &step, Ghost(substitution_decider(subst)), false)
}

} // verus!
