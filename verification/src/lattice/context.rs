//! Side-effect accumulator for the lattice operations.
use vstd::prelude::*;

verus! {

/// Set when a refinement answer was "yes, but with a coercion".
#[derive(Debug, Clone, Copy, PartialEq, Eq, Structural)]
pub struct LatticeContext {
    pub type_coerced: bool,
}

impl LatticeContext {
    /// A fresh context with every field cleared.
    pub fn new() -> (c: LatticeContext)
        ensures
            !c.type_coerced,
    {
        LatticeContext { type_coerced: false }
    }
}

impl Default for LatticeContext {
    fn default() -> (c: LatticeContext)
        ensures
            !c.type_coerced,
    {
        LatticeContext::new()
    }
}

} // verus!
