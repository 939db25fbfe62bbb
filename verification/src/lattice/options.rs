//! Caller-controlled options for the lattice operations.
use vstd::prelude::*;

use crate::element::Type;

verus! {

/// Each field tweaks the refinement walk without changing its meaning at
/// the type level. All fields default to `false`.
#[derive(Debug, Clone, Copy, PartialEq, Eq, Structural)]
pub struct LatticeOptions {
    /// Skip `null` elements of the input union.
    pub ignore_null: bool,
    /// Skip the `false` element of the input union.
    pub ignore_false: bool,
    /// The check is made inside a runtime assertion.
    pub inside_assertion: bool,
}

pub open spec fn default_options() -> LatticeOptions {
    LatticeOptions { ignore_null: false, ignore_false: false, inside_assertion: false }
}

impl LatticeOptions {
    /// All flags off.
    pub fn new() -> (o: LatticeOptions)
        ensures
            o == default_options(),
    {
        LatticeOptions { ignore_null: false, ignore_false: false, inside_assertion: false }
    }

    /// Options derived from a type's flow flags: `ignore_null` mirrors
    /// `ignore_nullable_issues`, `ignore_false` mirrors
    /// `ignore_falsable_issues`, `inside_assertion` stays off.
    pub fn of_type(ty: &Type) -> (o: LatticeOptions)
        ensures
            o == (LatticeOptions {
                ignore_null: ty@.flags.ignore_nullable_issues,
                ignore_false: ty@.flags.ignore_falsable_issues,
                inside_assertion: false,
            }),
    {
        LatticeOptions {
            ignore_null: ty.flags.ignore_nullable_issues,
            ignore_false: ty.flags.ignore_falsable_issues,
            inside_assertion: false,
        }
    }

    /// [`of_type`](Self::of_type) with `inside_assertion` set.
    pub fn assertion_of_type(ty: &Type) -> (o: LatticeOptions)
        ensures
            o == (LatticeOptions {
                ignore_null: ty@.flags.ignore_nullable_issues,
                ignore_false: ty@.flags.ignore_falsable_issues,
                inside_assertion: true,
            }),
    {
        Self::of_type(ty).inside_assertion()
    }

    /// Set `ignore_null`.
    pub fn with_ignore_null(self) -> (o: LatticeOptions)
        ensures
            o == (LatticeOptions { ignore_null: true, ..self }),
    {
        LatticeOptions { ignore_null: true, ..self }
    }

    /// Set `ignore_false`.
    pub fn with_ignore_false(self) -> (o: LatticeOptions)
        ensures
            o == (LatticeOptions { ignore_false: true, ..self }),
    {
        LatticeOptions { ignore_false: true, ..self }
    }

    /// Set `inside_assertion`.
    pub fn inside_assertion(self) -> (o: LatticeOptions)
        ensures
            o == (LatticeOptions { inside_assertion: true, ..self }),
    {
        LatticeOptions { inside_assertion: true, ..self }
    }
}

impl Default for LatticeOptions {
    fn default() -> (o: LatticeOptions)
        ensures
            o == default_options(),
    {
        LatticeOptions::new()
    }
}

} // verus!
