//! Diagnostic output of the lattice operations.
use vstd::prelude::*;

use crate::element::{Element, Type};
use crate::template::{Bound, TemplateKey};

verus! {

pub const NESTED_MIXED_BIT: u8 = 1;
pub const FROM_AS_MIXED_BIT: u8 = 2;
pub const TRUE_UNION_NARROW_BIT: u8 = 4;
pub const PHP_RUNTIME_COERCE_BIT: u8 = 8;
pub const LITERAL_PROMOTED_BIT: u8 = 16;
pub const TEMPLATE_DEFAULT_BIT: u8 = 32;
pub const OBJECT_ANY_DOWN_BIT: u8 = 64;

/// A bitset of coercion patterns observed during a comparison.
#[derive(Debug, Clone, Copy, PartialEq, Eq, Structural)]
pub struct CoercionCauses {
    pub bits: u8,
}

impl CoercionCauses {
    /// The empty set.
    pub fn none() -> (c: CoercionCauses)
        ensures
            c.bits == 0,
    {
        CoercionCauses { bits: 0 }
    }

    /// The set holding exactly the bits of `bits`.
    pub fn from_bits(bits: u8) -> (c: CoercionCauses)
        ensures
            c.bits == bits,
    {
        CoercionCauses { bits }
    }

    /// `true` iff no cause is set.
    pub fn is_empty(self) -> (r: bool)
        ensures
            r == (self.bits == 0),
    {
        self.bits == 0
    }

    /// `true` iff at least one cause is set.
    pub fn any(self) -> (r: bool)
        ensures
            r == (self.bits != 0),
    {
        self.bits != 0
    }

    /// `true` iff every bit of `other` is set in `self`.
    pub fn contains(self, other: CoercionCauses) -> (r: bool)
        ensures
            r == (self.bits & other.bits == other.bits),
    {
        self.bits & other.bits == other.bits
    }

    /// Add the bits of `other`.
    pub fn insert(&mut self, other: CoercionCauses)
        ensures
            final(self).bits == old(self).bits | other.bits,
    {
        self.bits = self.bits | other.bits;
    }

    /// Clear the bits of `other`.
    pub fn remove(&mut self, other: CoercionCauses)
        ensures
            final(self).bits == old(self).bits & !other.bits,
    {
        self.bits = self.bits & !other.bits;
    }

    /// The union of both sets.
    pub fn union(self, other: CoercionCauses) -> (c: CoercionCauses)
        ensures
            c.bits == self.bits | other.bits,
    {
        CoercionCauses { bits: self.bits | other.bits }
    }

    pub fn nested_mixed(self) -> (r: bool)
        ensures
            r == (self.bits & NESTED_MIXED_BIT == NESTED_MIXED_BIT),
    {
        self.contains(CoercionCauses::from_bits(NESTED_MIXED_BIT))
    }

    pub fn from_as_mixed(self) -> (r: bool)
        ensures
            r == (self.bits & FROM_AS_MIXED_BIT == FROM_AS_MIXED_BIT),
    {
        self.contains(CoercionCauses::from_bits(FROM_AS_MIXED_BIT))
    }

    pub fn true_union_narrow(self) -> (r: bool)
        ensures
            r == (self.bits & TRUE_UNION_NARROW_BIT == TRUE_UNION_NARROW_BIT),
    {
        self.contains(CoercionCauses::from_bits(TRUE_UNION_NARROW_BIT))
    }

    pub fn php_runtime_coerce(self) -> (r: bool)
        ensures
            r == (self.bits & PHP_RUNTIME_COERCE_BIT == PHP_RUNTIME_COERCE_BIT),
    {
        self.contains(CoercionCauses::from_bits(PHP_RUNTIME_COERCE_BIT))
    }

    pub fn literal_promoted(self) -> (r: bool)
        ensures
            r == (self.bits & LITERAL_PROMOTED_BIT == LITERAL_PROMOTED_BIT),
    {
        self.contains(CoercionCauses::from_bits(LITERAL_PROMOTED_BIT))
    }

    pub fn template_default(self) -> (r: bool)
        ensures
            r == (self.bits & TEMPLATE_DEFAULT_BIT == TEMPLATE_DEFAULT_BIT),
    {
        self.contains(CoercionCauses::from_bits(TEMPLATE_DEFAULT_BIT))
    }

    pub fn object_any_down(self) -> (r: bool)
        ensures
            r == (self.bits & OBJECT_ANY_DOWN_BIT == OBJECT_ANY_DOWN_BIT),
    {
        self.contains(CoercionCauses::from_bits(OBJECT_ANY_DOWN_BIT))
    }
}

impl Default for CoercionCauses {
    fn default() -> (c: CoercionCauses)
        ensures
            c.bits == 0,
    {
        CoercionCauses::none()
    }
}

/// What a lattice operation observed besides its answer.
#[derive(Debug)]
pub struct LatticeReport {
    /// The coercion patterns observed.
    pub causes: CoercionCauses,
    /// The smallest type that would have made the comparison clean.
    pub replacement: Option<Type>,
    /// The single problematic element of a wider input union.
    pub replacement_element: Option<Element>,
    /// Bounds on free template parameters surfaced by the comparison.
    pub bounds: Vec<(TemplateKey, Bound)>,
}

impl LatticeReport {
    /// A report with no cause, no replacement and no bound.
    pub fn new() -> (r: LatticeReport)
        ensures
            r.causes.bits == 0,
            r.replacement is None,
            r.replacement_element is None,
            r.bounds@.len() == 0,
    {
        LatticeReport { causes: CoercionCauses::none(), replacement: None, replacement_element: None, bounds: Vec::new() }
    }

    /// Record a coercion cause, leaving the other fields alone.
    pub fn add_cause(&mut self, cause: CoercionCauses)
        ensures
            final(self).causes.bits == old(self).causes.bits | cause.bits,
            final(self).replacement == old(self).replacement,
            final(self).replacement_element == old(self).replacement_element,
            final(self).bounds == old(self).bounds,
    {
        self.causes.insert(cause);
    }

    /// Record a union-level replacement; later calls overwrite.
    pub fn set_replacement(&mut self, ty: Type)
        ensures
            final(self).replacement == Some(ty),
            final(self).causes == old(self).causes,
            final(self).replacement_element == old(self).replacement_element,
            final(self).bounds == old(self).bounds,
    {
        self.replacement = Some(ty);
    }

    /// Record an element-level replacement; later calls overwrite.
    pub fn set_replacement_element(&mut self, elem: Element)
        ensures
            final(self).replacement_element == Some(elem),
            final(self).causes == old(self).causes,
            final(self).replacement == old(self).replacement,
            final(self).bounds == old(self).bounds,
    {
        self.replacement_element = Some(elem);
    }

    /// Record a bound surfaced for `key`.
    pub fn push_bound(&mut self, key: TemplateKey, bound: Bound)
        ensures
            final(self).bounds@ == old(self).bounds@.push((key, bound)),
            final(self).causes == old(self).causes,
            final(self).replacement == old(self).replacement,
            final(self).replacement_element == old(self).replacement_element,
    {
        self.bounds.push((key, bound));
    }

    /// `true` iff at least one coercion cause was recorded.
    pub fn coerced(&self) -> (r: bool)
        ensures
            r == (self.causes.bits != 0),
    {
        self.causes.any()
    }
}

} // verus!
