//! Difference of types: `A \ B` holds the values of `A` that are not in
//! `B`; and the family rules it is built from.
pub mod integer;
pub mod pairwise;
pub mod string;

pub use self::pairwise::{compute, narrow};

use vstd::prelude::*;

use crate::element::{ElemV, Element, Type, TypeV};
use crate::lattice::family::mixed::never_type_v;
use crate::prelude::type_never;

verus! {

/// Outcome of narrowing a type by a negated assertion.
#[derive(Debug)]
pub enum SubtractOutcome {
    /// Every value of the input is removed.
    Impossible,
    /// The input shares no value with what is removed; carries the input.
    Redundant(Type),
    /// The difference strictly narrowed the input; carries the new type.
    Narrowed(Type),
}

/// The type an outcome stands for: `never` when impossible.
pub open spec fn subtract_outcome_type(o: SubtractOutcome) -> TypeV {
    match o {
        SubtractOutcome::Impossible => never_type_v(),
        SubtractOutcome::Redundant(t) => t@,
        SubtractOutcome::Narrowed(t) => t@,
    }
}

impl SubtractOutcome {
    /// The resulting type, `never` for `Impossible`.
    pub fn into_type(self) -> (r: Type)
        ensures
            r@ == subtract_outcome_type(self),
    {
        match self {
            SubtractOutcome::Impossible => type_never(),
            SubtractOutcome::Redundant(t) => t,
            SubtractOutcome::Narrowed(t) => t,
        }
    }
}

/// The member `m` of a true-union dominator and the removed atom `b`
/// share an axis, so splitting the dominator lets the per-member
/// difference narrow something.
pub open spec fn member_covers(m: ElemV, b: ElemV) -> bool {
    ||| (m is Bool && (b is Bool || b is True || b is False || b is Scalar))
    ||| (m is Int && (b is Int || b is Numeric || b is Scalar || b is ArrayKey))
    ||| (m is Float && (b is Float || b is Numeric || b is Scalar))
    ||| (m is Str && (b is Str || b is ClassLikeString || b is Numeric || b is Scalar || b is ArrayKey))
}

pub fn dominator_member_covers(m: &Element, b: &Element) -> (r: bool)
    ensures
        r == member_covers(m@, b@),
{
    match (m, b) {
        (Element::Bool, Element::Bool | Element::True | Element::False | Element::Scalar) => true,
        (Element::Int(_), Element::Int(_) | Element::Numeric | Element::Scalar | Element::ArrayKey) => true,
        (Element::Float(_), Element::Float(_) | Element::Numeric | Element::Scalar) => true,
        (
            Element::String(_),
            Element::String(_) | Element::ClassLikeString(_) | Element::Numeric | Element::Scalar | Element::ArrayKey,
        ) => true,
        _ => false,
    }
}

} // verus!
