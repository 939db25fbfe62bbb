//! The meet (greatest lower bound) of two types, and the family rules it
//! is built from.
pub mod integer;
pub mod pairwise;
pub mod string;
pub mod truthiness;

pub use self::pairwise::{compute, narrow};

use vstd::prelude::*;

use crate::element::{ElemV, Element, IntInfo, StrLitV, StringCasing, StringFlags, Type, TypeV};
use crate::lattice::family::mixed::never_type_v;
use crate::lattice::refines_spec::int_v;
use crate::prelude::{no_string_flags, numeric_string, string_view, type_never};

verus! {

/// Outcome of narrowing a type by an assertion.
#[derive(Debug)]
pub enum MeetOutcome {
    /// The input and the narrowing share no value.
    Impossible,
    /// The input already refines the narrowing; carries the input.
    Redundant(Type),
    /// The narrowing strictly refined the input; carries the new type.
    Narrowed(Type),
}

/// The type an outcome stands for: `never` when impossible.
pub open spec fn meet_outcome_type(o: MeetOutcome) -> TypeV {
    match o {
        MeetOutcome::Impossible => never_type_v(),
        MeetOutcome::Redundant(t) => t@,
        MeetOutcome::Narrowed(t) => t@,
    }
}

impl MeetOutcome {
    /// The resulting type, `never` for `Impossible`.
    pub fn into_type(self) -> (r: Type)
        ensures
            r@ == meet_outcome_type(self),
    {
        match self {
            MeetOutcome::Impossible => type_never(),
            MeetOutcome::Redundant(t) => t,
            MeetOutcome::Narrowed(t) => t,
        }
    }
}

/// The dominators that meet in `int | numeric-string`.
pub open spec fn cross_dominator_pair(a: ElemV, b: ElemV) -> bool {
    (a is ArrayKey && b is Numeric) || (a is Numeric && b is ArrayKey)
}

/// `int | numeric-string`.
pub open spec fn int_or_numeric_string_v() -> Seq<ElemV> {
    seq![
        int_v(),
        string_view(StrLitV::Absent, StringCasing::Unspecified, StringFlags { numeric: true, ..no_string_flags() }),
    ]
}

/// `array-key ∧ numeric` is `int | numeric-string`: neither dominator
/// refines the other, so subsumption cannot find it.
pub fn cross_dominator_meet(a: &Element, b: &Element) -> (r: Option<Vec<Element>>)
    ensures
        match r {
            Some(v) => cross_dominator_pair(a@, b@) && v@.map_values(|e: Element| e@) == int_or_numeric_string_v(),
            None => !cross_dominator_pair(a@, b@),
        },
{
    let pair = match (a, b) {
        (Element::ArrayKey, Element::Numeric) | (Element::Numeric, Element::ArrayKey) => true,
        _ => false,
    };
    if pair {
        let v = vec![Element::Int(IntInfo::Unspecified), numeric_string()];
        assert(v@.map_values(|e: Element| e@) =~= int_or_numeric_string_v());
        Some(v)
    } else {
        None
    }
}

} // verus!
