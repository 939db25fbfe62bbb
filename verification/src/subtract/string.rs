//! Difference of two string atoms.
use vstd::prelude::*;

use crate::element::{
    ElemV, Element, StringCasing, StringFlags, StringInfo, StringInfoV, StringLiteral, chars_eq,
};
use crate::lattice::family::string::sinfo;
use crate::meet::truthiness::plain_literal;

verus! {

/// A string atom with no constraint at all.
pub open spec fn general_string(s: StringInfoV) -> bool {
    &&& (s.literal is Absent || s.literal is Unspecified)
    &&& !s.flags.non_empty
    &&& !s.flags.truthy
    &&& !s.flags.numeric
    &&& !s.flags.callable
    &&& s.casing == StringCasing::Unspecified
}

/// A string atom that constrains nothing but emptiness or truthiness: no
/// literal, no casing, neither `numeric` nor `callable`.
pub open spec fn broad_string(s: StringInfoV) -> bool {
    &&& (s.literal is Absent || s.literal is Unspecified)
    &&& !s.flags.numeric
    &&& !s.flags.callable
    &&& s.casing == StringCasing::Unspecified
}

/// `a \ b` for string atoms, when a rule covers it: equal literals leave
/// nothing; a general string less every non-empty string leaves `""`, and
/// less every truthy string leaves `""` and `"0"`.
pub open spec fn string_minus_v(a: StringInfoV, b: StringInfoV) -> Option<Seq<ElemV>> {
    if a.literal is Value && b.literal is Value && a.literal == b.literal {
        Some(Seq::empty())
    } else if general_string(a) && broad_string(b) && b.flags.truthy {
        Some(seq![plain_literal(Seq::empty()), plain_literal(seq!['0'])])
    } else if general_string(a) && broad_string(b) && b.flags.non_empty {
        Some(seq![plain_literal(Seq::empty())])
    } else {
        None
    }
}

/// Difference of two string atoms, `None` when no rule covers it.
pub fn string_minus(a: &StringInfo, b: &StringInfo) -> (r: Option<Vec<Element>>)
    ensures
        match r {
            Some(v) => string_minus_v(sinfo(*a), sinfo(*b)) == Some(v@.map_values(|e: Element| e@)),
            None => string_minus_v(sinfo(*a), sinfo(*b)) is None,
        },
{
    if let (StringLiteral::Value(av), StringLiteral::Value(bv)) = (&a.literal, &b.literal) {
        if chars_eq(av, bv) {
            let v: Vec<Element> = Vec::new();
            assert(v@.map_values(|e: Element| e@) =~= Seq::<ElemV>::empty());
            return Some(v);
        }
    }
    let a_general = matches!(a.literal, StringLiteral::Absent | StringLiteral::Unspecified) && !a.flags.non_empty
        && !a.flags.truthy && !a.flags.numeric && !a.flags.callable && a.casing == StringCasing::Unspecified;
    let b_broad = matches!(b.literal, StringLiteral::Absent | StringLiteral::Unspecified) && !b.flags.numeric
        && !b.flags.callable && b.casing == StringCasing::Unspecified;
    if a_general && b_broad && b.flags.truthy {
        let digit: Vec<char> = vec!['0'];
        assert(digit@ =~= seq!['0']);
        let zero = Element::String(
            StringInfo {
                literal: StringLiteral::Value(digit),
                casing: StringCasing::Unspecified,
                flags: StringFlags { non_empty: false, truthy: false, numeric: false, callable: false },
            },
        );
        assert(zero@ == plain_literal(seq!['0']));
        let v = vec![crate::prelude::empty_string(), zero];
        assert(v@.map_values(|e: Element| e@) =~= seq![plain_literal(Seq::empty()), plain_literal(seq!['0'])]);
        return Some(v);
    }
    if a_general && b_broad && b.flags.non_empty {
        let v = vec![crate::prelude::empty_string()];
        assert(v@.map_values(|e: Element| e@) =~= seq![plain_literal(Seq::empty())]);
        return Some(v);
    }
    None
}

} // verus!
