//! Meet of two string atoms: the flags of both, the casing either side
//! fixes, and the literal either side pins. Opposite fixed casings meet in
//! the empty literal where both sides admit it; a literal that breaks the
//! merged flags or casing makes the atoms disjoint.
use vstd::prelude::*;

use crate::element::{StrLitV, StringCasing, StringFlags, StringInfo, StringInfoV, StringLiteral, chars_eq, copy_chars};
use crate::lattice::family::string::{all_not_lower, all_not_upper, is_numeric_literal, no_lower, no_upper, numeric_literal, sinfo};
use crate::prelude::no_string_flags;

verus! {

pub open spec fn flags_or(a: StringFlags, b: StringFlags) -> StringFlags {
    StringFlags {
        non_empty: a.non_empty || b.non_empty,
        truthy: a.truthy || b.truthy,
        numeric: a.numeric || b.numeric,
        callable: a.callable || b.callable,
    }
}

/// A pinned literal meets the flags.
pub open spec fn literal_satisfies_flags(literal: StrLitV, flags: StringFlags) -> bool {
    match literal {
        StrLitV::Value(v) => {
            &&& (flags.non_empty ==> v.len() > 0)
            &&& (flags.truthy ==> v.len() > 0 && v != seq!['0'])
            &&& (flags.numeric ==> is_numeric_literal(v))
        },
        _ => true,
    }
}

/// A pinned literal meets the casing.
pub open spec fn literal_satisfies_casing(literal: StrLitV, casing: StringCasing) -> bool {
    match literal {
        StrLitV::Value(v) => match casing {
            StringCasing::Unspecified => true,
            StringCasing::Lowercase => no_upper(v),
            StringCasing::Uppercase => no_lower(v),
        },
        _ => true,
    }
}

/// The empty string literal, the one string both upper- and lower-case.
pub open spec fn empty_literal_info() -> StringInfoV {
    StringInfoV { literal: StrLitV::Value(Seq::empty()), casing: StringCasing::Unspecified, flags: no_string_flags() }
}

pub open spec fn meet_literal(a: StrLitV, b: StrLitV) -> Option<StrLitV> {
    match (a, b) {
        (StrLitV::Value(x), StrLitV::Value(y)) => if x == y {
            Some(StrLitV::Value(x))
        } else {
            None
        },
        (StrLitV::Value(x), _) => Some(StrLitV::Value(x)),
        (_, StrLitV::Value(y)) => Some(StrLitV::Value(y)),
        (StrLitV::Unspecified, _) => Some(StrLitV::Unspecified),
        (_, StrLitV::Unspecified) => Some(StrLitV::Unspecified),
        _ => Some(StrLitV::Absent),
    }
}

/// The empty string meets the literal slot and the flags: no side pins
/// another literal, and no flag excludes `""` (it is empty, falsy, not a
/// number and not callable).
pub open spec fn admits_empty_string(literal: StrLitV, flags: StringFlags) -> bool {
    &&& (literal matches StrLitV::Value(v) ==> v.len() == 0)
    &&& !flags.non_empty
    &&& !flags.truthy
    &&& !flags.numeric
    &&& !flags.callable
}

/// The meet of two string atoms, `None` when they share no value.
pub open spec fn string_meet_v(a: StringInfoV, b: StringInfoV) -> Option<StringInfoV> {
    let casing = match (a.casing, b.casing) {
        (StringCasing::Unspecified, c) => Some(c),
        (c, StringCasing::Unspecified) => Some(c),
        (x, y) => if x == y {
            Some(x)
        } else {
            None
        },
    };
    match casing {
        None => match meet_literal(a.literal, b.literal) {
            Some(literal) => if admits_empty_string(literal, flags_or(a.flags, b.flags)) {
                Some(empty_literal_info())
            } else {
                None
            },
            None => None,
        },
        Some(casing) => match meet_literal(a.literal, b.literal) {
            None => None,
            Some(literal) => {
                let flags = flags_or(a.flags, b.flags);
                if literal_satisfies_flags(literal, flags) && literal_satisfies_casing(literal, casing) {
                    Some(StringInfoV { literal, casing, flags })
                } else {
                    None
                }
            },
        },
    }
}

fn literal_flags_ok(literal: &StringLiteral, flags: StringFlags) -> (r: bool)
    ensures
        r == literal_satisfies_flags(crate::element::lit_view(*literal), flags),
{
    match literal {
        StringLiteral::Value(v) => {
            if flags.non_empty && v.len() == 0 {
                return false;
            }
            if flags.truthy && (v.len() == 0 || (v.len() == 1 && v[0] == '0')) {
                assert(v@.len() == 0 || v@ =~= seq!['0']);
                return false;
            }
            if flags.truthy {
                assert(v@ != seq!['0']) by {
                    if v@ == seq!['0'] {
                        assert(v@.len() == 1 && v@[0] == '0');
                    }
                }
            }
            if flags.numeric && !numeric_literal(v) {
                return false;
            }
            true
        },
        _ => true,
    }
}

fn literal_casing_ok(literal: &StringLiteral, casing: StringCasing) -> (r: bool)
    ensures
        r == literal_satisfies_casing(crate::element::lit_view(*literal), casing),
{
    match literal {
        StringLiteral::Value(v) => match casing {
            StringCasing::Unspecified => true,
            StringCasing::Lowercase => all_not_upper(v),
            StringCasing::Uppercase => all_not_lower(v),
        },
        _ => true,
    }
}

/// Intersect two string atoms.
pub fn string_meet(a: &StringInfo, b: &StringInfo) -> (r: Option<StringInfo>)
    ensures
        match r {
            Some(s) => string_meet_v(sinfo(*a), sinfo(*b)) == Some(sinfo(s)),
            None => string_meet_v(sinfo(*a), sinfo(*b)) is None,
        },
{
    let literal = match (&a.literal, &b.literal) {
        (StringLiteral::Value(x), StringLiteral::Value(y)) => {
            if chars_eq(x, y) {
                StringLiteral::Value(copy_chars(x))
            } else {
                return None;
            }
        },
        (StringLiteral::Value(x), _) => StringLiteral::Value(copy_chars(x)),
        (_, StringLiteral::Value(y)) => StringLiteral::Value(copy_chars(y)),
        (StringLiteral::Unspecified, _) => StringLiteral::Unspecified,
        (_, StringLiteral::Unspecified) => StringLiteral::Unspecified,
        _ => StringLiteral::Absent,
    };
    let flags = StringFlags {
        non_empty: a.flags.non_empty || b.flags.non_empty,
        truthy: a.flags.truthy || b.flags.truthy,
        numeric: a.flags.numeric || b.flags.numeric,
        callable: a.flags.callable || b.flags.callable,
    };
    let casing = match (a.casing, b.casing) {
        (StringCasing::Unspecified, c) => c,
        (c, StringCasing::Unspecified) => c,
        (x, y) => {
            if x == y {
                x
            } else {
                let literal_empty = match &literal {
                    StringLiteral::Value(v) => v.len() == 0,
                    _ => true,
                };
                if !literal_empty || flags.non_empty || flags.truthy || flags.numeric || flags.callable {
                    return None;
                }
                let v: Vec<char> = Vec::new();
                let s = StringInfo {
                    literal: StringLiteral::Value(v),
                    casing: StringCasing::Unspecified,
                    flags: StringFlags { non_empty: false, truthy: false, numeric: false, callable: false },
                };
                assert(sinfo(s) == empty_literal_info());
                return Some(s);
            }
        },
    };
    if !literal_flags_ok(&literal, flags) || !literal_casing_ok(&literal, casing) {
        return None;
    }
    Some(StringInfo { literal, casing, flags })
}

/// `numeric ∧ string`: the string atom with its numeric flag set, `None`
/// when its literal is not a number.
pub open spec fn numeric_string_meet_v(s: StringInfoV) -> Option<StringInfoV> {
    let flags = StringFlags { numeric: true, ..s.flags };
    if literal_satisfies_flags(s.literal, flags) {
        Some(StringInfoV { literal: s.literal, casing: s.casing, flags })
    } else {
        None
    }
}

/// Meet a string atom with `numeric`.
pub fn numeric_string_meet(s: &StringInfo) -> (r: Option<StringInfo>)
    ensures
        match r {
            Some(x) => numeric_string_meet_v(sinfo(*s)) == Some(sinfo(x)),
            None => numeric_string_meet_v(sinfo(*s)) is None,
        },
{
    let flags = StringFlags { numeric: true, ..s.flags };
    if !literal_flags_ok(&s.literal, flags) {
        return None;
    }
    Some(StringInfo { literal: s.literal.copy(), casing: s.casing, flags })
}

/// No character of `s` breaks the casing.
pub fn casing_compatible(casing: StringCasing, s: &Vec<char>) -> (r: bool)
    ensures
        r == literal_satisfies_casing(StrLitV::Value(s@), casing),
{
    match casing {
        StringCasing::Unspecified => true,
        StringCasing::Lowercase => all_not_upper(s),
        StringCasing::Uppercase => all_not_lower(s),
    }
}

/// The string `v` is a value of the atom `i`; `callable` says which
/// strings name something callable.
pub open spec fn string_admits(i: StringInfoV, v: Seq<char>, callable: spec_fn(Seq<char>) -> bool) -> bool {
    &&& (i.literal matches StrLitV::Value(x) ==> v == x)
    &&& (i.casing == StringCasing::Lowercase ==> no_upper(v))
    &&& (i.casing == StringCasing::Uppercase ==> no_lower(v))
    &&& (i.flags.non_empty ==> v.len() > 0)
    &&& (i.flags.truthy ==> v.len() > 0 && v != seq!['0'])
    &&& (i.flags.numeric ==> is_numeric_literal(v))
    &&& (i.flags.callable ==> callable(v))
}

/// The meet keeps every common value: a string that is a value of both
/// atoms is a value of their meet, which therefore exists. Atoms with
/// opposite fixed casings are left out: they meet in `""` alone, which
/// drops the strings with no letter.
pub proof fn lemma_string_meet_keeps_common_values(
    a: StringInfoV,
    b: StringInfoV,
    v: Seq<char>,
    callable: spec_fn(Seq<char>) -> bool,
)
    requires
        string_admits(a, v, callable),
        string_admits(b, v, callable),
        !(a.casing != StringCasing::Unspecified && b.casing != StringCasing::Unspecified && a.casing != b.casing),
    ensures
        string_meet_v(a, b) matches Some(m) && string_admits(m, v, callable),
{
}

} // verus!
