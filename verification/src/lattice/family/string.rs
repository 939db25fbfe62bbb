//! String family.
//!
//! A string container constrains three axes: the literal slot, the
//! casing, and the refinement flags (non-empty, truthy, numeric,
//! callable). The input must satisfy every constraint, either by carrying
//! the same constraint or by being a literal that implies it.
//! Class-like-string inputs are accepted when the container has no
//! literal, casing or callable constraint.
use vstd::prelude::*;

use crate::element::{ElemV, Element, StrLitV, StringCasing, StringFlags, StringInfo, StringInfoV, StringLiteral, lit_view};

verus! {

pub open spec fn is_ascii_upper(c: char) -> bool {
    'A' <= c && c <= 'Z'
}

pub open spec fn is_ascii_lower(c: char) -> bool {
    'a' <= c && c <= 'z'
}

pub open spec fn is_digit(c: char) -> bool {
    '0' <= c && c <= '9'
}

pub open spec fn no_upper(s: Seq<char>) -> bool {
    forall|i: int| 0 <= i < s.len() ==> !is_ascii_upper(#[trigger] s[i])
}

pub open spec fn no_lower(s: Seq<char>) -> bool {
    forall|i: int| 0 <= i < s.len() ==> !is_ascii_lower(#[trigger] s[i])
}

/// The number of leading ASCII digits of `s`.
pub open spec fn leading_digits(s: Seq<char>) -> nat
    decreases s.len(),
{
    if s.len() > 0 && is_digit(s[0]) {
        1 + leading_digits(s.drop_first())
    } else {
        0
    }
}

/// The code point of `c` with ASCII upper-case letters lowered.
pub open spec fn lower_code(c: char) -> u32 {
    if is_ascii_upper(c) {
        ((c as u32) + 32) as u32
    } else {
        c as u32
    }
}

/// `s` equals the lower-case word `w`, ignoring ASCII case.
pub open spec fn eq_ignore_case(s: Seq<char>, w: Seq<char>) -> bool {
    s.len() == w.len() && forall|i: int| 0 <= i < s.len() ==> lower_code(#[trigger] s[i]) == w[i] as u32
}

pub open spec fn has_sign(s: Seq<char>) -> bool {
    s.len() > 0 && (s[0] == '+' || s[0] == '-')
}

/// `s` with one leading `+` or `-` removed.
pub open spec fn unsigned_part(s: Seq<char>) -> Seq<char> {
    if has_sign(s) {
        s.drop_first()
    } else {
        s
    }
}

/// `Exp ::= ('e' | 'E') Sign? Digit+`, covering all of `s`.
pub open spec fn is_exponent(s: Seq<char>) -> bool {
    &&& s.len() > 0
    &&& (s[0] == 'e' || s[0] == 'E')
    &&& {
        let d = unsigned_part(s.drop_first());
        d.len() > 0 && leading_digits(d) == d.len()
    }
}

/// `Number ::= (Digit+ | Digit+ '.' Digit* | Digit* '.' Digit+) Exp?`.
pub open spec fn is_decimal(s: Seq<char>) -> bool {
    let int_digits = leading_digits(s);
    let after_int = s.skip(int_digits as int);
    if after_int.len() > 0 && after_int[0] == '.' {
        let frac = after_int.drop_first();
        let frac_digits = leading_digits(frac);
        let rest = frac.skip(frac_digits as int);
        int_digits + frac_digits > 0 && (rest.len() == 0 || is_exponent(rest))
    } else {
        int_digits > 0 && (after_int.len() == 0 || is_exponent(after_int))
    }
}

/// The grammar accepted by `str::parse::<f64>`:
/// `Sign? ('inf' | 'infinity' | 'nan' | Number)`, letters in any case.
/// Every string `str::parse::<i64>` accepts (`Sign? Digit+`) is in it.
pub open spec fn is_numeric_literal(s: Seq<char>) -> bool {
    let u = unsigned_part(s);
    ||| eq_ignore_case(u, seq!['i', 'n', 'f'])
    ||| eq_ignore_case(u, seq!['i', 'n', 'f', 'i', 'n', 'i', 't', 'y'])
    ||| eq_ignore_case(u, seq!['n', 'a', 'n'])
    ||| is_decimal(u)
}

pub open spec fn satisfies_literal(input: StrLitV, container: StrLitV) -> bool {
    match (input, container) {
        (_, StrLitV::Absent) => true,
        (StrLitV::Value(_), StrLitV::Unspecified) => true,
        (StrLitV::Unspecified, StrLitV::Unspecified) => true,
        (StrLitV::Value(a), StrLitV::Value(b)) => a == b,
        _ => false,
    }
}

pub open spec fn satisfies_casing(input: StringInfoV, casing: StringCasing) -> bool {
    match casing {
        StringCasing::Unspecified => true,
        StringCasing::Lowercase => input.casing == StringCasing::Lowercase || (input.literal matches StrLitV::Value(v)
            && no_upper(v)),
        StringCasing::Uppercase => input.casing == StringCasing::Uppercase || (input.literal matches StrLitV::Value(v)
            && no_lower(v)),
    }
}

pub open spec fn input_is_non_empty(input: StringInfoV) -> bool {
    ||| input.flags.non_empty
    ||| input.flags.truthy
    ||| input.flags.numeric
    ||| input.flags.callable
    ||| (input.literal matches StrLitV::Value(v) && v.len() > 0)
}

pub open spec fn input_is_truthy(input: StringInfoV) -> bool {
    ||| input.flags.truthy
    ||| (input.literal matches StrLitV::Value(v) && v.len() > 0 && v != seq!['0'])
}

pub open spec fn input_is_numeric(input: StringInfoV) -> bool {
    ||| input.flags.numeric
    ||| (input.literal matches StrLitV::Value(v) && is_numeric_literal(v))
}

pub open spec fn satisfies_flags(input: StringInfoV, flags: StringFlags) -> bool {
    &&& (flags.non_empty ==> input_is_non_empty(input))
    &&& (flags.truthy ==> input_is_truthy(input))
    &&& (flags.numeric ==> input_is_numeric(input))
    &&& (flags.callable ==> input.flags.callable)
}

pub open spec fn string_satisfies(input: StringInfoV, container: StringInfoV) -> bool {
    &&& satisfies_literal(input.literal, container.literal)
    &&& satisfies_casing(input, container.casing)
    &&& satisfies_flags(input, container.flags)
}

/// A class name is non-empty and never `"0"`, so it meets `non-empty` and
/// `truthy`; it meets no literal, casing, `numeric` or `callable` constraint.
pub open spec fn class_like_string_satisfies(container: StringInfoV) -> bool {
    &&& container.literal is Absent
    &&& container.casing == StringCasing::Unspecified
    &&& !container.flags.numeric
    &&& !container.flags.callable
}

pub open spec fn string_refines(input: ElemV, container: ElemV) -> bool {
    match (input, container) {
        (ElemV::ClassLikeString(..), ElemV::Str(c)) => class_like_string_satisfies(c),
        (ElemV::Str(i), ElemV::Str(c)) => string_satisfies(i, c),
        _ => false,
    }
}

pub open spec fn sinfo(s: StringInfo) -> StringInfoV {
    StringInfoV { literal: lit_view(s.literal), casing: s.casing, flags: s.flags }
}

// ---------------------------------------------------------------------
// Executable checks.
// ---------------------------------------------------------------------
fn count_digits(s: &Vec<char>, start: usize) -> (n: usize)
    requires
        start <= s.len(),
    ensures
        n == leading_digits(s@.skip(start as int)),
        start + n <= s.len(),
    decreases s.len() - start,
{
    if start < s.len() && '0' <= s[start] && s[start] <= '9' {
        let rest = count_digits(s, start + 1);
        assert(s@.skip(start as int).drop_first() =~= s@.skip(start + 1));
        rest + 1
    } else {
        proof { rest_none(s@, start as int); }
        0
    }
}

proof fn rest_none(s: Seq<char>, start: int)
    requires
        0 <= start <= s.len(),
        !(start < s.len() && is_digit(s[start])),
    ensures
        leading_digits(s.skip(start)) == 0,
{
    if start < s.len() {
        assert(s.skip(start)[0] == s[start]);
    }
}

fn matches_word(s: &Vec<char>, start: usize, word: &Vec<char>) -> (r: bool)
    requires
        start <= s.len(),
    ensures
        r == eq_ignore_case(s@.skip(start as int), word@),
{
    if s.len() - start != word.len() {
        return false;
    }
    let mut i: usize = 0;
    while i < word.len()
        invariant
            start <= s.len(),
            s.len() - start == word.len(),
            i <= word.len(),
            forall|j: int| 0 <= j < i ==> lower_code(#[trigger] s@.skip(start as int)[j]) == word@[j] as u32,
        decreases word.len() - i,
    {
        let c = s[start + i];
        let lc: u32 = if 'A' <= c && c <= 'Z' {
            (c as u32) + 32
        } else {
            c as u32
        };
        assert(s@.skip(start as int)[i as int] == c);
        if lc != word[i] as u32 {
            return false;
        }
        i += 1;
    }
    true
}

fn exponent_at(s: &Vec<char>, start: usize) -> (r: bool)
    requires
        start <= s.len(),
    ensures
        r == is_exponent(s@.skip(start as int)),
{
    let ghost t = s@.skip(start as int);
    if start >= s.len() {
        return false;
    }
    if s[start] != 'e' && s[start] != 'E' {
        assert(t[0] == s@[start as int]);
        return false;
    }
    assert(t[0] == s@[start as int]);
    let mut p = start + 1;
    assert(t.drop_first() =~= s@.skip(p as int));
    if p < s.len() && (s[p] == '+' || s[p] == '-') {
        assert(s@.skip(p as int)[0] == s@[p as int]);
        assert(unsigned_part(t.drop_first()) =~= s@.skip(p + 1));
        p = p + 1;
    } else {
        if p < s.len() {
            assert(s@.skip(p as int)[0] == s@[p as int]);
        }
        assert(unsigned_part(t.drop_first()) =~= s@.skip(p as int));
    }
    let n = count_digits(s, p);
    n > 0 && p + n == s.len()
}

/// Whether `s` is accepted by `str::parse::<i64>` or `str::parse::<f64>`.
pub fn numeric_literal(s: &Vec<char>) -> (r: bool)
    ensures
        r == is_numeric_literal(s@),
{
    let mut start: usize = 0;
    if s.len() > 0 && (s[0] == '+' || s[0] == '-') {
        start = 1;
    }
    assert(unsigned_part(s@) =~= s@.skip(start as int));
    let ghost u = s@.skip(start as int);
    let inf = vec!['i', 'n', 'f'];
    let infinity = vec!['i', 'n', 'f', 'i', 'n', 'i', 't', 'y'];
    let nan = vec!['n', 'a', 'n'];
    assert(inf@ =~= seq!['i', 'n', 'f']);
    assert(infinity@ =~= seq!['i', 'n', 'f', 'i', 'n', 'i', 't', 'y']);
    assert(nan@ =~= seq!['n', 'a', 'n']);
    if matches_word(s, start, &inf) || matches_word(s, start, &infinity) || matches_word(s, start, &nan) {
        return true;
    }
    let int_digits = count_digits(s, start);
    let after = start + int_digits;
    assert(u.skip(int_digits as int) =~= s@.skip(after as int));
    if after < s.len() && s[after] == '.' {
        assert(s@.skip(after as int)[0] == s@[after as int]);
        let frac_start = after + 1;
        assert(s@.skip(after as int).drop_first() =~= s@.skip(frac_start as int));
        let frac_digits = count_digits(s, frac_start);
        let rest = frac_start + frac_digits;
        assert(s@.skip(frac_start as int).skip(frac_digits as int) =~= s@.skip(rest as int));
        int_digits + frac_digits > 0 && (rest == s.len() || exponent_at(s, rest))
    } else {
        if after < s.len() {
            assert(s@.skip(after as int)[0] == s@[after as int]);
        }
        int_digits > 0 && (after == s.len() || exponent_at(s, after))
    }
}

pub fn all_not_upper(v: &Vec<char>) -> (r: bool)
    ensures
        r == no_upper(v@),
{
    let mut i: usize = 0;
    while i < v.len()
        invariant
            i <= v.len(),
            forall|j: int| 0 <= j < i ==> !is_ascii_upper(#[trigger] v@[j]),
        decreases v.len() - i,
    {
        if 'A' <= v[i] && v[i] <= 'Z' {
            return false;
        }
        i += 1;
    }
    true
}

pub fn all_not_lower(v: &Vec<char>) -> (r: bool)
    ensures
        r == no_lower(v@),
{
    let mut i: usize = 0;
    while i < v.len()
        invariant
            i <= v.len(),
            forall|j: int| 0 <= j < i ==> !is_ascii_lower(#[trigger] v@[j]),
        decreases v.len() - i,
    {
        if 'a' <= v[i] && v[i] <= 'z' {
            return false;
        }
        i += 1;
    }
    true
}

fn satisfies_literal_exec(input: &StringLiteral, container: &StringLiteral) -> (r: bool)
    ensures
        r == satisfies_literal(lit_view(*input), lit_view(*container)),
{
    match (input, container) {
        (_, StringLiteral::Absent) => true,
        (StringLiteral::Value(_), StringLiteral::Unspecified) => true,
        (StringLiteral::Unspecified, StringLiteral::Unspecified) => true,
        (StringLiteral::Value(a), StringLiteral::Value(b)) => crate::element::chars_eq(a, b),
        _ => false,
    }
}

fn satisfies_casing_exec(input: &StringInfo, casing: StringCasing) -> (r: bool)
    ensures
        r == satisfies_casing(sinfo(*input), casing),
{
    match casing {
        StringCasing::Unspecified => true,
        StringCasing::Lowercase => {
            if input.casing == StringCasing::Lowercase {
                return true;
            }
            match &input.literal {
                StringLiteral::Value(v) => all_not_upper(v),
                _ => false,
            }
        },
        StringCasing::Uppercase => {
            if input.casing == StringCasing::Uppercase {
                return true;
            }
            match &input.literal {
                StringLiteral::Value(v) => all_not_lower(v),
                _ => false,
            }
        },
    }
}

/// Truthy, numeric and callable strings are all non-empty, and so is a
/// non-empty literal.
pub fn non_empty_input(input: &StringInfo) -> (r: bool)
    ensures
        r == input_is_non_empty(sinfo(*input)),
{
    if input.flags.non_empty || input.flags.truthy || input.flags.numeric || input.flags.callable {
        return true;
    }
    match &input.literal {
        StringLiteral::Value(v) => v.len() > 0,
        _ => false,
    }
}

/// Whether a literal is the string `"0"`.
pub fn is_zero_string(v: &Vec<char>) -> (r: bool)
    ensures
        r == (v@ == seq!['0']),
{
    if v.len() == 1 && v[0] == '0' {
        assert(v@ =~= seq!['0']);
        true
    } else {
        proof {
            if v@ == seq!['0'] {
                assert(v@[0] == '0');
            }
        }
        false
    }
}

pub fn truthy_input(input: &StringInfo) -> (r: bool)
    ensures
        r == input_is_truthy(sinfo(*input)),
{
    if input.flags.truthy {
        return true;
    }
    match &input.literal {
        StringLiteral::Value(v) => v.len() > 0 && !is_zero_string(v),
        _ => false,
    }
}

pub fn numeric_input(input: &StringInfo) -> (r: bool)
    ensures
        r == input_is_numeric(sinfo(*input)),
{
    if input.flags.numeric {
        return true;
    }
    match &input.literal {
        StringLiteral::Value(v) => numeric_literal(v),
        _ => false,
    }
}

fn satisfies_flags_exec(input: &StringInfo, flags: StringFlags) -> (r: bool)
    ensures
        r == satisfies_flags(sinfo(*input), flags),
{
    if flags.non_empty && !non_empty_input(input) {
        return false;
    }
    if flags.truthy && !truthy_input(input) {
        return false;
    }
    if flags.numeric && !numeric_input(input) {
        return false;
    }
    if flags.callable && !input.flags.callable {
        return false;
    }
    true
}

/// String-family refinement for a `String` container.
pub fn refines(input: &Element, container: &Element) -> (r: bool)
    ensures
        r == string_refines(input@, container@),
{
    match (input, container) {
        (Element::ClassLikeString(_), Element::String(c)) => {
            matches!(c.literal, StringLiteral::Absent) && c.casing == StringCasing::Unspecified
                && !c.flags.numeric && !c.flags.callable
        },
        (Element::String(i), Element::String(c)) => {
            satisfies_literal_exec(&i.literal, &c.literal) && satisfies_casing_exec(i, c.casing)
                && satisfies_flags_exec(i, c.flags)
        },
        _ => false,
    }
}

} // verus!
