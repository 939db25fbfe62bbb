//! Class-like-string family: `class-string`, `interface-string`,
//! `enum-string`, `trait-string`, their refined forms, and string
//! literals that are syntactically class names.
//!
//! Distinct kinds are disjoint. A string literal that is a well-formed
//! class name is accepted as a class-like string of any kind, since no
//! class table classifies it.
use vstd::prelude::*;

use crate::element::{
    ClassLikeKind, ClassLikeStringSpecifier, ElemV, Element, ObjectInfo, StrLitV, StringLiteral, Type, copy_chars,
    esize, tvs,
};
use crate::lattice::options::LatticeOptions;
use crate::lattice::refines::walk;
use crate::lattice::refines_spec::{
    class_like_string_refines, input_represented, lemma_input_represented_smaller, represented,
};

verus! {

pub open spec fn is_ascii_alpha(c: char) -> bool {
    ('a' <= c && c <= 'z') || ('A' <= c && c <= 'Z')
}

pub open spec fn is_ascii_alnum(c: char) -> bool {
    is_ascii_alpha(c) || ('0' <= c && c <= '9')
}

/// A character that may start a namespace segment.
pub open spec fn starts_segment(c: char) -> bool {
    is_ascii_alpha(c) || c == '_'
}

/// A character that may continue a namespace segment.
pub open spec fn continues_segment(c: char) -> bool {
    is_ascii_alnum(c) || c == '_' || (c as u32) >= 0x80
}

/// `s` without one leading backslash.
pub open spec fn class_name_body(s: Seq<char>) -> Seq<char> {
    if s.len() > 0 && s[0] == '\\' {
        s.drop_first()
    } else {
        s
    }
}

/// `\`? Segment (`\` Segment)*, where a segment is a start character
/// followed by continue characters.
pub open spec fn valid_class_name(s: Seq<char>) -> bool {
    let b = class_name_body(s);
    &&& b.len() > 0
    &&& starts_segment(b[0])
    &&& forall|i: int| 0 <= i < b.len() && #[trigger] b[i] == '\\' ==> i + 1 < b.len() && starts_segment(b[i + 1])
    &&& forall|i: int|
        1 <= i < b.len() && #[trigger] b[i] != '\\' && b[i - 1] != '\\' ==> continues_segment(b[i])
}

/// The input names a class-like of `kind`.
pub open spec fn matches_kind(input: ElemV, kind: ClassLikeKind) -> bool {
    match input {
        ElemV::Str(info) => info.literal matches StrLitV::Value(v) && valid_class_name(v),
        ElemV::ClassLikeString(k, _) => k == kind,
        _ => false,
    }
}

fn starts(c: char) -> (r: bool)
    ensures
        r == starts_segment(c),
{
    ('a' <= c && c <= 'z') || ('A' <= c && c <= 'Z') || c == '_'
}

fn continues(c: char) -> (r: bool)
    ensures
        r == continues_segment(c),
{
    ('a' <= c && c <= 'z') || ('A' <= c && c <= 'Z') || ('0' <= c && c <= '9') || c == '_' || (c as u32) >= 0x80
}

/// Whether `s` is a syntactically well-formed PHP class name
/// (`Foo`, `\Foo`, `App\Service\Logger`).
pub fn is_valid_class_name(s: &Vec<char>) -> (r: bool)
    ensures
        r == valid_class_name(s@),
{
    let start: usize = if s.len() > 0 && s[0] == '\\' {
        1
    } else {
        0
    };
    let ghost b = class_name_body(s@);
    assert(b =~= s@.skip(start as int));
    if start >= s.len() {
        return false;
    }
    if !starts(s[start]) {
        assert(b[0] == s@[start as int]);
        return false;
    }
    assert(b[0] == s@[start as int]);
    let mut i: usize = start;
    while i < s.len()
        invariant
            start <= i <= s.len(),
            b == s@.skip(start as int),
            forall|k: int| 0 <= k < i - start && #[trigger] b[k] == '\\' ==> k + 1 < b.len() && starts_segment(b[k + 1]),
            b == class_name_body(s@),
            start < s.len(),
            b.len() == s.len() - start,
            starts_segment(b[0]),
            forall|k: int| 1 <= k < i - start && #[trigger] b[k] != '\\' && b[k - 1] != '\\' ==> continues_segment(b[k]),
        decreases s.len() - i,
    {
        let c = s[i];
        let ghost k = i - start;
        assert(b[k] == c);
        if c == '\\' {
            if i + 1 >= s.len() || !starts(s[i + 1]) {
                if i + 1 < s.len() {
                    assert(b[k + 1] == s@[i + 1]);
                }
                return false;
            }
            assert(b[k + 1] == s@[i + 1]);
        } else if i > start && s[i - 1] != '\\' && !continues(c) {
            assert(b[k - 1] == s@[i - 1]);
            return false;
        } else if i > start {
            assert(b[k - 1] == s@[i - 1]);
        }
        i += 1;
    }
    true
}

/// Whether `input` names a class-like of `kind`.
pub fn kind_matches(input: &Element, kind: ClassLikeKind) -> (r: bool)
    ensures
        r == matches_kind(input@, kind),
{
    match input {
        Element::String(info) => match &info.literal {
            StringLiteral::Value(v) => is_valid_class_name(v),
            _ => false,
        },
        Element::ClassLikeString(c) => c.kind == kind,
        _ => false,
    }
}

/// The object type named by `name`, without type arguments.
fn named_object_type(name: &Vec<char>) -> (t: Type)
    ensures
        t@.elements == seq![ElemV::Object { name: name@, args: Seq::empty() }],
        t@.flags == crate::element::empty_flags(),
{
    let args: Vec<Type> = Vec::new();
    assert(tvs(args) =~= Seq::<crate::element::TypeV>::empty());
    Type::single(Element::Object(ObjectInfo { name: copy_chars(name), type_args: args }))
}

/// The type a class-like-string container stands for.
fn represented_type(container: &Element) -> (r: Option<Type>)
    requires
        container@ is ClassLikeString,
    ensures
        match r {
            Some(t) => represented(container@->ClassLikeString_1) == Some(t@),
            None => represented(container@->ClassLikeString_1) is None,
        },
{
    match container {
        Element::ClassLikeString(info) => match &info.specifier {
            ClassLikeStringSpecifier::Any => None,
            ClassLikeStringSpecifier::Literal(n) => Some(named_object_type(n)),
            ClassLikeStringSpecifier::OfType(t) => Some(t.copy()),
            ClassLikeStringSpecifier::Generic(t) => Some(t.copy()),
        },
        _ => None,
    }
}

/// The type a class-like-string input stands for: its specifier, or the
/// class a string literal names.
fn input_represented_type(input: &Element) -> (r: Option<Type>)
    ensures
        match r {
            Some(t) => input_represented(input@) == Some(t@),
            None => input_represented(input@) is None,
        },
{
    match input {
        Element::ClassLikeString(_) => represented_type(input),
        Element::String(info) => match &info.literal {
            StringLiteral::Value(v) => {
                if is_valid_class_name(v) {
                    Some(named_object_type(v))
                } else {
                    None
                }
            },
            _ => None,
        },
        _ => None,
    }
}

/// A class-like-string container accepts an input of its kind whose
/// represented class refines the one the container expects.
pub fn refines(input: &Element, container: &Element, o: LatticeOptions, c: u8) -> (r: (bool, u8))
    requires
        container@ is ClassLikeString,
    ensures
        r == class_like_string_refines(input@, container@->ClassLikeString_0, container@->ClassLikeString_1, o, c),
    decreases esize(input@) + esize(container@), 0int,
{
    let kind = match container {
        Element::ClassLikeString(info) => info.kind,
        _ => {
            return (false, c);
        },
    };
    let any = match container {
        Element::ClassLikeString(info) => matches!(info.specifier, ClassLikeStringSpecifier::Any),
        _ => false,
    };
    if any {
        return (kind_matches(input, kind), c);
    }
    if !kind_matches(input, kind) {
        return (false, c);
    }
    let target = represented_type(container);
    let source = input_represented_type(input);
    match (source, target) {
        (Some(it), Some(ct)) => {
            proof {
                lemma_input_represented_smaller(input@);
                crate::lattice::refines_spec::lemma_represented_smaller(
                    container@->ClassLikeString_0,
                    container@->ClassLikeString_1,
                );
            }
            walk(&it, &ct, o, c)
        },
        _ => (false, c),
    }
}

} // verus!
