//! Well-known elements and types.
//!
//! Trivial-kind elements (those whose kind alone determines them) are
//! constants; every other well-known atom is built by a function of the
//! same name in lower case.
use vstd::prelude::*;

use crate::element::{
    empty_flags, CallV, CallableInfo, ClassLikeKind, ClassLikeStringInfo, ClassLikeStringSpecifier, ClsSpecV, ElemV, Element,
    FloatInfo, FlowFlags, IntInfo, MixedInfo, ResourceInfo, StrLitV, StringCasing, StringFlags, StringInfo,
    StringInfoV, StringLiteral, Truthiness, Type, TypeV,
};

verus! {

pub const NULL: Element = Element::Null;
pub const NEVER: Element = Element::Never;
pub const VOID: Element = Element::Void;
pub const PLACEHOLDER: Element = Element::Placeholder;
pub const TRUE: Element = Element::True;
pub const FALSE: Element = Element::False;
pub const SCALAR: Element = Element::Scalar;
pub const NUMERIC: Element = Element::Numeric;
pub const ARRAY_KEY: Element = Element::ArrayKey;
pub const BOOL: Element = Element::Bool;
pub const OBJECT: Element = Element::ObjectAny;

pub open spec fn mixed_info(non_null: bool, truthiness: Truthiness, empty: bool, isset_from_loop: bool) -> MixedInfo {
    MixedInfo { non_null, truthiness, empty, isset_from_loop }
}

/// The axis-free `mixed`.
pub open spec fn vanilla_mixed() -> MixedInfo {
    mixed_info(false, Truthiness::Undetermined, false, false)
}

pub open spec fn no_string_flags() -> StringFlags {
    StringFlags { non_empty: false, truthy: false, numeric: false, callable: false }
}

pub fn mixed() -> (e: Element)
    ensures
        e@ == ElemV::Mixed(vanilla_mixed()),
{
    Element::Mixed(MixedInfo { non_null: false, truthiness: Truthiness::Undetermined, empty: false, isset_from_loop: false })
}

pub fn non_null_mixed() -> (e: Element)
    ensures
        e@ == ElemV::Mixed(mixed_info(true, Truthiness::Undetermined, false, false)),
{
    Element::Mixed(MixedInfo { non_null: true, truthiness: Truthiness::Undetermined, empty: false, isset_from_loop: false })
}

pub fn truthy_mixed() -> (e: Element)
    ensures
        e@ == ElemV::Mixed(mixed_info(false, Truthiness::Truthy, false, false)),
{
    Element::Mixed(MixedInfo { non_null: false, truthiness: Truthiness::Truthy, empty: false, isset_from_loop: false })
}

pub fn falsy_mixed() -> (e: Element)
    ensures
        e@ == ElemV::Mixed(mixed_info(false, Truthiness::Falsy, false, false)),
{
    Element::Mixed(MixedInfo { non_null: false, truthiness: Truthiness::Falsy, empty: false, isset_from_loop: false })
}

pub fn isset_from_loop() -> (e: Element)
    ensures
        e@ == ElemV::Mixed(mixed_info(false, Truthiness::Undetermined, false, true)),
{
    Element::Mixed(MixedInfo { non_null: false, truthiness: Truthiness::Undetermined, empty: false, isset_from_loop: true })
}

pub fn general_int() -> (e: Element)
    ensures
        e@ == ElemV::Int(IntInfo::Unspecified),
{
    Element::Int(IntInfo::Unspecified)
}

pub fn positive_int() -> (e: Element)
    ensures
        e@ == ElemV::Int(IntInfo::Range(Some(1), None)),
{
    Element::Int(IntInfo::Range(Some(1), None))
}

pub fn negative_int() -> (e: Element)
    ensures
        e@ == ElemV::Int(IntInfo::Range(None, Some(-1i64))),
{
    Element::Int(IntInfo::Range(None, Some(-1i64)))
}

pub fn non_positive_int() -> (e: Element)
    ensures
        e@ == ElemV::Int(IntInfo::Range(None, Some(0))),
{
    Element::Int(IntInfo::Range(None, Some(0)))
}

pub fn non_negative_int() -> (e: Element)
    ensures
        e@ == ElemV::Int(IntInfo::Range(Some(0), None)),
{
    Element::Int(IntInfo::Range(Some(0), None))
}

pub fn literal_int() -> (e: Element)
    ensures
        e@ == ElemV::Int(IntInfo::UnspecifiedLiteral),
{
    Element::Int(IntInfo::UnspecifiedLiteral)
}

pub fn int_zero() -> (e: Element)
    ensures
        e@ == ElemV::Int(IntInfo::Literal(0)),
{
    Element::Int(IntInfo::Literal(0))
}

pub fn int_one() -> (e: Element)
    ensures
        e@ == ElemV::Int(IntInfo::Literal(1)),
{
    Element::Int(IntInfo::Literal(1))
}

pub fn int_minus_one() -> (e: Element)
    ensures
        e@ == ElemV::Int(IntInfo::Literal(-1i64)),
{
    Element::Int(IntInfo::Literal(-1))
}

pub fn float() -> (e: Element)
    ensures
        e@ == ElemV::Float(FloatInfo::Unspecified),
{
    Element::Float(FloatInfo::Unspecified)
}

pub fn literal_float() -> (e: Element)
    ensures
        e@ == ElemV::Float(FloatInfo::UnspecifiedLiteral),
{
    Element::Float(FloatInfo::UnspecifiedLiteral)
}

pub open spec fn string_view(literal: StrLitV, casing: StringCasing, flags: StringFlags) -> ElemV {
    ElemV::Str(StringInfoV { literal, casing, flags })
}

fn string_atom(casing: StringCasing, non_empty: bool, truthy: bool, numeric: bool, callable: bool) -> (e: Element)
    ensures
        e@ == string_view(
            StrLitV::Absent,
            casing,
            StringFlags { non_empty, truthy, numeric, callable },
        ),
{
    Element::String(
        StringInfo {
            literal: StringLiteral::Absent,
            casing,
            flags: StringFlags { non_empty, truthy, numeric, callable },
        },
    )
}

pub fn string() -> (e: Element)
    ensures
        e@ == string_view(StrLitV::Absent, StringCasing::Unspecified, no_string_flags()),
{
    string_atom(StringCasing::Unspecified, false, false, false, false)
}

pub fn non_empty_string() -> (e: Element)
    ensures
        e@ == string_view(
            StrLitV::Absent,
            StringCasing::Unspecified,
            StringFlags { non_empty: true, ..no_string_flags() },
        ),
{
    string_atom(StringCasing::Unspecified, true, false, false, false)
}

pub fn truthy_string() -> (e: Element)
    ensures
        e@ == string_view(
            StrLitV::Absent,
            StringCasing::Unspecified,
            StringFlags { non_empty: true, truthy: true, ..no_string_flags() },
        ),
{
    string_atom(StringCasing::Unspecified, true, true, false, false)
}

pub fn lowercase_string() -> (e: Element)
    ensures
        e@ == string_view(StrLitV::Absent, StringCasing::Lowercase, no_string_flags()),
{
    string_atom(StringCasing::Lowercase, false, false, false, false)
}

pub fn uppercase_string() -> (e: Element)
    ensures
        e@ == string_view(StrLitV::Absent, StringCasing::Uppercase, no_string_flags()),
{
    string_atom(StringCasing::Uppercase, false, false, false, false)
}

pub fn non_empty_lowercase_string() -> (e: Element)
    ensures
        e@ == string_view(
            StrLitV::Absent,
            StringCasing::Lowercase,
            StringFlags { non_empty: true, ..no_string_flags() },
        ),
{
    string_atom(StringCasing::Lowercase, true, false, false, false)
}

pub fn non_empty_uppercase_string() -> (e: Element)
    ensures
        e@ == string_view(
            StrLitV::Absent,
            StringCasing::Uppercase,
            StringFlags { non_empty: true, ..no_string_flags() },
        ),
{
    string_atom(StringCasing::Uppercase, true, false, false, false)
}

pub fn truthy_lowercase_string() -> (e: Element)
    ensures
        e@ == string_view(
            StrLitV::Absent,
            StringCasing::Lowercase,
            StringFlags { non_empty: true, truthy: true, ..no_string_flags() },
        ),
{
    string_atom(StringCasing::Lowercase, true, true, false, false)
}

pub fn truthy_uppercase_string() -> (e: Element)
    ensures
        e@ == string_view(
            StrLitV::Absent,
            StringCasing::Uppercase,
            StringFlags { non_empty: true, truthy: true, ..no_string_flags() },
        ),
{
    string_atom(StringCasing::Uppercase, true, true, false, false)
}

pub fn numeric_string() -> (e: Element)
    ensures
        e@ == string_view(
            StrLitV::Absent,
            StringCasing::Unspecified,
            StringFlags { numeric: true, ..no_string_flags() },
        ),
{
    string_atom(StringCasing::Unspecified, false, false, true, false)
}

pub fn truthy_numeric_string() -> (e: Element)
    ensures
        e@ == string_view(
            StrLitV::Absent,
            StringCasing::Unspecified,
            StringFlags { non_empty: true, truthy: true, numeric: true, callable: false },
        ),
{
    string_atom(StringCasing::Unspecified, true, true, true, false)
}

pub fn callable_string() -> (e: Element)
    ensures
        e@ == string_view(
            StrLitV::Absent,
            StringCasing::Unspecified,
            StringFlags { callable: true, ..no_string_flags() },
        ),
{
    string_atom(StringCasing::Unspecified, false, false, false, true)
}

pub fn lowercase_callable_string() -> (e: Element)
    ensures
        e@ == string_view(
            StrLitV::Absent,
            StringCasing::Lowercase,
            StringFlags { callable: true, ..no_string_flags() },
        ),
{
    string_atom(StringCasing::Lowercase, false, false, false, true)
}

pub fn uppercase_callable_string() -> (e: Element)
    ensures
        e@ == string_view(
            StrLitV::Absent,
            StringCasing::Uppercase,
            StringFlags { callable: true, ..no_string_flags() },
        ),
{
    string_atom(StringCasing::Uppercase, false, false, false, true)
}

pub fn literal_string() -> (e: Element)
    ensures
        e@ == string_view(StrLitV::Unspecified, StringCasing::Unspecified, no_string_flags()),
{
    Element::String(
        StringInfo {
            literal: StringLiteral::Unspecified,
            casing: StringCasing::Unspecified,
            flags: StringFlags { non_empty: false, truthy: false, numeric: false, callable: false },
        },
    )
}

pub fn non_empty_literal_string() -> (e: Element)
    ensures
        e@ == string_view(
            StrLitV::Unspecified,
            StringCasing::Unspecified,
            StringFlags { non_empty: true, ..no_string_flags() },
        ),
{
    Element::String(
        StringInfo {
            literal: StringLiteral::Unspecified,
            casing: StringCasing::Unspecified,
            flags: StringFlags { non_empty: true, truthy: false, numeric: false, callable: false },
        },
    )
}

pub fn empty_string() -> (e: Element)
    ensures
        e@ == string_view(StrLitV::Value(Seq::empty()), StringCasing::Unspecified, no_string_flags()),
{
    let e = Element::String(
        StringInfo {
            literal: StringLiteral::Value(Vec::new()),
            casing: StringCasing::Unspecified,
            flags: StringFlags { non_empty: false, truthy: false, numeric: false, callable: false },
        },
    );
    assert(e@ == string_view(StrLitV::Value(Seq::empty()), StringCasing::Unspecified, no_string_flags()));
    e
}

fn class_like_any(kind: ClassLikeKind) -> (e: Element)
    ensures
        e@ == ElemV::ClassLikeString(kind, ClsSpecV::Any),
{
    Element::ClassLikeString(ClassLikeStringInfo { kind, specifier: ClassLikeStringSpecifier::Any })
}

pub fn class_string() -> (e: Element)
    ensures
        e@ == ElemV::ClassLikeString(ClassLikeKind::Class, ClsSpecV::Any),
{
    class_like_any(ClassLikeKind::Class)
}

pub fn interface_string() -> (e: Element)
    ensures
        e@ == ElemV::ClassLikeString(ClassLikeKind::Interface, ClsSpecV::Any),
{
    class_like_any(ClassLikeKind::Interface)
}

pub fn enum_string() -> (e: Element)
    ensures
        e@ == ElemV::ClassLikeString(ClassLikeKind::Enum, ClsSpecV::Any),
{
    class_like_any(ClassLikeKind::Enum)
}

pub fn trait_string() -> (e: Element)
    ensures
        e@ == ElemV::ClassLikeString(ClassLikeKind::Trait, ClsSpecV::Any),
{
    class_like_any(ClassLikeKind::Trait)
}

pub fn resource() -> (e: Element)
    ensures
        e@ == ElemV::Resource(ResourceInfo::Any),
{
    Element::Resource(ResourceInfo::Any)
}

pub fn open_resource() -> (e: Element)
    ensures
        e@ == ElemV::Resource(ResourceInfo::Open),
{
    Element::Resource(ResourceInfo::Open)
}

pub fn closed_resource() -> (e: Element)
    ensures
        e@ == ElemV::Resource(ResourceInfo::Closed),
{
    Element::Resource(ResourceInfo::Closed)
}

pub open spec fn type_of(elements: Seq<ElemV>) -> TypeV {
    TypeV { elements, flags: empty_flags() }
}

pub fn type_never() -> (t: Type)
    ensures
        t@ == type_of(seq![ElemV::Never]),
{
    Type::single(Element::Never)
}

pub fn type_null() -> (t: Type)
    ensures
        t@ == type_of(seq![ElemV::Null]),
{
    Type::single(Element::Null)
}

pub fn type_void() -> (t: Type)
    ensures
        t@ == type_of(seq![ElemV::Void]),
{
    Type::single(Element::Void)
}

pub fn type_mixed() -> (t: Type)
    ensures
        t@ == type_of(seq![ElemV::Mixed(vanilla_mixed())]),
{
    Type::single(mixed())
}

pub fn type_bool() -> (t: Type)
    ensures
        t@ == type_of(seq![ElemV::Bool]),
{
    Type::single(Element::Bool)
}

pub fn type_true() -> (t: Type)
    ensures
        t@ == type_of(seq![ElemV::True]),
{
    Type::single(Element::True)
}

pub fn type_false() -> (t: Type)
    ensures
        t@ == type_of(seq![ElemV::False]),
{
    Type::single(Element::False)
}

pub fn type_int() -> (t: Type)
    ensures
        t@ == type_of(seq![ElemV::Int(IntInfo::Unspecified)]),
{
    Type::single(general_int())
}

pub fn type_float() -> (t: Type)
    ensures
        t@ == type_of(seq![ElemV::Float(FloatInfo::Unspecified)]),
{
    Type::single(float())
}

pub fn type_string() -> (t: Type)
    ensures
        t@ == type_of(seq![string_view(StrLitV::Absent, StringCasing::Unspecified, no_string_flags())]),
{
    Type::single(string())
}

pub fn type_object() -> (t: Type)
    ensures
        t@ == type_of(seq![ElemV::ObjectAny]),
{
    Type::single(Element::ObjectAny)
}

/// `callable`: any callable value.
pub fn callable() -> (e: Element)
    ensures
        e@ == ElemV::Callable(CallV::Any),
{
    Element::Callable(CallableInfo::Any)
}

pub fn type_callable() -> (t: Type)
    ensures
        t@ == type_of(seq![ElemV::Callable(CallV::Any)]),
{
    Type::single(callable())
}

pub fn type_scalar() -> (t: Type)
    ensures
        t@ == type_of(seq![ElemV::Scalar]),
{
    Type::single(Element::Scalar)
}

pub fn type_numeric() -> (t: Type)
    ensures
        t@ == type_of(seq![ElemV::Numeric]),
{
    Type::single(Element::Numeric)
}

pub fn type_array_key() -> (t: Type)
    ensures
        t@ == type_of(seq![ElemV::ArrayKey]),
{
    Type::single(Element::ArrayKey)
}

fn pair(a: Element, b: Element) -> (t: Type)
    requires
        a@ != b@,
    ensures
        t@ == type_of(seq![a@, b@]),
{
    let ghost (av, bv) = (a@, b@);
    let mut v: Vec<Element> = Vec::new();
    v.push(a);
    v.push(b);
    let t = Type { elements: v, flags: FlowFlags::empty() };
    assert(t@.elements =~= seq![av, bv]);
    t
}

pub fn type_int_or_float() -> (t: Type)
    ensures
        t@ == type_of(seq![ElemV::Int(IntInfo::Unspecified), ElemV::Float(FloatInfo::Unspecified)]),
{
    pair(general_int(), float())
}

pub fn type_int_or_string() -> (t: Type)
    ensures
        t@ == type_of(
            seq![
                ElemV::Int(IntInfo::Unspecified),
                string_view(StrLitV::Absent, StringCasing::Unspecified, no_string_flags()),
            ],
        ),
{
    pair(general_int(), string())
}

pub fn type_null_or_scalar() -> (t: Type)
    ensures
        t@ == type_of(seq![ElemV::Null, ElemV::Scalar]),
{
    pair(Element::Null, Element::Scalar)
}

pub fn type_null_or_string() -> (t: Type)
    ensures
        t@ == type_of(
            seq![ElemV::Null, string_view(StrLitV::Absent, StringCasing::Unspecified, no_string_flags())],
        ),
{
    pair(Element::Null, string())
}

pub fn type_null_or_int() -> (t: Type)
    ensures
        t@ == type_of(seq![ElemV::Null, ElemV::Int(IntInfo::Unspecified)]),
{
    pair(Element::Null, general_int())
}

pub fn type_null_or_float() -> (t: Type)
    ensures
        t@ == type_of(seq![ElemV::Null, ElemV::Float(FloatInfo::Unspecified)]),
{
    pair(Element::Null, float())
}

pub fn type_null_or_object() -> (t: Type)
    ensures
        t@ == type_of(seq![ElemV::Null, ElemV::ObjectAny]),
{
    pair(Element::Null, Element::ObjectAny)
}

/// The empty array `array{}`: the sealed shape with no entries.
pub fn empty_array() -> (e: Element)
    ensures
        e@ == (ElemV::Array { key: None, value: None, items: Seq::empty(), non_empty: false }),
{
    crate::meet::truthiness::empty_array()
}

/// `array<array-key, mixed>`.
pub fn array_key_mixed() -> (e: Element)
    ensures
        e@ == (ElemV::Array {
            key: Some(type_of(seq![ElemV::ArrayKey])),
            value: Some(type_of(seq![ElemV::Mixed(vanilla_mixed())])),
            items: Seq::empty(),
            non_empty: false,
        }),
{
    Element::keyed_unsealed(type_array_key(), type_mixed(), false)
}

/// `iterable<mixed, mixed>`.
pub fn iterable_mixed_mixed() -> (e: Element)
    ensures
        e@ == (ElemV::Iterable {
            key: type_of(seq![ElemV::Mixed(vanilla_mixed())]),
            value: type_of(seq![ElemV::Mixed(vanilla_mixed())]),
        }),
{
    Element::iterable(type_mixed(), type_mixed())
}

} // verus!
