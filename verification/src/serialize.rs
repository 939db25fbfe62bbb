//! Structural serialization of types.
//!
//! [`SerializableType`] is a self-contained mirror of a [`Type`] that can be
//! stored and read back: [`Type::to_serializable`] writes it and
//! [`SerializableType::intern`] reads it. A round trip gives back the same
//! structural content, every axis and every nested type included.
use vstd::prelude::*;

use crate::element::{
    AliasV, CallV, CallableAlias, CallableInfo, ClassLikeKind, ClassLikeStringInfo, ClassLikeStringSpecifier, ClsSpecV,
    ConditionalInfo, DefiningEntity, DerivedInfo, DerivedV, ElemV, Element, EntityV, FloatInfo, FlowFlags,
    GenericParameterInfo, IntInfo, IterableInfo, KeyedArrayInfo, ListInfo, MixedInfo, ObjectInfo, ParamInfo, ParamV,
    ArrayKey, ItemV, KeyV, KnownElemV, KnownElementEntry, KnownItemEntry, item_view, items_size, items_view,
    KnownPropertyEntry, ObjectShapeInfo, PropV, lemma_props_size_elem, prop_view, props_size,
    props_view,
    kelems_size, key_view, known_elem_view, known_elems_view, lemma_items_size_elem, lemma_kelems_size_elem,
    ResourceInfo, SigV, Signature, StrLitV, StringCasing, StringFlags, StringInfo, StringInfoV, StringLiteral,
    Truthiness, Type, TypeV, Visibility, NameSelector, SelectorV, ReferenceInfo, copy_chars, esize, lemma_elem_smaller, lemma_pssize_elem,
    lemma_tssize_elem, param_view, params_view, pssize, sig_view, sigsize, tsize, tssize, tvs,
};

verus! {

broadcast use vstd::std_specs::vec::group_vec_axioms;

#[derive(Debug, Clone, Copy, PartialEq, Eq, Structural)]
pub enum SerializableTruthiness {
    Undetermined,
    Truthy,
    Falsy,
}

#[derive(Debug, Clone, Copy, PartialEq, Eq, Structural)]
pub enum SerializableInt {
    Unspecified,
    UnspecifiedLiteral,
    Literal(i64),
    Range { lower: Option<i64>, upper: Option<i64> },
}

/// A float payload; a literal is held by its IEEE-754 bit pattern.
#[derive(Debug, Clone, Copy, PartialEq, Eq, Structural)]
pub enum SerializableFloat {
    Unspecified,
    UnspecifiedLiteral,
    Literal(u64),
}

#[derive(Debug)]
pub enum SerializableStringLiteral {
    Absent,
    Unspecified,
    Value(Vec<char>),
}

#[derive(Debug, Clone, Copy, PartialEq, Eq, Structural)]
pub enum SerializableStringCasing {
    Unspecified,
    Lowercase,
    Uppercase,
}

#[derive(Debug)]
pub struct SerializableString {
    pub literal: SerializableStringLiteral,
    pub casing: SerializableStringCasing,
    pub is_numeric: bool,
    pub is_truthy: bool,
    pub is_non_empty: bool,
    pub is_callable: bool,
}

#[derive(Debug, Clone, Copy, PartialEq, Eq, Structural)]
pub enum SerializableClassLikeKind {
    Class,
    Interface,
    Enum,
    Trait,
}

#[derive(Debug)]
pub enum SerializableClassLikeSpecifier {
    Any,
    Literal { value: Vec<char> },
    OfType { constraint: Box<SerializableType> },
    Generic { constraint: Box<SerializableType> },
}

#[derive(Debug, Clone, Copy, PartialEq, Eq, Structural)]
pub enum SerializableResource {
    Any,
    Open,
    Closed,
}

#[derive(Debug)]
pub enum SerializableDefiningEntity {
    ClassLike(Vec<char>),
    Function(Vec<char>),
}

#[derive(Debug, Clone, Copy, PartialEq, Eq, Structural)]
pub enum SerializableVisibility {
    Public,
    Protected,
    Private,
}

#[derive(Debug)]
pub enum SerializableNameSelector {
    Identifier(Vec<char>),
    StartsWith(Vec<char>),
    EndsWith(Vec<char>),
    Contains(Vec<char>),
    Wildcard,
}

/// A key written in an array shape.
#[derive(Debug)]
pub enum SerializableArrayKey {
    Int(i64),
    String(Vec<char>),
    Const { class: Vec<char>, name: Vec<char> },
}

#[derive(Debug)]
pub struct SerializableKnownProperty {
    pub name: Vec<char>,
    pub value: SerializableType,
    pub optional: bool,
}

#[derive(Debug)]
pub struct SerializableKnownItem {
    pub key: SerializableArrayKey,
    pub value: SerializableType,
    pub optional: bool,
}

#[derive(Debug)]
pub struct SerializableKnownElement {
    pub index: u32,
    pub value: SerializableType,
    pub optional: bool,
}

#[derive(Debug)]
pub struct SerializableParam {
    pub name: Vec<char>,
    pub type_: SerializableType,
    pub has_default: bool,
    pub by_reference: bool,
    pub variadic: bool,
}

/// A signature; `None` for the parameters stands for an unspecified list.
#[derive(Debug)]
pub struct SerializableSignature {
    pub return_type: SerializableType,
    pub throws: Option<SerializableType>,
    pub parameters: Option<Vec<SerializableParam>>,
    pub is_variadic: bool,
    pub is_pure: bool,
}

#[derive(Debug)]
pub enum SerializableCallableAlias {
    Function(Vec<char>),
    Method { class: Vec<char>, method: Vec<char> },
    Closure { start: u32, end: u32 },
}

#[derive(Debug)]
pub enum SerializableCallable {
    Any,
    Signature(SerializableSignature),
    Closure(SerializableSignature),
    Alias(SerializableCallableAlias),
}

#[derive(Debug)]
pub enum SerializableDerived {
    KeyOf(Box<SerializableType>),
    ValueOf(Box<SerializableType>),
    PropertiesOf { target: Box<SerializableType>, visibility: Option<SerializableVisibility> },
    IndexAccess { target: Box<SerializableType>, index: Box<SerializableType> },
    IntMask(Vec<SerializableType>),
    IntMaskOf(Box<SerializableType>),
    TemplateType {
        object: Box<SerializableType>,
        class_name: Box<SerializableType>,
        template_name: Box<SerializableType>,
    },
    New(Box<SerializableType>),
}

/// Self-contained structural form of a [`Type`]. `flags` holds the flow
/// flags as bits: 1 for ignore-nullable-issues, 2 for
/// ignore-falsable-issues.
#[derive(Debug)]
pub struct SerializableType {
    pub elements: Vec<SerializableElement>,
    pub flags: u16,
}

/// Self-contained structural form of one element.
#[derive(Debug)]
pub enum SerializableElement {
    Null,
    Never,
    Void,
    Placeholder,
    Mixed { non_null: bool, is_empty: bool, truthiness: SerializableTruthiness, isset_from_loop: bool },
    Bool,
    True,
    False,
    Int(SerializableInt),
    Float(SerializableFloat),
    String(SerializableString),
    ClassLikeString { kind: SerializableClassLikeKind, specifier: SerializableClassLikeSpecifier },
    Scalar,
    Numeric,
    ArrayKey,
    ObjectAny,
    Object { name: Vec<char>, type_args: Vec<SerializableType> },
    Enum { name: Vec<char>, case: Option<Vec<char>> },
    /// A keyed array; no entries stands for a shape with none known.
    Array {
        key_param: Option<Box<SerializableType>>,
        value_param: Option<Box<SerializableType>>,
        known_items: Vec<SerializableKnownItem>,
        non_empty: bool,
    },
    List {
        element_type: Box<SerializableType>,
        known_elements: Vec<SerializableKnownElement>,
        known_count: Option<u32>,
        non_empty: bool,
    },
    Iterable { key_type: Box<SerializableType>, value_type: Box<SerializableType> },
    Resource(SerializableResource),
    GenericParameter {
        name: Vec<char>,
        defining_entity: SerializableDefiningEntity,
        constraint: Box<SerializableType>,
    },
    Callable(SerializableCallable),
    Conditional {
        subject: Box<SerializableType>,
        target: Box<SerializableType>,
        then_type: Box<SerializableType>,
        otherwise: Box<SerializableType>,
        negated: bool,
    },
    Derived(SerializableDerived),
    Variable { name: Vec<char> },
    Reference { name: Vec<char>, type_args: Vec<SerializableType> },
    MemberReference { class_like_name: Vec<char>, selector: SerializableNameSelector },
    GlobalReference { selector: SerializableNameSelector },
    Alias { class_name: Vec<char>, alias_name: Vec<char> },
    ObjectShape { known_properties: Vec<SerializableKnownProperty>, sealed: bool },
    HasMethod { method_name: Vec<char> },
    HasProperty { property_name: Vec<char> },
}

// ---------------------------------------------------------------------
// The payload codecs.
// ---------------------------------------------------------------------
pub open spec fn truthiness_of_ser(t: SerializableTruthiness) -> Truthiness {
    match t {
        SerializableTruthiness::Undetermined => Truthiness::Undetermined,
        SerializableTruthiness::Truthy => Truthiness::Truthy,
        SerializableTruthiness::Falsy => Truthiness::Falsy,
    }
}

pub fn encode_truthiness(t: Truthiness) -> (r: SerializableTruthiness)
    ensures
        truthiness_of_ser(r) == t,
{
    match t {
        Truthiness::Undetermined => SerializableTruthiness::Undetermined,
        Truthiness::Truthy => SerializableTruthiness::Truthy,
        Truthiness::Falsy => SerializableTruthiness::Falsy,
    }
}

pub fn decode_truthiness(t: SerializableTruthiness) -> (r: Truthiness)
    ensures
        r == truthiness_of_ser(t),
{
    match t {
        SerializableTruthiness::Undetermined => Truthiness::Undetermined,
        SerializableTruthiness::Truthy => Truthiness::Truthy,
        SerializableTruthiness::Falsy => Truthiness::Falsy,
    }
}

pub open spec fn int_of_ser(s: SerializableInt) -> IntInfo {
    match s {
        SerializableInt::Unspecified => IntInfo::Unspecified,
        SerializableInt::UnspecifiedLiteral => IntInfo::UnspecifiedLiteral,
        SerializableInt::Literal(n) => IntInfo::Literal(n),
        SerializableInt::Range { lower, upper } => IntInfo::Range(lower, upper),
    }
}

pub fn encode_int(info: IntInfo) -> (r: SerializableInt)
    ensures
        int_of_ser(r) == info,
{
    match info {
        IntInfo::Unspecified => SerializableInt::Unspecified,
        IntInfo::UnspecifiedLiteral => SerializableInt::UnspecifiedLiteral,
        IntInfo::Literal(n) => SerializableInt::Literal(n),
        IntInfo::Range(lower, upper) => SerializableInt::Range { lower, upper },
    }
}

pub fn decode_int(s: SerializableInt) -> (r: IntInfo)
    ensures
        r == int_of_ser(s),
{
    match s {
        SerializableInt::Unspecified => IntInfo::Unspecified,
        SerializableInt::UnspecifiedLiteral => IntInfo::UnspecifiedLiteral,
        SerializableInt::Literal(n) => IntInfo::Literal(n),
        SerializableInt::Range { lower, upper } => IntInfo::Range(lower, upper),
    }
}

pub open spec fn float_of_ser(s: SerializableFloat) -> FloatInfo {
    match s {
        SerializableFloat::Unspecified => FloatInfo::Unspecified,
        SerializableFloat::UnspecifiedLiteral => FloatInfo::UnspecifiedLiteral,
        SerializableFloat::Literal(b) => FloatInfo::Literal(b),
    }
}

fn encode_float(info: FloatInfo) -> (r: SerializableFloat)
    ensures
        float_of_ser(r) == info,
{
    match info {
        FloatInfo::Unspecified => SerializableFloat::Unspecified,
        FloatInfo::UnspecifiedLiteral => SerializableFloat::UnspecifiedLiteral,
        FloatInfo::Literal(b) => SerializableFloat::Literal(b),
    }
}

fn decode_float(s: SerializableFloat) -> (r: FloatInfo)
    ensures
        r == float_of_ser(s),
{
    match s {
        SerializableFloat::Unspecified => FloatInfo::Unspecified,
        SerializableFloat::UnspecifiedLiteral => FloatInfo::UnspecifiedLiteral,
        SerializableFloat::Literal(b) => FloatInfo::Literal(b),
    }
}

pub open spec fn casing_of_ser(s: SerializableStringCasing) -> StringCasing {
    match s {
        SerializableStringCasing::Unspecified => StringCasing::Unspecified,
        SerializableStringCasing::Lowercase => StringCasing::Lowercase,
        SerializableStringCasing::Uppercase => StringCasing::Uppercase,
    }
}

fn encode_casing(c: StringCasing) -> (r: SerializableStringCasing)
    ensures
        casing_of_ser(r) == c,
{
    match c {
        StringCasing::Unspecified => SerializableStringCasing::Unspecified,
        StringCasing::Lowercase => SerializableStringCasing::Lowercase,
        StringCasing::Uppercase => SerializableStringCasing::Uppercase,
    }
}

fn decode_casing(s: SerializableStringCasing) -> (r: StringCasing)
    ensures
        r == casing_of_ser(s),
{
    match s {
        SerializableStringCasing::Unspecified => StringCasing::Unspecified,
        SerializableStringCasing::Lowercase => StringCasing::Lowercase,
        SerializableStringCasing::Uppercase => StringCasing::Uppercase,
    }
}

pub open spec fn kind_of_ser(k: SerializableClassLikeKind) -> ClassLikeKind {
    match k {
        SerializableClassLikeKind::Class => ClassLikeKind::Class,
        SerializableClassLikeKind::Interface => ClassLikeKind::Interface,
        SerializableClassLikeKind::Enum => ClassLikeKind::Enum,
        SerializableClassLikeKind::Trait => ClassLikeKind::Trait,
    }
}

pub fn encode_class_like_kind(k: ClassLikeKind) -> (r: SerializableClassLikeKind)
    ensures
        kind_of_ser(r) == k,
{
    match k {
        ClassLikeKind::Class => SerializableClassLikeKind::Class,
        ClassLikeKind::Interface => SerializableClassLikeKind::Interface,
        ClassLikeKind::Enum => SerializableClassLikeKind::Enum,
        ClassLikeKind::Trait => SerializableClassLikeKind::Trait,
    }
}

pub fn decode_class_like_kind(k: SerializableClassLikeKind) -> (r: ClassLikeKind)
    ensures
        r == kind_of_ser(k),
{
    match k {
        SerializableClassLikeKind::Class => ClassLikeKind::Class,
        SerializableClassLikeKind::Interface => ClassLikeKind::Interface,
        SerializableClassLikeKind::Enum => ClassLikeKind::Enum,
        SerializableClassLikeKind::Trait => ClassLikeKind::Trait,
    }
}

pub open spec fn resource_of_ser(r: SerializableResource) -> ResourceInfo {
    match r {
        SerializableResource::Any => ResourceInfo::Any,
        SerializableResource::Open => ResourceInfo::Open,
        SerializableResource::Closed => ResourceInfo::Closed,
    }
}

pub fn encode_resource(info: ResourceInfo) -> (r: SerializableResource)
    ensures
        resource_of_ser(r) == info,
{
    match info {
        ResourceInfo::Any => SerializableResource::Any,
        ResourceInfo::Open => SerializableResource::Open,
        ResourceInfo::Closed => SerializableResource::Closed,
    }
}

pub fn decode_resource(r: SerializableResource) -> (info: ResourceInfo)
    ensures
        info == resource_of_ser(r),
{
    match r {
        SerializableResource::Any => ResourceInfo::Any,
        SerializableResource::Open => ResourceInfo::Open,
        SerializableResource::Closed => ResourceInfo::Closed,
    }
}

pub open spec fn visibility_of_ser(v: SerializableVisibility) -> Visibility {
    match v {
        SerializableVisibility::Public => Visibility::Public,
        SerializableVisibility::Protected => Visibility::Protected,
        SerializableVisibility::Private => Visibility::Private,
    }
}

pub fn encode_visibility(v: Visibility) -> (r: SerializableVisibility)
    ensures
        visibility_of_ser(r) == v,
{
    match v {
        Visibility::Public => SerializableVisibility::Public,
        Visibility::Protected => SerializableVisibility::Protected,
        Visibility::Private => SerializableVisibility::Private,
    }
}

pub fn decode_visibility(v: SerializableVisibility) -> (r: Visibility)
    ensures
        r == visibility_of_ser(v),
{
    match v {
        SerializableVisibility::Public => Visibility::Public,
        SerializableVisibility::Protected => Visibility::Protected,
        SerializableVisibility::Private => Visibility::Private,
    }
}

/// The flow flags the bits stand for.
pub open spec fn flags_of_bits(b: u16) -> FlowFlags {
    FlowFlags { ignore_nullable_issues: b % 2 == 1, ignore_falsable_issues: (b / 2) % 2 == 1 }
}

/// The bits of the flow flags.
pub open spec fn bits_of_flags(f: FlowFlags) -> u16 {
    ((if f.ignore_nullable_issues { 1u16 } else { 0u16 }) + (if f.ignore_falsable_issues { 2u16 } else { 0u16 })) as u16
}

fn encode_flags(f: FlowFlags) -> (b: u16)
    ensures
        b == bits_of_flags(f),
        flags_of_bits(b) == f,
{
    let low: u16 = if f.ignore_nullable_issues { 1 } else { 0 };
    let high: u16 = if f.ignore_falsable_issues { 2 } else { 0 };
    low + high
}

fn decode_flags(b: u16) -> (f: FlowFlags)
    ensures
        f == flags_of_bits(b),
{
    FlowFlags { ignore_nullable_issues: b % 2 == 1, ignore_falsable_issues: (b / 2) % 2 == 1 }
}

// ---------------------------------------------------------------------
// What a serializable form stands for.
// ---------------------------------------------------------------------
pub open spec fn lit_of_ser(l: SerializableStringLiteral) -> StrLitV {
    match l {
        SerializableStringLiteral::Absent => StrLitV::Absent,
        SerializableStringLiteral::Unspecified => StrLitV::Unspecified,
        SerializableStringLiteral::Value(v) => StrLitV::Value(v@),
    }
}

pub open spec fn string_of_ser(s: SerializableString) -> StringInfoV {
    StringInfoV {
        literal: lit_of_ser(s.literal),
        casing: casing_of_ser(s.casing),
        flags: StringFlags {
            non_empty: s.is_non_empty,
            truthy: s.is_truthy,
            numeric: s.is_numeric,
            callable: s.is_callable,
        },
    }
}

pub open spec fn entity_of_ser(d: SerializableDefiningEntity) -> EntityV {
    match d {
        SerializableDefiningEntity::ClassLike(n) => EntityV::ClassLike(n@),
        SerializableDefiningEntity::Function(n) => EntityV::Function(n@),
    }
}

/// The type a serializable form stands for.
pub open spec fn type_of_ser(s: SerializableType) -> TypeV
    decreases s,
{
    TypeV {
        elements: Seq::new(
            s.elements@.len(),
            |i: int|
                if 0 <= i < s.elements@.len() {
                    elem_of_ser(s.elements@[i])
                } else {
                    ElemV::Null
                },
        ),
        flags: flags_of_bits(s.flags),
    }
}

pub open spec fn types_of_ser(ts: Vec<SerializableType>) -> Seq<TypeV>
    decreases ts,
{
    Seq::new(
        ts@.len(),
        |i: int|
            if 0 <= i < ts@.len() {
                type_of_ser(ts@[i])
            } else {
                TypeV { elements: Seq::empty(), flags: crate::element::empty_flags() }
            },
    )
}

pub open spec fn selector_of_ser(s: SerializableNameSelector) -> SelectorV {
    match s {
        SerializableNameSelector::Identifier(n) => SelectorV::Identifier(n@),
        SerializableNameSelector::StartsWith(n) => SelectorV::StartsWith(n@),
        SerializableNameSelector::EndsWith(n) => SelectorV::EndsWith(n@),
        SerializableNameSelector::Contains(n) => SelectorV::Contains(n@),
        SerializableNameSelector::Wildcard => SelectorV::Wildcard,
    }
}

pub open spec fn alias_of_ser(a: SerializableCallableAlias) -> AliasV {
    match a {
        SerializableCallableAlias::Function(n) => AliasV::Function(n@),
        SerializableCallableAlias::Method { class, method } => AliasV::Method(class@, method@),
        SerializableCallableAlias::Closure { start, end } => AliasV::Closure(start, end),
    }
}

pub open spec fn key_of_ser(k: SerializableArrayKey) -> KeyV {
    match k {
        SerializableArrayKey::Int(n) => KeyV::Int(n),
        SerializableArrayKey::String(s) => KeyV::Str(s@),
        SerializableArrayKey::Const { class, name } => KeyV::Const(class@, name@),
    }
}

pub open spec fn prop_of_ser(e: SerializableKnownProperty) -> PropV
    decreases e,
{
    PropV { name: e.name@, value: type_of_ser(e.value), optional: e.optional }
}

pub open spec fn props_of_ser(es: Vec<SerializableKnownProperty>) -> Seq<PropV>
    decreases es,
{
    Seq::new(
        es@.len(),
        |i: int|
            if 0 <= i < es@.len() {
                prop_of_ser(es@[i])
            } else {
                PropV {
                    name: Seq::empty(),
                    value: TypeV { elements: Seq::empty(), flags: crate::element::empty_flags() },
                    optional: false,
                }
            },
    )
}

pub open spec fn item_of_ser(e: SerializableKnownItem) -> ItemV
    decreases e,
{
    ItemV { key: key_of_ser(e.key), value: type_of_ser(e.value), optional: e.optional }
}

pub open spec fn items_of_ser(es: Vec<SerializableKnownItem>) -> Seq<ItemV>
    decreases es,
{
    Seq::new(
        es@.len(),
        |i: int|
            if 0 <= i < es@.len() {
                item_of_ser(es@[i])
            } else {
                ItemV {
                    key: KeyV::Int(0),
                    value: TypeV { elements: Seq::empty(), flags: crate::element::empty_flags() },
                    optional: false,
                }
            },
    )
}

pub open spec fn known_of_ser(e: SerializableKnownElement) -> KnownElemV
    decreases e,
{
    KnownElemV { index: e.index, value: type_of_ser(e.value), optional: e.optional }
}

pub open spec fn knowns_of_ser(es: Vec<SerializableKnownElement>) -> Seq<KnownElemV>
    decreases es,
{
    Seq::new(
        es@.len(),
        |i: int|
            if 0 <= i < es@.len() {
                known_of_ser(es@[i])
            } else {
                KnownElemV {
                    index: 0,
                    value: TypeV { elements: Seq::empty(), flags: crate::element::empty_flags() },
                    optional: false,
                }
            },
    )
}

pub open spec fn param_of_ser(p: SerializableParam) -> ParamV
    decreases p,
{
    ParamV {
        name: p.name@,
        ty: type_of_ser(p.type_),
        has_default: p.has_default,
        by_reference: p.by_reference,
        variadic: p.variadic,
    }
}

pub open spec fn params_of_ser(ps: Vec<SerializableParam>) -> Seq<ParamV>
    decreases ps,
{
    Seq::new(
        ps@.len(),
        |i: int|
            if 0 <= i < ps@.len() {
                param_of_ser(ps@[i])
            } else {
                ParamV {
                    name: Seq::empty(),
                    ty: TypeV { elements: Seq::empty(), flags: crate::element::empty_flags() },
                    has_default: false,
                    by_reference: false,
                    variadic: false,
                }
            },
    )
}

pub open spec fn sig_of_ser(s: SerializableSignature) -> SigV
    decreases s,
{
    SigV {
        ret: type_of_ser(s.return_type),
        throws: match s.throws {
            Some(t) => Some(type_of_ser(t)),
            None => None,
        },
        params: match s.parameters {
            Some(ps) => Some(params_of_ser(ps)),
            None => None,
        },
        is_variadic: s.is_variadic,
        is_pure: s.is_pure,
    }
}

pub open spec fn call_of_ser(c: SerializableCallable) -> CallV
    decreases c,
{
    match c {
        SerializableCallable::Any => CallV::Any,
        SerializableCallable::Signature(s) => CallV::Sig(sig_of_ser(s)),
        SerializableCallable::Closure(s) => CallV::Closure(sig_of_ser(s)),
        SerializableCallable::Alias(a) => CallV::Alias(alias_of_ser(a)),
    }
}

pub open spec fn derived_of_ser(d: SerializableDerived) -> DerivedV
    decreases d,
{
    match d {
        SerializableDerived::KeyOf(t) => DerivedV::KeyOf(type_of_ser(*t)),
        SerializableDerived::ValueOf(t) => DerivedV::ValueOf(type_of_ser(*t)),
        SerializableDerived::PropertiesOf { target, visibility } => DerivedV::PropertiesOf(
            type_of_ser(*target),
            match visibility {
                Some(v) => Some(visibility_of_ser(v)),
                None => None,
            },
        ),
        SerializableDerived::IndexAccess { target, index } => DerivedV::IndexAccess(
            type_of_ser(*target),
            type_of_ser(*index),
        ),
        SerializableDerived::IntMask(ts) => DerivedV::IntMask(types_of_ser(ts)),
        SerializableDerived::IntMaskOf(t) => DerivedV::IntMaskOf(type_of_ser(*t)),
        SerializableDerived::TemplateType { object, class_name, template_name } => DerivedV::TemplateType(
            type_of_ser(*object),
            type_of_ser(*class_name),
            type_of_ser(*template_name),
        ),
        SerializableDerived::New(t) => DerivedV::New(type_of_ser(*t)),
    }
}

/// The element a serializable form stands for.
pub open spec fn elem_of_ser(e: SerializableElement) -> ElemV
    decreases e,
{
    match e {
        SerializableElement::Null => ElemV::Null,
        SerializableElement::Never => ElemV::Never,
        SerializableElement::Void => ElemV::Void,
        SerializableElement::Placeholder => ElemV::Placeholder,
        SerializableElement::Mixed { non_null, is_empty, truthiness, isset_from_loop } => ElemV::Mixed(
            MixedInfo { non_null, truthiness: truthiness_of_ser(truthiness), empty: is_empty, isset_from_loop },
        ),
        SerializableElement::Bool => ElemV::Bool,
        SerializableElement::True => ElemV::True,
        SerializableElement::False => ElemV::False,
        SerializableElement::Int(i) => ElemV::Int(int_of_ser(i)),
        SerializableElement::Float(f) => ElemV::Float(float_of_ser(f)),
        SerializableElement::String(s) => ElemV::Str(string_of_ser(s)),
        SerializableElement::ClassLikeString { kind, specifier } => ElemV::ClassLikeString(
            kind_of_ser(kind),
            match specifier {
                SerializableClassLikeSpecifier::Any => ClsSpecV::Any,
                SerializableClassLikeSpecifier::Literal { value } => ClsSpecV::Literal(value@),
                SerializableClassLikeSpecifier::OfType { constraint } => ClsSpecV::OfType(type_of_ser(*constraint)),
                SerializableClassLikeSpecifier::Generic { constraint } => ClsSpecV::Generic(type_of_ser(*constraint)),
            },
        ),
        SerializableElement::Scalar => ElemV::Scalar,
        SerializableElement::Numeric => ElemV::Numeric,
        SerializableElement::ArrayKey => ElemV::ArrayKey,
        SerializableElement::ObjectAny => ElemV::ObjectAny,
        SerializableElement::Object { name, type_args } => ElemV::Object { name: name@, args: types_of_ser(type_args) },
        SerializableElement::Enum { name, case } => ElemV::Enum {
            name: name@,
            case: match case {
                Some(c) => Some(c@),
                None => None,
            },
        },
        SerializableElement::Array { key_param, value_param, known_items, non_empty } => ElemV::Array {
            key: match key_param {
                Some(t) => Some(type_of_ser(*t)),
                None => None,
            },
            value: match value_param {
                Some(t) => Some(type_of_ser(*t)),
                None => None,
            },
            items: items_of_ser(known_items),
            non_empty,
        },
        SerializableElement::List { element_type, known_elements, known_count, non_empty } => ElemV::List {
            element_type: type_of_ser(*element_type),
            known: knowns_of_ser(known_elements),
            count: known_count,
            non_empty,
        },
        SerializableElement::Iterable { key_type, value_type } => ElemV::Iterable {
            key: type_of_ser(*key_type),
            value: type_of_ser(*value_type),
        },
        SerializableElement::Resource(r) => ElemV::Resource(resource_of_ser(r)),
        SerializableElement::GenericParameter { name, defining_entity, constraint } => ElemV::GenericParameter {
            name: name@,
            entity: entity_of_ser(defining_entity),
            constraint: type_of_ser(*constraint),
        },
        SerializableElement::Callable(c) => ElemV::Callable(call_of_ser(c)),
        SerializableElement::Conditional { subject, target, then_type, otherwise, negated } => ElemV::Conditional {
            subject: type_of_ser(*subject),
            target: type_of_ser(*target),
            then_type: type_of_ser(*then_type),
            otherwise: type_of_ser(*otherwise),
            negated,
        },
        SerializableElement::Derived(d) => ElemV::Derived(derived_of_ser(d)),
        SerializableElement::Variable { name } => ElemV::Variable(name@),
        SerializableElement::Reference { name, type_args } => ElemV::Reference {
            name: name@,
            args: types_of_ser(type_args),
        },
        SerializableElement::MemberReference { class_like_name, selector } => ElemV::MemberReference {
            class: class_like_name@,
            selector: selector_of_ser(selector),
        },
        SerializableElement::GlobalReference { selector } => ElemV::GlobalReference(selector_of_ser(selector)),
        SerializableElement::Alias { class_name, alias_name } => ElemV::Alias {
            class: class_name@,
            alias: alias_name@,
        },
        SerializableElement::ObjectShape { known_properties, sealed } => ElemV::ObjectShape {
            props: props_of_ser(known_properties),
            sealed,
        },
        SerializableElement::HasMethod { method_name } => ElemV::HasMethod(method_name@),
        SerializableElement::HasProperty { property_name } => ElemV::HasProperty(property_name@),
    }
}

// ---------------------------------------------------------------------
// Encoding and decoding.
// ---------------------------------------------------------------------
fn encode_literal(l: &StringLiteral) -> (r: SerializableStringLiteral)
    ensures
        lit_of_ser(r) == crate::element::lit_view(*l),
{
    match l {
        StringLiteral::Absent => SerializableStringLiteral::Absent,
        StringLiteral::Unspecified => SerializableStringLiteral::Unspecified,
        StringLiteral::Value(v) => SerializableStringLiteral::Value(copy_chars(v)),
    }
}

fn decode_literal(l: &SerializableStringLiteral) -> (r: StringLiteral)
    ensures
        crate::element::lit_view(r) == lit_of_ser(*l),
{
    match l {
        SerializableStringLiteral::Absent => StringLiteral::Absent,
        SerializableStringLiteral::Unspecified => StringLiteral::Unspecified,
        SerializableStringLiteral::Value(v) => StringLiteral::Value(copy_chars(v)),
    }
}

fn encode_entity(d: &DefiningEntity) -> (r: SerializableDefiningEntity)
    ensures
        entity_of_ser(r) == crate::element::entity_view(*d),
{
    match d {
        DefiningEntity::ClassLike(n) => SerializableDefiningEntity::ClassLike(copy_chars(n)),
        DefiningEntity::Function(n) => SerializableDefiningEntity::Function(copy_chars(n)),
    }
}

fn decode_entity(d: &SerializableDefiningEntity) -> (r: DefiningEntity)
    ensures
        crate::element::entity_view(r) == entity_of_ser(*d),
{
    match d {
        SerializableDefiningEntity::ClassLike(n) => DefiningEntity::ClassLike(copy_chars(n)),
        SerializableDefiningEntity::Function(n) => DefiningEntity::Function(copy_chars(n)),
    }
}

fn encode_name_selector(s: &NameSelector) -> (r: SerializableNameSelector)
    ensures
        selector_of_ser(r) == crate::element::selector_view(*s),
{
    match s {
        NameSelector::Identifier(n) => SerializableNameSelector::Identifier(copy_chars(n)),
        NameSelector::StartsWith(n) => SerializableNameSelector::StartsWith(copy_chars(n)),
        NameSelector::EndsWith(n) => SerializableNameSelector::EndsWith(copy_chars(n)),
        NameSelector::Contains(n) => SerializableNameSelector::Contains(copy_chars(n)),
        NameSelector::Wildcard => SerializableNameSelector::Wildcard,
    }
}

fn decode_name_selector(s: &SerializableNameSelector) -> (r: NameSelector)
    ensures
        crate::element::selector_view(r) == selector_of_ser(*s),
{
    match s {
        SerializableNameSelector::Identifier(n) => NameSelector::Identifier(copy_chars(n)),
        SerializableNameSelector::StartsWith(n) => NameSelector::StartsWith(copy_chars(n)),
        SerializableNameSelector::EndsWith(n) => NameSelector::EndsWith(copy_chars(n)),
        SerializableNameSelector::Contains(n) => NameSelector::Contains(copy_chars(n)),
        SerializableNameSelector::Wildcard => NameSelector::Wildcard,
    }
}

fn encode_callable_alias(a: &CallableAlias) -> (r: SerializableCallableAlias)
    ensures
        alias_of_ser(r) == crate::element::alias_view(*a),
{
    match a {
        CallableAlias::Function(n) => SerializableCallableAlias::Function(copy_chars(n)),
        CallableAlias::Method { class, method } => SerializableCallableAlias::Method {
            class: copy_chars(class),
            method: copy_chars(method),
        },
        CallableAlias::Closure { start, end } => SerializableCallableAlias::Closure { start: *start, end: *end },
    }
}

fn decode_callable_alias(a: &SerializableCallableAlias) -> (r: CallableAlias)
    ensures
        crate::element::alias_view(r) == alias_of_ser(*a),
{
    match a {
        SerializableCallableAlias::Function(n) => CallableAlias::Function(copy_chars(n)),
        SerializableCallableAlias::Method { class, method } => CallableAlias::Method {
            class: copy_chars(class),
            method: copy_chars(method),
        },
        SerializableCallableAlias::Closure { start, end } => CallableAlias::Closure { start: *start, end: *end },
    }
}

fn encode_types(ts: &Vec<Type>) -> (r: Vec<SerializableType>)
    ensures
        types_of_ser(r) == tvs(*ts),
    decreases tssize(tvs(*ts)), 3int,
{
    let ghost args = tvs(*ts);
    let mut out: Vec<SerializableType> = Vec::new();
    let mut j: usize = 0;
    while j < ts.len()
        invariant
            args == tvs(*ts),
            args.len() == ts.len(),
            j <= args.len(),
            out@.len() == j,
            forall|k: int| 0 <= k < j ==> #[trigger] type_of_ser(out@[k]) == args[k],
        decreases ts.len() - j,
    {
        assert(args[j as int] == ts@[j as int]@);
        proof {
            lemma_tssize_elem(args, j as int);
        }
        out.push(encode_type(&ts[j]));
        j += 1;
    }
    proof {
        assert forall|k: int| 0 <= k < args.len() implies #[trigger] types_of_ser(out)[k] == args[k] by {
            assert(type_of_ser(out@[k]) == args[k]);
        }
    }
    assert(types_of_ser(out) =~= (args));
    out
}

fn encode_array_key(k: &ArrayKey) -> (r: SerializableArrayKey)
    ensures
        key_of_ser(r) == key_view(*k),
{
    match k {
        ArrayKey::Int(n) => SerializableArrayKey::Int(*n),
        ArrayKey::String(v) => SerializableArrayKey::String(copy_chars(v)),
        ArrayKey::Const { class, name } => SerializableArrayKey::Const { class: copy_chars(class), name: copy_chars(name) },
    }
}

fn decode_array_key(k: &SerializableArrayKey) -> (r: ArrayKey)
    ensures
        key_view(r) == key_of_ser(*k),
{
    match k {
        SerializableArrayKey::Int(n) => ArrayKey::Int(*n),
        SerializableArrayKey::String(v) => ArrayKey::String(copy_chars(v)),
        SerializableArrayKey::Const { class, name } => ArrayKey::Const { class: copy_chars(class), name: copy_chars(name) },
    }
}

fn encode_props(es: &Vec<KnownPropertyEntry>) -> (r: Vec<SerializableKnownProperty>)
    ensures
        props_of_ser(r) == props_view(*es),
    decreases props_size(props_view(*es)), 1int,
{
    let ghost s = props_view(*es);
    let mut out: Vec<SerializableKnownProperty> = Vec::new();
    let mut i: usize = 0;
    while i < es.len()
        invariant
            s == props_view(*es),
            s.len() == es.len(),
            i <= s.len(),
            out@.len() == i,
            forall|k: int|
                0 <= k < i ==> #[trigger] prop_of_ser(out@[k]) == s[k],
        decreases es.len() - i,
    {
        assert(s[i as int] == prop_view(es@[i as int]));
        proof {
            lemma_props_size_elem(s, i as int);
        }
        let e = &es[i];
        out.push(SerializableKnownProperty { name: copy_chars(&e.name), value: encode_type(&e.value), optional: e.optional });
        i += 1;
    }
    proof {
        assert forall|k: int| 0 <= k < s.len() implies #[trigger] props_of_ser(out)[k] == s[k] by {
            assert(prop_of_ser(out@[k]) == s[k]);
        }
    }
    assert(props_of_ser(out) =~= (s));
    out
}

fn decode_props(es: &Vec<SerializableKnownProperty>) -> (r: Vec<KnownPropertyEntry>)
    ensures
        props_view(r) == props_of_ser(*es),
    decreases es,
{
    let mut out: Vec<KnownPropertyEntry> = Vec::new();
    let mut i: usize = 0;
    while i < es.len()
        invariant
            i <= es.len(),
            out@.len() == i,
            forall|k: int| 0 <= k < i ==> #[trigger] prop_view(out@[k]) == prop_of_ser(es@[k]),
        decreases es.len() - i,
    {
        proof {
            assert(decreases_to!(*es => es[i as int]));
        }
        let e = &es[i];
        out.push(KnownPropertyEntry { name: copy_chars(&e.name), value: decode_type(&e.value), optional: e.optional });
        i += 1;
    }
    assert forall|k: int| 0 <= k < es@.len() implies #[trigger] props_view(out)[k] == props_of_ser(*es)[k] by {
        assert(prop_view(out@[k]) == prop_of_ser(es@[k]));
    }
    assert(props_view(out) =~= props_of_ser(*es));
    out
}

fn encode_items(es: &Vec<KnownItemEntry>) -> (r: Vec<SerializableKnownItem>)
    ensures
        items_of_ser(r) == items_view(*es),
    decreases items_size(items_view(*es)), 1int,
{
    let ghost s = items_view(*es);
    let mut out: Vec<SerializableKnownItem> = Vec::new();
    let mut i: usize = 0;
    while i < es.len()
        invariant
            s == items_view(*es),
            s.len() == es.len(),
            i <= s.len(),
            out@.len() == i,
            forall|k: int|
                0 <= k < i ==> #[trigger] item_of_ser(out@[k]) == s[k],
        decreases es.len() - i,
    {
        assert(s[i as int] == item_view(es@[i as int]));
        proof {
            lemma_items_size_elem(s, i as int);
        }
        let e = &es[i];
        out.push(
            SerializableKnownItem { key: encode_array_key(&e.key), value: encode_type(&e.value), optional: e.optional },
        );
        i += 1;
    }
    proof {
        assert forall|k: int| 0 <= k < s.len() implies #[trigger] items_of_ser(out)[k] == s[k] by {
            assert(item_of_ser(out@[k]) == s[k]);
        }
    }
    assert(items_of_ser(out) =~= (s));
    out
}

fn encode_known_elements(es: &Vec<KnownElementEntry>) -> (r: Vec<SerializableKnownElement>)
    ensures
        knowns_of_ser(r) == known_elems_view(*es),
    decreases kelems_size(known_elems_view(*es)), 1int,
{
    let ghost s = known_elems_view(*es);
    let mut out: Vec<SerializableKnownElement> = Vec::new();
    let mut i: usize = 0;
    while i < es.len()
        invariant
            s == known_elems_view(*es),
            s.len() == es.len(),
            i <= s.len(),
            out@.len() == i,
            forall|k: int|
                0 <= k < i ==> #[trigger] known_of_ser(out@[k]) == s[k],
        decreases es.len() - i,
    {
        assert(s[i as int] == known_elem_view(es@[i as int]));
        proof {
            lemma_kelems_size_elem(s, i as int);
        }
        let e = &es[i];
        out.push(SerializableKnownElement { index: e.index, value: encode_type(&e.value), optional: e.optional });
        i += 1;
    }
    proof {
        assert forall|k: int| 0 <= k < s.len() implies #[trigger] knowns_of_ser(out)[k] == s[k] by {
            assert(known_of_ser(out@[k]) == s[k]);
        }
    }
    assert(knowns_of_ser(out) =~= (s));
    out
}

fn decode_items(es: &Vec<SerializableKnownItem>) -> (r: Vec<KnownItemEntry>)
    ensures
        items_view(r) == items_of_ser(*es),
    decreases es,
{
    let mut out: Vec<KnownItemEntry> = Vec::new();
    let mut i: usize = 0;
    while i < es.len()
        invariant
            i <= es.len(),
            out@.len() == i,
            forall|k: int| 0 <= k < i ==> #[trigger] item_view(out@[k]) == item_of_ser(es@[k]),
        decreases es.len() - i,
    {
        proof {
            assert(decreases_to!(*es => es[i as int]));
        }
        let e = &es[i];
        out.push(KnownItemEntry { key: decode_array_key(&e.key), value: decode_type(&e.value), optional: e.optional });
        i += 1;
    }
    assert forall|k: int| 0 <= k < es@.len() implies #[trigger] items_view(out)[k] == items_of_ser(*es)[k] by {
        assert(item_view(out@[k]) == item_of_ser(es@[k]));
    }
    assert(items_view(out) =~= items_of_ser(*es));
    out
}

fn decode_known_elements(es: &Vec<SerializableKnownElement>) -> (r: Vec<KnownElementEntry>)
    ensures
        known_elems_view(r) == knowns_of_ser(*es),
    decreases es,
{
    let mut out: Vec<KnownElementEntry> = Vec::new();
    let mut i: usize = 0;
    while i < es.len()
        invariant
            i <= es.len(),
            out@.len() == i,
            forall|k: int| 0 <= k < i ==> #[trigger] known_elem_view(out@[k]) == known_of_ser(es@[k]),
        decreases es.len() - i,
    {
        proof {
            assert(decreases_to!(*es => es[i as int]));
        }
        let e = &es[i];
        out.push(KnownElementEntry { index: e.index, value: decode_type(&e.value), optional: e.optional });
        i += 1;
    }
    assert forall|k: int| 0 <= k < es@.len() implies #[trigger] known_elems_view(out)[k] == knowns_of_ser(*es)[k] by {
        assert(known_elem_view(out@[k]) == known_of_ser(es@[k]));
    }
    assert(known_elems_view(out) =~= knowns_of_ser(*es));
    out
}

fn encode_params(ps: &Vec<ParamInfo>) -> (r: Vec<SerializableParam>)
    ensures
        params_of_ser(r) == params_view(*ps),
    decreases pssize(params_view(*ps)), 1int,
{
    let ghost s = params_view(*ps);
    let mut out: Vec<SerializableParam> = Vec::new();
    let mut i: usize = 0;
    while i < ps.len()
        invariant
            s == params_view(*ps),
            s.len() == ps.len(),
            i <= s.len(),
            out@.len() == i,
            forall|k: int|
                0 <= k < i ==> #[trigger] param_of_ser(out@[k]) == s[k],
        decreases ps.len() - i,
    {
        assert(s[i as int] == param_view(ps@[i as int]));
        proof {
            lemma_pssize_elem(s, i as int);
        }
        let p = &ps[i];
        out.push(
            SerializableParam {
                name: copy_chars(&p.name),
                type_: encode_type(&p.type_),
                has_default: p.has_default,
                by_reference: p.by_reference,
                variadic: p.variadic,
            },
        );
        i += 1;
    }
    proof {
        assert forall|k: int| 0 <= k < s.len() implies #[trigger] params_of_ser(out)[k] == s[k] by {
            assert(param_of_ser(out@[k]) == s[k]);
        }
    }
    assert(params_of_ser(out) =~= (s));
    out
}

fn encode_signature(sig: &Signature) -> (r: SerializableSignature)
    ensures
        sig_of_ser(r) == sig_view(*sig),
    decreases sigsize(sig_view(*sig)), 3int,
{
    let parameters = match &sig.parameters {
        Some(ps) => Some(encode_params(ps)),
        None => None,
    };
    let throws = match &sig.throws {
        Some(t) => Some(encode_type(t)),
        None => None,
    };
    let r = SerializableSignature {
        return_type: encode_type(&sig.return_type),
        throws,
        parameters,
        is_variadic: sig.is_variadic,
        is_pure: sig.is_pure,
    };
    r
}

fn encode_callable(c: &CallableInfo) -> (r: SerializableCallable)
    ensures
        call_of_ser(r) == crate::element::call_view(*c),
    decreases esize(ElemV::Callable(crate::element::call_view(*c))), 4int,
{
    match c {
        CallableInfo::Any => SerializableCallable::Any,
        CallableInfo::Signature(s) => SerializableCallable::Signature(encode_signature(s)),
        CallableInfo::Closure(s) => SerializableCallable::Closure(encode_signature(s)),
        CallableInfo::Alias(a) => SerializableCallable::Alias(encode_callable_alias(a)),
    }
}

fn encode_derived(d: &DerivedInfo) -> (r: SerializableDerived)
    ensures
        derived_of_ser(r) == crate::element::derived_view(*d),
    decreases crate::element::dsize(crate::element::derived_view(*d)), 4int,
{
    match d {
        DerivedInfo::KeyOf(t) => SerializableDerived::KeyOf(Box::new(encode_type(t))),
        DerivedInfo::ValueOf(t) => SerializableDerived::ValueOf(Box::new(encode_type(t))),
        DerivedInfo::PropertiesOf { target, visibility } => {
            let visibility = match visibility {
                Some(v) => Some(encode_visibility(*v)),
                None => None,
            };
            SerializableDerived::PropertiesOf { target: Box::new(encode_type(target)), visibility }
        },
        DerivedInfo::IndexAccess { target, index } => SerializableDerived::IndexAccess {
            target: Box::new(encode_type(target)),
            index: Box::new(encode_type(index)),
        },
        DerivedInfo::IntMask(ts) => SerializableDerived::IntMask(encode_types(ts)),
        DerivedInfo::IntMaskOf(t) => SerializableDerived::IntMaskOf(Box::new(encode_type(t))),
        DerivedInfo::TemplateType { object, class_name, template_name } => SerializableDerived::TemplateType {
            object: Box::new(encode_type(object)),
            class_name: Box::new(encode_type(class_name)),
            template_name: Box::new(encode_type(template_name)),
        },
        DerivedInfo::New(t) => SerializableDerived::New(Box::new(encode_type(t))),
    }
}

/// Write the structural form of `ty`.
pub fn encode_type(ty: &Type) -> (r: SerializableType)
    ensures
        type_of_ser(r) == ty@,
    decreases tsize(ty@), 2int,
{
    let ghost s = ty@.elements;
    proof {
    }
    let mut out: Vec<SerializableElement> = Vec::new();
    let mut i: usize = 0;
    while i < ty.elements.len()
        invariant
            s == ty@.elements,
            s.len() == ty.elements.len(),
            i <= s.len(),
            out@.len() == i,
            forall|k: int| 0 <= k < i ==> #[trigger] elem_of_ser(out@[k]) == s[k],
        decreases ty.elements.len() - i,
    {
        assert(s[i as int] == ty.elements@[i as int]@);
        proof {
            lemma_elem_smaller(ty@, i as int);
        }
        out.push(encode_element(&ty.elements[i]));
        i += 1;
    }
    let r = SerializableType { elements: out, flags: encode_flags(ty.flags) };
    proof {
        assert forall|k: int| 0 <= k < s.len() implies #[trigger] type_of_ser(r).elements[k] == s[k] by {
            assert(elem_of_ser(out@[k]) == s[k]);
        }
    }
    assert(type_of_ser(r).elements =~= (s));
    r
}

/// Write the structural form of `e`.
pub fn encode_element(e: &Element) -> (r: SerializableElement)
    ensures
        elem_of_ser(r) == e@,
    decreases esize(e@), 5int,
{
    match e {
        Element::Null => SerializableElement::Null,
        Element::Never => SerializableElement::Never,
        Element::Void => SerializableElement::Void,
        Element::Placeholder => SerializableElement::Placeholder,
        Element::Mixed(m) => SerializableElement::Mixed {
            non_null: m.non_null,
            is_empty: m.empty,
            truthiness: encode_truthiness(m.truthiness),
            isset_from_loop: m.isset_from_loop,
        },
        Element::Bool => SerializableElement::Bool,
        Element::True => SerializableElement::True,
        Element::False => SerializableElement::False,
        Element::Int(i) => SerializableElement::Int(encode_int(*i)),
        Element::Float(f) => SerializableElement::Float(encode_float(*f)),
        Element::String(s) => SerializableElement::String(
            SerializableString {
                literal: encode_literal(&s.literal),
                casing: encode_casing(s.casing),
                is_numeric: s.flags.numeric,
                is_truthy: s.flags.truthy,
                is_non_empty: s.flags.non_empty,
                is_callable: s.flags.callable,
            },
        ),
        Element::ClassLikeString(c) => {
            let specifier = match &c.specifier {
                ClassLikeStringSpecifier::Any => SerializableClassLikeSpecifier::Any,
                ClassLikeStringSpecifier::Literal(n) => SerializableClassLikeSpecifier::Literal {
                    value: copy_chars(n),
                },
                ClassLikeStringSpecifier::OfType(t) => SerializableClassLikeSpecifier::OfType {
                    constraint: Box::new(encode_type(t)),
                },
                ClassLikeStringSpecifier::Generic(t) => SerializableClassLikeSpecifier::Generic {
                    constraint: Box::new(encode_type(t)),
                },
            };
            SerializableElement::ClassLikeString { kind: encode_class_like_kind(c.kind), specifier }
        },
        Element::Scalar => SerializableElement::Scalar,
        Element::Numeric => SerializableElement::Numeric,
        Element::ArrayKey => SerializableElement::ArrayKey,
        Element::ObjectAny => SerializableElement::ObjectAny,
        Element::Object(o) => {
            let ghost args = tvs(o.type_args);
            let mut type_args: Vec<SerializableType> = Vec::new();
            let mut j: usize = 0;
            while j < o.type_args.len()
                invariant
                    args == tvs(o.type_args),
                    args.len() == o.type_args.len(),
                    j <= args.len(),
                    e@ == (ElemV::Object { name: o.name@, args }),
                    type_args@.len() == j,
                    forall|k: int| 0 <= k < j ==> #[trigger] type_of_ser(type_args@[k]) == args[k],
                decreases o.type_args.len() - j,
            {
                assert(args[j as int] == o.type_args@[j as int]@);
                proof {
                    lemma_tssize_elem(args, j as int);
                }
                type_args.push(encode_type(&o.type_args[j]));
                j += 1;
            }
            proof {
                assert forall|k: int| 0 <= k < args.len() implies #[trigger] types_of_ser(type_args)[k] == args[k] by {
                    assert(type_of_ser(type_args@[k]) == args[k]);
                }
                assert(types_of_ser(type_args) =~= (args));
            }
            SerializableElement::Object { name: copy_chars(&o.name), type_args }
        },
        Element::Array(a) => SerializableElement::Array {
            key_param: match &a.key_param {
                Some(t) => Some(Box::new(encode_type(t))),
                None => None,
            },
            value_param: match &a.value_param {
                Some(t) => Some(Box::new(encode_type(t))),
                None => None,
            },
            known_items: encode_items(&a.known_items),
            non_empty: a.non_empty,
        },
        Element::List(l) => SerializableElement::List {
            element_type: Box::new(encode_type(&l.element_type)),
            known_elements: encode_known_elements(&l.known_elements),
            known_count: l.known_count,
            non_empty: l.non_empty,
        },
        Element::Iterable(it) => SerializableElement::Iterable {
            key_type: Box::new(encode_type(&it.key_type)),
            value_type: Box::new(encode_type(&it.value_type)),
        },
        Element::Resource(r) => SerializableElement::Resource(encode_resource(*r)),
        Element::GenericParameter(g) => SerializableElement::GenericParameter {
            name: copy_chars(&g.name),
            defining_entity: encode_entity(&g.defining_entity),
            constraint: Box::new(encode_type(&g.constraint)),
        },
        Element::Enum(en) => SerializableElement::Enum {
            name: copy_chars(&en.name),
            case: match &en.case {
                Some(c) => Some(copy_chars(c)),
                None => None,
            },
        },
        Element::Callable(c) => SerializableElement::Callable(encode_callable(c)),
        Element::Conditional(c) => SerializableElement::Conditional {
            subject: Box::new(encode_type(&c.subject)),
            target: Box::new(encode_type(&c.target)),
            then_type: Box::new(encode_type(&c.then_type)),
            otherwise: Box::new(encode_type(&c.otherwise)),
            negated: c.negated,
        },
        Element::Derived(d) => SerializableElement::Derived(encode_derived(d)),
        Element::Variable(n) => SerializableElement::Variable { name: copy_chars(n) },
        Element::Reference(rf) => SerializableElement::Reference {
            name: copy_chars(&rf.name),
            type_args: encode_types(&rf.type_args),
        },
        Element::MemberReference { class_like_name, selector } => SerializableElement::MemberReference {
            class_like_name: copy_chars(class_like_name),
            selector: encode_name_selector(selector),
        },
        Element::GlobalReference(sel) => SerializableElement::GlobalReference { selector: encode_name_selector(sel) },
        Element::Alias { class_name, alias_name } => SerializableElement::Alias {
            class_name: copy_chars(class_name),
            alias_name: copy_chars(alias_name),
        },
        Element::ObjectShape(sh) => SerializableElement::ObjectShape {
            known_properties: encode_props(&sh.known_properties),
            sealed: sh.sealed,
        },
        Element::HasMethod(m) => SerializableElement::HasMethod { method_name: copy_chars(m) },
        Element::HasProperty(p) => SerializableElement::HasProperty { property_name: copy_chars(p) },
    }
}

/// Read a type back from its structural form.
pub fn decode_type(s: &SerializableType) -> (r: Type)
    ensures
        r@ == type_of_ser(*s),
    decreases s,
{
    let mut out: Vec<Element> = Vec::new();
    let mut i: usize = 0;
    while i < s.elements.len()
        invariant
            i <= s.elements.len(),
            out@.len() == i,
            forall|k: int| 0 <= k < i ==> #[trigger] out@[k]@ == elem_of_ser(s.elements@[k]),
        decreases s.elements.len() - i,
    {
        proof {
            assert(decreases_to!(*s => s.elements));
            assert(decreases_to!(s.elements => s.elements[i as int]));
        }
        out.push(decode_element(&s.elements[i]));
        i += 1;
    }
    let r = Type { elements: out, flags: decode_flags(s.flags) };
    assert forall|k: int| 0 <= k < s.elements@.len() implies #[trigger] r@.elements[k] == type_of_ser(*s).elements[k] by {
        assert(out@[k]@ == elem_of_ser(s.elements@[k]));
    }
    assert(r@.elements =~= type_of_ser(*s).elements);
    r
}

fn decode_types(ts: &Vec<SerializableType>) -> (r: Vec<Type>)
    ensures
        tvs(r) == types_of_ser(*ts),
    decreases ts,
{
    let mut out: Vec<Type> = Vec::new();
    let mut i: usize = 0;
    while i < ts.len()
        invariant
            i <= ts.len(),
            out@.len() == i,
            forall|k: int| 0 <= k < i ==> #[trigger] out@[k]@ == type_of_ser(ts@[k]),
        decreases ts.len() - i,
    {
        proof {
            assert(decreases_to!(*ts => ts[i as int]));
        }
        out.push(decode_type(&ts[i]));
        i += 1;
    }
    assert forall|k: int| 0 <= k < ts@.len() implies #[trigger] tvs(out)[k] == types_of_ser(*ts)[k] by {
        assert(out@[k]@ == type_of_ser(ts@[k]));
    }
    assert(tvs(out) =~= types_of_ser(*ts));
    out
}

fn decode_params(ps: &Vec<SerializableParam>) -> (r: Vec<ParamInfo>)
    ensures
        params_view(r) == params_of_ser(*ps),
    decreases ps,
{
    let mut out: Vec<ParamInfo> = Vec::new();
    let mut i: usize = 0;
    while i < ps.len()
        invariant
            i <= ps.len(),
            out@.len() == i,
            forall|k: int| 0 <= k < i ==> #[trigger] param_view(out@[k]) == param_of_ser(ps@[k]),
        decreases ps.len() - i,
    {
        proof {
            assert(decreases_to!(*ps => ps[i as int]));
        }
        let p = &ps[i];
        out.push(
            ParamInfo {
                name: copy_chars(&p.name),
                type_: decode_type(&p.type_),
                has_default: p.has_default,
                by_reference: p.by_reference,
                variadic: p.variadic,
            },
        );
        i += 1;
    }
    assert forall|k: int| 0 <= k < ps@.len() implies #[trigger] params_view(out)[k] == params_of_ser(*ps)[k] by {
        assert(param_view(out@[k]) == param_of_ser(ps@[k]));
    }
    assert(params_view(out) =~= params_of_ser(*ps));
    out
}

fn decode_signature(s: &SerializableSignature) -> (r: Signature)
    ensures
        sig_view(r) == sig_of_ser(*s),
    decreases s,
{
    let parameters = match &s.parameters {
        Some(ps) => Some(decode_params(ps)),
        None => None,
    };
    let throws = match &s.throws {
        Some(t) => Some(decode_type(t)),
        None => None,
    };
    Signature {
        return_type: decode_type(&s.return_type),
        throws,
        parameters,
        is_variadic: s.is_variadic,
        is_pure: s.is_pure,
    }
}

fn decode_callable(c: &SerializableCallable) -> (r: CallableInfo)
    ensures
        crate::element::call_view(r) == call_of_ser(*c),
    decreases c,
{
    match c {
        SerializableCallable::Any => CallableInfo::Any,
        SerializableCallable::Signature(s) => CallableInfo::Signature(decode_signature(s)),
        SerializableCallable::Closure(s) => CallableInfo::Closure(decode_signature(s)),
        SerializableCallable::Alias(a) => CallableInfo::Alias(decode_callable_alias(a)),
    }
}

fn decode_derived(d: &SerializableDerived) -> (r: DerivedInfo)
    ensures
        crate::element::derived_view(r) == derived_of_ser(*d),
    decreases d,
{
    match d {
        SerializableDerived::KeyOf(t) => DerivedInfo::KeyOf(decode_type(t)),
        SerializableDerived::ValueOf(t) => DerivedInfo::ValueOf(decode_type(t)),
        SerializableDerived::PropertiesOf { target, visibility } => {
            let visibility = match visibility {
                Some(v) => Some(decode_visibility(*v)),
                None => None,
            };
            DerivedInfo::PropertiesOf { target: decode_type(target), visibility }
        },
        SerializableDerived::IndexAccess { target, index } => DerivedInfo::IndexAccess {
            target: decode_type(target),
            index: decode_type(index),
        },
        SerializableDerived::IntMask(ts) => DerivedInfo::IntMask(decode_types(ts)),
        SerializableDerived::IntMaskOf(t) => DerivedInfo::IntMaskOf(decode_type(t)),
        SerializableDerived::TemplateType { object, class_name, template_name } => DerivedInfo::TemplateType {
            object: decode_type(object),
            class_name: decode_type(class_name),
            template_name: decode_type(template_name),
        },
        SerializableDerived::New(t) => DerivedInfo::New(decode_type(t)),
    }
}

/// Read an element back from its structural form.
pub fn decode_element(e: &SerializableElement) -> (r: Element)
    ensures
        r@ == elem_of_ser(*e),
    decreases e,
{
    match e {
        SerializableElement::Null => Element::Null,
        SerializableElement::Never => Element::Never,
        SerializableElement::Void => Element::Void,
        SerializableElement::Placeholder => Element::Placeholder,
        SerializableElement::Mixed { non_null, is_empty, truthiness, isset_from_loop } => Element::Mixed(
            MixedInfo {
                non_null: *non_null,
                truthiness: decode_truthiness(*truthiness),
                empty: *is_empty,
                isset_from_loop: *isset_from_loop,
            },
        ),
        SerializableElement::Bool => Element::Bool,
        SerializableElement::True => Element::True,
        SerializableElement::False => Element::False,
        SerializableElement::Int(i) => Element::Int(decode_int(*i)),
        SerializableElement::Float(f) => Element::Float(decode_float(*f)),
        SerializableElement::String(s) => Element::String(
            StringInfo {
                literal: decode_literal(&s.literal),
                casing: decode_casing(s.casing),
                flags: StringFlags {
                    non_empty: s.is_non_empty,
                    truthy: s.is_truthy,
                    numeric: s.is_numeric,
                    callable: s.is_callable,
                },
            },
        ),
        SerializableElement::ClassLikeString { kind, specifier } => {
            let spec = match specifier {
                SerializableClassLikeSpecifier::Any => ClassLikeStringSpecifier::Any,
                SerializableClassLikeSpecifier::Literal { value } => ClassLikeStringSpecifier::Literal(
                    copy_chars(value),
                ),
                SerializableClassLikeSpecifier::OfType { constraint } => ClassLikeStringSpecifier::OfType(
                    decode_type(constraint),
                ),
                SerializableClassLikeSpecifier::Generic { constraint } => ClassLikeStringSpecifier::Generic(
                    decode_type(constraint),
                ),
            };
            Element::ClassLikeString(ClassLikeStringInfo { kind: decode_class_like_kind(*kind), specifier: spec })
        },
        SerializableElement::Scalar => Element::Scalar,
        SerializableElement::Numeric => Element::Numeric,
        SerializableElement::ArrayKey => Element::ArrayKey,
        SerializableElement::ObjectAny => Element::ObjectAny,
        SerializableElement::Object { name, type_args } => Element::Object(
            ObjectInfo { name: copy_chars(name), type_args: decode_types(type_args) },
        ),
        SerializableElement::Array { key_param, value_param, known_items, non_empty } => Element::Array(
            KeyedArrayInfo {
                key_param: match key_param {
                    Some(t) => Some(decode_type(t)),
                    None => None,
                },
                value_param: match value_param {
                    Some(t) => Some(decode_type(t)),
                    None => None,
                },
                known_items: decode_items(known_items),
                non_empty: *non_empty,
            },
        ),
        SerializableElement::List { element_type, known_elements, known_count, non_empty } => Element::List(
            ListInfo {
                element_type: decode_type(element_type),
                known_elements: decode_known_elements(known_elements),
                known_count: *known_count,
                non_empty: *non_empty,
            },
        ),
        SerializableElement::Iterable { key_type, value_type } => Element::Iterable(
            IterableInfo { key_type: decode_type(key_type), value_type: decode_type(value_type) },
        ),
        SerializableElement::Resource(r) => Element::Resource(decode_resource(*r)),
        SerializableElement::GenericParameter { name, defining_entity, constraint } => Element::GenericParameter(
            GenericParameterInfo {
                name: copy_chars(name),
                defining_entity: decode_entity(defining_entity),
                constraint: decode_type(constraint),
            },
        ),
        SerializableElement::Enum { name, case } => Element::Enum(
            crate::element::EnumInfo {
                name: copy_chars(name),
                case: match case {
                    Some(c) => Some(copy_chars(c)),
                    None => None,
                },
            },
        ),
        SerializableElement::Callable(c) => Element::Callable(decode_callable(c)),
        SerializableElement::Conditional { subject, target, then_type, otherwise, negated } => Element::Conditional(
            ConditionalInfo {
                subject: decode_type(subject),
                target: decode_type(target),
                then_type: decode_type(then_type),
                otherwise: decode_type(otherwise),
                negated: *negated,
            },
        ),
        SerializableElement::Derived(d) => Element::Derived(decode_derived(d)),
        SerializableElement::Variable { name } => Element::Variable(copy_chars(name)),
        SerializableElement::Reference { name, type_args } => Element::Reference(
            ReferenceInfo { name: copy_chars(name), type_args: decode_types(type_args) },
        ),
        SerializableElement::MemberReference { class_like_name, selector } => Element::MemberReference {
            class_like_name: copy_chars(class_like_name),
            selector: decode_name_selector(selector),
        },
        SerializableElement::GlobalReference { selector } => Element::GlobalReference(decode_name_selector(selector)),
        SerializableElement::Alias { class_name, alias_name } => Element::Alias {
            class_name: copy_chars(class_name),
            alias_name: copy_chars(alias_name),
        },
        SerializableElement::ObjectShape { known_properties, sealed } => Element::ObjectShape(
            ObjectShapeInfo { known_properties: decode_props(known_properties), sealed: *sealed },
        ),
        SerializableElement::HasMethod { method_name } => Element::HasMethod(copy_chars(method_name)),
        SerializableElement::HasProperty { property_name } => Element::HasProperty(copy_chars(property_name)),
    }
}

impl Type {
    /// The structural form of this type.
    pub fn to_serializable(&self) -> (r: SerializableType)
        ensures
            type_of_ser(r) == self@,
    {
        encode_type(self)
    }
}

/// A round trip keeps the content: whatever `to_serializable` writes for
/// `t`, `intern` reads back as `t`, at every depth and for every axis.
pub proof fn lemma_round_trip_is_identity(t: TypeV, written: SerializableType, read: TypeV)
    requires
        type_of_ser(written) == t,
        read == type_of_ser(written),
    ensures
        read == t,
{
}

impl SerializableType {
    /// Build the type this structural form stands for.
    pub fn intern(&self) -> (r: Type)
        ensures
            r@ == type_of_ser(*self),
    {
        decode_type(self)
    }
}

impl Element {
    /// The structural form of this element.
    pub fn to_serializable(&self) -> (r: SerializableElement)
        ensures
            elem_of_ser(r) == self@,
    {
        encode_element(self)
    }
}

impl SerializableElement {
    /// Build the element this structural form stands for.
    pub fn intern(&self) -> (r: Element)
        ensures
            r@ == elem_of_ser(*self),
    {
        decode_element(self)
    }
}

} // verus!
