//! The element model: every atom of a PHP type, as plain data.
//!
//! A [`Type`] is a union of [`Element`]s. Elements that carry nested types
//! (generic-parameter constraints, list element types, array key/value
//! parameters, the values of list, array and object shape entries, iterable
//! key/value, object type arguments, class-like-string
//! constraints, callable signatures, conditional and derived types) hold
//! them by value, so the whole tree is an ordinary Rust value. Its
//! mathematical model is [`ElemV`] / [`TypeV`], reached through `@`.
use vstd::prelude::*;

verus! {

broadcast use vstd::std_specs::vec::group_vec_axioms;

/// Per-type flow flags that the lattice options can be derived from.
#[derive(Debug, Clone, Copy, PartialEq, Eq, Structural)]
pub struct FlowFlags {
    pub ignore_nullable_issues: bool,
    pub ignore_falsable_issues: bool,
}

/// Best-known truthiness of a value set.
#[derive(Debug, Clone, Copy, PartialEq, Eq, Structural)]
pub enum Truthiness {
    Truthy,
    Falsy,
    Undetermined,
}

/// Axis flags of a `mixed` atom. All `false` plus `Undetermined` is the
/// vanilla top type.
#[derive(Debug, Clone, Copy, PartialEq, Eq, Structural)]
pub struct MixedInfo {
    pub non_null: bool,
    pub truthiness: Truthiness,
    pub empty: bool,
    pub isset_from_loop: bool,
}

/// Integer payload: `int`, `literal-int`, a literal, or a range whose
/// missing bounds are infinite.
#[derive(Debug, Clone, Copy, PartialEq, Eq, Structural)]
pub enum IntInfo {
    Unspecified,
    UnspecifiedLiteral,
    Literal(i64),
    Range(Option<i64>, Option<i64>),
}

/// Float payload. A literal is held by its IEEE-754 bit pattern.
#[derive(Debug, Clone, Copy, PartialEq, Eq, Structural)]
pub enum FloatInfo {
    Unspecified,
    UnspecifiedLiteral,
    Literal(u64),
}

#[derive(Debug, Clone, Copy, PartialEq, Eq, Structural)]
pub enum StringCasing {
    Unspecified,
    Lowercase,
    Uppercase,
}

/// Refinement flags of a string atom.
#[derive(Debug, Clone, Copy, PartialEq, Eq, Structural)]
pub struct StringFlags {
    pub non_empty: bool,
    pub truthy: bool,
    pub numeric: bool,
    pub callable: bool,
}

#[derive(Debug, Clone, Copy, PartialEq, Eq, Structural)]
pub enum ClassLikeKind {
    Class,
    Interface,
    Enum,
    Trait,
}

#[derive(Debug, Clone, Copy, PartialEq, Eq, Structural)]
pub enum ResourceInfo {
    Any,
    Open,
    Closed,
}

/// Visibility of a class member.
#[derive(Debug, Clone, Copy, PartialEq, Eq, Structural)]
pub enum Visibility {
    Public,
    Protected,
    Private,
}

/// Which member names a member or global reference selects.
#[derive(Debug)]
pub enum NameSelector {
    Identifier(Vec<char>),
    StartsWith(Vec<char>),
    EndsWith(Vec<char>),
    Contains(Vec<char>),
    Wildcard,
}

/// The literal slot of a string atom.
#[derive(Debug)]
pub enum StringLiteral {
    Absent,
    Unspecified,
    Value(Vec<char>),
}

#[derive(Debug)]
pub struct StringInfo {
    pub literal: StringLiteral,
    pub casing: StringCasing,
    pub flags: StringFlags,
}

#[derive(Debug)]
pub enum ClassLikeStringSpecifier {
    Any,
    Literal(Vec<char>),
    OfType(Type),
    Generic(Type),
}

#[derive(Debug)]
pub struct ClassLikeStringInfo {
    pub kind: ClassLikeKind,
    pub specifier: ClassLikeStringSpecifier,
}

/// The entity that declares a template parameter.
#[derive(Debug)]
pub enum DefiningEntity {
    ClassLike(Vec<char>),
    Function(Vec<char>),
}

#[derive(Debug)]
pub struct GenericParameterInfo {
    pub name: Vec<char>,
    pub defining_entity: DefiningEntity,
    pub constraint: Type,
}

/// One property of an object shape.
#[derive(Debug)]
pub struct KnownPropertyEntry {
    pub name: Vec<char>,
    pub value: Type,
    pub optional: bool,
}

/// An object shape: its known properties, and whether it has no others.
#[derive(Debug)]
pub struct ObjectShapeInfo {
    pub known_properties: Vec<KnownPropertyEntry>,
    pub sealed: bool,
}

/// A key written in an array shape.
#[derive(Debug)]
pub enum ArrayKey {
    Int(i64),
    String(Vec<char>),
    /// A class constant used as a key, whose value is not known here.
    Const { class: Vec<char>, name: Vec<char> },
}

/// One entry of a keyed-array shape: its key, its value type and whether
/// the key may be missing.
#[derive(Debug)]
pub struct KnownItemEntry {
    pub key: ArrayKey,
    pub value: Type,
    pub optional: bool,
}

/// One entry of a list shape, at a fixed index.
#[derive(Debug)]
pub struct KnownElementEntry {
    pub index: u32,
    pub value: Type,
    pub optional: bool,
}

/// A list. `known_elements` lists the entries of a shape (`list{...}`);
/// an empty vector means none are known.
#[derive(Debug)]
pub struct ListInfo {
    pub element_type: Type,
    pub known_elements: Vec<KnownElementEntry>,
    pub known_count: Option<u32>,
    pub non_empty: bool,
}

/// A keyed array. Without key and value parameters it is sealed: it holds
/// exactly the entries of `known_items` (`array{...}`, or `array{}` when
/// there are none).
#[derive(Debug)]
pub struct KeyedArrayInfo {
    pub key_param: Option<Type>,
    pub value_param: Option<Type>,
    pub known_items: Vec<KnownItemEntry>,
    pub non_empty: bool,
}

#[derive(Debug)]
pub struct IterableInfo {
    pub key_type: Type,
    pub value_type: Type,
}

#[derive(Debug)]
pub struct ObjectInfo {
    pub name: Vec<char>,
    pub type_args: Vec<Type>,
}

/// A named type not yet resolved, with the type arguments written on it.
#[derive(Debug)]
pub struct ReferenceInfo {
    pub name: Vec<char>,
    pub type_args: Vec<Type>,
}

/// An enum, or one case of it.
#[derive(Debug)]
pub struct EnumInfo {
    pub name: Vec<char>,
    pub case: Option<Vec<char>>,
}

/// One parameter of a callable signature.
#[derive(Debug)]
pub struct ParamInfo {
    pub name: Vec<char>,
    pub type_: Type,
    pub has_default: bool,
    pub by_reference: bool,
    pub variadic: bool,
}

/// A callable's signature. `parameters: None` leaves the parameter list
/// unspecified; `throws: None` leaves the thrown types unconstrained.
#[derive(Debug)]
pub struct Signature {
    pub return_type: Type,
    pub throws: Option<Type>,
    pub parameters: Option<Vec<ParamInfo>>,
    pub is_variadic: bool,
    pub is_pure: bool,
}

/// A callable known by what it names rather than by its signature.
#[derive(Debug)]
pub enum CallableAlias {
    Function(Vec<char>),
    Method { class: Vec<char>, method: Vec<char> },
    /// A closure, known by the start and end offsets of its source text.
    Closure { start: u32, end: u32 },
}

/// Callable payload: `callable`, an anonymous signature, a `Closure`
/// signature, or a known callable.
#[derive(Debug)]
pub enum CallableInfo {
    Any,
    Signature(Signature),
    Closure(Signature),
    Alias(CallableAlias),
}

/// `(subject is target ? then_type : otherwise)`, or its negation.
#[derive(Debug)]
pub struct ConditionalInfo {
    pub subject: Type,
    pub target: Type,
    pub then_type: Type,
    pub otherwise: Type,
    pub negated: bool,
}

/// A type computed from other types once they are known.
#[derive(Debug)]
pub enum DerivedInfo {
    KeyOf(Type),
    ValueOf(Type),
    PropertiesOf { target: Type, visibility: Option<Visibility> },
    IndexAccess { target: Type, index: Type },
    IntMask(Vec<Type>),
    IntMaskOf(Type),
    TemplateType { object: Type, class_name: Type, template_name: Type },
    New(Type),
}

/// One atom of a PHP type.
#[derive(Debug)]
pub enum Element {
    Null,
    Never,
    Void,
    Placeholder,
    True,
    False,
    Bool,
    Scalar,
    Numeric,
    ArrayKey,
    ObjectAny,
    Mixed(MixedInfo),
    Int(IntInfo),
    Float(FloatInfo),
    String(StringInfo),
    ClassLikeString(ClassLikeStringInfo),
    Resource(ResourceInfo),
    GenericParameter(GenericParameterInfo),
    List(ListInfo),
    Array(KeyedArrayInfo),
    Iterable(IterableInfo),
    Object(ObjectInfo),
    Enum(EnumInfo),
    Callable(CallableInfo),
    Conditional(ConditionalInfo),
    Derived(DerivedInfo),
    /// The type of a variable, by name.
    Variable(Vec<char>),
    Reference(ReferenceInfo),
    /// Members of a class-like, selected by name.
    MemberReference { class_like_name: Vec<char>, selector: NameSelector },
    /// Global constants or functions, selected by name.
    GlobalReference(NameSelector),
    /// A type alias declared on a class.
    Alias { class_name: Vec<char>, alias_name: Vec<char> },
    /// An object known by its properties (`object{...}`).
    ObjectShape(ObjectShapeInfo),
    /// An object known to have the named method.
    HasMethod(Vec<char>),
    /// An object known to have the named property.
    HasProperty(Vec<char>),
}

/// A union of elements together with its flow flags.
#[derive(Debug)]
pub struct Type {
    pub elements: Vec<Element>,
    pub flags: FlowFlags,
}

/// The element families, one per [`Element`] variant.
#[derive(Debug, Clone, Copy, PartialEq, Eq, Structural)]
pub enum ElementKind {
    Null,
    Never,
    Void,
    Placeholder,
    True,
    False,
    Bool,
    Scalar,
    Numeric,
    ArrayKey,
    ObjectAny,
    Mixed,
    Int,
    Float,
    String,
    ClassLikeString,
    Resource,
    GenericParameter,
    List,
    Array,
    Iterable,
    Object,
    Enum,
    Callable,
    Conditional,
    Derived,
    Variable,
    Reference,
    MemberReference,
    GlobalReference,
    Alias,
    ObjectShape,
    HasMethod,
    HasProperty,
}

// ---------------------------------------------------------------------
// The mathematical model.
// ---------------------------------------------------------------------
pub enum StrLitV {
    Absent,
    Unspecified,
    Value(Seq<char>),
}

pub struct StringInfoV {
    pub literal: StrLitV,
    pub casing: StringCasing,
    pub flags: StringFlags,
}

pub enum ClsSpecV {
    Any,
    Literal(Seq<char>),
    OfType(TypeV),
    Generic(TypeV),
}

pub enum EntityV {
    ClassLike(Seq<char>),
    Function(Seq<char>),
}

pub struct ParamV {
    pub name: Seq<char>,
    pub ty: TypeV,
    pub has_default: bool,
    pub by_reference: bool,
    pub variadic: bool,
}

pub enum KeyV {
    Int(i64),
    Str(Seq<char>),
    Const(Seq<char>, Seq<char>),
}

pub struct ItemV {
    pub key: KeyV,
    pub value: TypeV,
    pub optional: bool,
}

pub struct PropV {
    pub name: Seq<char>,
    pub value: TypeV,
    pub optional: bool,
}

pub struct KnownElemV {
    pub index: u32,
    pub value: TypeV,
    pub optional: bool,
}

pub struct SigV {
    pub ret: TypeV,
    pub throws: Option<TypeV>,
    pub params: Option<Seq<ParamV>>,
    pub is_variadic: bool,
    pub is_pure: bool,
}

pub enum AliasV {
    Function(Seq<char>),
    Method(Seq<char>, Seq<char>),
    Closure(u32, u32),
}

pub enum CallV {
    Any,
    Sig(SigV),
    Closure(SigV),
    Alias(AliasV),
}

pub enum SelectorV {
    Identifier(Seq<char>),
    StartsWith(Seq<char>),
    EndsWith(Seq<char>),
    Contains(Seq<char>),
    Wildcard,
}

pub enum DerivedV {
    KeyOf(TypeV),
    ValueOf(TypeV),
    PropertiesOf(TypeV, Option<Visibility>),
    IndexAccess(TypeV, TypeV),
    IntMask(Seq<TypeV>),
    IntMaskOf(TypeV),
    TemplateType(TypeV, TypeV, TypeV),
    New(TypeV),
}

pub enum ElemV {
    Null,
    Never,
    Void,
    Placeholder,
    True,
    False,
    Bool,
    Scalar,
    Numeric,
    ArrayKey,
    ObjectAny,
    Mixed(MixedInfo),
    Int(IntInfo),
    Float(FloatInfo),
    Str(StringInfoV),
    ClassLikeString(ClassLikeKind, ClsSpecV),
    Resource(ResourceInfo),
    GenericParameter { name: Seq<char>, entity: EntityV, constraint: TypeV },
    List { element_type: TypeV, known: Seq<KnownElemV>, count: Option<u32>, non_empty: bool },
    Array { key: Option<TypeV>, value: Option<TypeV>, items: Seq<ItemV>, non_empty: bool },
    Iterable { key: TypeV, value: TypeV },
    Object { name: Seq<char>, args: Seq<TypeV> },
    Enum { name: Seq<char>, case: Option<Seq<char>> },
    Callable(CallV),
    Conditional { subject: TypeV, target: TypeV, then_type: TypeV, otherwise: TypeV, negated: bool },
    Derived(DerivedV),
    Variable(Seq<char>),
    Reference { name: Seq<char>, args: Seq<TypeV> },
    MemberReference { class: Seq<char>, selector: SelectorV },
    GlobalReference(SelectorV),
    Alias { class: Seq<char>, alias: Seq<char> },
    ObjectShape { props: Seq<PropV>, sealed: bool },
    HasMethod(Seq<char>),
    HasProperty(Seq<char>),
}

pub struct TypeV {
    pub elements: Seq<ElemV>,
    pub flags: FlowFlags,
}

pub open spec fn lit_view(l: StringLiteral) -> StrLitV {
    match l {
        StringLiteral::Absent => StrLitV::Absent,
        StringLiteral::Unspecified => StrLitV::Unspecified,
        StringLiteral::Value(v) => StrLitV::Value(v@),
    }
}

pub open spec fn entity_view(d: DefiningEntity) -> EntityV {
    match d {
        DefiningEntity::ClassLike(n) => EntityV::ClassLike(n@),
        DefiningEntity::Function(n) => EntityV::Function(n@),
    }
}

pub open spec fn tv(t: Type) -> TypeV
    decreases t,
{
    TypeV {
        elements: Seq::new(
            t.elements@.len(),
            |i: int|
                if 0 <= i < t.elements@.len() {
                    ev(t.elements@[i])
                } else {
                    ElemV::Null
                },
        ),
        flags: t.flags,
    }
}

pub open spec fn tvs(ts: Vec<Type>) -> Seq<TypeV>
    decreases ts,
{
    Seq::new(
        ts@.len(),
        |i: int|
            if 0 <= i < ts@.len() {
                tv(ts@[i])
            } else {
                TypeV { elements: Seq::empty(), flags: FlowFlags { ignore_nullable_issues: false, ignore_falsable_issues: false } }
            },
    )
}

pub open spec fn otv(t: Option<Type>) -> Option<TypeV>
    decreases t,
{
    match t {
        Some(x) => Some(tv(x)),
        None => None,
    }
}

pub open spec fn key_view(k: ArrayKey) -> KeyV {
    match k {
        ArrayKey::Int(n) => KeyV::Int(n),
        ArrayKey::String(s) => KeyV::Str(s@),
        ArrayKey::Const { class, name } => KeyV::Const(class@, name@),
    }
}

pub open spec fn item_view(e: KnownItemEntry) -> ItemV
    decreases e,
{
    ItemV { key: key_view(e.key), value: tv(e.value), optional: e.optional }
}

pub open spec fn items_view(es: Vec<KnownItemEntry>) -> Seq<ItemV>
    decreases es,
{
    Seq::new(
        es@.len(),
        |i: int|
            if 0 <= i < es@.len() {
                item_view(es@[i])
            } else {
                ItemV {
                    key: KeyV::Int(0),
                    value: TypeV { elements: Seq::empty(), flags: FlowFlags { ignore_nullable_issues: false, ignore_falsable_issues: false } },
                    optional: false,
                }
            },
    )
}

pub open spec fn prop_view(e: KnownPropertyEntry) -> PropV
    decreases e,
{
    PropV { name: e.name@, value: tv(e.value), optional: e.optional }
}

pub open spec fn props_view(es: Vec<KnownPropertyEntry>) -> Seq<PropV>
    decreases es,
{
    Seq::new(
        es@.len(),
        |i: int|
            if 0 <= i < es@.len() {
                prop_view(es@[i])
            } else {
                PropV {
                    name: Seq::empty(),
                    value: TypeV { elements: Seq::empty(), flags: FlowFlags { ignore_nullable_issues: false, ignore_falsable_issues: false } },
                    optional: false,
                }
            },
    )
}

pub open spec fn known_elem_view(e: KnownElementEntry) -> KnownElemV
    decreases e,
{
    KnownElemV { index: e.index, value: tv(e.value), optional: e.optional }
}

pub open spec fn known_elems_view(es: Vec<KnownElementEntry>) -> Seq<KnownElemV>
    decreases es,
{
    Seq::new(
        es@.len(),
        |i: int|
            if 0 <= i < es@.len() {
                known_elem_view(es@[i])
            } else {
                KnownElemV {
                    index: 0,
                    value: TypeV { elements: Seq::empty(), flags: FlowFlags { ignore_nullable_issues: false, ignore_falsable_issues: false } },
                    optional: false,
                }
            },
    )
}

pub open spec fn param_view(p: ParamInfo) -> ParamV
    decreases p,
{
    ParamV {
        name: p.name@,
        ty: tv(p.type_),
        has_default: p.has_default,
        by_reference: p.by_reference,
        variadic: p.variadic,
    }
}

pub open spec fn params_view(ps: Vec<ParamInfo>) -> Seq<ParamV>
    decreases ps,
{
    Seq::new(
        ps@.len(),
        |i: int|
            if 0 <= i < ps@.len() {
                param_view(ps@[i])
            } else {
                ParamV {
                    name: Seq::empty(),
                    ty: TypeV { elements: Seq::empty(), flags: FlowFlags { ignore_nullable_issues: false, ignore_falsable_issues: false } },
                    has_default: false,
                    by_reference: false,
                    variadic: false,
                }
            },
    )
}

pub open spec fn sig_view(s: Signature) -> SigV
    decreases s,
{
    SigV {
        ret: tv(s.return_type),
        throws: otv(s.throws),
        params: match s.parameters {
            Some(ps) => Some(params_view(ps)),
            None => None,
        },
        is_variadic: s.is_variadic,
        is_pure: s.is_pure,
    }
}

pub open spec fn alias_view(a: CallableAlias) -> AliasV {
    match a {
        CallableAlias::Function(n) => AliasV::Function(n@),
        CallableAlias::Method { class, method } => AliasV::Method(class@, method@),
        CallableAlias::Closure { start, end } => AliasV::Closure(start, end),
    }
}

pub open spec fn call_view(c: CallableInfo) -> CallV
    decreases c,
{
    match c {
        CallableInfo::Any => CallV::Any,
        CallableInfo::Signature(s) => CallV::Sig(sig_view(s)),
        CallableInfo::Closure(s) => CallV::Closure(sig_view(s)),
        CallableInfo::Alias(a) => CallV::Alias(alias_view(a)),
    }
}

pub open spec fn derived_view(d: DerivedInfo) -> DerivedV
    decreases d,
{
    match d {
        DerivedInfo::KeyOf(t) => DerivedV::KeyOf(tv(t)),
        DerivedInfo::ValueOf(t) => DerivedV::ValueOf(tv(t)),
        DerivedInfo::PropertiesOf { target, visibility } => DerivedV::PropertiesOf(tv(target), visibility),
        DerivedInfo::IndexAccess { target, index } => DerivedV::IndexAccess(tv(target), tv(index)),
        DerivedInfo::IntMask(ts) => DerivedV::IntMask(tvs(ts)),
        DerivedInfo::IntMaskOf(t) => DerivedV::IntMaskOf(tv(t)),
        DerivedInfo::TemplateType { object, class_name, template_name } => DerivedV::TemplateType(
            tv(object),
            tv(class_name),
            tv(template_name),
        ),
        DerivedInfo::New(t) => DerivedV::New(tv(t)),
    }
}

pub open spec fn selector_view(s: NameSelector) -> SelectorV {
    match s {
        NameSelector::Identifier(n) => SelectorV::Identifier(n@),
        NameSelector::StartsWith(n) => SelectorV::StartsWith(n@),
        NameSelector::EndsWith(n) => SelectorV::EndsWith(n@),
        NameSelector::Contains(n) => SelectorV::Contains(n@),
        NameSelector::Wildcard => SelectorV::Wildcard,
    }
}

pub open spec fn ev(e: Element) -> ElemV
    decreases e,
{
    match e {
        Element::Null => ElemV::Null,
        Element::Never => ElemV::Never,
        Element::Void => ElemV::Void,
        Element::Placeholder => ElemV::Placeholder,
        Element::True => ElemV::True,
        Element::False => ElemV::False,
        Element::Bool => ElemV::Bool,
        Element::Scalar => ElemV::Scalar,
        Element::Numeric => ElemV::Numeric,
        Element::ArrayKey => ElemV::ArrayKey,
        Element::ObjectAny => ElemV::ObjectAny,
        Element::Mixed(m) => ElemV::Mixed(m),
        Element::Int(i) => ElemV::Int(i),
        Element::Float(f) => ElemV::Float(f),
        Element::String(s) => ElemV::Str(
            StringInfoV { literal: lit_view(s.literal), casing: s.casing, flags: s.flags },
        ),
        Element::ClassLikeString(c) => ElemV::ClassLikeString(
            c.kind,
            match c.specifier {
                ClassLikeStringSpecifier::Any => ClsSpecV::Any,
                ClassLikeStringSpecifier::Literal(n) => ClsSpecV::Literal(n@),
                ClassLikeStringSpecifier::OfType(t) => ClsSpecV::OfType(tv(t)),
                ClassLikeStringSpecifier::Generic(t) => ClsSpecV::Generic(tv(t)),
            },
        ),
        Element::Resource(r) => ElemV::Resource(r),
        Element::GenericParameter(g) => ElemV::GenericParameter {
            name: g.name@,
            entity: entity_view(g.defining_entity),
            constraint: tv(g.constraint),
        },
        Element::List(l) => ElemV::List {
            element_type: tv(l.element_type),
            known: known_elems_view(l.known_elements),
            count: l.known_count,
            non_empty: l.non_empty,
        },
        Element::Array(a) => ElemV::Array {
            key: otv(a.key_param),
            value: otv(a.value_param),
            items: items_view(a.known_items),
            non_empty: a.non_empty,
        },
        Element::Iterable(it) => ElemV::Iterable { key: tv(it.key_type), value: tv(it.value_type) },
        Element::Object(o) => ElemV::Object { name: o.name@, args: tvs(o.type_args) },
        Element::Enum(en) => ElemV::Enum {
            name: en.name@,
            case: match en.case {
                Some(c) => Some(c@),
                None => None,
            },
        },
        Element::Callable(c) => ElemV::Callable(call_view(c)),
        Element::Conditional(c) => ElemV::Conditional {
            subject: tv(c.subject),
            target: tv(c.target),
            then_type: tv(c.then_type),
            otherwise: tv(c.otherwise),
            negated: c.negated,
        },
        Element::Derived(d) => ElemV::Derived(derived_view(d)),
        Element::Variable(n) => ElemV::Variable(n@),
        Element::Reference(r) => ElemV::Reference { name: r.name@, args: tvs(r.type_args) },
        Element::MemberReference { class_like_name, selector } => ElemV::MemberReference {
            class: class_like_name@,
            selector: selector_view(selector),
        },
        Element::GlobalReference(sel) => ElemV::GlobalReference(selector_view(sel)),
        Element::Alias { class_name, alias_name } => ElemV::Alias { class: class_name@, alias: alias_name@ },
        Element::ObjectShape(sh) => ElemV::ObjectShape { props: props_view(sh.known_properties), sealed: sh.sealed },
        Element::HasMethod(m) => ElemV::HasMethod(m@),
        Element::HasProperty(p) => ElemV::HasProperty(p@),
    }
}

impl View for Element {
    type V = ElemV;

    open spec fn view(&self) -> ElemV {
        ev(*self)
    }
}

impl View for Type {
    type V = TypeV;

    open spec fn view(&self) -> TypeV {
        tv(*self)
    }
}


// ---------------------------------------------------------------------
// Size measure used for termination of the recursive lattice walks.
// ---------------------------------------------------------------------
pub open spec fn tsize(t: TypeV) -> nat
    decreases t,
{
    1 + ssize(t.elements)
}

pub open spec fn ssize(s: Seq<ElemV>) -> nat
    decreases s, s.len(),
{
    if s.len() == 0 {
        0
    } else {
        ssize(s.drop_last()) + esize(s.last())
    }
}

pub open spec fn tssize(s: Seq<TypeV>) -> nat
    decreases s, s.len(),
{
    if s.len() == 0 {
        0
    } else {
        tssize(s.drop_last()) + tsize(s.last())
    }
}

pub open spec fn psize(p: ParamV) -> nat
    decreases p,
{
    1 + tsize(p.ty)
}

pub open spec fn pssize(s: Seq<ParamV>) -> nat
    decreases s, s.len(),
{
    if s.len() == 0 {
        0
    } else {
        pssize(s.drop_last()) + psize(s.last())
    }
}

pub open spec fn otsize(t: Option<TypeV>) -> nat
    decreases t,
{
    match t {
        Some(x) => tsize(x),
        None => 0,
    }
}

pub open spec fn item_size(it: ItemV) -> nat
    decreases it,
{
    5 + tsize(it.value)
}

pub open spec fn items_size(s: Seq<ItemV>) -> nat
    decreases s, s.len(),
{
    if s.len() == 0 {
        0
    } else {
        items_size(s.drop_last()) + item_size(s.last())
    }
}

pub open spec fn prop_size(p: PropV) -> nat
    decreases p,
{
    1 + tsize(p.value)
}

pub open spec fn props_size(s: Seq<PropV>) -> nat
    decreases s, s.len(),
{
    if s.len() == 0 {
        0
    } else {
        props_size(s.drop_last()) + prop_size(s.last())
    }
}

pub open spec fn kelem_size(k: KnownElemV) -> nat
    decreases k,
{
    1 + tsize(k.value)
}

pub open spec fn kelems_size(s: Seq<KnownElemV>) -> nat
    decreases s, s.len(),
{
    if s.len() == 0 {
        0
    } else {
        kelems_size(s.drop_last()) + kelem_size(s.last())
    }
}

pub open spec fn sigsize(s: SigV) -> nat
    decreases s,
{
    1 + tsize(s.ret) + match s.throws {
        Some(t) => tsize(t),
        None => 0,
    } + match s.params {
        Some(ps) => pssize(ps),
        None => 0,
    }
}

pub open spec fn dsize(d: DerivedV) -> nat
    decreases d,
{
    match d {
        DerivedV::KeyOf(t) => tsize(t),
        DerivedV::ValueOf(t) => tsize(t),
        DerivedV::PropertiesOf(t, _) => tsize(t),
        DerivedV::IndexAccess(t, i) => tsize(t) + tsize(i),
        DerivedV::IntMask(ts) => tssize(ts),
        DerivedV::IntMaskOf(t) => tsize(t),
        DerivedV::TemplateType(o, c, n) => tsize(o) + tsize(c) + tsize(n),
        DerivedV::New(t) => tsize(t),
    }
}

pub open spec fn esize(e: ElemV) -> nat
    decreases e,
{
    match e {
        ElemV::Callable(CallV::Sig(s)) => 1 + sigsize(s),
        ElemV::Callable(CallV::Closure(s)) => 1 + sigsize(s),
        ElemV::Conditional { subject, target, then_type, otherwise, .. } => 1 + tsize(subject) + tsize(target)
            + tsize(then_type) + tsize(otherwise),
        ElemV::Derived(d) => 1 + dsize(d),
        ElemV::Reference { args, .. } => 1 + tssize(args),
        ElemV::ClassLikeString(_, spec) => match spec {
            ClsSpecV::OfType(t) => 2 + tsize(t),
            ClsSpecV::Generic(t) => 2 + tsize(t),
            _ => 3,
        },
        ElemV::GenericParameter { constraint, .. } => 2 + tsize(constraint),
        ElemV::List { element_type, known, .. } => 2 + tsize(element_type) + kelems_size(known),
        ElemV::Array { key, value, items, .. } => 8 + otsize(key) + otsize(value) + items_size(items),
        ElemV::Iterable { key, value } => 2 + tsize(key) + tsize(value) + tsize(value),
        ElemV::ObjectShape { props, .. } => 1 + props_size(props),
        ElemV::Object { args, .. } => 1 + tssize(args),
        ElemV::Str(_) => 3,
        _ => 1,
    }
}

pub proof fn lemma_ssize_elem(s: Seq<ElemV>, i: int)
    requires
        0 <= i < s.len(),
    ensures
        esize(s[i]) <= ssize(s),
    decreases s.len(),
{
    if i < s.len() - 1 {
        lemma_ssize_elem(s.drop_last(), i);
    }
}

pub proof fn lemma_tssize_elem(s: Seq<TypeV>, i: int)
    requires
        0 <= i < s.len(),
    ensures
        tsize(s[i]) <= tssize(s),
    decreases s.len(),
{
    if i < s.len() - 1 {
        lemma_tssize_elem(s.drop_last(), i);
    }
}

pub proof fn lemma_items_size_elem(s: Seq<ItemV>, i: int)
    requires
        0 <= i < s.len(),
    ensures
        item_size(s[i]) <= items_size(s),
    decreases s.len(),
{
    if i < s.len() - 1 {
        lemma_items_size_elem(s.drop_last(), i);
    }
}

pub proof fn lemma_props_size_elem(s: Seq<PropV>, i: int)
    requires
        0 <= i < s.len(),
    ensures
        prop_size(s[i]) <= props_size(s),
    decreases s.len(),
{
    if i < s.len() - 1 {
        lemma_props_size_elem(s.drop_last(), i);
    }
}

pub proof fn lemma_kelems_size_elem(s: Seq<KnownElemV>, i: int)
    requires
        0 <= i < s.len(),
    ensures
        kelem_size(s[i]) <= kelems_size(s),
    decreases s.len(),
{
    if i < s.len() - 1 {
        lemma_kelems_size_elem(s.drop_last(), i);
    }
}

pub proof fn lemma_pssize_elem(s: Seq<ParamV>, i: int)
    requires
        0 <= i < s.len(),
    ensures
        psize(s[i]) <= pssize(s),
    decreases s.len(),
{
    if i < s.len() - 1 {
        lemma_pssize_elem(s.drop_last(), i);
    }
}

/// Every element of a type is strictly smaller than the type.
pub proof fn lemma_elem_smaller(t: TypeV, i: int)
    requires
        0 <= i < t.elements.len(),
    ensures
        esize(t.elements[i]) < tsize(t),
{
    lemma_ssize_elem(t.elements, i);
}

pub proof fn lemma_tsize_pos(t: TypeV)
    ensures
        tsize(t) >= 1,
{
}

// ---------------------------------------------------------------------
// Kinds.
// ---------------------------------------------------------------------
pub open spec fn kind_of(e: ElemV) -> ElementKind {
    match e {
        ElemV::Null => ElementKind::Null,
        ElemV::Never => ElementKind::Never,
        ElemV::Void => ElementKind::Void,
        ElemV::Placeholder => ElementKind::Placeholder,
        ElemV::True => ElementKind::True,
        ElemV::False => ElementKind::False,
        ElemV::Bool => ElementKind::Bool,
        ElemV::Scalar => ElementKind::Scalar,
        ElemV::Numeric => ElementKind::Numeric,
        ElemV::ArrayKey => ElementKind::ArrayKey,
        ElemV::ObjectAny => ElementKind::ObjectAny,
        ElemV::Mixed(_) => ElementKind::Mixed,
        ElemV::Int(_) => ElementKind::Int,
        ElemV::Float(_) => ElementKind::Float,
        ElemV::Str(_) => ElementKind::String,
        ElemV::ClassLikeString(..) => ElementKind::ClassLikeString,
        ElemV::Resource(_) => ElementKind::Resource,
        ElemV::GenericParameter { .. } => ElementKind::GenericParameter,
        ElemV::List { .. } => ElementKind::List,
        ElemV::Array { .. } => ElementKind::Array,
        ElemV::Iterable { .. } => ElementKind::Iterable,
        ElemV::Object { .. } => ElementKind::Object,
        ElemV::Enum { .. } => ElementKind::Enum,
        ElemV::Callable(_) => ElementKind::Callable,
        ElemV::Conditional { .. } => ElementKind::Conditional,
        ElemV::Derived(_) => ElementKind::Derived,
        ElemV::Variable(_) => ElementKind::Variable,
        ElemV::Reference { .. } => ElementKind::Reference,
        ElemV::MemberReference { .. } => ElementKind::MemberReference,
        ElemV::GlobalReference(_) => ElementKind::GlobalReference,
        ElemV::Alias { .. } => ElementKind::Alias,
        ElemV::ObjectShape { .. } => ElementKind::ObjectShape,
        ElemV::HasMethod(_) => ElementKind::HasMethod,
        ElemV::HasProperty(_) => ElementKind::HasProperty,
    }
}

impl Element {
    /// The family this element belongs to.
    pub fn kind(&self) -> (k: ElementKind)
        ensures
            k == kind_of(self@),
    {
        match self {
            Element::Null => ElementKind::Null,
            Element::Never => ElementKind::Never,
            Element::Void => ElementKind::Void,
            Element::Placeholder => ElementKind::Placeholder,
            Element::True => ElementKind::True,
            Element::False => ElementKind::False,
            Element::Bool => ElementKind::Bool,
            Element::Scalar => ElementKind::Scalar,
            Element::Numeric => ElementKind::Numeric,
            Element::ArrayKey => ElementKind::ArrayKey,
            Element::ObjectAny => ElementKind::ObjectAny,
            Element::Mixed(_) => ElementKind::Mixed,
            Element::Int(_) => ElementKind::Int,
            Element::Float(_) => ElementKind::Float,
            Element::String(_) => ElementKind::String,
            Element::ClassLikeString(_) => ElementKind::ClassLikeString,
            Element::Resource(_) => ElementKind::Resource,
            Element::GenericParameter(_) => ElementKind::GenericParameter,
            Element::List(_) => ElementKind::List,
            Element::Array(_) => ElementKind::Array,
            Element::Iterable(_) => ElementKind::Iterable,
            Element::Object(_) => ElementKind::Object,
            Element::Enum(_) => ElementKind::Enum,
            Element::Callable(_) => ElementKind::Callable,
            Element::Conditional(_) => ElementKind::Conditional,
            Element::Derived(_) => ElementKind::Derived,
            Element::Variable(_) => ElementKind::Variable,
            Element::Reference(_) => ElementKind::Reference,
            Element::MemberReference { .. } => ElementKind::MemberReference,
            Element::GlobalReference(_) => ElementKind::GlobalReference,
            Element::Alias { .. } => ElementKind::Alias,
            Element::ObjectShape(_) => ElementKind::ObjectShape,
            Element::HasMethod(_) => ElementKind::HasMethod,
            Element::HasProperty(_) => ElementKind::HasProperty,
        }
    }
}

// ---------------------------------------------------------------------
// Deep copies and structural equality.
// ---------------------------------------------------------------------
pub fn copy_chars(v: &Vec<char>) -> (r: Vec<char>)
    ensures
        r@ == v@,
{
    let mut r: Vec<char> = Vec::new();
    let mut i: usize = 0;
    while i < v.len()
        invariant
            i <= v.len(),
            r@ == v@.take(i as int),
        decreases v.len() - i,
    {
        r.push(v[i]);
        i += 1;
    }
    assert(r@ =~= v@);
    r
}

pub fn chars_eq(a: &Vec<char>, b: &Vec<char>) -> (r: bool)
    ensures
        r == (a@ == b@),
{
    if a.len() != b.len() {
        return false;
    }
    let mut i: usize = 0;
    while i < a.len()
        invariant
            i <= a.len(),
            a.len() == b.len(),
            forall|j: int| 0 <= j < i ==> a@[j] == b@[j],
        decreases a.len() - i,
    {
        if a[i] != b[i] {
            return false;
        }
        i += 1;
    }
    assert(a@ =~= b@);
    true
}

/// The characters of `s`, one per Unicode scalar value.
pub fn chars_of(s: &str) -> (res: Vec<char>)
    ensures
        res@ == s@,
{
    let mut res: Vec<char> = Vec::new();
    for c in it: s.chars()
        invariant
            res@ == it.seq().take(it.index() as int),
    {
        res.push(c);
    }
    res
}

impl StringLiteral {
    pub fn copy(&self) -> (r: StringLiteral)
        ensures
            lit_view(r) == lit_view(*self),
    {
        match self {
            StringLiteral::Absent => StringLiteral::Absent,
            StringLiteral::Unspecified => StringLiteral::Unspecified,
            StringLiteral::Value(v) => StringLiteral::Value(copy_chars(v)),
        }
    }
}

impl DefiningEntity {
    pub fn copy(&self) -> (r: DefiningEntity)
        ensures
            entity_view(r) == entity_view(*self),
    {
        match self {
            DefiningEntity::ClassLike(n) => DefiningEntity::ClassLike(copy_chars(n)),
            DefiningEntity::Function(n) => DefiningEntity::Function(copy_chars(n)),
        }
    }

    pub fn same(&self, other: &DefiningEntity) -> (r: bool)
        ensures
            r == (entity_view(*self) == entity_view(*other)),
    {
        match (self, other) {
            (DefiningEntity::ClassLike(a), DefiningEntity::ClassLike(b)) => chars_eq(a, b),
            (DefiningEntity::Function(a), DefiningEntity::Function(b)) => chars_eq(a, b),
            _ => false,
        }
    }
}

impl Type {
    /// A deep copy with the same model.
    pub fn copy(&self) -> (r: Type)
        ensures
            r@ == self@,
        decreases self,
    {
        let mut elements: Vec<Element> = Vec::new();
        let mut i: usize = 0;
        while i < self.elements.len()
            invariant
                i <= self.elements.len(),
                elements@.len() == i,
                forall|j: int| 0 <= j < i ==> elements@[j]@ == self.elements@[j]@,
            decreases self.elements.len() - i,
        {
            proof {
                assert(decreases_to!(self.elements => self.elements[i as int]));
            }
            elements.push(self.elements[i].copy());
            i += 1;
        }
        let r = Type { elements, flags: self.flags };
        assert(r@.elements =~= self@.elements);
        r
    }

    /// Structural equality of the models.
    pub fn same(&self, other: &Type) -> (r: bool)
        ensures
            r == (self@ == other@),
        decreases self,
    {
        if self.flags != other.flags {
            return false;
        }
        if self.elements.len() != other.elements.len() {
            assert(self@.elements.len() != other@.elements.len());
            return false;
        }
        let mut i: usize = 0;
        while i < self.elements.len()
            invariant
                i <= self.elements.len(),
                self.elements.len() == other.elements.len(),
                forall|j: int| 0 <= j < i ==> self.elements@[j]@ == other.elements@[j]@,
            decreases self.elements.len() - i,
        {
            proof {
                assert(decreases_to!(self.elements => self.elements[i as int]));
            }
            if !self.elements[i].same(&other.elements[i]) {
                assert(self@.elements[i as int] != other@.elements[i as int]);
                return false;
            }
            i += 1;
        }
        assert(self@.elements =~= other@.elements);
        true
    }
}

pub fn copy_types(ts: &Vec<Type>) -> (r: Vec<Type>)
    ensures
        tvs(r) == tvs(*ts),
    decreases ts,
{
    let mut out: Vec<Type> = Vec::new();
    let mut i: usize = 0;
    while i < ts.len()
        invariant
            i <= ts.len(),
            out@.len() == i,
            forall|j: int| 0 <= j < i ==> out@[j]@ == ts@[j]@,
        decreases ts.len() - i,
    {
        proof {
            assert(decreases_to!(*ts => ts[i as int]));
        }
        out.push(ts[i].copy());
        i += 1;
    }
    assert(tvs(out) =~= tvs(*ts));
    out
}

pub fn types_same(a: &Vec<Type>, b: &Vec<Type>) -> (r: bool)
    ensures
        r == (tvs(*a) == tvs(*b)),
    decreases a,
{
    if a.len() != b.len() {
        assert(tvs(*a).len() != tvs(*b).len());
        return false;
    }
    let mut i: usize = 0;
    while i < a.len()
        invariant
            i <= a.len(),
            a.len() == b.len(),
            forall|j: int| 0 <= j < i ==> a@[j]@ == b@[j]@,
        decreases a.len() - i,
    {
        proof {
            assert(decreases_to!(*a => a[i as int]));
        }
        if !a[i].same(&b[i]) {
            assert(tvs(*a)[i as int] != tvs(*b)[i as int]);
            return false;
        }
        i += 1;
    }
    assert(tvs(*a) =~= tvs(*b));
    true
}

pub fn copy_opt_type(t: &Option<Type>) -> (r: Option<Type>)
    ensures
        otv(r) == otv(*t),
    decreases t,
{
    match t {
        Some(x) => Some(x.copy()),
        None => None,
    }
}

pub fn opt_type_same(a: &Option<Type>, b: &Option<Type>) -> (r: bool)
    ensures
        r == (otv(*a) == otv(*b)),
    decreases a,
{
    match (a, b) {
        (Some(x), Some(y)) => x.same(y),
        (None, None) => true,
        _ => false,
    }
}

pub fn copy_params(ps: &Vec<ParamInfo>) -> (r: Vec<ParamInfo>)
    ensures
        params_view(r) == params_view(*ps),
    decreases ps,
{
    let mut out: Vec<ParamInfo> = Vec::new();
    let mut i: usize = 0;
    while i < ps.len()
        invariant
            i <= ps.len(),
            out@.len() == i,
            forall|j: int| 0 <= j < i ==> param_view(#[trigger] out@[j]) == param_view(ps@[j]),
        decreases ps.len() - i,
    {
        proof {
            assert(decreases_to!(*ps => ps[i as int]));
        }
        let p = &ps[i];
        out.push(
            ParamInfo {
                name: copy_chars(&p.name),
                type_: p.type_.copy(),
                has_default: p.has_default,
                by_reference: p.by_reference,
                variadic: p.variadic,
            },
        );
        i += 1;
    }
    assert(params_view(out) =~= params_view(*ps));
    out
}

pub fn params_same(a: &Vec<ParamInfo>, b: &Vec<ParamInfo>) -> (r: bool)
    ensures
        r == (params_view(*a) == params_view(*b)),
    decreases a,
{
    if a.len() != b.len() {
        assert(params_view(*a).len() != params_view(*b).len());
        return false;
    }
    let mut i: usize = 0;
    while i < a.len()
        invariant
            i <= a.len(),
            a.len() == b.len(),
            forall|j: int| 0 <= j < i ==> param_view(#[trigger] a@[j]) == param_view(b@[j]),
        decreases a.len() - i,
    {
        proof {
            assert(decreases_to!(*a => a[i as int]));
        }
        let x = &a[i];
        let y = &b[i];
        if !(chars_eq(&x.name, &y.name) && x.has_default == y.has_default && x.by_reference == y.by_reference
            && x.variadic == y.variadic && x.type_.same(&y.type_)) {
            assert(params_view(*a)[i as int] != params_view(*b)[i as int]);
            return false;
        }
        i += 1;
    }
    assert(params_view(*a) =~= params_view(*b));
    true
}

impl ArrayKey {
    pub fn copy(&self) -> (r: ArrayKey)
        ensures
            key_view(r) == key_view(*self),
    {
        match self {
            ArrayKey::Int(n) => ArrayKey::Int(*n),
            ArrayKey::String(v) => ArrayKey::String(copy_chars(v)),
            ArrayKey::Const { class, name } => ArrayKey::Const { class: copy_chars(class), name: copy_chars(name) },
        }
    }

    pub fn same(&self, other: &ArrayKey) -> (r: bool)
        ensures
            r == (key_view(*self) == key_view(*other)),
    {
        match (self, other) {
            (ArrayKey::Int(a), ArrayKey::Int(b)) => *a == *b,
            (ArrayKey::String(a), ArrayKey::String(b)) => chars_eq(a, b),
            (ArrayKey::Const { class: ca, name: na }, ArrayKey::Const { class: cb, name: nb }) => {
                chars_eq(ca, cb) && chars_eq(na, nb)
            },
            _ => false,
        }
    }
}

pub fn copy_items(es: &Vec<KnownItemEntry>) -> (r: Vec<KnownItemEntry>)
    ensures
        items_view(r) == items_view(*es),
    decreases es,
{
    let mut out: Vec<KnownItemEntry> = Vec::new();
    let mut i: usize = 0;
    while i < es.len()
        invariant
            i <= es.len(),
            out@.len() == i,
            forall|j: int| 0 <= j < i ==> item_view(#[trigger] out@[j]) == item_view(es@[j]),
        decreases es.len() - i,
    {
        proof {
            assert(decreases_to!(*es => es[i as int]));
        }
        let e = &es[i];
        out.push(KnownItemEntry { key: e.key.copy(), value: e.value.copy(), optional: e.optional });
        i += 1;
    }
    assert(items_view(out) =~= items_view(*es));
    out
}

pub fn items_same(a: &Vec<KnownItemEntry>, b: &Vec<KnownItemEntry>) -> (r: bool)
    ensures
        r == (items_view(*a) == items_view(*b)),
    decreases a,
{
    if a.len() != b.len() {
        assert(items_view(*a).len() != items_view(*b).len());
        return false;
    }
    let mut i: usize = 0;
    while i < a.len()
        invariant
            i <= a.len(),
            a.len() == b.len(),
            forall|j: int| 0 <= j < i ==> item_view(#[trigger] a@[j]) == item_view(b@[j]),
        decreases a.len() - i,
    {
        proof {
            assert(decreases_to!(*a => a[i as int]));
        }
        let x = &a[i];
        let y = &b[i];
        if !(x.optional == y.optional && x.key.same(&y.key) && x.value.same(&y.value)) {
            assert(items_view(*a)[i as int] != items_view(*b)[i as int]);
            return false;
        }
        i += 1;
    }
    assert(items_view(*a) =~= items_view(*b));
    true
}

pub fn copy_props(es: &Vec<KnownPropertyEntry>) -> (r: Vec<KnownPropertyEntry>)
    ensures
        props_view(r) == props_view(*es),
    decreases es,
{
    let mut out: Vec<KnownPropertyEntry> = Vec::new();
    let mut i: usize = 0;
    while i < es.len()
        invariant
            i <= es.len(),
            out@.len() == i,
            forall|j: int| 0 <= j < i ==> prop_view(#[trigger] out@[j]) == prop_view(es@[j]),
        decreases es.len() - i,
    {
        proof {
            assert(decreases_to!(*es => es[i as int]));
        }
        let e = &es[i];
        out.push(KnownPropertyEntry { name: copy_chars(&e.name), value: e.value.copy(), optional: e.optional });
        i += 1;
    }
    assert(props_view(out) =~= props_view(*es));
    out
}

pub fn props_same(a: &Vec<KnownPropertyEntry>, b: &Vec<KnownPropertyEntry>) -> (r: bool)
    ensures
        r == (props_view(*a) == props_view(*b)),
    decreases a,
{
    if a.len() != b.len() {
        assert(props_view(*a).len() != props_view(*b).len());
        return false;
    }
    let mut i: usize = 0;
    while i < a.len()
        invariant
            i <= a.len(),
            a.len() == b.len(),
            forall|j: int| 0 <= j < i ==> prop_view(#[trigger] a@[j]) == prop_view(b@[j]),
        decreases a.len() - i,
    {
        proof {
            assert(decreases_to!(*a => a[i as int]));
        }
        let x = &a[i];
        let y = &b[i];
        if !(x.optional == y.optional && chars_eq(&x.name, &y.name) && x.value.same(&y.value)) {
            assert(props_view(*a)[i as int] != props_view(*b)[i as int]);
            return false;
        }
        i += 1;
    }
    assert(props_view(*a) =~= props_view(*b));
    true
}

pub fn copy_known_elements(es: &Vec<KnownElementEntry>) -> (r: Vec<KnownElementEntry>)
    ensures
        known_elems_view(r) == known_elems_view(*es),
    decreases es,
{
    let mut out: Vec<KnownElementEntry> = Vec::new();
    let mut i: usize = 0;
    while i < es.len()
        invariant
            i <= es.len(),
            out@.len() == i,
            forall|j: int| 0 <= j < i ==> known_elem_view(#[trigger] out@[j]) == known_elem_view(es@[j]),
        decreases es.len() - i,
    {
        proof {
            assert(decreases_to!(*es => es[i as int]));
        }
        let e = &es[i];
        out.push(KnownElementEntry { index: e.index, value: e.value.copy(), optional: e.optional });
        i += 1;
    }
    assert(known_elems_view(out) =~= known_elems_view(*es));
    out
}

pub fn known_elements_same(a: &Vec<KnownElementEntry>, b: &Vec<KnownElementEntry>) -> (r: bool)
    ensures
        r == (known_elems_view(*a) == known_elems_view(*b)),
    decreases a,
{
    if a.len() != b.len() {
        assert(known_elems_view(*a).len() != known_elems_view(*b).len());
        return false;
    }
    let mut i: usize = 0;
    while i < a.len()
        invariant
            i <= a.len(),
            a.len() == b.len(),
            forall|j: int| 0 <= j < i ==> known_elem_view(#[trigger] a@[j]) == known_elem_view(b@[j]),
        decreases a.len() - i,
    {
        proof {
            assert(decreases_to!(*a => a[i as int]));
        }
        let x = &a[i];
        let y = &b[i];
        if !(x.index == y.index && x.optional == y.optional && x.value.same(&y.value)) {
            assert(known_elems_view(*a)[i as int] != known_elems_view(*b)[i as int]);
            return false;
        }
        i += 1;
    }
    assert(known_elems_view(*a) =~= known_elems_view(*b));
    true
}

pub fn copy_signature(s: &Signature) -> (r: Signature)
    ensures
        sig_view(r) == sig_view(*s),
    decreases s,
{
    let parameters = match &s.parameters {
        Some(ps) => Some(copy_params(ps)),
        None => None,
    };
    Signature {
        return_type: s.return_type.copy(),
        throws: copy_opt_type(&s.throws),
        parameters,
        is_variadic: s.is_variadic,
        is_pure: s.is_pure,
    }
}

pub fn signature_same(a: &Signature, b: &Signature) -> (r: bool)
    ensures
        r == (sig_view(*a) == sig_view(*b)),
    decreases a,
{
    let params = match (&a.parameters, &b.parameters) {
        (Some(x), Some(y)) => params_same(x, y),
        (None, None) => true,
        _ => false,
    };
    params && a.is_variadic == b.is_variadic && a.is_pure == b.is_pure && a.return_type.same(&b.return_type)
        && opt_type_same(&a.throws, &b.throws)
}

impl NameSelector {
    pub fn copy(&self) -> (r: NameSelector)
        ensures
            selector_view(r) == selector_view(*self),
    {
        match self {
            NameSelector::Identifier(n) => NameSelector::Identifier(copy_chars(n)),
            NameSelector::StartsWith(n) => NameSelector::StartsWith(copy_chars(n)),
            NameSelector::EndsWith(n) => NameSelector::EndsWith(copy_chars(n)),
            NameSelector::Contains(n) => NameSelector::Contains(copy_chars(n)),
            NameSelector::Wildcard => NameSelector::Wildcard,
        }
    }

    pub fn same(&self, other: &NameSelector) -> (r: bool)
        ensures
            r == (selector_view(*self) == selector_view(*other)),
    {
        match (self, other) {
            (NameSelector::Identifier(a), NameSelector::Identifier(b)) => chars_eq(a, b),
            (NameSelector::StartsWith(a), NameSelector::StartsWith(b)) => chars_eq(a, b),
            (NameSelector::EndsWith(a), NameSelector::EndsWith(b)) => chars_eq(a, b),
            (NameSelector::Contains(a), NameSelector::Contains(b)) => chars_eq(a, b),
            (NameSelector::Wildcard, NameSelector::Wildcard) => true,
            _ => false,
        }
    }
}

impl CallableAlias {
    pub fn copy(&self) -> (r: CallableAlias)
        ensures
            alias_view(r) == alias_view(*self),
    {
        match self {
            CallableAlias::Function(n) => CallableAlias::Function(copy_chars(n)),
            CallableAlias::Method { class, method } => CallableAlias::Method {
                class: copy_chars(class),
                method: copy_chars(method),
            },
            CallableAlias::Closure { start, end } => CallableAlias::Closure { start: *start, end: *end },
        }
    }

    pub fn same(&self, other: &CallableAlias) -> (r: bool)
        ensures
            r == (alias_view(*self) == alias_view(*other)),
    {
        match (self, other) {
            (CallableAlias::Function(a), CallableAlias::Function(b)) => chars_eq(a, b),
            (CallableAlias::Method { class: ca, method: ma }, CallableAlias::Method { class: cb, method: mb }) => {
                chars_eq(ca, cb) && chars_eq(ma, mb)
            },
            (CallableAlias::Closure { start: sa, end: ea }, CallableAlias::Closure { start: sb, end: eb }) => {
                *sa == *sb && *ea == *eb
            },
            _ => false,
        }
    }
}

pub fn copy_callable(c: &CallableInfo) -> (r: CallableInfo)
    ensures
        call_view(r) == call_view(*c),
    decreases c,
{
    match c {
        CallableInfo::Any => CallableInfo::Any,
        CallableInfo::Signature(s) => CallableInfo::Signature(copy_signature(s)),
        CallableInfo::Closure(s) => CallableInfo::Closure(copy_signature(s)),
        CallableInfo::Alias(a) => CallableInfo::Alias(a.copy()),
    }
}

pub fn callable_same(a: &CallableInfo, b: &CallableInfo) -> (r: bool)
    ensures
        r == (call_view(*a) == call_view(*b)),
    decreases a,
{
    match (a, b) {
        (CallableInfo::Any, CallableInfo::Any) => true,
        (CallableInfo::Signature(x), CallableInfo::Signature(y)) => signature_same(x, y),
        (CallableInfo::Closure(x), CallableInfo::Closure(y)) => signature_same(x, y),
        (CallableInfo::Alias(x), CallableInfo::Alias(y)) => x.same(y),
        _ => false,
    }
}

pub fn copy_derived(d: &DerivedInfo) -> (r: DerivedInfo)
    ensures
        derived_view(r) == derived_view(*d),
    decreases d,
{
    match d {
        DerivedInfo::KeyOf(t) => DerivedInfo::KeyOf(t.copy()),
        DerivedInfo::ValueOf(t) => DerivedInfo::ValueOf(t.copy()),
        DerivedInfo::PropertiesOf { target, visibility } => DerivedInfo::PropertiesOf {
            target: target.copy(),
            visibility: *visibility,
        },
        DerivedInfo::IndexAccess { target, index } => DerivedInfo::IndexAccess {
            target: target.copy(),
            index: index.copy(),
        },
        DerivedInfo::IntMask(ts) => DerivedInfo::IntMask(copy_types(ts)),
        DerivedInfo::IntMaskOf(t) => DerivedInfo::IntMaskOf(t.copy()),
        DerivedInfo::TemplateType { object, class_name, template_name } => DerivedInfo::TemplateType {
            object: object.copy(),
            class_name: class_name.copy(),
            template_name: template_name.copy(),
        },
        DerivedInfo::New(t) => DerivedInfo::New(t.copy()),
    }
}

pub fn derived_same(a: &DerivedInfo, b: &DerivedInfo) -> (r: bool)
    ensures
        r == (derived_view(*a) == derived_view(*b)),
    decreases a,
{
    match (a, b) {
        (DerivedInfo::KeyOf(x), DerivedInfo::KeyOf(y)) => x.same(y),
        (DerivedInfo::ValueOf(x), DerivedInfo::ValueOf(y)) => x.same(y),
        (
            DerivedInfo::PropertiesOf { target: tx, visibility: vx },
            DerivedInfo::PropertiesOf { target: ty, visibility: vy },
        ) => *vx == *vy && tx.same(ty),
        (DerivedInfo::IndexAccess { target: tx, index: ix }, DerivedInfo::IndexAccess { target: ty, index: iy }) => {
            tx.same(ty) && ix.same(iy)
        },
        (DerivedInfo::IntMask(x), DerivedInfo::IntMask(y)) => types_same(x, y),
        (DerivedInfo::IntMaskOf(x), DerivedInfo::IntMaskOf(y)) => x.same(y),
        (
            DerivedInfo::TemplateType { object: ox, class_name: cx, template_name: nx },
            DerivedInfo::TemplateType { object: oy, class_name: cy, template_name: ny },
        ) => ox.same(oy) && cx.same(cy) && nx.same(ny),
        (DerivedInfo::New(x), DerivedInfo::New(y)) => x.same(y),
        _ => false,
    }
}

impl Element {
    /// A deep copy with the same model.
    pub fn copy(&self) -> (r: Element)
        ensures
            r@ == self@,
        decreases self,
    {
        match self {
            Element::Null => Element::Null,
            Element::Never => Element::Never,
            Element::Void => Element::Void,
            Element::Placeholder => Element::Placeholder,
            Element::True => Element::True,
            Element::False => Element::False,
            Element::Bool => Element::Bool,
            Element::Scalar => Element::Scalar,
            Element::Numeric => Element::Numeric,
            Element::ArrayKey => Element::ArrayKey,
            Element::ObjectAny => Element::ObjectAny,
            Element::Mixed(m) => Element::Mixed(*m),
            Element::Int(i) => Element::Int(*i),
            Element::Float(f) => Element::Float(*f),
            Element::String(s) => Element::String(
                StringInfo { literal: s.literal.copy(), casing: s.casing, flags: s.flags },
            ),
            Element::ClassLikeString(c) => {
                let specifier = match &c.specifier {
                    ClassLikeStringSpecifier::Any => ClassLikeStringSpecifier::Any,
                    ClassLikeStringSpecifier::Literal(n) => ClassLikeStringSpecifier::Literal(copy_chars(n)),
                    ClassLikeStringSpecifier::OfType(t) => ClassLikeStringSpecifier::OfType(t.copy()),
                    ClassLikeStringSpecifier::Generic(t) => ClassLikeStringSpecifier::Generic(t.copy()),
                };
                Element::ClassLikeString(ClassLikeStringInfo { kind: c.kind, specifier })
            },
            Element::Resource(r) => Element::Resource(*r),
            Element::GenericParameter(g) => Element::GenericParameter(
                GenericParameterInfo {
                    name: copy_chars(&g.name),
                    defining_entity: g.defining_entity.copy(),
                    constraint: g.constraint.copy(),
                },
            ),
            Element::List(l) => Element::List(
                ListInfo {
                    element_type: l.element_type.copy(),
                    known_elements: copy_known_elements(&l.known_elements),
                    known_count: l.known_count,
                    non_empty: l.non_empty,
                },
            ),
            Element::Array(a) => Element::Array(
                KeyedArrayInfo {
                    key_param: copy_opt_type(&a.key_param),
                    value_param: copy_opt_type(&a.value_param),
                    known_items: copy_items(&a.known_items),
                    non_empty: a.non_empty,
                },
            ),
            Element::Iterable(it) => Element::Iterable(
                IterableInfo { key_type: it.key_type.copy(), value_type: it.value_type.copy() },
            ),
            Element::Object(o) => Element::Object(
                ObjectInfo { name: copy_chars(&o.name), type_args: copy_types(&o.type_args) },
            ),
            Element::Enum(en) => Element::Enum(
                EnumInfo {
                    name: copy_chars(&en.name),
                    case: match &en.case {
                        Some(c) => Some(copy_chars(c)),
                        None => None,
                    },
                },
            ),
            Element::Callable(c) => Element::Callable(copy_callable(c)),
            Element::Conditional(c) => Element::Conditional(
                ConditionalInfo {
                    subject: c.subject.copy(),
                    target: c.target.copy(),
                    then_type: c.then_type.copy(),
                    otherwise: c.otherwise.copy(),
                    negated: c.negated,
                },
            ),
            Element::Derived(d) => Element::Derived(copy_derived(d)),
            Element::Variable(n) => Element::Variable(copy_chars(n)),
            Element::Reference(r) => Element::Reference(
                ReferenceInfo { name: copy_chars(&r.name), type_args: copy_types(&r.type_args) },
            ),
            Element::MemberReference { class_like_name, selector } => Element::MemberReference {
                class_like_name: copy_chars(class_like_name),
                selector: selector.copy(),
            },
            Element::GlobalReference(sel) => Element::GlobalReference(sel.copy()),
            Element::Alias { class_name, alias_name } => Element::Alias {
                class_name: copy_chars(class_name),
                alias_name: copy_chars(alias_name),
            },
            Element::ObjectShape(sh) => Element::ObjectShape(
                ObjectShapeInfo { known_properties: copy_props(&sh.known_properties), sealed: sh.sealed },
            ),
            Element::HasMethod(m) => Element::HasMethod(copy_chars(m)),
            Element::HasProperty(p) => Element::HasProperty(copy_chars(p)),
        }
    }

    /// Structural equality of the models.
    pub fn same(&self, other: &Element) -> (r: bool)
        ensures
            r == (self@ == other@),
        decreases self,
    {
        match (self, other) {
            (Element::Null, Element::Null) => true,
            (Element::Never, Element::Never) => true,
            (Element::Void, Element::Void) => true,
            (Element::Placeholder, Element::Placeholder) => true,
            (Element::True, Element::True) => true,
            (Element::False, Element::False) => true,
            (Element::Bool, Element::Bool) => true,
            (Element::Scalar, Element::Scalar) => true,
            (Element::Numeric, Element::Numeric) => true,
            (Element::ArrayKey, Element::ArrayKey) => true,
            (Element::ObjectAny, Element::ObjectAny) => true,
            (Element::Mixed(a), Element::Mixed(b)) => *a == *b,
            (Element::Int(a), Element::Int(b)) => *a == *b,
            (Element::Float(a), Element::Float(b)) => *a == *b,
            (Element::String(a), Element::String(b)) => {
                let lit = match (&a.literal, &b.literal) {
                    (StringLiteral::Absent, StringLiteral::Absent) => true,
                    (StringLiteral::Unspecified, StringLiteral::Unspecified) => true,
                    (StringLiteral::Value(x), StringLiteral::Value(y)) => chars_eq(x, y),
                    _ => false,
                };
                lit && a.casing == b.casing && a.flags == b.flags
            },
            (Element::ClassLikeString(a), Element::ClassLikeString(b)) => {
                let spec = match (&a.specifier, &b.specifier) {
                    (ClassLikeStringSpecifier::Any, ClassLikeStringSpecifier::Any) => true,
                    (ClassLikeStringSpecifier::Literal(x), ClassLikeStringSpecifier::Literal(y)) => chars_eq(x, y),
                    (ClassLikeStringSpecifier::OfType(x), ClassLikeStringSpecifier::OfType(y)) => x.same(y),
                    (ClassLikeStringSpecifier::Generic(x), ClassLikeStringSpecifier::Generic(y)) => x.same(y),
                    _ => false,
                };
                spec && a.kind == b.kind
            },
            (Element::Resource(a), Element::Resource(b)) => *a == *b,
            (Element::GenericParameter(a), Element::GenericParameter(b)) => {
                chars_eq(&a.name, &b.name) && a.defining_entity.same(&b.defining_entity)
                    && a.constraint.same(&b.constraint)
            },
            (Element::List(a), Element::List(b)) => {
                a.non_empty == b.non_empty && a.known_count == b.known_count && a.element_type.same(
                    &b.element_type,
                ) && known_elements_same(&a.known_elements, &b.known_elements)
            },
            (Element::Array(a), Element::Array(b)) => {
                a.non_empty == b.non_empty && opt_type_same(&a.key_param, &b.key_param) && opt_type_same(
                    &a.value_param,
                    &b.value_param,
                ) && items_same(&a.known_items, &b.known_items)
            },
            (Element::Iterable(a), Element::Iterable(b)) => {
                a.key_type.same(&b.key_type) && a.value_type.same(&b.value_type)
            },
            (Element::Object(a), Element::Object(b)) => {
                chars_eq(&a.name, &b.name) && types_same(&a.type_args, &b.type_args)
            },
            (Element::Enum(a), Element::Enum(b)) => {
                let case = match (&a.case, &b.case) {
                    (Some(x), Some(y)) => chars_eq(x, y),
                    (None, None) => true,
                    _ => false,
                };
                case && chars_eq(&a.name, &b.name)
            },
            (Element::Callable(a), Element::Callable(b)) => callable_same(a, b),
            (Element::Conditional(a), Element::Conditional(b)) => {
                a.negated == b.negated && a.subject.same(&b.subject) && a.target.same(&b.target) && a.then_type.same(
                    &b.then_type,
                ) && a.otherwise.same(&b.otherwise)
            },
            (Element::Derived(a), Element::Derived(b)) => derived_same(a, b),
            (Element::Variable(a), Element::Variable(b)) => chars_eq(a, b),
            (Element::Reference(a), Element::Reference(b)) => {
                chars_eq(&a.name, &b.name) && types_same(&a.type_args, &b.type_args)
            },
            (
                Element::MemberReference { class_like_name: ca, selector: sa },
                Element::MemberReference { class_like_name: cb, selector: sb },
            ) => chars_eq(ca, cb) && sa.same(sb),
            (Element::GlobalReference(a), Element::GlobalReference(b)) => a.same(b),
            (
                Element::Alias { class_name: ca, alias_name: aa },
                Element::Alias { class_name: cb, alias_name: ab },
            ) => chars_eq(ca, cb) && chars_eq(aa, ab),
            (Element::ObjectShape(a), Element::ObjectShape(b)) => {
                a.sealed == b.sealed && props_same(&a.known_properties, &b.known_properties)
            },
            (Element::HasMethod(a), Element::HasMethod(b)) => chars_eq(a, b),
            (Element::HasProperty(a), Element::HasProperty(b)) => chars_eq(a, b),
            _ => false,
        }
    }
}


// ---------------------------------------------------------------------
// Unions: the canonical element list of a type.
// ---------------------------------------------------------------------
/// The union with repeated atoms removed, first occurrence kept.
pub open spec fn dedup(s: Seq<ElemV>) -> Seq<ElemV>
    decreases s.len(),
{
    if s.len() == 0 {
        Seq::empty()
    } else {
        let d = dedup(s.drop_last());
        if d.contains(s.last()) {
            d
        } else {
            d.push(s.last())
        }
    }
}

/// The element list a union of `s` is stored as: `s` without repeats, or
/// `never` when `s` is empty.
pub open spec fn canonical(s: Seq<ElemV>) -> Seq<ElemV> {
    if s.len() == 0 {
        seq![ElemV::Never]
    } else {
        dedup(s)
    }
}

pub proof fn lemma_dedup_contains(s: Seq<ElemV>, x: ElemV)
    ensures
        dedup(s).contains(x) <==> s.contains(x),
    decreases s.len(),
{
    if s.len() > 0 {
        let init = s.drop_last();
        let l = s.last();
        let d = dedup(init);
        lemma_dedup_contains(init, x);
        assert(s =~= init.push(l));
        assert(s.contains(x) <==> (init.contains(x) || x == l)) by {
            if s.contains(x) {
                let k = choose|k: int| 0 <= k < s.len() && s[k] == x;
                if k < init.len() {
                    assert(init[k] == x);
                }
            }
            if init.contains(x) {
                let k = choose|k: int| 0 <= k < init.len() && init[k] == x;
                assert(s[k] == x);
            }
            if x == l {
                assert(s[s.len() - 1] == x);
            }
        }
        assert(d.push(l).contains(x) <==> (d.contains(x) || x == l)) by {
            if d.push(l).contains(x) {
                let k = choose|k: int| 0 <= k < d.push(l).len() && d.push(l)[k] == x;
                if k < d.len() {
                    assert(d[k] == x);
                }
            }
            if d.contains(x) {
                let k = choose|k: int| 0 <= k < d.len() && d[k] == x;
                assert(d.push(l)[k] == x);
            }
            if x == l {
                assert(d.push(l)[d.len() as int] == x);
            }
        }
        if d.contains(l) {
            lemma_dedup_contains(init, l);
        }
    }
}

pub proof fn lemma_dedup_no_repeats(s: Seq<ElemV>)
    ensures
        dedup(s).no_duplicates(),
    decreases s.len(),
{
    if s.len() > 0 {
        lemma_dedup_no_repeats(s.drop_last());
    }
}

pub proof fn lemma_dedup_of_distinct(s: Seq<ElemV>)
    requires
        s.no_duplicates(),
    ensures
        dedup(s) == s,
    decreases s.len(),
{
    if s.len() > 0 {
        lemma_dedup_of_distinct(s.drop_last());
        lemma_dedup_contains(s.drop_last(), s.last());
        if s.drop_last().contains(s.last()) {
            let k = choose|k: int| 0 <= k < s.drop_last().len() && s.drop_last()[k] == s.last();
            assert(s[k] == s[s.len() - 1]);
        }
        assert(s.drop_last().push(s.last()) =~= s);
    }
}

/// Build the union of `elements`: repeated atoms are dropped (first
/// occurrence kept) and the empty union is `never`.
pub fn union_of(elements: Vec<Element>, flags: FlowFlags) -> (t: Type)
    ensures
        t@.elements == canonical(elements@.map_values(|e: Element| e@)),
        t@.flags == flags,
{
    let ghost src = elements@.map_values(|e: Element| e@);
    if elements.len() == 0 {
        let mut v: Vec<Element> = Vec::new();
        v.push(Element::Never);
        let t = Type { elements: v, flags };
        assert(t@.elements =~= seq![ElemV::Never]);
        return t;
    }
    let mut out: Vec<Element> = Vec::new();
    let mut i: usize = 0;
    while i < elements.len()
        invariant
            i <= elements.len(),
            src == elements@.map_values(|e: Element| e@),
            out@.map_values(|e: Element| e@) == dedup(src.take(i as int)),
        decreases elements.len() - i,
    {
        let mut found = false;
        let mut j: usize = 0;
        while j < out.len()
            invariant
                j <= out.len(),
                i < elements.len(),
                found == (exists|k: int| 0 <= k < j && out@[k]@ == elements@[i as int]@),
            decreases out.len() - j,
        {
            if out[j].same(&elements[i]) {
                found = true;
            }
            j += 1;
        }
        let ghost before = out@.map_values(|e: Element| e@);
        assert(src.take(i + 1).drop_last() =~= src.take(i as int));
        assert(src.take(i + 1).last() == elements@[i as int]@);
        if found {
            let ghost k = choose|k: int| 0 <= k < out.len() && out@[k]@ == elements@[i as int]@;
            assert(before[k] == elements@[i as int]@);
        } else {
            assert forall|k: int| 0 <= k < before.len() implies before[k] != elements@[i as int]@ by {
                assert(out@[k]@ == before[k]);
            }
            out.push(elements[i].copy());
            assert(out@.map_values(|e: Element| e@) =~= before.push(src.take(i + 1).last()));
        }
        i += 1;
    }
    assert(src.take(elements.len() as int) =~= src);
    let t = Type { elements: out, flags };
    assert(t@.elements =~= out@.map_values(|e: Element| e@));
    t
}

pub open spec fn empty_flags() -> FlowFlags {
    FlowFlags { ignore_nullable_issues: false, ignore_falsable_issues: false }
}

impl FlowFlags {
    /// No flow flag set.
    pub fn empty() -> (f: FlowFlags)
        ensures
            f == empty_flags(),
    {
        FlowFlags { ignore_nullable_issues: false, ignore_falsable_issues: false }
    }
}

impl Type {
    /// The single-atom type `e`.
    pub fn single(e: Element) -> (t: Type)
        ensures
            t@.elements == seq![e@],
            t@.flags == empty_flags(),
    {
        let mut v: Vec<Element> = Vec::new();
        v.push(e);
        let t = Type { elements: v, flags: FlowFlags::empty() };
        assert(t@.elements =~= seq![e@]);
        t
    }

    /// The union of `elements` with no flow flags.
    pub fn union(elements: Vec<Element>) -> (t: Type)
        ensures
            t@.elements == canonical(elements@.map_values(|e: Element| e@)),
            t@.flags == empty_flags(),
    {
        union_of(elements, FlowFlags::empty())
    }
}

// ---------------------------------------------------------------------
// Constructors.
// ---------------------------------------------------------------------
impl Element {
    pub fn int_literal(n: i64) -> (e: Element)
        ensures
            e@ == ElemV::Int(IntInfo::Literal(n)),
    {
        Element::Int(IntInfo::Literal(n))
    }

    pub fn int_range(lower: Option<i64>, upper: Option<i64>) -> (e: Element)
        ensures
            e@ == ElemV::Int(IntInfo::Range(lower, upper)),
    {
        Element::Int(IntInfo::Range(lower, upper))
    }

    /// A float literal, given by its IEEE-754 bit pattern.
    pub fn float_literal_bits(bits: u64) -> (e: Element)
        ensures
            e@ == ElemV::Float(FloatInfo::Literal(bits)),
    {
        Element::Float(FloatInfo::Literal(bits))
    }

    pub fn string_literal(s: &str) -> (e: Element)
        ensures
            e@ == ElemV::Str(
                StringInfoV {
                    literal: StrLitV::Value(s@),
                    casing: StringCasing::Unspecified,
                    flags: StringFlags { non_empty: false, truthy: false, numeric: false, callable: false },
                },
            ),
    {
        Element::String(
            StringInfo {
                literal: StringLiteral::Value(chars_of(s)),
                casing: StringCasing::Unspecified,
                flags: StringFlags { non_empty: false, truthy: false, numeric: false, callable: false },
            },
        )
    }

    pub fn generic_parameter(name: &str, defining_entity: DefiningEntity, constraint: Type) -> (e: Element)
        ensures
            e@ == (ElemV::GenericParameter {
                name: name@,
                entity: entity_view(defining_entity),
                constraint: constraint@,
            }),
    {
        Element::GenericParameter(GenericParameterInfo { name: chars_of(name), defining_entity, constraint })
    }

    pub fn list(element_type: Type, non_empty: bool) -> (e: Element)
        ensures
            e@ == (ElemV::List { element_type: element_type@, known: Seq::empty(), count: None, non_empty }),
    {
        let known_elements: Vec<KnownElementEntry> = Vec::new();
        assert(known_elems_view(known_elements) =~= Seq::<KnownElemV>::empty());
        Element::List(ListInfo { element_type, known_elements, known_count: None, non_empty })
    }

    /// A list shape (`list{...}`): the known entries, their count where it
    /// is fixed, and the type of any further elements.
    pub fn list_shape(
        element_type: Type,
        known_elements: Vec<KnownElementEntry>,
        known_count: Option<u32>,
        non_empty: bool,
    ) -> (e: Element)
        ensures
            e@ == (ElemV::List {
                element_type: element_type@,
                known: known_elems_view(known_elements),
                count: known_count,
                non_empty,
            }),
    {
        Element::List(ListInfo { element_type, known_elements, known_count, non_empty })
    }

    pub fn keyed_unsealed(key: Type, value: Type, non_empty: bool) -> (e: Element)
        ensures
            e@ == (ElemV::Array { key: Some(key@), value: Some(value@), items: Seq::empty(), non_empty }),
    {
        let known_items: Vec<KnownItemEntry> = Vec::new();
        assert(items_view(known_items) =~= Seq::<ItemV>::empty());
        Element::Array(KeyedArrayInfo { key_param: Some(key), value_param: Some(value), known_items, non_empty })
    }

    /// An object shape with the given properties.
    pub fn object_shape(known_properties: Vec<KnownPropertyEntry>, sealed: bool) -> (e: Element)
        ensures
            e@ == (ElemV::ObjectShape { props: props_view(known_properties), sealed }),
    {
        Element::ObjectShape(ObjectShapeInfo { known_properties, sealed })
    }

    /// An object known to have the method `name`.
    pub fn has_method(name: &str) -> (e: Element)
        ensures
            e@ == ElemV::HasMethod(name@),
    {
        Element::HasMethod(chars_of(name))
    }

    /// An object known to have the property `name`.
    pub fn has_property(name: &str) -> (e: Element)
        ensures
            e@ == ElemV::HasProperty(name@),
    {
        Element::HasProperty(chars_of(name))
    }

    /// A sealed keyed-array shape (`array{...}`) holding exactly the given
    /// entries.
    pub fn keyed_sealed(known_items: Vec<KnownItemEntry>, non_empty: bool) -> (e: Element)
        ensures
            e@ == (ElemV::Array { key: None, value: None, items: items_view(known_items), non_empty }),
    {
        Element::Array(KeyedArrayInfo { key_param: None, value_param: None, known_items, non_empty })
    }

    pub fn iterable(key: Type, value: Type) -> (e: Element)
        ensures
            e@ == (ElemV::Iterable { key: key@, value: value@ }),
    {
        Element::Iterable(IterableInfo { key_type: key, value_type: value })
    }

    pub fn object(name: &str, type_args: Vec<Type>) -> (e: Element)
        ensures
            e@ == (ElemV::Object { name: name@, args: tvs(type_args) }),
    {
        Element::Object(ObjectInfo { name: chars_of(name), type_args })
    }
}

impl DefiningEntity {
    pub fn class_like(name: &str) -> (d: DefiningEntity)
        ensures
            entity_view(d) == EntityV::ClassLike(name@),
    {
        DefiningEntity::ClassLike(chars_of(name))
    }
}

} // verus!
