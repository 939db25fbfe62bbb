//! Standin replacement: template inference at a call site.
//!
//! The walk goes down a parameter type alongside the argument type.
//! Wherever the parameter mentions a template parameter `T`, a bound on
//! `T` is recorded against the matching part of the argument, with the
//! variance of the position (covariant: lower bound; contravariant: upper
//! bound; invariant: equality), and the parameter slot is replaced by
//! `T`'s constraint. The same [`StandinState`] is threaded through every
//! parameter of a call, and bound reconciliation then turns each `T`'s
//! bounds into its witness.
//!
//! Objects walk their type arguments by position, with the variance the
//! class declares; an argument of a descendant class passes what its
//! declaration inherits. Lists and iterables walk their value (and key)
//! types covariantly, keyed arrays their key and value types, and
//! callables their return type covariantly and their parameters
//! contravariantly. Other atoms pass through.
use vstd::prelude::*;

use crate::element::{
    item_size,
    CallV, CallableInfo, DefiningEntity, ElemV, Element, EntityV, ItemV, IterableInfo, KeyedArrayInfo,
    KnownItemEntry, ListInfo, ObjectInfo, ParamInfo, ParamV, SigV, Signature, Type, TypeV, canonical, chars_eq,
    copy_chars, copy_opt_type, entity_view, esize, item_view, items_same, items_size, items_view, lemma_elem_smaller,
    lemma_items_size_elem, lemma_pssize_elem, lemma_tsize_pos, lemma_tssize_elem, opt_type_same, params_view, psize,
    pssize, sig_view, sigsize, ssize, tsize, tssize, tvs, union_of,
};
use crate::lattice::family::array::find_key;
use crate::lattice::refines::append_elements;
use crate::lattice::refines_spec::{first_with_key, int_v, lemma_esize_pos, lemma_first_with_key, single_v};
use crate::substitute::{opt_view, views};
use crate::template::{Bound, BoundKind, GenericTemplate, SourceSpan, TemplateKey, collapse_to_constraints, collapse_v};
use crate::transform::flat_outcome;
use crate::transform::walk::{Outcome, OutcomeV, outcome_view};
use crate::world::{Variance, World};

verus! {

broadcast use vstd::std_specs::vec::group_vec_axioms;

// ---------------------------------------------------------------------
// Keys, bounds and declarations as plain values.
// ---------------------------------------------------------------------
pub struct KeyV {
    pub entity: EntityV,
    pub name: Seq<char>,
}

pub open spec fn key_view(k: TemplateKey) -> KeyV {
    KeyV { entity: entity_view(k.defining_entity), name: k.name@ }
}

pub struct BoundV {
    pub kind: BoundKind,
    pub ty: TypeV,
    pub argument_offset: u32,
    pub depth: u32,
    pub equality_bound_classlike: Option<Seq<char>>,
    pub span: Option<SourceSpan>,
}

pub open spec fn opt_chars(o: Option<Vec<char>>) -> Option<Seq<char>> {
    match o {
        Some(v) => Some(v@),
        None => None,
    }
}

pub open spec fn bound_view(b: Bound) -> BoundV {
    BoundV {
        kind: b.kind,
        ty: b.ty@,
        argument_offset: b.argument_offset,
        depth: b.depth,
        equality_bound_classlike: opt_chars(b.equality_bound_classlike),
        span: b.span,
    }
}

pub open spec fn bounds_view(v: Seq<Bound>) -> Seq<BoundV> {
    v.map_values(|b: Bound| bound_view(b))
}

pub struct GenericTemplateV {
    pub entity: EntityV,
    pub constraint: TypeV,
}

pub open spec fn template_view(g: GenericTemplate) -> GenericTemplateV {
    GenericTemplateV { entity: entity_view(g.defining_entity), constraint: g.constraint@ }
}

/// The declarations and the bounds collected so far, each a list of
/// entries keyed by template parameter, in the order the keys first came.
pub struct StateV {
    pub decls: Seq<(KeyV, GenericTemplateV)>,
    pub bounds: Seq<(KeyV, Seq<BoundV>)>,
}

pub open spec fn empty_state() -> StateV {
    StateV { decls: Seq::empty(), bounds: Seq::empty() }
}

/// The first entry of `s` from `i` on with key `k`, or -1.
pub open spec fn first_key_from<V>(s: Seq<(KeyV, V)>, k: KeyV, i: int) -> int
    decreases s.len() - i,
{
    if i < 0 || i >= s.len() {
        -1
    } else if s[i].0 == k {
        i
    } else {
        first_key_from(s, k, i + 1)
    }
}

pub open spec fn key_at<V>(s: Seq<(KeyV, V)>, k: KeyV) -> int {
    first_key_from(s, k, 0)
}

pub proof fn lemma_first_key_range<V>(s: Seq<(KeyV, V)>, k: KeyV, i: int)
    ensures
        first_key_from(s, k, i) == -1 || (0 <= i <= first_key_from(s, k, i) < s.len() && s[first_key_from(
            s,
            k,
            i,
        )].0 == k),
    decreases s.len() - i,
{
    if 0 <= i < s.len() && s[i].0 != k {
        lemma_first_key_range(s, k, i + 1);
    }
}

proof fn lemma_first_key_update<V>(s: Seq<(KeyV, V)>, k: KeyV, kk: KeyV, v: V, i: int, j: int)
    requires
        0 <= i < s.len(),
        s[i].0 == kk,
        0 <= j,
    ensures
        first_key_from(s.update(i, (kk, v)), k, j) == first_key_from(s, k, j),
    decreases s.len() - j,
{
    if j < s.len() {
        lemma_first_key_update(s, k, kk, v, i, j + 1);
    }
}

proof fn lemma_first_key_push<V>(s: Seq<(KeyV, V)>, k: KeyV, kk: KeyV, v: V, j: int)
    requires
        0 <= j <= s.len(),
    ensures
        first_key_from(s.push((kk, v)), k, j) == if first_key_from(s, k, j) >= 0 {
            first_key_from(s, k, j)
        } else if kk == k {
            s.len() as int
        } else {
            -1
        },
    decreases s.len() - j,
{
    let t = s.push((kk, v));
    if j < s.len() {
        assert(t[j] == s[j]);
        lemma_first_key_push(s, k, kk, v, j + 1);
    } else {
        assert(t[j] == (kk, v));
        assert(first_key_from(t, k, j + 1) == -1);
    }
}

/// Declare `k` with `g`, replacing an earlier declaration.
pub open spec fn declare_v(st: StateV, k: KeyV, g: GenericTemplateV) -> StateV {
    let i = key_at(st.decls, k);
    if i >= 0 {
        StateV { decls: st.decls.update(i, (k, g)), ..st }
    } else {
        StateV { decls: st.decls.push((k, g)), ..st }
    }
}

/// Append `b` to the bounds of `k`.
pub open spec fn record_v(st: StateV, k: KeyV, b: BoundV) -> StateV {
    let i = key_at(st.bounds, k);
    if i >= 0 {
        StateV { bounds: st.bounds.update(i, (k, st.bounds[i].1.push(b))), ..st }
    } else {
        StateV { bounds: st.bounds.push((k, seq![b])), ..st }
    }
}

pub open spec fn is_declared_v(st: StateV, k: KeyV) -> bool {
    key_at(st.decls, k) >= 0
}

pub open spec fn declaration_v(st: StateV, k: KeyV) -> Option<GenericTemplateV> {
    let i = key_at(st.decls, k);
    if i >= 0 {
        Some(st.decls[i].1)
    } else {
        None
    }
}

pub open spec fn bounds_for_v(st: StateV, k: KeyV) -> Seq<BoundV> {
    let i = key_at(st.bounds, k);
    if i >= 0 {
        st.bounds[i].1
    } else {
        Seq::empty()
    }
}

/// A declaration reads back as written, and leaves every other key's
/// declaration as it was.
pub proof fn lemma_declaration_after_declare(st: StateV, k: KeyV, g: GenericTemplateV, other: KeyV)
    ensures
        declaration_v(declare_v(st, k, g), k) == Some(g),
        other != k ==> declaration_v(declare_v(st, k, g), other) == declaration_v(st, other),
        is_declared_v(declare_v(st, k, g), k),
{
    let i = key_at(st.decls, k);
    lemma_first_key_range(st.decls, k, 0);
    lemma_first_key_range(st.decls, other, 0);
    if i >= 0 {
        lemma_first_key_update(st.decls, k, k, g, i, 0);
        lemma_first_key_update(st.decls, other, k, g, i, 0);
    } else {
        lemma_first_key_push(st.decls, k, k, g, 0);
        lemma_first_key_push(st.decls, other, k, g, 0);
    }
}

/// Declaring the same parameter with the same constraint twice leaves the
/// state as one declaration does.
pub proof fn lemma_declare_idempotent(st: StateV, k: KeyV, g: GenericTemplateV)
    ensures
        declare_v(declare_v(st, k, g), k, g) == declare_v(st, k, g),
{
    let i = key_at(st.decls, k);
    lemma_first_key_range(st.decls, k, 0);
    let once = declare_v(st, k, g);
    if i >= 0 {
        lemma_first_key_update(st.decls, k, k, g, i, 0);
        assert(key_at(once.decls, k) == i);
        assert(once.decls.update(i, (k, g)) =~= once.decls);
    } else {
        lemma_first_key_push(st.decls, k, k, g, 0);
        let j = st.decls.len() as int;
        assert(key_at(once.decls, k) == j);
        assert(once.decls.update(j, (k, g)) =~= once.decls);
    }
}

/// A recorded bound is read back last among the bounds of its key, and
/// every other key's bounds stay as they were.
pub proof fn lemma_bounds_after_record(st: StateV, k: KeyV, b: BoundV, other: KeyV)
    ensures
        bounds_for_v(record_v(st, k, b), k) == bounds_for_v(st, k).push(b),
        other != k ==> bounds_for_v(record_v(st, k, b), other) == bounds_for_v(st, other),
{
    let i = key_at(st.bounds, k);
    lemma_first_key_range(st.bounds, k, 0);
    lemma_first_key_range(st.bounds, other, 0);
    if i >= 0 {
        lemma_first_key_update(st.bounds, k, k, st.bounds[i].1.push(b), i, 0);
        lemma_first_key_update(st.bounds, other, k, st.bounds[i].1.push(b), i, 0);
    } else {
        lemma_first_key_push(st.bounds, k, k, seq![b], 0);
        lemma_first_key_push(st.bounds, other, k, seq![b], 0);
        assert(Seq::<BoundV>::empty().push(b) =~= seq![b]);
    }
}

impl TemplateKey {
    pub fn copy(&self) -> (r: TemplateKey)
        ensures
            key_view(r) == key_view(*self),
    {
        TemplateKey { defining_entity: self.defining_entity.copy(), name: copy_chars(&self.name) }
    }

    pub fn same(&self, other: &TemplateKey) -> (r: bool)
        ensures
            r == (key_view(*self) == key_view(*other)),
    {
        chars_eq(&self.name, &other.name) && self.defining_entity.same(&other.defining_entity)
    }
}

impl Bound {
    pub fn copy(&self) -> (r: Bound)
        ensures
            bound_view(r) == bound_view(*self),
    {
        let equality_bound_classlike = match &self.equality_bound_classlike {
            Some(c) => Some(copy_chars(c)),
            None => None,
        };
        Bound {
            kind: self.kind,
            ty: self.ty.copy(),
            argument_offset: self.argument_offset,
            depth: self.depth,
            equality_bound_classlike,
            span: self.span,
        }
    }
}

pub fn copy_bounds(v: &Vec<Bound>) -> (r: Vec<Bound>)
    ensures
        bounds_view(r@) == bounds_view(v@),
{
    let mut out: Vec<Bound> = Vec::new();
    let mut i: usize = 0;
    while i < v.len()
        invariant
            i <= v.len(),
            out@.len() == i,
            forall|j: int| 0 <= j < i ==> bound_view(#[trigger] out@[j]) == bound_view(v@[j]),
        decreases v.len() - i,
    {
        out.push(v[i].copy());
        i += 1;
    }
    assert(bounds_view(out@) =~= bounds_view(v@));
    out
}

// ---------------------------------------------------------------------
// The state threaded through the walks of one call site.
// ---------------------------------------------------------------------
/// Declarations and bounds collected across one or more standin walks.
/// The walk declares every template parameter it meets; callers may also
/// declare templates that no walked parameter mentions.
#[derive(Debug)]
pub struct StandinState {
    template_types: Vec<(TemplateKey, GenericTemplate)>,
    bounds: Vec<(TemplateKey, Vec<Bound>)>,
}

pub open spec fn decls_view(v: Seq<(TemplateKey, GenericTemplate)>) -> Seq<(KeyV, GenericTemplateV)> {
    v.map_values(|p: (TemplateKey, GenericTemplate)| (key_view(p.0), template_view(p.1)))
}

pub open spec fn bound_lists_view(v: Seq<(TemplateKey, Vec<Bound>)>) -> Seq<(KeyV, Seq<BoundV>)> {
    v.map_values(|p: (TemplateKey, Vec<Bound>)| (key_view(p.0), bounds_view(p.1@)))
}

impl View for StandinState {
    type V = StateV;

    closed spec fn view(&self) -> StateV {
        StateV { decls: decls_view(self.template_types@), bounds: bound_lists_view(self.bounds@) }
    }
}

impl StandinState {
    pub fn new() -> (s: StandinState)
        ensures
            s@ == empty_state(),
    {
        let s = StandinState { template_types: Vec::new(), bounds: Vec::new() };
        assert(s@.decls =~= Seq::<(KeyV, GenericTemplateV)>::empty());
        assert(s@.bounds =~= Seq::<(KeyV, Seq<BoundV>)>::empty());
        s
    }

    fn find_declaration(&self, key: &TemplateKey) -> (r: Option<usize>)
        ensures
            match r {
                Some(i) => i as int == key_at(self@.decls, key_view(*key)) && i < self.template_types@.len(),
                None => key_at(self@.decls, key_view(*key)) < 0,
            },
    {
        let ghost s = self@.decls;
        let ghost k = key_view(*key);
        let mut i: usize = 0;
        while i < self.template_types.len()
            invariant
                s == self@.decls,
                s.len() == self.template_types@.len(),
                k == key_view(*key),
                i <= s.len(),
                key_at(s, k) == first_key_from(s, k, i as int),
            decreases self.template_types.len() - i,
        {
            assert(s[i as int].0 == key_view(self.template_types@[i as int].0));
            if self.template_types[i].0.same(key) {
                return Some(i);
            }
            i += 1;
        }
        None
    }

    fn find_bounds(&self, key: &TemplateKey) -> (r: Option<usize>)
        ensures
            match r {
                Some(i) => i as int == key_at(self@.bounds, key_view(*key)) && i < self.bounds@.len(),
                None => key_at(self@.bounds, key_view(*key)) < 0,
            },
    {
        let ghost s = self@.bounds;
        let ghost k = key_view(*key);
        let mut i: usize = 0;
        while i < self.bounds.len()
            invariant
                s == self@.bounds,
                s.len() == self.bounds@.len(),
                k == key_view(*key),
                i <= s.len(),
                key_at(s, k) == first_key_from(s, k, i as int),
            decreases self.bounds.len() - i,
        {
            assert(s[i as int].0 == key_view(self.bounds@[i as int].0));
            if self.bounds[i].0.same(key) {
                return Some(i);
            }
            i += 1;
        }
        None
    }

    /// Every bound recorded for `key`, in the order recorded; empty when
    /// none was.
    pub fn bounds_for(&self, key: &TemplateKey) -> (r: Vec<Bound>)
        ensures
            bounds_view(r@) == bounds_for_v(self@, key_view(*key)),
    {
        match self.find_bounds(key) {
            Some(i) => {
                assert(self@.bounds[i as int].1 == bounds_view(self.bounds@[i as int].1@));
                copy_bounds(&self.bounds[i].1)
            },
            None => {
                let r: Vec<Bound> = Vec::new();
                assert(bounds_view(r@) =~= Seq::<BoundV>::empty());
                r
            },
        }
    }

    /// Every `(key, bounds)` entry, keys in the order they were first
    /// recorded.
    pub fn iter(&self) -> (r: &Vec<(TemplateKey, Vec<Bound>)>)
        ensures
            bound_lists_view(r@) == self@.bounds,
    {
        &self.bounds
    }

    /// Declare a template parameter in scope. A later declaration of the
    /// same key replaces the earlier one.
    pub fn declare(&mut self, key: TemplateKey, constraint: Type)
        ensures
            final(self)@ == declare_v(
                old(self)@,
                key_view(key),
                GenericTemplateV { entity: key_view(key).entity, constraint: constraint@ },
            ),
    {
        let ghost k = key_view(key);
        let ghost g = GenericTemplateV { entity: k.entity, constraint: constraint@ };
        let template = GenericTemplate { defining_entity: key.defining_entity.copy(), constraint };
        assert(template_view(template) == g);
        match self.find_declaration(&key) {
            Some(i) => {
                self.template_types.set(i, (key, template));
                assert(self@.decls =~= old(self)@.decls.update(i as int, (k, g)));
            },
            None => {
                self.template_types.push((key, template));
                assert(self@.decls =~= old(self)@.decls.push((k, g)));
            },
        }
        assert(self@.bounds == old(self)@.bounds);
    }

    /// The declaration recorded for `key`, if any.
    pub fn declaration(&self, key: &TemplateKey) -> (r: Option<&GenericTemplate>)
        ensures
            match r {
                Some(g) => declaration_v(self@, key_view(*key)) == Some(template_view(*g)),
                None => declaration_v(self@, key_view(*key)) is None,
            },
    {
        match self.find_declaration(key) {
            Some(i) => {
                assert(self@.decls[i as int].1 == template_view(self.template_types@[i as int].1));
                Some(&self.template_types[i].1)
            },
            None => None,
        }
    }

    /// `key` has a declaration.
    pub fn is_declared(&self, key: &TemplateKey) -> (r: bool)
        ensures
            r == is_declared_v(self@, key_view(*key)),
    {
        self.find_declaration(key).is_some()
    }

    /// Every `(key, declaration)` entry, keys in the order first declared.
    pub fn declarations(&self) -> (r: &Vec<(TemplateKey, GenericTemplate)>)
        ensures
            decls_view(r@) == self@.decls,
    {
        &self.template_types
    }

    /// Append `bound` to the bounds of `key`.
    pub fn record(&mut self, key: &TemplateKey, bound: Bound)
        ensures
            final(self)@ == record_v(old(self)@, key_view(*key), bound_view(bound)),
    {
        let ghost k = key_view(*key);
        let ghost b = bound_view(bound);
        match self.find_bounds(key) {
            Some(i) => {
                proof {
                    lemma_first_key_range(old(self)@.bounds, k, 0);
                }
                let mut list = copy_bounds(&self.bounds[i].1);
                list.push(bound);
                let ghost old_list = old(self)@.bounds[i as int].1;
                assert(old_list == bounds_view(self.bounds@[i as int].1@));
                assert(bounds_view(list@) =~= old_list.push(b));
                let kept = self.bounds[i].0.copy();
                self.bounds.set(i, (kept, list));
                assert(self@.bounds =~= old(self)@.bounds.update(i as int, (k, old_list.push(b))));
            },
            None => {
                let mut list: Vec<Bound> = Vec::new();
                list.push(bound);
                assert(bounds_view(list@) =~= seq![b]);
                self.bounds.push((key.copy(), list));
                assert(self@.bounds =~= old(self)@.bounds.push((k, seq![b])));
            },
        }
        assert(self@.decls == old(self)@.decls);
    }
}

// ---------------------------------------------------------------------
// Options.
// ---------------------------------------------------------------------
/// Caller-controlled options of a standin walk.
#[derive(Debug, Clone, Copy, PartialEq, Eq, Structural)]
pub struct StandinOptions {
    /// The call-site argument index the walk stands for; every recorded
    /// bound carries it.
    pub argument_offset: u32,
    /// The variance assumed at the top of the walk.
    pub default_variance: Variance,
    /// The deepest level the walk descends to; past it, template
    /// parameters are replaced by their constraints and no bound is
    /// recorded.
    pub max_depth: u32,
    /// Where the call site is; every recorded bound carries it.
    pub span: Option<SourceSpan>,
}

pub open spec fn default_standin_options() -> StandinOptions {
    StandinOptions { argument_offset: 0, default_variance: Variance::Invariant, max_depth: 8, span: None }
}

impl Default for StandinOptions {
    fn default() -> (r: StandinOptions)
        ensures
            r == default_standin_options(),
    {
        StandinOptions { argument_offset: 0, default_variance: Variance::Invariant, max_depth: 8, span: None }
    }
}

impl StandinOptions {
    pub fn with_argument_offset(self, offset: u32) -> (r: StandinOptions)
        ensures
            r == (StandinOptions { argument_offset: offset, ..self }),
    {
        StandinOptions { argument_offset: offset, ..self }
    }

    pub fn with_default_variance(self, variance: Variance) -> (r: StandinOptions)
        ensures
            r == (StandinOptions { default_variance: variance, ..self }),
    {
        StandinOptions { default_variance: variance, ..self }
    }

    pub fn with_max_depth(self, depth: u32) -> (r: StandinOptions)
        ensures
            r == (StandinOptions { max_depth: depth, ..self }),
    {
        StandinOptions { max_depth: depth, ..self }
    }

    pub fn with_span(self, span: SourceSpan) -> (r: StandinOptions)
        ensures
            r == (StandinOptions { span: Some(span), ..self }),
    {
        StandinOptions { span: Some(span), ..self }
    }
}

// ---------------------------------------------------------------------
// The walk, as a function of plain values.
// ---------------------------------------------------------------------
/// The bound a position of variance `v` records.
pub open spec fn kind_for(v: Variance) -> BoundKind {
    match v {
        Variance::Covariant => BoundKind::Lower,
        Variance::Contravariant => BoundKind::Upper,
        Variance::Invariant => BoundKind::Equality,
    }
}

/// One level deeper; the count stops at `u32::MAX`.
pub open spec fn next_depth(d: u32) -> u32 {
    if d < u32::MAX {
        (d + 1) as u32
    } else {
        d
    }
}

/// The first atom of `s` from `i` on that is an object of class `name`
/// or of a descendant of it, or -1.
pub open spec fn matching_object_from<W: World>(s: Seq<ElemV>, name: Seq<char>, w: W, i: int) -> int
    decreases s.len() - i,
{
    if i < 0 || i >= s.len() {
        -1
    } else if s[i] matches ElemV::Object { name: n, .. } && (n == name || w.descends_from_spec(n, name)) {
        i
    } else {
        matching_object_from(s, name, w, i + 1)
    }
}

/// The value type of the first list or iterable of `s` from `i` on.
pub open spec fn list_source_from(s: Seq<ElemV>, i: int) -> Option<TypeV>
    decreases s.len() - i,
{
    if i < 0 || i >= s.len() {
        None
    } else {
        match s[i] {
            ElemV::List { element_type, .. } => Some(element_type),
            ElemV::Iterable { value, .. } => Some(value),
            _ => list_source_from(s, i + 1),
        }
    }
}

/// The key and value types of the first iterable or list (keyed by
/// `int`) of `s` from `i` on.
pub open spec fn iterable_source_from(s: Seq<ElemV>, i: int) -> Option<(TypeV, TypeV)>
    decreases s.len() - i,
{
    if i < 0 || i >= s.len() {
        None
    } else {
        match s[i] {
            ElemV::Iterable { key, value } => Some((key, value)),
            ElemV::List { element_type, .. } => Some((single_v(int_v()), element_type)),
            _ => iterable_source_from(s, i + 1),
        }
    }
}

/// A list is keyed by `int`: where the first list or iterable of `s` from
/// `i` on is a list of `σ`, the walk matches against `int` keys and `σ`
/// values.
pub proof fn lemma_list_source_is_int_keyed(s: Seq<ElemV>, i: int, j: int)
    requires
        0 <= i <= j < s.len(),
        s[j] is List,
        forall|k: int| i <= k < j ==> !(#[trigger] s[k] is List) && !(s[k] is Iterable),
    ensures
        iterable_source_from(s, i) == Some(
            (
                TypeV { elements: seq![ElemV::Int(crate::element::IntInfo::Unspecified)], flags: crate::element::empty_flags() },
                s[j]->List_element_type,
            ),
        ),
    decreases j - i,
{
    if i < j {
        lemma_list_source_is_int_keyed(s, i + 1, j);
    }
}

/// An iterable exposes its own key and value types: where the first list
/// or iterable of `s` from `i` on is `iterable<K, V>`, the walk matches
/// against `K` and `V`.
pub proof fn lemma_iterable_source_is_its_own(s: Seq<ElemV>, i: int, j: int)
    requires
        0 <= i <= j < s.len(),
        s[j] is Iterable,
        forall|k: int| i <= k < j ==> !(#[trigger] s[k] is List) && !(s[k] is Iterable),
    ensures
        iterable_source_from(s, i) == Some((s[j]->Iterable_key, s[j]->Iterable_value)),
    decreases j - i,
{
    if i < j {
        lemma_iterable_source_is_its_own(s, i + 1, j);
    }
}

/// The key and value parameters and the shape entries of the first keyed
/// array or iterable of `s` from `i` on; an iterable has both parameters
/// and no entries.
pub open spec fn array_source_from(s: Seq<ElemV>, i: int) -> Option<(Option<TypeV>, Option<TypeV>, Seq<ItemV>)>
    decreases s.len() - i,
{
    if i < 0 || i >= s.len() {
        None
    } else {
        match s[i] {
            ElemV::Array { key, value, items, .. } => Some((key, value, items)),
            ElemV::Iterable { key, value } => Some((Some(key), Some(value), Seq::empty())),
            _ => array_source_from(s, i + 1),
        }
    }
}

/// The signature of the first callable of `s` from `i` on that has one.
pub open spec fn callable_source_from(s: Seq<ElemV>, i: int) -> Option<SigV>
    decreases s.len() - i,
{
    if i < 0 || i >= s.len() {
        None
    } else {
        match s[i] {
            ElemV::Callable(CallV::Sig(x)) => Some(x),
            ElemV::Callable(CallV::Closure(x)) => Some(x),
            _ => callable_source_from(s, i + 1),
        }
    }
}

/// Replace each template parameter of the class `child` by the matching
/// type argument among `actual`.
pub open spec fn projection_decider<W: World>(w: W, child: Seq<char>, actual: Seq<TypeV>) -> spec_fn(ElemV) -> OutcomeV {
    |e: ElemV|
        match e {
            ElemV::GenericParameter { name, entity, .. } => if entity == EntityV::ClassLike(child) {
                match w.parameter_index_spec(child, name) {
                    Some(pos) => if 0 <= pos < actual.len() {
                        flat_outcome(actual[pos].elements, e)
                    } else {
                        OutcomeV::Unchanged
                    },
                    None => OutcomeV::Unchanged,
                }
            } else {
                OutcomeV::Unchanged
            },
            _ => OutcomeV::Unchanged,
        }
}

/// What an argument object of class `arg_name` with type arguments
/// `arg_args` passes for the `idx`-th template parameter of `container`:
/// its own argument there when it is of that class, else what its class
/// inherits, over its own arguments.
pub open spec fn projected_arg<W: World>(
    container: Seq<char>,
    arg_name: Seq<char>,
    arg_args: Seq<TypeV>,
    idx: int,
    w: W,
) -> Option<TypeV> {
    if arg_name == container {
        if 0 <= idx < arg_args.len() {
            Some(arg_args[idx])
        } else {
            None
        }
    } else {
        match w.inherited_argument_spec(arg_name, container, idx) {
            Some(inherited) => Some(
                crate::transform::walk::walk_type(inherited, projection_decider(w, arg_name, arg_args), true),
            ),
            None => None,
        }
    }
}

/// The refined parameter and the state after walking `p` against `a`.
pub open spec fn standin_type<W: World>(
    p: TypeV,
    a: TypeV,
    v: Variance,
    d: u32,
    cls: Option<Seq<char>>,
    w: W,
    o: StandinOptions,
    st: StateV,
) -> (TypeV, StateV)
    decreases tsize(p), 3int,
{
    if p == a {
        (p, st)
    } else if d > o.max_depth {
        (collapse_v(p), st)
    } else {
        let (outs, changed, st1) = standin_seq(p.elements, a, v, d, cls, w, o, st);
        if !changed {
            (p, st1)
        } else {
            (TypeV { elements: canonical(outs), flags: p.flags }, st1)
        }
    }
}

pub open spec fn standin_seq<W: World>(
    s: Seq<ElemV>,
    a: TypeV,
    v: Variance,
    d: u32,
    cls: Option<Seq<char>>,
    w: W,
    o: StandinOptions,
    st: StateV,
) -> (Seq<ElemV>, bool, StateV)
    decreases ssize(s), 2int,
{
    if s.len() == 0 {
        (Seq::empty(), false, st)
    } else {
        proof {
            lemma_esize_pos(s.last());
        }
        let (o1, c1, st1) = standin_seq(s.drop_last(), a, v, d, cls, w, o, st);
        let (o2, c2, st2) = standin_elem(s.last(), a, v, d, cls, w, o, st1);
        (o1 + o2, c1 || c2, st2)
    }
}

/// A template parameter `e` met against `a`: declare it when it is new,
/// record a bound with the variance of the position, and stand its
/// constraint's atoms in its place.
pub open spec fn standin_parameter(
    e: ElemV,
    a: TypeV,
    v: Variance,
    d: u32,
    cls: Option<Seq<char>>,
    o: StandinOptions,
    st: StateV,
) -> (Seq<ElemV>, bool, StateV) {
    match e {
        ElemV::GenericParameter { name, entity, constraint } => {
            let k = KeyV { entity, name };
            let st1 = if is_declared_v(st, k) {
                st
            } else {
                declare_v(st, k, GenericTemplateV { entity, constraint })
            };
            let kind = kind_for(v);
            let b = BoundV {
                kind,
                ty: a,
                argument_offset: o.argument_offset,
                depth: d,
                equality_bound_classlike: if kind == BoundKind::Equality {
                    cls
                } else {
                    None
                },
                span: o.span,
            };
            (constraint.elements, true, record_v(st1, k, b))
        },
        _ => (seq![e], false, st),
    }
}

/// The atoms standing for `e`, whether it changed, and the state after.
pub open spec fn standin_elem<W: World>(
    e: ElemV,
    a: TypeV,
    v: Variance,
    d: u32,
    cls: Option<Seq<char>>,
    w: W,
    o: StandinOptions,
    st: StateV,
) -> (Seq<ElemV>, bool, StateV)
    decreases esize(e), 1int,
{
    let nd = next_depth(d);
    match e {
        ElemV::GenericParameter { .. } => standin_parameter(e, a, v, d, cls, o, st),
        ElemV::Object { name, args } => {
            let j = matching_object_from(a.elements, name, w, 0);
            if args.len() == 0 || j < 0 {
                (seq![e], false, st)
            } else {
                match a.elements[j] {
                    ElemV::Object { name: an, args: aargs } => {
                        let (nargs, st1) = standin_args(args, name, an, aargs, d, w, o, st);
                        if nargs == args {
                            (seq![e], false, st1)
                        } else {
                            (seq![ElemV::Object { name, args: nargs }], true, st1)
                        }
                    },
                    _ => (seq![e], false, st),
                }
            }
        },
        ElemV::List { element_type, known, count, non_empty } => match list_source_from(a.elements, 0) {
            Some(at) => {
                let (r, st1) = standin_type(element_type, at, Variance::Covariant, nd, cls, w, o, st);
                if r == element_type {
                    (seq![e], false, st1)
                } else {
                    (seq![ElemV::List { element_type: r, known, count, non_empty }], true, st1)
                }
            },
            None => (seq![e], false, st),
        },
        ElemV::Iterable { key, value } => match iterable_source_from(a.elements, 0) {
            Some((ak, av)) => {
                let (nk, st1) = standin_type(key, ak, Variance::Covariant, nd, cls, w, o, st);
                let (nv, st2) = standin_type(value, av, Variance::Covariant, nd, cls, w, o, st1);
                if nk == key && nv == value {
                    (seq![e], false, st2)
                } else {
                    (seq![ElemV::Iterable { key: nk, value: nv }], true, st2)
                }
            },
            None => (seq![e], false, st),
        },
        ElemV::Array { key, value, items, non_empty } => match array_source_from(a.elements, 0) {
            Some((ak, av, aitems)) => {
                let (nk, st1) = match (key, ak) {
                    (Some(pk), Some(akt)) => {
                        let (r, s1) = standin_type(pk, akt, Variance::Covariant, nd, cls, w, o, st);
                        (Some(r), s1)
                    },
                    _ => (key, st),
                };
                let (nv, st2) = match (value, av) {
                    (Some(pv), Some(avt)) => {
                        let (r, s2) = standin_type(pv, avt, Variance::Covariant, nd, cls, w, o, st1);
                        (Some(r), s2)
                    },
                    _ => (value, st1),
                };
                let (ni, st3) = standin_items(items, aitems, nd, cls, w, o, st2);
                if nk == key && nv == value && ni == items {
                    (seq![e], false, st3)
                } else {
                    (seq![ElemV::Array { key: nk, value: nv, items: ni, non_empty }], true, st3)
                }
            },
            None => (seq![e], false, st),
        },
        ElemV::Callable(CallV::Sig(sig)) => match standin_sig(sig, a, d, cls, w, o, st) {
            (ns, st1) => if ns == sig {
                (seq![e], false, st1)
            } else {
                (seq![ElemV::Callable(CallV::Sig(ns))], true, st1)
            },
        },
        ElemV::Callable(CallV::Closure(sig)) => match standin_sig(sig, a, d, cls, w, o, st) {
            (ns, st1) => if ns == sig {
                (seq![e], false, st1)
            } else {
                (seq![ElemV::Callable(CallV::Closure(ns))], true, st1)
            },
        },
        _ => (seq![e], false, st),
    }
}

/// A signature walked against the first signature of `a`: the return
/// type covariantly, the parameters contravariantly and by position.
pub open spec fn standin_sig<W: World>(
    sig: SigV,
    a: TypeV,
    d: u32,
    cls: Option<Seq<char>>,
    w: W,
    o: StandinOptions,
    st: StateV,
) -> (SigV, StateV)
    decreases sigsize(sig), 5int,
{
    match callable_source_from(a.elements, 0) {
        Some(asig) => {
            let nd = next_depth(d);
            let (nret, st1) = standin_type(sig.ret, asig.ret, Variance::Covariant, nd, cls, w, o, st);
            match sig.params {
                Some(ps) => {
                    let aps = match asig.params {
                        Some(x) => x,
                        None => Seq::empty(),
                    };
                    let (nps, st2) = standin_params(ps, aps, nd, cls, w, o, st1);
                    (SigV { ret: nret, params: Some(nps), ..sig }, st2)
                },
                None => (SigV { ret: nret, ..sig }, st1),
            }
        },
        None => (sig, st),
    }
}

/// Each shape entry of `items` walked covariantly against the value of the
/// argument's entry with the same key, when there is one.
pub open spec fn standin_items<W: World>(
    items: Seq<ItemV>,
    aitems: Seq<ItemV>,
    nd: u32,
    cls: Option<Seq<char>>,
    w: W,
    o: StandinOptions,
    st: StateV,
) -> (Seq<ItemV>, StateV)
    decreases items_size(items), 4int,
{
    if items.len() == 0 {
        (Seq::empty(), st)
    } else {
        proof {
            assert(items_size(items) == items_size(items.drop_last()) + item_size(items.last()));
            assert(item_size(items.last()) == 5 + tsize(items.last().value));
        }
        let (prev, st1) = standin_items(items.drop_last(), aitems, nd, cls, w, o, st);
        let it = items.last();
        match first_with_key(aitems, it.key, 0) {
            Some(j) => {
                let (r, st2) = standin_type(it.value, aitems[j].value, Variance::Covariant, nd, cls, w, o, st1);
                (prev.push(ItemV { value: r, ..it }), st2)
            },
            None => (prev.push(it), st1),
        }
    }
}

/// Each parameter of `ps` walked contravariantly against the argument's
/// parameter at its position, when there is one.
pub open spec fn standin_params<W: World>(
    ps: Seq<ParamV>,
    aps: Seq<ParamV>,
    nd: u32,
    cls: Option<Seq<char>>,
    w: W,
    o: StandinOptions,
    st: StateV,
) -> (Seq<ParamV>, StateV)
    decreases pssize(ps), 4int,
{
    if ps.len() == 0 {
        (Seq::empty(), st)
    } else {
        proof {
            assert(pssize(ps) == pssize(ps.drop_last()) + psize(ps.last()));
            assert(psize(ps.last()) == 1 + tsize(ps.last().ty));
        }
        let (prev, st1) = standin_params(ps.drop_last(), aps, nd, cls, w, o, st);
        let idx = ps.len() - 1;
        let p = ps.last();
        if idx < aps.len() {
            let (r, st2) = standin_type(p.ty, aps[idx].ty, Variance::Contravariant, nd, cls, w, o, st1);
            (prev.push(ParamV { ty: r, ..p }), st2)
        } else {
            (prev.push(p), st1)
        }
    }
}

/// Each type argument of an object parameter of class `pname` walked
/// against what the argument object passes at its position, with the
/// variance the class declares there (invariant when undeclared).
pub open spec fn standin_args<W: World>(
    args: Seq<TypeV>,
    pname: Seq<char>,
    aname: Seq<char>,
    aargs: Seq<TypeV>,
    d: u32,
    w: W,
    o: StandinOptions,
    st: StateV,
) -> (Seq<TypeV>, StateV)
    decreases tssize(args), 4int,
{
    if args.len() == 0 {
        (Seq::empty(), st)
    } else {
        proof {
            lemma_tsize_pos(args.last());
            assert(tssize(args) == tssize(args.drop_last()) + tsize(args.last()));
        }
        let (prev, st1) = standin_args(args.drop_last(), pname, aname, aargs, d, w, o, st);
        let idx = args.len() - 1;
        let var = match w.variance_at_spec(pname, idx) {
            Some(x) => x,
            None => Variance::Invariant,
        };
        match projected_arg(pname, aname, aargs, idx, w) {
            Some(t) => {
                let (r, st2) = standin_type(args.last(), t, var, next_depth(d), Some(pname), w, o, st1);
                (prev.push(r), st2)
            },
            None => (prev.push(args.last()), st1),
        }
    }
}

// ---------------------------------------------------------------------
// The walk.
// ---------------------------------------------------------------------
/// What the walk does with one parameter atom.
pub enum Walk {
    Unchanged,
    Single(Element),
    Many(Vec<Element>),
}

/// The atoms standing for `e` after the step, and whether it changed.
pub open spec fn walk_view(w: Walk, e: ElemV) -> (Seq<ElemV>, bool) {
    match w {
        Walk::Unchanged => (seq![e], false),
        Walk::Single(x) => (seq![x@], true),
        Walk::Many(v) => (views(v@), true),
    }
}

/// Walk `parameter` against `argument`, recording in `state` a bound for
/// every template parameter it meets, and return the standin: the
/// parameter with those template parameters replaced by their
/// constraints.
pub fn standin<W: World>(
    parameter: &Type,
    argument: &Type,
    world: &W,
    state: &mut StandinState,
    options: &StandinOptions,
) -> (r: Type)
    ensures
        (r@, final(state)@) == standin_type(
            parameter@,
            argument@,
            options.default_variance,
            0,
            None,
            *world,
            *options,
            old(state)@,
        ),
{
    walk_type(parameter, argument, options.default_variance, 0, &None, world, state, options)
}

fn walk_type<W: World>(
    parameter: &Type,
    argument: &Type,
    variance: Variance,
    depth: u32,
    introducing_class: &Option<Vec<char>>,
    world: &W,
    state: &mut StandinState,
    options: &StandinOptions,
) -> (r: Type)
    ensures
        (r@, final(state)@) == standin_type(
            parameter@,
            argument@,
            variance,
            depth,
            opt_chars(*introducing_class),
            *world,
            *options,
            old(state)@,
        ),
    decreases tsize(parameter@), 3int,
{
    if parameter.same(argument) {
        return parameter.copy();
    }
    if depth > options.max_depth {
        return collapse_to_constraints(parameter);
    }
    let ghost s = parameter@.elements;
    let ghost cls = opt_chars(*introducing_class);
    let ghost st0 = state@;
    let mut new_elements: Vec<Element> = Vec::new();
    let mut changed = false;
    let mut i: usize = 0;
    while i < parameter.elements.len()
        invariant
            s == parameter@.elements,
            s.len() == parameter.elements.len(),
            i <= s.len(),
            cls == opt_chars(*introducing_class),
            (views(new_elements@), changed, state@) == standin_seq(
                s.take(i as int),
                argument@,
                variance,
                depth,
                cls,
                *world,
                *options,
                st0,
            ),
        decreases parameter.elements.len() - i,
    {
        let e = &parameter.elements[i];
        assert(s[i as int] == e@);
        proof {
            lemma_elem_smaller(parameter@, i as int);
        }
        let ghost before = views(new_elements@);
        let w = walk_element(e, argument, variance, depth, introducing_class, world, state, options);
        match w {
            Walk::Unchanged => {
                new_elements.push(e.copy());
                assert(views(new_elements@) =~= before + seq![e@]);
            },
            Walk::Single(x) => {
                let ghost xv = x@;
                new_elements.push(x);
                assert(views(new_elements@) =~= before + seq![xv]);
                changed = true;
            },
            Walk::Many(v) => {
                let ghost vv = views(v@);
                let mut v = v;
                new_elements.append(&mut v);
                assert(views(new_elements@) =~= before + vv);
                changed = true;
            },
        }
        assert(s.take(i + 1).drop_last() =~= s.take(i as int));
        assert(s.take(i + 1).last() == s[i as int]);
        i += 1;
    }
    assert(s.take(s.len() as int) =~= s);
    if !changed {
        return parameter.copy();
    }
    union_of(new_elements, parameter.flags)
}

fn walk_element<W: World>(
    e: &Element,
    argument: &Type,
    variance: Variance,
    depth: u32,
    introducing_class: &Option<Vec<char>>,
    world: &W,
    state: &mut StandinState,
    options: &StandinOptions,
) -> (r: Walk)
    ensures
        ({
            let (outs, changed, st) = standin_elem(
                e@,
                argument@,
                variance,
                depth,
                opt_chars(*introducing_class),
                *world,
                *options,
                old(state)@,
            );
            walk_view(r, e@) == (outs, changed) && final(state)@ == st
        }),
    decreases esize(e@), 2int,
{
    match e {
        Element::GenericParameter(_) => walk_generic_parameter(
            e,
            argument,
            variance,
            depth,
            introducing_class,
            state,
            options,
        ),
        Element::Object(_) => walk_object(e, argument, depth, world, state, options),
        Element::List(_) => walk_list(e, argument, depth, introducing_class, world, state, options),
        Element::Array(_) => walk_keyed_array(e, argument, depth, introducing_class, world, state, options),
        Element::Iterable(_) => walk_iterable(e, argument, depth, introducing_class, world, state, options),
        Element::Callable(_) => walk_callable(e, argument, depth, introducing_class, world, state, options),
        _ => Walk::Unchanged,
    }
}

fn copy_class(c: &Option<Vec<char>>) -> (r: Option<Vec<char>>)
    ensures
        opt_chars(r) == opt_chars(*c),
{
    match c {
        Some(v) => Some(copy_chars(v)),
        None => None,
    }
}

fn next_level(depth: u32) -> (r: u32)
    ensures
        r == next_depth(depth),
{
    if depth < u32::MAX {
        depth + 1
    } else {
        depth
    }
}

/// `T` against the argument: record a bound on `T` with the current
/// variance and stand `T`'s constraint in its place.
fn walk_generic_parameter(
    e: &Element,
    argument: &Type,
    variance: Variance,
    depth: u32,
    introducing_class: &Option<Vec<char>>,
    state: &mut StandinState,
    options: &StandinOptions,
) -> (r: Walk)
    requires
        e@ is GenericParameter,
    ensures
        ({
            let (outs, changed, st) = standin_parameter(
                e@,
                argument@,
                variance,
                depth,
                opt_chars(*introducing_class),
                *options,
                old(state)@,
            );
            walk_view(r, e@) == (outs, changed) && final(state)@ == st
        }),
{
    let g = match e {
        Element::GenericParameter(g) => g,
        _ => {
            return Walk::Unchanged;
        },
    };
    let key = TemplateKey { defining_entity: g.defining_entity.copy(), name: copy_chars(&g.name) };
    if !state.is_declared(&key) {
        state.declare(key.copy(), g.constraint.copy());
    }
    let kind = match variance {
        Variance::Covariant => BoundKind::Lower,
        Variance::Contravariant => BoundKind::Upper,
        Variance::Invariant => BoundKind::Equality,
    };
    let equality_bound_classlike = match kind {
        BoundKind::Equality => copy_class(introducing_class),
        _ => None,
    };
    state.record(
        &key,
        Bound {
            kind,
            ty: argument.copy(),
            argument_offset: options.argument_offset,
            depth,
            equality_bound_classlike,
            span: options.span,
        },
    );
    let mut elements: Vec<Element> = Vec::new();
    append_elements(&mut elements, &g.constraint);
    assert(views(elements@) =~= g.constraint@.elements);
    if elements.len() == 1 {
        let mut elements = elements;
        let only = elements.pop().unwrap();
        assert(seq![only@] =~= g.constraint@.elements);
        Walk::Single(only)
    } else {
        Walk::Many(elements)
    }
}


/// The first argument atom an object parameter of class `name` takes
/// its type arguments from.
fn matching_object<'a, W: World>(argument: &'a Type, name: &Vec<char>, world: &W) -> (r: Option<&'a ObjectInfo>)
    ensures
        ({
            let j = matching_object_from(argument@.elements, name@, *world, 0);
            match r {
                Some(o) => 0 <= j < argument@.elements.len() && argument@.elements[j] == (ElemV::Object {
                    name: o.name@,
                    args: tvs(o.type_args),
                }),
                None => j < 0,
            }
        }),
{
    let ghost s = argument@.elements;
    let mut i: usize = 0;
    while i < argument.elements.len()
        invariant
            s == argument@.elements,
            s.len() == argument.elements.len(),
            i <= s.len(),
            matching_object_from(s, name@, *world, 0) == matching_object_from(s, name@, *world, i as int),
        decreases argument.elements.len() - i,
    {
        assert(s[i as int] == argument.elements@[i as int]@);
        if let Element::Object(ao) = &argument.elements[i] {
            if chars_eq(&ao.name, name) || world.descends_from(&ao.name, name) {
                return Some(ao);
            }
        }
        i += 1;
    }
    None
}

/// What the argument object passes for the `position`-th template
/// parameter of `container`.
/// `inherited` with each template parameter of the class `child` replaced
/// by the matching type among `actual`; `deep` says whether the
/// constraints of template parameters are rewritten too.
pub fn resolve_inherited<W: World>(inherited: &Type, child: &Vec<char>, actual: &Vec<Type>, world: &W, deep: bool) -> (r:
    Type)
    ensures
        r@ == crate::transform::walk::walk_type(inherited@, projection_decider(*world, child@, tvs(*actual)), deep),
{
    let ghost d = projection_decider(*world, child@, tvs(*actual));
    let step = |x: &Element| -> (o: Outcome)
        ensures
            outcome_view(o) == projection_decider(*world, child@, tvs(*actual))(x@),
        {
            match x {
                Element::GenericParameter(g) => {
                    let same_entity = match &g.defining_entity {
                        DefiningEntity::ClassLike(n) => chars_eq(n, child),
                        _ => false,
                    };
                    if !same_entity {
                        return Outcome::Unchanged;
                    }
                    match world.template_parameter_index(child, &g.name) {
                        Some(pos) => {
                            if pos < actual.len() {
                                let mut v: Vec<Element> = Vec::new();
                                append_elements(&mut v, &actual[pos]);
                                assert(views(v@) =~= actual@[pos as int]@.elements);
                                crate::transform::flat_outcome_of(v, x)
                            } else {
                                Outcome::Unchanged
                            }
                        },
                        None => Outcome::Unchanged,
                    }
                },
                _ => Outcome::Unchanged,
            }
        };
    crate::transform::walk::walk(inherited, &step, Ghost(d), deep)
}

fn projected_object_arg<W: World>(container: &Vec<char>, ao: &ObjectInfo, position: usize, world: &W) -> (r: Option<
    Type,
>)
    ensures
        opt_view(r) == projected_arg(container@, ao.name@, tvs(ao.type_args), position as int, *world),
{
    if chars_eq(&ao.name, container) {
        if position < ao.type_args.len() {
            return Some(ao.type_args[position].copy());
        }
        return None;
    }
    let inherited = match world.inherited_template_argument(&ao.name, container, position) {
        Some(t) => t,
        None => {
            return None;
        },
    };
    Some(resolve_inherited(&inherited, &ao.name, &ao.type_args, world, true))
}

fn walk_object<W: World>(
    e: &Element,
    argument: &Type,
    depth: u32,
    world: &W,
    state: &mut StandinState,
    options: &StandinOptions,
) -> (r: Walk)
    requires
        e@ is Object,
    ensures
        ({
            let (outs, changed, st) = standin_elem(
                e@,
                argument@,
                Variance::Invariant,
                depth,
                None,
                *world,
                *options,
                old(state)@,
            );
            walk_view(r, e@) == (outs, changed) && final(state)@ == st
        }),
    decreases esize(e@), 1int,
{
    let o = match e {
        Element::Object(o) => o,
        _ => {
            return Walk::Unchanged;
        },
    };
    let found = matching_object(argument, &o.name, world);
    if o.type_args.len() == 0 {
        return Walk::Unchanged;
    }
    let ao = match found {
        Some(ao) => ao,
        None => {
            return Walk::Unchanged;
        },
    };
    let ghost args = tvs(o.type_args);
    let ghost aargs = tvs(ao.type_args);
    let ghost st0 = state@;
    let next = next_level(depth);
    let mut new_args: Vec<Type> = Vec::new();
    let mut j: usize = 0;
    while j < o.type_args.len()
        invariant
            args == tvs(o.type_args),
            aargs == tvs(ao.type_args),
            args.len() == o.type_args.len(),
            e@ == (ElemV::Object { name: o.name@, args }),
            next == next_depth(depth),
            j <= args.len(),
            (tvs(new_args), state@) == standin_args(
                args.take(j as int),
                o.name@,
                ao.name@,
                aargs,
                depth,
                *world,
                *options,
                st0,
            ),
        decreases o.type_args.len() - j,
    {
        assert(args[j as int] == o.type_args@[j as int]@);
        proof {
            lemma_tssize_elem(args, j as int);
        }
        let ghost before = tvs(new_args);
        let variance = match world.template_parameter_at(&o.name, j) {
            Some(p) => p.variance,
            None => Variance::Invariant,
        };
        let refined = match projected_object_arg(&o.name, ao, j, world) {
            Some(t) => walk_type(&o.type_args[j], &t, variance, next, &Some(copy_chars(&o.name)), world, state, options),
            None => o.type_args[j].copy(),
        };
        let ghost rv = refined@;
        new_args.push(refined);
        assert(tvs(new_args) =~= before.push(rv));
        assert(args.take(j + 1).drop_last() =~= args.take(j as int));
        assert(args.take(j + 1).last() == args[j as int]);
        j += 1;
    }
    assert(args.take(args.len() as int) =~= args);
    if crate::element::types_same(&new_args, &o.type_args) {
        return Walk::Unchanged;
    }
    Walk::Single(Element::Object(ObjectInfo { name: copy_chars(&o.name), type_args: new_args }))
}

fn list_source(argument: &Type) -> (r: Option<&Type>)
    ensures
        match r {
            Some(t) => list_source_from(argument@.elements, 0) == Some(t@),
            None => list_source_from(argument@.elements, 0) is None,
        },
{
    let ghost s = argument@.elements;
    let mut i: usize = 0;
    while i < argument.elements.len()
        invariant
            s == argument@.elements,
            s.len() == argument.elements.len(),
            i <= s.len(),
            list_source_from(s, 0) == list_source_from(s, i as int),
        decreases argument.elements.len() - i,
    {
        assert(s[i as int] == argument.elements@[i as int]@);
        match &argument.elements[i] {
            Element::List(l) => {
                return Some(&l.element_type);
            },
            Element::Iterable(it) => {
                return Some(&it.value_type);
            },
            _ => {},
        }
        i += 1;
    }
    None
}

fn walk_list<W: World>(
    e: &Element,
    argument: &Type,
    depth: u32,
    introducing_class: &Option<Vec<char>>,
    world: &W,
    state: &mut StandinState,
    options: &StandinOptions,
) -> (r: Walk)
    requires
        e@ is List,
    ensures
        ({
            let (outs, changed, st) = standin_elem(
                e@,
                argument@,
                Variance::Invariant,
                depth,
                opt_chars(*introducing_class),
                *world,
                *options,
                old(state)@,
            );
            walk_view(r, e@) == (outs, changed) && final(state)@ == st
        }),
    decreases esize(e@), 1int,
{
    let l = match e {
        Element::List(l) => l,
        _ => {
            return Walk::Unchanged;
        },
    };
    let source = match list_source(argument) {
        Some(t) => t,
        None => {
            return Walk::Unchanged;
        },
    };
    let refined = walk_type(
        &l.element_type,
        source,
        Variance::Covariant,
        next_level(depth),
        introducing_class,
        world,
        state,
        options,
    );
    if refined.same(&l.element_type) {
        return Walk::Unchanged;
    }
    Walk::Single(
        Element::List(
            ListInfo {
                element_type: refined,
                known_elements: crate::element::copy_known_elements(&l.known_elements),
                known_count: l.known_count,
                non_empty: l.non_empty,
            },
        ),
    )
}

fn iterable_source(argument: &Type) -> (r: Option<(Type, Type)>)
    ensures
        match r {
            Some((k, v)) => iterable_source_from(argument@.elements, 0) == Some((k@, v@)),
            None => iterable_source_from(argument@.elements, 0) is None,
        },
{
    let ghost s = argument@.elements;
    let mut i: usize = 0;
    while i < argument.elements.len()
        invariant
            s == argument@.elements,
            s.len() == argument.elements.len(),
            i <= s.len(),
            iterable_source_from(s, 0) == iterable_source_from(s, i as int),
        decreases argument.elements.len() - i,
    {
        assert(s[i as int] == argument.elements@[i as int]@);
        match &argument.elements[i] {
            Element::Iterable(it) => {
                return Some((it.key_type.copy(), it.value_type.copy()));
            },
            Element::List(l) => {
                let int_t = crate::lattice::family::array::int_type();
                return Some((int_t, l.element_type.copy()));
            },
            _ => {},
        }
        i += 1;
    }
    None
}

fn walk_iterable<W: World>(
    e: &Element,
    argument: &Type,
    depth: u32,
    introducing_class: &Option<Vec<char>>,
    world: &W,
    state: &mut StandinState,
    options: &StandinOptions,
) -> (r: Walk)
    requires
        e@ is Iterable,
    ensures
        ({
            let (outs, changed, st) = standin_elem(
                e@,
                argument@,
                Variance::Invariant,
                depth,
                opt_chars(*introducing_class),
                *world,
                *options,
                old(state)@,
            );
            walk_view(r, e@) == (outs, changed) && final(state)@ == st
        }),
    decreases esize(e@), 1int,
{
    let it = match e {
        Element::Iterable(it) => it,
        _ => {
            return Walk::Unchanged;
        },
    };
    let (ak, av) = match iterable_source(argument) {
        Some(p) => p,
        None => {
            return Walk::Unchanged;
        },
    };
    let next = next_level(depth);
    let new_key = walk_type(&it.key_type, &ak, Variance::Covariant, next, introducing_class, world, state, options);
    let new_value = walk_type(&it.value_type, &av, Variance::Covariant, next, introducing_class, world, state, options);
    if new_key.same(&it.key_type) && new_value.same(&it.value_type) {
        return Walk::Unchanged;
    }
    Walk::Single(Element::Iterable(IterableInfo { key_type: new_key, value_type: new_value }))
}

fn array_source(argument: &Type) -> (r: Option<(Option<&Type>, Option<&Type>, Option<&Vec<KnownItemEntry>>)>)
    ensures
        match r {
            Some((k, v, items)) => array_source_from(argument@.elements, 0) == Some(
                (
                    match k {
                        Some(x) => Some(x@),
                        None => None,
                    },
                    match v {
                        Some(x) => Some(x@),
                        None => None,
                    },
                    match items {
                        Some(x) => items_view(*x),
                        None => Seq::<ItemV>::empty(),
                    },
                ),
            ),
            None => array_source_from(argument@.elements, 0) is None,
        },
{
    let ghost s = argument@.elements;
    let mut i: usize = 0;
    while i < argument.elements.len()
        invariant
            s == argument@.elements,
            s.len() == argument.elements.len(),
            i <= s.len(),
            array_source_from(s, 0) == array_source_from(s, i as int),
        decreases argument.elements.len() - i,
    {
        assert(s[i as int] == argument.elements@[i as int]@);
        match &argument.elements[i] {
            Element::Array(a) => {
                let k = match &a.key_param {
                    Some(x) => Some(x),
                    None => None,
                };
                let v = match &a.value_param {
                    Some(x) => Some(x),
                    None => None,
                };
                return Some((k, v, Some(&a.known_items)));
            },
            Element::Iterable(it) => {
                return Some((Some(&it.key_type), Some(&it.value_type), None));
            },
            _ => {},
        }
        i += 1;
    }
    None
}

fn walk_keyed_array<W: World>(
    e: &Element,
    argument: &Type,
    depth: u32,
    introducing_class: &Option<Vec<char>>,
    world: &W,
    state: &mut StandinState,
    options: &StandinOptions,
) -> (r: Walk)
    requires
        e@ is Array,
    ensures
        ({
            let (outs, changed, st) = standin_elem(
                e@,
                argument@,
                Variance::Invariant,
                depth,
                opt_chars(*introducing_class),
                *world,
                *options,
                old(state)@,
            );
            walk_view(r, e@) == (outs, changed) && final(state)@ == st
        }),
    decreases esize(e@), 1int,
{
    let a = match e {
        Element::Array(a) => a,
        _ => {
            return Walk::Unchanged;
        },
    };
    let (ak, av, aitems) = match array_source(argument) {
        Some(p) => p,
        None => {
            return Walk::Unchanged;
        },
    };
    let next = next_level(depth);
    let new_key = match (&a.key_param, ak) {
        (Some(pk), Some(akt)) => Some(
            walk_type(pk, akt, Variance::Covariant, next, introducing_class, world, state, options),
        ),
        _ => copy_opt_type(&a.key_param),
    };
    let new_value = match (&a.value_param, av) {
        (Some(pv), Some(avt)) => Some(
            walk_type(pv, avt, Variance::Covariant, next, introducing_class, world, state, options),
        ),
        _ => copy_opt_type(&a.value_param),
    };
    let none: Vec<KnownItemEntry> = Vec::new();
    let aitems = match aitems {
        Some(x) => x,
        None => &none,
    };
    assert(items_view(none) =~= Seq::<ItemV>::empty());
    let new_items = walk_items(&a.known_items, aitems, next, introducing_class, world, state, options);
    if opt_type_same(&new_key, &a.key_param) && opt_type_same(&new_value, &a.value_param) && items_same(
        &new_items,
        &a.known_items,
    ) {
        return Walk::Unchanged;
    }
    Walk::Single(
        Element::Array(
            KeyedArrayInfo {
                key_param: new_key,
                value_param: new_value,
                known_items: new_items,
                non_empty: a.non_empty,
            },
        ),
    )
}

/// Each shape entry walked against the argument entry with its key.
fn walk_items<W: World>(
    items: &Vec<KnownItemEntry>,
    aitems: &Vec<KnownItemEntry>,
    next: u32,
    introducing_class: &Option<Vec<char>>,
    world: &W,
    state: &mut StandinState,
    options: &StandinOptions,
) -> (r: Vec<KnownItemEntry>)
    ensures
        (items_view(r), final(state)@) == standin_items(
            items_view(*items),
            items_view(*aitems),
            next,
            opt_chars(*introducing_class),
            *world,
            *options,
            old(state)@,
        ),
    decreases items_size(items_view(*items)), 0int,
{
    let ghost iv = items_view(*items);
    let ghost av = items_view(*aitems);
    let ghost cls = opt_chars(*introducing_class);
    let ghost st1 = state@;
    let mut out: Vec<KnownItemEntry> = Vec::new();
    let mut j: usize = 0;
    while j < items.len()
        invariant
            iv == items_view(*items),
            av == items_view(*aitems),
            iv.len() == items.len(),
            av.len() == aitems.len(),
            cls == opt_chars(*introducing_class),
            j <= iv.len(),
            (items_view(out), state@) == standin_items(iv.take(j as int), av, next, cls, *world, *options, st1),
        decreases items.len() - j,
    {
        assert(iv[j as int] == item_view(items@[j as int]));
        proof {
            lemma_items_size_elem(iv, j as int);
            lemma_first_with_key(av, iv[j as int].key, 0);
        }
        let ghost before = items_view(out);
        let it = &items[j];
        let value = match find_key(aitems, &it.key) {
            Some(k) => {
                assert(av[k as int] == item_view(aitems@[k as int]));
                walk_type(&it.value, &aitems[k].value, Variance::Covariant, next, introducing_class, world, state, options)
            },
            None => it.value.copy(),
        };
        let ni = KnownItemEntry { key: it.key.copy(), value, optional: it.optional };
        let ghost niv = item_view(ni);
        out.push(ni);
        assert(items_view(out) =~= before.push(niv));
        assert(iv.take(j + 1).drop_last() =~= iv.take(j as int));
        assert(iv.take(j + 1).last() == iv[j as int]);
        j += 1;
    }
    assert(iv.take(iv.len() as int) =~= iv);
    out
}

fn callable_source(argument: &Type) -> (r: Option<&Signature>)
    ensures
        match r {
            Some(x) => callable_source_from(argument@.elements, 0) == Some(sig_view(*x)),
            None => callable_source_from(argument@.elements, 0) is None,
        },
{
    let ghost s = argument@.elements;
    let mut i: usize = 0;
    while i < argument.elements.len()
        invariant
            s == argument@.elements,
            s.len() == argument.elements.len(),
            i <= s.len(),
            callable_source_from(s, 0) == callable_source_from(s, i as int),
        decreases argument.elements.len() - i,
    {
        assert(s[i as int] == argument.elements@[i as int]@);
        match &argument.elements[i] {
            Element::Callable(CallableInfo::Signature(x)) => {
                return Some(x);
            },
            Element::Callable(CallableInfo::Closure(x)) => {
                return Some(x);
            },
            _ => {},
        }
        i += 1;
    }
    None
}

/// A signature walked against the argument's first signature.
fn walk_signature<W: World>(
    sig: &Signature,
    argument: &Type,
    depth: u32,
    introducing_class: &Option<Vec<char>>,
    world: &W,
    state: &mut StandinState,
    options: &StandinOptions,
) -> (r: Signature)
    ensures
        (sig_view(r), final(state)@) == standin_sig(
            sig_view(*sig),
            argument@,
            depth,
            opt_chars(*introducing_class),
            *world,
            *options,
            old(state)@,
        ),
    decreases sigsize(sig_view(*sig)), 0int,
{
    let asig = match callable_source(argument) {
        Some(x) => x,
        None => {
            return crate::element::copy_signature(sig);
        },
    };
    let next = next_level(depth);
    let return_type = walk_type(
        &sig.return_type,
        &asig.return_type,
        Variance::Covariant,
        next,
        introducing_class,
        world,
        state,
        options,
    );
    let throws = crate::element::copy_opt_type(&sig.throws);
    let ps = match &sig.parameters {
        Some(ps) => ps,
        None => {
            return Signature {
                return_type,
                throws,
                parameters: None,
                is_variadic: sig.is_variadic,
                is_pure: sig.is_pure,
            };
        },
    };
    let empty: Vec<ParamInfo> = Vec::new();
    let aps = match &asig.parameters {
        Some(x) => x,
        None => &empty,
    };
    let ghost pv = params_view(*ps);
    let ghost apv = params_view(*aps);
    assert(apv == match sig_view(*asig).params {
        Some(x) => x,
        None => Seq::<ParamV>::empty(),
    }) by {
        if sig_view(*asig).params is None {
            assert(apv =~= Seq::<ParamV>::empty());
        }
    }
    let ghost cls = opt_chars(*introducing_class);
    let ghost st1 = state@;
    let mut new_params: Vec<ParamInfo> = Vec::new();
    let mut j: usize = 0;
    while j < ps.len()
        invariant
            pv == params_view(*ps),
            apv == params_view(*aps),
            pv.len() == ps.len(),
            apv.len() == aps.len(),
            pssize(pv) < sigsize(sig_view(*sig)),
            cls == opt_chars(*introducing_class),
            j <= pv.len(),
            (params_view(new_params), state@) == standin_params(
                pv.take(j as int),
                apv,
                next,
                cls,
                *world,
                *options,
                st1,
            ),
        decreases ps.len() - j,
    {
        assert(pv[j as int] == crate::element::param_view(ps@[j as int]));
        proof {
            lemma_pssize_elem(pv, j as int);
        }
        let ghost before = params_view(new_params);
        let p = &ps[j];
        let type_ = if j < aps.len() {
            assert(apv[j as int] == crate::element::param_view(aps@[j as int]));
            walk_type(&p.type_, &aps[j].type_, Variance::Contravariant, next, introducing_class, world, state, options)
        } else {
            p.type_.copy()
        };
        let np = ParamInfo {
            name: copy_chars(&p.name),
            type_,
            has_default: p.has_default,
            by_reference: p.by_reference,
            variadic: p.variadic,
        };
        let ghost npv = crate::element::param_view(np);
        new_params.push(np);
        assert(params_view(new_params) =~= before.push(npv));
        assert(pv.take(j + 1).drop_last() =~= pv.take(j as int));
        assert(pv.take(j + 1).last() == pv[j as int]);
        j += 1;
    }
    assert(pv.take(pv.len() as int) =~= pv);
    Signature {
        return_type,
        throws,
        parameters: Some(new_params),
        is_variadic: sig.is_variadic,
        is_pure: sig.is_pure,
    }
}

fn walk_callable<W: World>(
    e: &Element,
    argument: &Type,
    depth: u32,
    introducing_class: &Option<Vec<char>>,
    world: &W,
    state: &mut StandinState,
    options: &StandinOptions,
) -> (r: Walk)
    requires
        e@ is Callable,
    ensures
        ({
            let (outs, changed, st) = standin_elem(
                e@,
                argument@,
                Variance::Invariant,
                depth,
                opt_chars(*introducing_class),
                *world,
                *options,
                old(state)@,
            );
            walk_view(r, e@) == (outs, changed) && final(state)@ == st
        }),
    decreases esize(e@), 1int,
{
    match e {
        Element::Callable(CallableInfo::Signature(s)) => {
            let ns = walk_signature(s, argument, depth, introducing_class, world, state, options);
            if crate::element::signature_same(&ns, s) {
                Walk::Unchanged
            } else {
                Walk::Single(Element::Callable(CallableInfo::Signature(ns)))
            }
        },
        Element::Callable(CallableInfo::Closure(s)) => {
            let ns = walk_signature(s, argument, depth, introducing_class, world, state, options);
            if crate::element::signature_same(&ns, s) {
                Walk::Unchanged
            } else {
                Walk::Single(Element::Callable(CallableInfo::Closure(ns)))
            }
        },
        _ => Walk::Unchanged,
    }
}

} // verus!
