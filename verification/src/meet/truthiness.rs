//! Narrowing single atoms by truthiness, for the meet with a truthy or
//! falsy `mixed`.
use vstd::prelude::*;

use crate::element::{
    ElemV, Element, ItemV, KeyedArrayInfo, KnownItemEntry, ListInfo, StrLitV, StringCasing, StringFlags, StringInfo, StringInfoV, StringLiteral, copy_items, copy_known_elements, copy_opt_type, items_view,
};
use crate::lattice::family::mixed::{empty_array_v, never_type_v};
use crate::lattice::family::string::sinfo;
use crate::prelude::{no_string_flags, string_view, type_never};

verus! {

/// The string literal `v` with no other constraint.
pub open spec fn plain_literal(v: Seq<char>) -> ElemV {
    string_view(StrLitV::Value(v), StringCasing::Unspecified, no_string_flags())
}

/// `truthy ∧ s`: a literal stays when truthy and is `never` otherwise;
/// any other string gains the truthy and non-empty flags.
pub open spec fn narrow_string_truthy_v(s: StringInfoV) -> ElemV {
    match s.literal {
        StrLitV::Value(v) => if v.len() == 0 || v == seq!['0'] {
            ElemV::Never
        } else {
            ElemV::Str(s)
        },
        _ => ElemV::Str(StringInfoV { flags: StringFlags { truthy: true, non_empty: true, ..s.flags }, ..s }),
    }
}

/// `falsy ∧ s`: the falsy strings `""` and `"0"` the atom admits.
pub open spec fn narrow_string_falsy_v(s: StringInfoV) -> Seq<ElemV> {
    match s.literal {
        StrLitV::Value(v) => if v.len() == 0 || v == seq!['0'] {
            seq![ElemV::Str(s)]
        } else {
            Seq::empty()
        },
        _ => if s.flags.truthy {
            Seq::empty()
        } else {
            (if !s.flags.non_empty && !s.flags.numeric {
                seq![plain_literal(Seq::empty())]
            } else {
                Seq::empty()
            }) + seq![plain_literal(seq!['0'])]
        },
    }
}

fn literal(v: Vec<char>) -> (e: Element)
    ensures
        e@ == plain_literal(v@),
{
    Element::String(
        StringInfo {
            literal: StringLiteral::Value(v),
            casing: StringCasing::Unspecified,
            flags: StringFlags { non_empty: false, truthy: false, numeric: false, callable: false },
        },
    )
}

fn is_falsy_literal(v: &Vec<char>) -> (r: bool)
    ensures
        r == (v@.len() == 0 || v@ == seq!['0']),
{
    let r = v.len() == 0 || (v.len() == 1 && v[0] == '0');
    proof {
        if v@ == seq!['0'] {
            assert(v@.len() == 1 && v@[0] == '0');
        }
        if v.len() == 1 && v@[0] == '0' {
            assert(v@ =~= seq!['0']);
        }
    }
    r
}

/// Narrow a string atom to its truthy values.
pub fn narrow_string_truthy(s: &StringInfo) -> (r: Element)
    ensures
        r@ == narrow_string_truthy_v(sinfo(*s)),
{
    match &s.literal {
        StringLiteral::Value(v) => {
            if is_falsy_literal(v) {
                return Element::Never;
            }
            Element::String(StringInfo { literal: s.literal.copy(), casing: s.casing, flags: s.flags })
        },
        _ => {
            let flags = StringFlags { truthy: true, non_empty: true, ..s.flags };
            Element::String(StringInfo { literal: s.literal.copy(), casing: s.casing, flags })
        },
    }
}

/// Narrow a string atom to its falsy values.
pub fn narrow_string_falsy(s: &StringInfo) -> (r: Vec<Element>)
    ensures
        r@.map_values(|e: Element| e@) == narrow_string_falsy_v(sinfo(*s)),
{
    let mut pieces: Vec<Element> = Vec::new();
    match &s.literal {
        StringLiteral::Value(v) => {
            if is_falsy_literal(v) {
                pieces.push(
                    Element::String(StringInfo { literal: s.literal.copy(), casing: s.casing, flags: s.flags }),
                );
                assert(pieces@.map_values(|e: Element| e@) =~= narrow_string_falsy_v(sinfo(*s)));
            } else {
                assert(pieces@.map_values(|e: Element| e@) =~= narrow_string_falsy_v(sinfo(*s)));
            }
            return pieces;
        },
        _ => {},
    }
    if s.flags.truthy {
        assert(pieces@.map_values(|e: Element| e@) =~= narrow_string_falsy_v(sinfo(*s)));
        return pieces;
    }
    if !s.flags.non_empty && !s.flags.numeric {
        pieces.push(literal(Vec::new()));
    }
    let ghost before = pieces@.map_values(|e: Element| e@);
    let zero = vec!['0'];
    assert(zero@ =~= seq!['0']);
    pieces.push(literal(zero));
    assert(pieces@.map_values(|e: Element| e@) =~= before.push(plain_literal(seq!['0'])));
    proof {
        if !s.flags.non_empty && !s.flags.numeric {
            assert(before =~= seq![plain_literal(Seq::empty())]);
        } else {
            assert(before =~= Seq::<ElemV>::empty());
        }
    }
    assert(pieces@.map_values(|e: Element| e@) =~= narrow_string_falsy_v(sinfo(*s)));
    pieces
}

/// A list or array atom required to be non-empty; any other atom as is.
pub open spec fn force_non_empty_v(e: ElemV) -> ElemV {
    match e {
        ElemV::List { element_type, known, count, .. } => ElemV::List { element_type, known, count, non_empty: true },
        ElemV::Array { key, value, items, .. } => ElemV::Array { key, value, items, non_empty: true },
        _ => e,
    }
}

/// Require a list or array atom to be non-empty.
pub fn force_non_empty(e: &Element) -> (r: Element)
    ensures
        r@ == force_non_empty_v(e@),
{
    match e {
        Element::List(l) => Element::List(
            ListInfo {
                element_type: l.element_type.copy(),
                known_elements: copy_known_elements(&l.known_elements),
                known_count: l.known_count,
                non_empty: true,
            },
        ),
        Element::Array(a) => Element::Array(
            KeyedArrayInfo {
                key_param: copy_opt_type(&a.key_param),
                value_param: copy_opt_type(&a.value_param),
                known_items: copy_items(&a.known_items),
                non_empty: true,
            },
        ),
        _ => e.copy(),
    }
}

/// `falsy ∧ e` for a list or array: the empty collection when `e` admits
/// it.
pub open spec fn falsy_collection_v(e: ElemV) -> Option<ElemV> {
    match e {
        ElemV::List { non_empty, .. } => if non_empty {
            None
        } else {
            Some(ElemV::List { element_type: never_type_v(), known: Seq::empty(), count: None, non_empty: false })
        },
        ElemV::Array { non_empty, .. } => if non_empty {
            None
        } else {
            Some(empty_array_v())
        },
        _ => None,
    }
}

/// The empty list `list<never>`.
pub fn empty_list() -> (e: Element)
    ensures
        e@ == (ElemV::List { element_type: never_type_v(), known: Seq::empty(), count: None, non_empty: false }),
{
    Element::list(type_never(), false)
}

/// The empty array `array{}`.
pub fn empty_array() -> (e: Element)
    ensures
        e@ == empty_array_v(),
{
    let items: Vec<KnownItemEntry> = Vec::new();
    assert(items_view(items) =~= Seq::<ItemV>::empty());
    Element::keyed_sealed(items, false)
}

/// The empty collection of `e`'s family, when `e` admits it.
pub fn falsy_collection(e: &Element) -> (r: Option<Element>)
    ensures
        match r {
            Some(x) => falsy_collection_v(e@) == Some(x@),
            None => falsy_collection_v(e@) is None,
        },
{
    match e {
        Element::List(l) => if l.non_empty {
            None
        } else {
            Some(empty_list())
        },
        Element::Array(a) => if a.non_empty {
            None
        } else {
            Some(empty_array())
        },
        _ => None,
    }
}

} // verus!
