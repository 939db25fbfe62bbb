//! Template parameters: bounds collected for them and their declarations.
use vstd::prelude::*;

use crate::element::{DefiningEntity, ElemV, Element, Type, TypeV, canonical, union_of};
use crate::lattice::refines::append_elements;
use crate::substitute::views;

pub mod reconcile;
pub mod standin;
pub mod substitute;

verus! {

/// What kind of bound was recorded on a template parameter.
#[derive(Debug, Clone, Copy, PartialEq, Eq, Structural)]
pub enum BoundKind {
    /// The parameter must be a supertype of the bound type.
    Lower,
    /// The parameter must be a subtype of the bound type.
    Upper,
    /// The parameter equals the bound type.
    Equality,
}

/// Identity of a template parameter: its declaring entity and its name.
#[derive(Debug)]
pub struct TemplateKey {
    pub defining_entity: DefiningEntity,
    pub name: Vec<char>,
}

/// A range of source offsets: where a bound was collected.
#[derive(Debug, Clone, Copy, PartialEq, Eq, Structural)]
pub struct SourceSpan {
    pub start: u32,
    pub end: u32,
}

/// One bound recorded for a template parameter.
#[derive(Debug)]
pub struct Bound {
    pub kind: BoundKind,
    pub ty: Type,
    /// Call-site argument index.
    pub argument_offset: u32,
    /// Structural depth at which the bound was collected.
    pub depth: u32,
    /// For equality bounds, the class whose invariant position introduced it.
    pub equality_bound_classlike: Option<Vec<char>>,
    /// Where the bound was collected, when the caller asked for it.
    pub span: Option<SourceSpan>,
}

/// A template parameter as declared in the inference scope.
#[derive(Debug)]
pub struct GenericTemplate {
    pub defining_entity: DefiningEntity,
    pub constraint: Type,
}

/// Each template parameter atom of `s` replaced by its constraint's atoms.
pub open spec fn constraints_of(s: Seq<ElemV>) -> Seq<ElemV>
    decreases s.len(),
{
    if s.len() == 0 {
        Seq::empty()
    } else {
        constraints_of(s.drop_last()) + match s.last() {
            ElemV::GenericParameter { constraint, .. } => constraint.elements,
            e => seq![e],
        }
    }
}

/// `t` with every top-level template parameter replaced by its
/// constraint; `t` itself when it has none.
pub open spec fn collapse_v(t: TypeV) -> TypeV {
    if exists|i: int| 0 <= i < t.elements.len() && #[trigger] t.elements[i] is GenericParameter {
        TypeV { elements: canonical(constraints_of(t.elements)), flags: t.flags }
    } else {
        t
    }
}

/// Replace every top-level template parameter of `parameter` by its
/// constraint, as when inference gives up past its depth limit.
pub fn collapse_to_constraints(parameter: &Type) -> (r: Type)
    ensures
        r@ == collapse_v(parameter@),
{
    let ghost s = parameter@.elements;
    let mut new_elements: Vec<Element> = Vec::new();
    let mut changed = false;
    let mut i: usize = 0;
    while i < parameter.elements.len()
        invariant
            s == parameter@.elements,
            s.len() == parameter.elements.len(),
            i <= s.len(),
            views(new_elements@) == constraints_of(s.take(i as int)),
            changed == exists|k: int| 0 <= k < i && #[trigger] s[k] is GenericParameter,
        decreases parameter.elements.len() - i,
    {
        let e = &parameter.elements[i];
        assert(s[i as int] == e@);
        assert(s.take(i + 1).drop_last() =~= s.take(i as int));
        assert(s.take(i + 1).last() == s[i as int]);
        let ghost before = views(new_elements@);
        match e {
            Element::GenericParameter(g) => {
                append_elements(&mut new_elements, &g.constraint);
                changed = true;
            },
            _ => {
                new_elements.push(e.copy());
                assert(views(new_elements@) =~= before + seq![e@]);
            },
        }
        i += 1;
    }
    assert(s.take(s.len() as int) =~= s);
    if !changed {
        return parameter.copy();
    }
    union_of(new_elements, parameter.flags)
}

} // verus!
