//! Refinement and overlap as the codebase describes its classes.
//!
//! On top of the structural lattice, a named object refines an object of
//! its own class or of an ancestor class. Where the container writes type
//! arguments, they are checked position by position under the declared
//! variance: against the input's own arguments for the same class (a
//! missing one stands for the parameter's bound), against the arguments
//! the input's class passes to the ancestor otherwise. Two named objects
//! overlap as [`object_overlap`](crate::lattice::object_overlap) says.
//! The type arguments themselves are compared structurally.
use vstd::prelude::*;

use crate::element::{ElemV, Element, ObjectInfo, Type, TypeV, chars_eq, lemma_elem_smaller, tvs};
use crate::lattice::object_overlap::{
    arg_or_bound, arg_or_bound_exec, object_overlap, object_overlap_spec, variance_of, variance_or_invariant,
};
use crate::lattice::options::LatticeOptions;
use crate::lattice::refines::{fits, is_skipped};
use crate::lattice::overlaps::element_overlaps;
use crate::lattice::refines_spec::{elem_fits, elem_overlaps_spec, refines_spec, skipped};
use crate::lattice::report::LatticeReport;
use crate::template::standin::{projection_decider, resolve_inherited};
use crate::transform::walk::walk_type;
use crate::world::{Variance, World};

verus! {

/// `x` and `y` agree under `v`: both ways for an invariant parameter, `x`
/// within `y` for a covariant one, `y` within `x` for a contravariant one.
pub open spec fn agrees_under(v: Variance, x: TypeV, y: TypeV, o: LatticeOptions) -> bool {
    match v {
        Variance::Invariant => refines_spec(x, y, o, 0).0 && refines_spec(y, x, o, 0).0,
        Variance::Covariant => refines_spec(x, y, o, 0).0,
        Variance::Contravariant => refines_spec(y, x, o, 0).0,
    }
}

/// The arguments `a_args` of an object of class `class` agree with the
/// container's `b_args` from position `idx` on.
pub open spec fn same_class_args_refine<W: World>(
    w: W,
    class: Seq<char>,
    a_args: Seq<TypeV>,
    b_args: Seq<TypeV>,
    idx: int,
    o: LatticeOptions,
) -> bool
    decreases b_args.len() - idx,
{
    if idx < 0 || idx >= b_args.len() {
        true
    } else {
        &&& agrees_under(variance_or_invariant(w, class, idx), arg_or_bound(w, class, a_args, idx), b_args[idx], o)
        &&& same_class_args_refine(w, class, a_args, b_args, idx + 1, o)
    }
}

/// What the class `desc` passes to its ancestor `anc`, over the arguments
/// `desc_args`, agrees with the container's `anc_args` from `pos` on.
pub open spec fn inherited_args_refine<W: World>(
    w: W,
    desc: Seq<char>,
    desc_args: Seq<TypeV>,
    anc: Seq<char>,
    anc_args: Seq<TypeV>,
    pos: int,
    o: LatticeOptions,
) -> bool
    decreases anc_args.len() - pos,
{
    if pos < 0 || pos >= anc_args.len() {
        true
    } else {
        &&& match w.inherited_argument_spec(desc, anc, pos) {
            Some(inherited) => agrees_under(
                variance_or_invariant(w, anc, pos),
                walk_type(inherited, projection_decider(w, desc, desc_args), false),
                anc_args[pos],
                o,
            ),
            None => true,
        }
        &&& inherited_args_refine(w, desc, desc_args, anc, anc_args, pos + 1, o)
    }
}

/// The object `a` refines the object `b` through the class hierarchy.
pub open spec fn named_refines<W: World>(
    w: W,
    a: Seq<char>,
    a_args: Seq<TypeV>,
    b: Seq<char>,
    b_args: Seq<TypeV>,
    o: LatticeOptions,
) -> bool {
    if a == b {
        same_class_args_refine(w, a, a_args, b_args, 0, o)
    } else if w.descends_from_spec(a, b) {
        inherited_args_refine(w, a, a_args, b, b_args, 0, o)
    } else {
        false
    }
}

/// The object atom `e` refines some object atom of `b` from index `j` on.
pub open spec fn named_fits_from<W: World>(w: W, e: ElemV, b: Seq<ElemV>, j: int, o: LatticeOptions) -> bool
    decreases b.len() - j,
{
    if j < 0 || j >= b.len() {
        false
    } else {
        (e matches ElemV::Object { name: an, args: aa } && b[j] matches ElemV::Object { name: bn, args: ba }
            && named_refines(w, an, aa, bn, ba, o)) || named_fits_from(w, e, b, j + 1, o)
    }
}

/// The input atom fits the container, structurally or through the class
/// hierarchy.
pub open spec fn elem_fits_in<W: World>(w: W, e: ElemV, b: TypeV, o: LatticeOptions, c: u8) -> (bool, u8) {
    let (r, c1) = elem_fits(e, b, o, c);
    if r {
        (true, c1)
    } else {
        (named_fits_from(w, e, b.elements, 0, o), c1)
    }
}

/// Every input atom from index `i` on (not skipped) fits the container.
pub open spec fn all_fit_in<W: World>(w: W, a: TypeV, b: TypeV, o: LatticeOptions, i: int, c: u8) -> (bool, u8)
    decreases a.elements.len() - i,
{
    if i < 0 || i >= a.elements.len() {
        (true, c)
    } else if skipped(o, a.elements[i]) {
        all_fit_in(w, a, b, o, i + 1, c)
    } else {
        let (ok, c1) = elem_fits_in(w, a.elements[i], b, o, c);
        if !ok {
            (false, c1)
        } else {
            all_fit_in(w, a, b, o, i + 1, c1)
        }
    }
}

/// `a <: b` in the codebase `w`.
pub open spec fn refines_spec_in<W: World>(w: W, a: TypeV, b: TypeV, o: LatticeOptions, c: u8) -> (bool, u8) {
    if a == b && !o.ignore_null && !o.ignore_false {
        (true, c)
    } else {
        all_fit_in(w, a, b, o, 0, c)
    }
}

/// Two atoms share a value in the codebase `w`.
pub open spec fn elem_overlaps_in<W: World>(w: W, x: ElemV, y: ElemV, o: LatticeOptions, c: u8) -> (bool, u8) {
    match (x, y) {
        (ElemV::Object { name: an, args: aa }, ElemV::Object { name: bn, args: ba }) => object_overlap_spec(
            w,
            an,
            aa,
            bn,
            ba,
            o,
            c,
        ),
        _ => elem_overlaps_spec(x, y, o, c),
    }
}

/// The atom `x` overlaps some atom of `b` from index `j` on.
pub open spec fn atom_overlaps_in<W: World>(w: W, x: ElemV, b: Seq<ElemV>, o: LatticeOptions, j: int, c: u8) -> (
    bool,
    u8,
)
    decreases b.len() - j,
{
    if j < 0 || j >= b.len() {
        (false, c)
    } else {
        let (r, c1) = elem_overlaps_in(w, x, b[j], o, c);
        if r {
            (true, c1)
        } else {
            atom_overlaps_in(w, x, b, o, j + 1, c1)
        }
    }
}

/// Some atom of `a` from index `i` on overlaps some atom of `b`.
pub open spec fn overlaps_from_in<W: World>(w: W, a: Seq<ElemV>, b: Seq<ElemV>, o: LatticeOptions, i: int, c: u8) -> (
    bool,
    u8,
)
    decreases a.len() - i,
{
    if i < 0 || i >= a.len() {
        (false, c)
    } else {
        let (r, c1) = atom_overlaps_in(w, a[i], b, o, 0, c);
        if r {
            (true, c1)
        } else {
            overlaps_from_in(w, a, b, o, i + 1, c1)
        }
    }
}

/// Some value inhabits both `a` and `b` in the codebase `w`.
pub open spec fn overlaps_spec_in<W: World>(w: W, a: TypeV, b: TypeV, o: LatticeOptions, c: u8) -> (bool, u8) {
    overlaps_from_in(w, a.elements, b.elements, o, 0, c)
}

fn agrees_under_exec(v: Variance, x: &Type, y: &Type, o: LatticeOptions) -> (r: bool)
    ensures
        r == agrees_under(v, x@, y@, o),
{
    match v {
        Variance::Invariant => crate::lattice::refines::walk(x, y, o, 0).0 && crate::lattice::refines::walk(
            y,
            x,
            o,
            0,
        ).0,
        Variance::Covariant => crate::lattice::refines::walk(x, y, o, 0).0,
        Variance::Contravariant => crate::lattice::refines::walk(y, x, o, 0).0,
    }
}

fn same_class_args_exec<W: World>(world: &W, a: &ObjectInfo, b: &ObjectInfo, idx: usize, o: LatticeOptions) -> (r:
    bool)
    ensures
        r == same_class_args_refine(*world, a.name@, tvs(a.type_args), tvs(b.type_args), idx as int, o),
    decreases b.type_args.len() - idx,
{
    if idx >= b.type_args.len() {
        return true;
    }
    let x = arg_or_bound_exec(world, &a.name, &a.type_args, idx);
    assert(b.type_args@[idx as int]@ == tvs(b.type_args)[idx as int]);
    if !agrees_under_exec(variance_of(world, &a.name, idx), &x, &b.type_args[idx], o) {
        return false;
    }
    same_class_args_exec(world, a, b, idx + 1, o)
}

fn inherited_args_exec<W: World>(world: &W, a: &ObjectInfo, b: &ObjectInfo, pos: usize, o: LatticeOptions) -> (r:
    bool)
    ensures
        r == inherited_args_refine(*world, a.name@, tvs(a.type_args), b.name@, tvs(b.type_args), pos as int, o),
    decreases b.type_args.len() - pos,
{
    if pos >= b.type_args.len() {
        return true;
    }
    assert(b.type_args@[pos as int]@ == tvs(b.type_args)[pos as int]);
    match world.inherited_template_argument(&a.name, &b.name, pos) {
        Some(inherited) => {
            let resolved = resolve_inherited(&inherited, &a.name, &a.type_args, world, false);
            if !agrees_under_exec(variance_of(world, &b.name, pos), &resolved, &b.type_args[pos], o) {
                return false;
            }
        },
        None => {},
    }
    inherited_args_exec(world, a, b, pos + 1, o)
}

/// The object `a` refines the object `b` through the class hierarchy.
pub fn object_refines<W: World>(a: &ObjectInfo, b: &ObjectInfo, world: &W, o: LatticeOptions) -> (r: bool)
    ensures
        r == named_refines(*world, a.name@, tvs(a.type_args), b.name@, tvs(b.type_args), o),
{
    if chars_eq(&a.name, &b.name) {
        same_class_args_exec(world, a, b, 0, o)
    } else if world.descends_from(&a.name, &b.name) {
        inherited_args_exec(world, a, b, 0, o)
    } else {
        false
    }
}

fn named_fits<W: World>(e: &Element, container: &Type, world: &W, o: LatticeOptions) -> (r: bool)
    ensures
        r == named_fits_from(*world, e@, container@.elements, 0, o),
{
    let ghost b = container@.elements;
    let mut j: usize = 0;
    while j < container.elements.len()
        invariant
            b == container@.elements,
            b.len() == container.elements.len(),
            j <= b.len(),
            named_fits_from(*world, e@, b, 0, o) == named_fits_from(*world, e@, b, j as int, o),
        decreases container.elements.len() - j,
    {
        assert(b[j as int] == container.elements@[j as int]@);
        if let (Element::Object(ao), Element::Object(bo)) = (e, &container.elements[j]) {
            if object_refines(ao, bo, world, o) {
                return true;
            }
        }
        j += 1;
    }
    false
}

/// The walk behind [`refines`](crate::lattice::refines::refines), on the
/// causes bits alone.
pub fn walk_in<W: World>(input: &Type, container: &Type, world: &W, o: LatticeOptions, c: u8) -> (r: (bool, u8))
    ensures
        r == refines_spec_in(*world, input@, container@, o, c),
{
    if !o.ignore_null && !o.ignore_false && input.same(container) {
        return (true, c);
    }
    let ghost a = input@;
    let ghost b = container@;
    let mut cur = c;
    let mut i: usize = 0;
    while i < input.elements.len()
        invariant
            a == input@,
            b == container@,
            a.elements.len() == input.elements.len(),
            i <= a.elements.len(),
            refines_spec_in(*world, a, b, o, c) == all_fit_in(*world, a, b, o, i as int, cur),
        decreases input.elements.len() - i,
    {
        let e = &input.elements[i];
        assert(a.elements[i as int] == e@);
        if !is_skipped(o, e) {
            proof {
                lemma_elem_smaller(a, i as int);
            }
            let (ok, c1) = fits(e, container, o, cur);
            let fit = ok || named_fits(e, container, world, o);
            if !fit {
                return (false, c1);
            }
            cur = c1;
        }
        i += 1;
    }
    (true, cur)
}

#[verifier::spinoff_prover]
#[verifier::rlimit(50)]
fn pair_overlaps_in<W: World>(x: &Element, y: &Element, world: &W, o: LatticeOptions, c: u8) -> (r: (bool, u8))
    ensures
        r == elem_overlaps_in(*world, x@, y@, o, c),
{
    if let (Element::Object(ao), Element::Object(bo)) = (x, y) {
        assert(x@ == (ElemV::Object { name: ao.name@, args: tvs(ao.type_args) }));
        assert(y@ == (ElemV::Object { name: bo.name@, args: tvs(bo.type_args) }));
        return object_overlap(ao, bo, world, o, c);
    }
    assert(!(x@ is Object && y@ is Object));
    element_overlaps(x, y, o, c)
}

/// The walk behind [`overlaps`](crate::lattice::overlaps::overlaps), on the
/// causes bits alone.
pub fn overlaps_walk_in<W: World>(a: &Type, b: &Type, world: &W, o: LatticeOptions, c: u8) -> (r: (bool, u8))
    ensures
        r == overlaps_spec_in(*world, a@, b@, o, c),
{
    let ghost av = a@.elements;
    let ghost bv = b@.elements;
    let mut cur = c;
    let mut i: usize = 0;
    while i < a.elements.len()
        invariant
            av == a@.elements,
            bv == b@.elements,
            av.len() == a.elements.len(),
            bv.len() == b.elements.len(),
            i <= av.len(),
            overlaps_spec_in(*world, a@, b@, o, c) == overlaps_from_in(*world, av, bv, o, i as int, cur),
        decreases a.elements.len() - i,
    {
        let x = &a.elements[i];
        assert(av[i as int] == x@);
        let ghost c_row = cur;
        let mut j: usize = 0;
        while j < b.elements.len()
            invariant
                av == a@.elements,
                bv == b@.elements,
                bv.len() == b.elements.len(),
                i < av.len(),
                x@ == av[i as int],
                j <= bv.len(),
                atom_overlaps_in(*world, x@, bv, o, 0, c_row) == atom_overlaps_in(*world, x@, bv, o, j as int, cur),
                overlaps_spec_in(*world, a@, b@, o, c) == overlaps_from_in(*world, av, bv, o, i as int, c_row),
            decreases b.elements.len() - j,
        {
            let y = &b.elements[j];
            assert(bv[j as int] == y@);
            let (r, c1) = pair_overlaps_in(x, y, world, o, cur);
            if r {
                assert(atom_overlaps_in(*world, x@, bv, o, j as int, cur) == (true, c1));
                assert(overlaps_from_in(*world, av, bv, o, i as int, c_row) == (true, c1));
                return (true, c1);
            }
            cur = c1;
            j += 1;
        }
        assert(atom_overlaps_in(*world, x@, bv, o, j as int, cur) == (false, cur));
        i += 1;
    }
    (false, cur)
}

// ---------------------------------------------------------------------
// Laws.
// ---------------------------------------------------------------------
proof fn lemma_all_fit_extends<W: World>(w: W, a: TypeV, b: TypeV, o: LatticeOptions, i: int, c: u8)
    requires
        0 <= i,
    ensures
        crate::lattice::refines_spec::all_fit_from(a, b, o, i, c).0 ==> all_fit_in(w, a, b, o, i, c).0,
    decreases a.elements.len() - i,
{
    if 0 <= i < a.elements.len() {
        if skipped(o, a.elements[i]) {
            lemma_all_fit_extends(w, a, b, o, i + 1, c);
        } else {
            let (ok, c1) = elem_fits(a.elements[i], b, o, c);
            lemma_all_fit_extends(w, a, b, o, i + 1, c1);
        }
    }
}

/// What refines structurally refines in every codebase; so reflexivity,
/// `never` at the bottom and `mixed` at the top carry over.
pub proof fn lemma_structural_refinement_holds_in<W: World>(w: W, a: TypeV, b: TypeV, o: LatticeOptions, c: u8)
    ensures
        refines_spec(a, b, o, c).0 ==> refines_spec_in(w, a, b, o, c).0,
{
    lemma_all_fit_extends(w, a, b, o, 0, c);
}

/// An object of a class refines an object of each of its ancestors whose
/// type arguments are left open.
pub proof fn lemma_descendant_refines_ancestor<W: World>(
    w: W,
    child: Seq<char>,
    child_args: Seq<TypeV>,
    ancestor: Seq<char>,
    o: LatticeOptions,
    c: u8,
)
    requires
        w.descends_from_spec(child, ancestor),
        !o.ignore_null,
    ensures
        refines_spec_in(
            w,
            crate::lattice::refines_spec::single_v(ElemV::Object { name: child, args: child_args }),
            crate::lattice::refines_spec::single_v(ElemV::Object { name: ancestor, args: Seq::empty() }),
            o,
            c,
        ).0,
{
    let e = ElemV::Object { name: child, args: child_args };
    let a = crate::lattice::refines_spec::single_v(e);
    let b = crate::lattice::refines_spec::single_v(ElemV::Object { name: ancestor, args: Seq::empty() });
    assert(named_refines(w, child, child_args, ancestor, Seq::empty(), o)) by {
        if child == ancestor {
        }
    }
    assert(named_fits_from(w, e, b.elements, 0, o));
    let (ok, c1) = elem_fits(e, b, o, c);
    assert(all_fit_in(w, a, b, o, 1, c1) == (true, c1));
}

} // verus!
