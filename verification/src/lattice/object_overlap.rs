//! Overlap of two named objects, as the codebase describes their classes.
//!
//! Two object types share no value when a final class meets a class it is
//! unrelated to, or when both are distinct children of the same sealed
//! parent that do not descend from one another. Objects of one class
//! overlap when their type arguments agree position by position under the
//! declared variance (a missing argument stands for the parameter's
//! bound). When one class descends from the other, the descendant's view
//! of the ancestor's arguments must agree with the ancestor's own.
use vstd::prelude::*;

use crate::element::{ObjectInfo, Type, TypeV, chars_eq, tvs};
use crate::lattice::options::LatticeOptions;
use crate::lattice::overlaps::overlaps_walk;
use crate::lattice::refines_spec::{mixed_v, overlaps_spec, refines_spec, single_v};
use crate::template::standin::{projection_decider, resolve_inherited};
use crate::transform::walk::walk_type;
use crate::world::{Variance, World};

verus! {

/// One of the two classes is final and the two are unrelated.
pub open spec fn final_excludes<W: World>(w: W, a: Seq<char>, b: Seq<char>) -> bool {
    &&& a != b
    &&& !w.descends_from_spec(a, b)
    &&& !w.descends_from_spec(b, a)
    &&& (w.is_final_spec(a) || w.is_final_spec(b))
}

/// The two classes are distinct, unrelated children of one sealed parent.
pub open spec fn sealed_siblings<W: World>(w: W, a: Seq<char>, b: Seq<char>) -> bool {
    &&& a != b
    &&& w.sealed_parent_spec(a) is Some
    &&& w.sealed_parent_spec(a) == w.sealed_parent_spec(b)
    &&& !w.descends_from_spec(a, b)
    &&& !w.descends_from_spec(b, a)
}

/// The variance of the `idx`-th template parameter of `class`; invariant
/// where it declares none.
pub open spec fn variance_or_invariant<W: World>(w: W, class: Seq<char>, idx: int) -> Variance {
    match w.variance_at_spec(class, idx) {
        Some(v) => v,
        None => Variance::Invariant,
    }
}

/// The `idx`-th type argument, or the parameter's declared bound (else
/// `mixed`) where none is written.
pub open spec fn arg_or_bound<W: World>(w: W, class: Seq<char>, args: Seq<TypeV>, idx: int) -> TypeV {
    if 0 <= idx < args.len() {
        args[idx]
    } else {
        match w.variance_at_spec(class, idx) {
            Some(_) => match w.upper_bound_at_spec(class, idx) {
                Some(t) => t,
                None => single_v(mixed_v()),
            },
            None => single_v(mixed_v()),
        }
    }
}

/// The arguments of two objects of class `class` agree from position
/// `idx` up to `arity`: both ways of refinement where the parameter is
/// invariant, overlap where it is covariant, nothing where it is
/// contravariant.
pub open spec fn same_class_args_from<W: World>(
    w: W,
    class: Seq<char>,
    a_args: Seq<TypeV>,
    b_args: Seq<TypeV>,
    arity: int,
    idx: int,
    o: LatticeOptions,
    c: u8,
) -> (bool, u8)
    decreases arity - idx,
{
    if idx < 0 || idx >= arity {
        (true, c)
    } else {
        let x = arg_or_bound(w, class, a_args, idx);
        let y = arg_or_bound(w, class, b_args, idx);
        match variance_or_invariant(w, class, idx) {
            Variance::Invariant => {
                let (r1, c1) = refines_spec(x, y, o, c);
                let (r2, c2) = refines_spec(y, x, o, c1);
                if !r1 || !r2 {
                    (false, c2)
                } else {
                    same_class_args_from(w, class, a_args, b_args, arity, idx + 1, o, c2)
                }
            },
            Variance::Covariant => {
                let (r, c1) = overlaps_spec(x, y, o, c);
                if !r {
                    (false, c1)
                } else {
                    same_class_args_from(w, class, a_args, b_args, arity, idx + 1, o, c1)
                }
            },
            Variance::Contravariant => same_class_args_from(w, class, a_args, b_args, arity, idx + 1, o, c),
        }
    }
}

/// What the descendant `desc` passes for the ancestor's `pos`-th
/// parameter agrees, from `pos` on, with the ancestor's own arguments.
pub open spec fn descendant_args_from<W: World>(
    w: W,
    desc: Seq<char>,
    desc_args: Seq<TypeV>,
    anc: Seq<char>,
    anc_args: Seq<TypeV>,
    pos: int,
    o: LatticeOptions,
    c: u8,
) -> (bool, u8)
    decreases anc_args.len() - pos,
{
    if pos < 0 || pos >= anc_args.len() {
        (true, c)
    } else {
        match w.inherited_argument_spec(desc, anc, pos) {
            None => (true, c),
            Some(inherited) => {
                let resolved = walk_type(inherited, projection_decider(w, desc, desc_args), false);
                let arg = anc_args[pos];
                let (ok, c1) = match variance_or_invariant(w, anc, pos) {
                    Variance::Invariant => {
                        let (r1, c1) = refines_spec(resolved, arg, o, c);
                        if !r1 {
                            (false, c1)
                        } else {
                            refines_spec(arg, resolved, o, c1)
                        }
                    },
                    Variance::Covariant => refines_spec(resolved, arg, o, c),
                    Variance::Contravariant => refines_spec(arg, resolved, o, c),
                };
                if !ok {
                    (false, c1)
                } else {
                    descendant_args_from(w, desc, desc_args, anc, anc_args, pos + 1, o, c1)
                }
            },
        }
    }
}

/// The descendant's view of the ancestor's arguments agrees with them;
/// trivially so where the ancestor has no parameters or its arguments
/// are not all written.
pub open spec fn descendant_agrees<W: World>(
    w: W,
    desc: Seq<char>,
    desc_args: Seq<TypeV>,
    anc: Seq<char>,
    anc_args: Seq<TypeV>,
    o: LatticeOptions,
    c: u8,
) -> (bool, u8) {
    let arity = w.arity_spec(anc);
    if arity == 0 || anc_args.len() == 0 || anc_args.len() != arity {
        (true, c)
    } else {
        descendant_args_from(w, desc, desc_args, anc, anc_args, 0, o, c)
    }
}

/// Objects of classes `a` and `b` with the written arguments may share a
/// value; the causes bits are threaded through the nested checks.
pub open spec fn object_overlap_spec<W: World>(
    w: W,
    a: Seq<char>,
    a_args: Seq<TypeV>,
    b: Seq<char>,
    b_args: Seq<TypeV>,
    o: LatticeOptions,
    c: u8,
) -> (bool, u8) {
    if final_excludes(w, a, b) || sealed_siblings(w, a, b) {
        (false, c)
    } else if a == b {
        if a_args.len() > 0 && b_args.len() > 0 {
            same_class_args_from(w, a, a_args, b_args, w.arity_spec(a) as int, 0, o, c)
        } else {
            (true, c)
        }
    } else if w.descends_from_spec(a, b) {
        descendant_agrees(w, a, a_args, b, b_args, o, c)
    } else if w.descends_from_spec(b, a) {
        descendant_agrees(w, b, b_args, a, a_args, o, c)
    } else {
        (true, c)
    }
}

pub(crate) fn variance_of<W: World>(world: &W, class: &Vec<char>, idx: usize) -> (r: Variance)
    ensures
        r == variance_or_invariant(*world, class@, idx as int),
{
    match world.template_parameter_at(class, idx) {
        Some(p) => p.variance,
        None => Variance::Invariant,
    }
}

pub(crate) fn arg_or_bound_exec<W: World>(world: &W, class: &Vec<char>, args: &Vec<Type>, idx: usize) -> (r: Type)
    ensures
        r@ == arg_or_bound(*world, class@, tvs(*args), idx as int),
{
    if idx < args.len() {
        return args[idx].copy();
    }
    match world.template_parameter_at(class, idx) {
        Some(p) => match p.upper_bound {
            Some(t) => t,
            None => crate::prelude::type_mixed(),
        },
        None => crate::prelude::type_mixed(),
    }
}

fn same_class_args<W: World>(
    world: &W,
    class: &Vec<char>,
    a_args: &Vec<Type>,
    b_args: &Vec<Type>,
    arity: usize,
    idx: usize,
    o: LatticeOptions,
    c: u8,
) -> (r: (bool, u8))
    ensures
        r == same_class_args_from(*world, class@, tvs(*a_args), tvs(*b_args), arity as int, idx as int, o, c),
    decreases arity - idx,
{
    if idx >= arity {
        return (true, c);
    }
    let x = arg_or_bound_exec(world, class, a_args, idx);
    let y = arg_or_bound_exec(world, class, b_args, idx);
    match variance_of(world, class, idx) {
        Variance::Invariant => {
            let (r1, c1) = crate::lattice::refines::walk(&x, &y, o, c);
            let (r2, c2) = crate::lattice::refines::walk(&y, &x, o, c1);
            if !r1 || !r2 {
                (false, c2)
            } else {
                same_class_args(world, class, a_args, b_args, arity, idx + 1, o, c2)
            }
        },
        Variance::Covariant => {
            let (r, c1) = overlaps_walk(&x, &y, o, c);
            if !r {
                (false, c1)
            } else {
                same_class_args(world, class, a_args, b_args, arity, idx + 1, o, c1)
            }
        },
        Variance::Contravariant => same_class_args(world, class, a_args, b_args, arity, idx + 1, o, c),
    }
}

fn descendant_args<W: World>(
    world: &W,
    desc: &ObjectInfo,
    anc: &ObjectInfo,
    pos: usize,
    o: LatticeOptions,
    c: u8,
) -> (r: (bool, u8))
    ensures
        r == descendant_args_from(
            *world,
            desc.name@,
            tvs(desc.type_args),
            anc.name@,
            tvs(anc.type_args),
            pos as int,
            o,
            c,
        ),
    decreases anc.type_args.len() - pos,
{
    if pos >= anc.type_args.len() {
        return (true, c);
    }
    let inherited = match world.inherited_template_argument(&desc.name, &anc.name, pos) {
        Some(t) => t,
        None => {
            return (true, c);
        },
    };
    let resolved = resolve_inherited(&inherited, &desc.name, &desc.type_args, world, false);
    let arg = &anc.type_args[pos];
    assert(arg@ == tvs(anc.type_args)[pos as int]);
    let (ok, c1) = match variance_of(world, &anc.name, pos) {
        Variance::Invariant => {
            let (r1, c1) = crate::lattice::refines::walk(&resolved, arg, o, c);
            if !r1 {
                (false, c1)
            } else {
                crate::lattice::refines::walk(arg, &resolved, o, c1)
            }
        },
        Variance::Covariant => crate::lattice::refines::walk(&resolved, arg, o, c),
        Variance::Contravariant => crate::lattice::refines::walk(arg, &resolved, o, c),
    };
    if !ok {
        (false, c1)
    } else {
        descendant_args(world, desc, anc, pos + 1, o, c1)
    }
}

fn descendant_agrees_exec<W: World>(world: &W, desc: &ObjectInfo, anc: &ObjectInfo, o: LatticeOptions, c: u8) -> (r: (
    bool,
    u8,
))
    ensures
        r == descendant_agrees(*world, desc.name@, tvs(desc.type_args), anc.name@, tvs(anc.type_args), o, c),
{
    let arity = world.template_parameter_arity(&anc.name);
    if arity == 0 || anc.type_args.len() == 0 || anc.type_args.len() != arity {
        return (true, c);
    }
    descendant_args(world, desc, anc, 0, o, c)
}

/// Whether objects `a` and `b` may share a value, as the codebase `world`
/// describes their classes, with the causes bits `c` threaded through.
pub fn object_overlap<W: World>(a: &ObjectInfo, b: &ObjectInfo, world: &W, o: LatticeOptions, c: u8) -> (r: (bool, u8))
    ensures
        r == object_overlap_spec(*world, a.name@, tvs(a.type_args), b.name@, tvs(b.type_args), o, c),
{
    let same = chars_eq(&a.name, &b.name);
    let a_desc_b = world.descends_from(&a.name, &b.name);
    let b_desc_a = world.descends_from(&b.name, &a.name);
    if !same && !a_desc_b && !b_desc_a {
        if world.is_final(&a.name) || world.is_final(&b.name) {
            return (false, c);
        }
        if let (Some(pa), Some(pb)) = (world.sealed_parent_of(&a.name), world.sealed_parent_of(&b.name)) {
            if chars_eq(&pa, &pb) {
                return (false, c);
            }
        }
    }
    if same {
        if a.type_args.len() > 0 && b.type_args.len() > 0 {
            let arity = world.template_parameter_arity(&a.name);
            return same_class_args(world, &a.name, &a.type_args, &b.type_args, arity, 0, o, c);
        }
        return (true, c);
    }
    if a_desc_b {
        return descendant_agrees_exec(world, a, b, o, c);
    }
    if b_desc_a {
        return descendant_agrees_exec(world, b, a, o, c);
    }
    (true, c)
}

} // verus!
