//! Intersection by subtype edges: `intersects(a, b)` holds when the types
//! are equal or one refines the other. Overlaps that no subtype edge
//! shows (two crossing int ranges) are [`overlaps`](crate::lattice::overlaps::overlaps)'s
//! business.
use vstd::prelude::*;

use crate::element::{Type, TypeV};
use crate::lattice::causes::lemma_refines_answer;
use crate::lattice::context::LatticeContext;
use crate::lattice::options::{LatticeOptions, default_options};
use crate::lattice::refines::walk;
use crate::lattice::refines_spec::refines_spec;

verus! {

/// The answer, and the coercion causes observed by the two walks.
pub open spec fn intersects_spec(a: TypeV, b: TypeV) -> (bool, u8) {
    if a == b {
        (true, 0)
    } else {
        let (r1, c1) = refines_spec(a, b, default_options(), 0);
        if r1 {
            (true, c1)
        } else {
            refines_spec(b, a, default_options(), c1)
        }
    }
}

/// `true` iff `a` and `b` are equal or one refines the other. A coercion
/// seen on the way sets `ctx.type_coerced`.
pub fn intersects(a: &Type, b: &Type, ctx: &mut LatticeContext) -> (r: bool)
    ensures
        r == intersects_spec(a@, b@).0,
        final(ctx).type_coerced == (old(ctx).type_coerced || intersects_spec(a@, b@).1 != 0),
{
    if a.same(b) {
        return true;
    }
    let o = LatticeOptions::new();
    let (r1, c1) = walk(a, b, o, 0);
    let (r, c) = if r1 {
        (true, c1)
    } else {
        walk(b, a, o, c1)
    };
    ctx.type_coerced = ctx.type_coerced || c != 0;
    r
}

/// Intersection is symmetric.
pub proof fn lemma_intersects_symmetric(a: TypeV, b: TypeV)
    ensures
        intersects_spec(a, b).0 == intersects_spec(b, a).0,
{
    let o = default_options();
    let (_, c1) = refines_spec(a, b, o, 0);
    let (_, c2) = refines_spec(b, a, o, 0);
    lemma_refines_answer(b, a, o, c1, 0);
    lemma_refines_answer(a, b, o, c2, 0);
}

} // verus!
