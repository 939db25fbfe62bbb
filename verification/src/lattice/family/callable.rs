//! Callable family: `callable`, `Closure(...)`, anonymous signatures, and
//! known callables.
//!
//! `callable` accepts every callable, and a string flagged callable fits
//! any callable container. A `Closure` signature refines an anonymous
//! signature (and another `Closure`), never the other way round. Signatures
//! compare covariantly on the return and thrown types and contravariantly
//! on the parameters; an unspecified parameter list on the container
//! accepts any.
use vstd::prelude::*;

use crate::element::{
    CallableInfo, Element, ParamInfo, ParamV, Signature, esize, lemma_pssize_elem, params_view, pssize,
    sig_view, sigsize, signature_same,
};
use crate::lattice::options::LatticeOptions;
use crate::lattice::refines::walk;
use crate::lattice::refines_spec::{callable_container_refines, parameters_refine, params_refine_from};

verus! {

/// How many parameters from `i` on are neither defaulted nor variadic,
/// counting up to the first that is.
pub open spec fn required_from(ps: Seq<ParamV>, i: int) -> nat
    decreases ps.len() - i,
{
    if i < 0 || i >= ps.len() || ps[i].has_default || ps[i].variadic {
        0
    } else {
        1 + required_from(ps, i + 1)
    }
}

/// The number of leading parameters a call must pass.
pub fn required_count(ps: &Vec<ParamInfo>) -> (n: usize)
    ensures
        n == required_from(params_view(*ps), 0),
{
    let ghost v = params_view(*ps);
    let mut i: usize = 0;
    while i < ps.len() && !ps[i].has_default && !ps[i].variadic
        invariant
            v == params_view(*ps),
            v.len() == ps.len(),
            i <= v.len(),
            required_from(v, 0) == i + required_from(v, i as int),
        decreases ps.len() - i,
    {
        assert(v[i as int] == crate::element::param_view(ps@[i as int]));
        i += 1;
    }
    if i < ps.len() {
        assert(v[i as int] == crate::element::param_view(ps@[i as int]));
    }
    i
}

/// A callable container accepts a callable string, and the callables its
/// rules admit.
pub fn refines(input: &Element, container: &Element, o: LatticeOptions, c: u8) -> (r: (bool, u8))
    requires
        container@ is Callable,
    ensures
        r == callable_container_refines(input@, container@->Callable_0, o, c),
    decreases esize(input@) + esize(container@), 0int,
{
    if let Element::String(info) = input {
        if info.flags.callable {
            return (true, c);
        }
    }
    let (ai, ci) = match (input, container) {
        (Element::Callable(a), Element::Callable(b)) => (a, b),
        _ => {
            return (false, c);
        },
    };
    match (ai, ci) {
        (_, CallableInfo::Any) => (true, c),
        (CallableInfo::Any, _) => (false, c),
        (CallableInfo::Signature(si), CallableInfo::Signature(so)) => signature_refines(si, so, o, c),
        (CallableInfo::Closure(si), CallableInfo::Signature(so)) => signature_refines(si, so, o, c),
        (CallableInfo::Closure(si), CallableInfo::Closure(so)) => signature_refines(si, so, o, c),
        (CallableInfo::Alias(a), CallableInfo::Alias(b)) => (a.same(b), c),
        _ => (false, c),
    }
}

/// `s_in` can stand wherever `s_out` is expected.
pub fn signature_refines(s_in: &Signature, s_out: &Signature, o: LatticeOptions, c: u8) -> (r: (bool, u8))
    ensures
        r == crate::lattice::refines_spec::signature_refines(sig_view(*s_in), sig_view(*s_out), o, c),
    decreases sigsize(sig_view(*s_in)) + sigsize(sig_view(*s_out)), 5int,
{
    if signature_same(s_in, s_out) {
        return (true, c);
    }
    let (r1, c1) = walk(&s_in.return_type, &s_out.return_type, o, c);
    if !r1 {
        return (false, c1);
    }
    if s_out.is_pure && !s_in.is_pure {
        return (false, c1);
    }
    let (r2, c2) = throws_refines(s_in, s_out, o, c1);
    if !r2 {
        return (false, c2);
    }
    parameters_refine_of(s_in, s_out, o, c2)
}

/// The container's thrown types constrain the input's: no constraint
/// accepts anything, and an input that may throw anything fits no
/// constraint.
fn throws_refines(s_in: &Signature, s_out: &Signature, o: LatticeOptions, c: u8) -> (r: (bool, u8))
    ensures
        r == match (sig_view(*s_in).throws, sig_view(*s_out).throws) {
            (_, None) => (true, c),
            (None, Some(_)) => (false, c),
            (Some(ti), Some(to)) => crate::lattice::refines_spec::refines_spec(ti, to, o, c),
        },
    decreases sigsize(sig_view(*s_in)) + sigsize(sig_view(*s_out)), 3int,
{
    match (&s_in.throws, &s_out.throws) {
        (_, None) => (true, c),
        (None, Some(_)) => (false, c),
        (Some(ti), Some(to)) => walk(ti, to, o, c),
    }
}

/// The parameter lists, compared contravariantly.
fn parameters_refine_of(s_in: &Signature, s_out: &Signature, o: LatticeOptions, c: u8) -> (r: (bool, u8))
    ensures
        r == parameters_refine(sig_view(*s_in), sig_view(*s_out), o, c),
    decreases sigsize(sig_view(*s_in)) + sigsize(sig_view(*s_out)), 4int,
{
    let outs = match &s_out.parameters {
        None => {
            return (true, c);
        },
        Some(p) => p,
    };
    let ins = match &s_in.parameters {
        None => {
            return (false, c);
        },
        Some(p) => p,
    };
    if required_count(ins) > required_count(outs) {
        return (false, c);
    }
    if s_out.is_variadic && !s_in.is_variadic {
        return (false, c);
    }
    if !s_in.is_variadic && ins.len() < outs.len() {
        return (false, c);
    }
    let ghost iv = params_view(*ins);
    let ghost ov = params_view(*outs);
    let ghost bound = sigsize(sig_view(*s_in)) + sigsize(sig_view(*s_out));
    assert(pssize(iv) + pssize(ov) < bound);
    let in_variadic = s_in.is_variadic;
    assert(parameters_refine(sig_view(*s_in), sig_view(*s_out), o, c) == params_refine_from(
        iv,
        ov,
        in_variadic,
        0,
        o,
        c,
    ));
    let mut cur = c;
    let mut idx: usize = 0;
    while idx < outs.len()
        invariant
            iv == params_view(*ins),
            ov == params_view(*outs),
            iv.len() == ins.len(),
            ov.len() == outs.len(),
            idx <= ov.len(),
            bound == sigsize(sig_view(*s_in)) + sigsize(sig_view(*s_out)),
            pssize(iv) + pssize(ov) < bound,
            parameters_refine(sig_view(*s_in), sig_view(*s_out), o, c) == params_refine_from(
                iv,
                ov,
                in_variadic,
                0,
                o,
                c,
            ),
            params_refine_from(iv, ov, in_variadic, 0, o, c) == params_refine_from(
                iv,
                ov,
                in_variadic,
                idx as int,
                o,
                cur,
            ),
        decreases outs.len() - idx,
    {
        let k: usize = if idx < ins.len() {
            idx
        } else if in_variadic && ins.len() > 0 {
            ins.len() - 1
        } else {
            return (false, cur);
        };
        assert(iv[k as int].ty == ins@[k as int].type_@);
        assert(ov[idx as int].ty == outs@[idx as int].type_@);
        proof {
            lemma_pssize_elem(iv, k as int);
            lemma_pssize_elem(ov, idx as int);
        }
        let (r, c1) = walk(&outs[idx].type_, &ins[k].type_, o, cur);
        if !r {
            return (false, c1);
        }
        cur = c1;
        idx += 1;
    }
    (true, cur)
}

} // verus!
