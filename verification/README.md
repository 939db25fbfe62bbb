# suffete

A PHP type lattice over a plain-data model of types, verified with Verus.

A `Type` is a union of `Element`s (scalars, strings, lists and keyed
arrays with their shapes, iterables, objects, object shapes and
method/property narrowings, enums, callables, template parameters, and the
unresolved reference forms). Each has a mathematical
model (`ElemV` / `TypeV`) and every public operation is stated over it.

Layout of `src/`:

- `element` — the model, its views, sizes, deep copies and structural equality.
- `prelude` — named constructors for the common atoms and types.
- `lattice` — refinement (`refines`, `generalizes`) and overlap, with the
  class hierarchy a `World` describes (`lattice/hierarchy.rs`,
  `lattice/object_overlap.rs`) on top of the structural lattice
  (`lattice/refines_spec.rs`, the per-family rules under
  `lattice/family`); the coercion causes a walk records; and the laws the
  relations satisfy (`lattice/laws.rs`, `lattice/causes.rs`).
- `meet`, `subtract` — the meet and the difference of two types
  (`narrow`, `compute`), atom pair by atom pair, with their lower-bound
  laws; the integer and string family rules; narrowing by truthiness.
- `predicates` — per-type classifiers and deep searches.
- `serialize` — a self-contained structural form and the round trip.
- `substitute`, `transform` — template substitution and the general
  post-order rewriting walk.
- `template` — template bounds: the stand-in walk that records bounds while
  matching a parameter type against an argument, and their reconciliation.
- `world` — what the walks ask of the class hierarchy: descent, finality,
  sealed parents and declared template parameters.

`tests/` exercises the library on concrete values.
