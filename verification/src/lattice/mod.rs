//! The type lattice and its relations: refinement, generalization and
//! overlap. Each public relation takes a `World` for the class-hierarchy
//! lookups; the structural lattice beneath it needs none.
pub mod causes;
pub mod context;
pub mod covers;
pub mod family;
pub mod hierarchy;
pub mod intersects;
pub mod laws;
pub mod object_overlap;
pub mod options;
pub mod overlaps;
pub mod refines;
pub mod refines_spec;
pub mod report;
