//! Suffete: a PHP type lattice over a plain-data model of element types,
//! with verified refinement, meet, subtraction, predicates and
//! template substitution.

pub mod element;
pub mod lattice;
pub mod meet;
pub mod predicates;
pub mod prelude;
pub mod serialize;
pub mod substitute;
pub mod subtract;
pub mod template;
pub mod transform;
pub mod world;
