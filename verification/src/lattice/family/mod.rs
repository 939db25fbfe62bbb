//! Per-family refinement rules.
pub mod array;
pub mod array_key;
pub mod iterable;
pub mod bool;
pub mod callable;
pub mod float;
pub mod generic;
pub mod integer;
pub mod object;
pub mod reference;
pub mod resource;
pub mod scalar;
pub mod string;
pub mod mixed;
pub mod class_like_string;
pub mod numeric;
