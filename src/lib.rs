//! Derivation of optic accessors (lenses, prisms, traversals and reviews) for
//! annotated struct fields and enum variants.
//!
//! A declaration is described by plain values ([`model::TypeDeclaration`]); each
//! derivation returns a structured description of the accessor types and trait
//! impls to generate, which a front end renders as code.

pub mod directive;
pub mod model;
pub mod registry;
pub mod emit;
pub mod derive;
pub mod laws;
