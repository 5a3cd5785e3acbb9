//! In-memory abstract syntax for a rule-based logic language.
//!
//! The crate models the canonical term representation a surface parser
//! targets and a matching engine consumes: a tagged [`terms::Value`] union,
//! [`terms::Term`] nodes carrying identity and source metadata, structural
//! [`terms::Pattern`]s, logical [`terms::Operation`]s, and [`rules::Rule`]
//! definitions with specialized parameters.  A layered embedding protocol
//! (`embed`) coerces host literals and sub-terms into that representation.

pub mod embed;
pub mod equality;
pub mod ids;
pub mod laws;
pub mod rules;
pub mod strcmp;
pub mod terms;
