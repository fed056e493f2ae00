//! The check of a package and its first pass, the collection of
//! package-level declarations.
//!
//! - [`checker`]: the state of the check, and declaring an object in a
//!   scope.
//! - [`model`]: what the pass does to the state, step by step.
//! - [`resolver`]: the pass.
//! - [`laws`]: what holds of the pass on every input.

pub mod checker;
pub mod laws;
pub mod model;
pub mod resolver;
