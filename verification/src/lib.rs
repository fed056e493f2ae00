//! Declaration resolution for a Go-like language.
//!
//! The library takes the syntax trees of the files of a package and builds
//! the package's table of symbols: a scope for each file under the scope of
//! the package, the objects that the imports of each file bring into its
//! scope, and the constants that the package declares, each with the record
//! that later passes type it from. What is wrong is reported, and the
//! collection goes on.
//!
//! - [`ast`], [`token`]: the syntax tree.
//! - [`span`]: where each node starts and ends; [`validate`] tests whether
//!   the spans of a tree can be computed; [`layout`] and [`order`] say and
//!   test when a tree is in source order, and prove that such a tree starts
//!   no later than it ends.
//! - [`objects`], [`obj`], [`scope`], [`package`]: the arenas of objects,
//!   scopes, packages and declaration records, and handles into them.
//! - [`position`]: positions and the table of source files.
//! - [`importer`]: import paths and the keys of the import cache.
//! - [`errors`]: what is reported.
//! - [`check`]: the check of a package and the collection of its
//!   declarations.

pub mod ast;
pub mod check;
pub mod errors;
pub mod importer;
pub mod layout;
pub mod obj;
pub mod objects;
pub mod order;
pub mod package;
pub mod position;
pub mod scope;
pub mod span;
pub mod text;
pub mod token;
pub mod validate;
