//! Packages as the checker knows them, and the record kept for each
//! package-level declaration.

use vstd::prelude::*;
use crate::objects::{PackageKey, ScopeKey};

verus! {

/// A package: the one being checked, or one that it imports.
#[derive(Debug)]
pub struct PackageVal {
    pub name: String,
    pub path: String,
    /// The package's own scope.
    pub scope: ScopeKey,
    /// The packages that the files of this package import, each once.
    pub imports: Vec<PackageKey>,
    /// Set on the stand-in for a package that could not be imported. Such
    /// a package has no files, and later passes skip it.
    pub fake: bool,
}

/// A package, as contracts see it.
pub struct PackageValView {
    pub name: Seq<char>,
    pub path: Seq<char>,
    pub scope: ScopeKey,
    pub imports: Seq<PackageKey>,
    pub fake: bool,
}

impl View for PackageVal {
    type V = PackageValView;

    open spec fn view(&self) -> PackageValView {
        PackageValView {
            name: self.name@,
            path: self.path@,
            scope: self.scope,
            imports: self.imports@,
            fake: self.fake,
        }
    }
}

/// Which expression of a value spec is meant.
#[derive(Clone, Copy, Debug, PartialEq, Eq, Structural)]
pub enum ExprSlot {
    /// The type of the spec.
    Typ,
    /// The value with this index.
    Value(usize),
}

/// The place of a spec in the files being checked: file, declaration in the
/// file, spec in the declaration.
#[derive(Clone, Copy, Debug, PartialEq, Eq, Structural)]
pub struct SpecRef {
    pub file: usize,
    pub decl: usize,
    pub spec: usize,
}

/// The place of an expression of a value spec in the files being checked.
/// The syntax tree does not change once it is parsed, so the place names
/// the expression for good.
#[derive(Clone, Copy, Debug, PartialEq, Eq, Structural)]
pub struct ExprRef {
    pub spec: SpecRef,
    pub slot: ExprSlot,
}

/// The place of a declaration in the files being checked.
#[derive(Clone, Copy, Debug, PartialEq, Eq, Structural)]
pub struct DeclRef {
    pub file: usize,
    pub decl: usize,
}

/// What is kept of the declaration of a package-level object for the passes
/// that type it.
#[derive(Clone, Copy, Debug, PartialEq, Eq, Structural)]
pub struct DeclInfo {
    /// The scope of the file that holds the declaration.
    pub file_scope: ScopeKey,
    /// The identifier on the left of an alias or of an initialization.
    pub lhs: Option<crate::objects::IdentKey>,
    /// The type expression, not yet resolved.
    pub typ: Option<ExprRef>,
    /// The initialization expression.
    pub init: Option<ExprRef>,
    /// The function declaration, for a method.
    pub fdecl: Option<DeclRef>,
}

} // verus!
