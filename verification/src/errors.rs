//! What the checker reports.

use vstd::prelude::*;
use crate::objects::{IdentKey, ObjKey, PackageKey};
use crate::package::SpecRef;
use crate::position::Pos;
use crate::token::Token;

verus! {

/// The kinds of error that the collection of declarations reports. None of
/// them stops the pass.
#[derive(Clone, Copy, Debug, PartialEq, Eq, Structural)]
pub enum ErrorKind {
    /// The literal of the import at `spec` is not a quoted path of at least
    /// one character.
    InvalidImportPath { spec: SpecRef },
    /// The path of an import holds the character `ch`, which no path may
    /// hold.
    InvalidImportChar { ch: char },
    /// The package could not be imported; `pkg` stands in for it.
    CouldNotImport { pkg: PackageKey },
    /// `init` is declared as something other than a function.
    CannotDeclareInit,
    /// `main` is declared as something other than a function in package
    /// `main`.
    CannotDeclareMain,
    /// A spec has neither a type nor values.
    MissingTypeOrInit,
    /// A spec has more values than names; `index` is the index of the first
    /// value without a name.
    ExtraInitExpr { index: usize },
    /// The spec whose values are used again has more values than this spec
    /// has names; `pos` is where that spec starts.
    ExtraInitExprAt { pos: Pos },
    /// The name `name` has no value.
    MissingInitExpr { name: IdentKey },
    /// A value spec stands in a declaration that is introduced by `token`.
    InvalidToken { token: Token },
    /// The name of `obj` is bound already, to `other`, in the scope that
    /// `obj` was to be declared in.
    Redeclared { obj: ObjKey, other: ObjKey },
}

impl ErrorKind {
    /// What the error says, without what it says it of: the literal, the
    /// character, the path, the value, the place, the name or the token
    /// that the error carries.
    pub open spec fn spec_text(self) -> Seq<char> {
        match self {
            ErrorKind::InvalidImportPath { .. } => "invalid import path"@,
            ErrorKind::InvalidImportChar { .. } => "invalid character"@,
            ErrorKind::CouldNotImport { .. } => "could not import"@,
            ErrorKind::CannotDeclareInit => "cannot declare init - must be func"@,
            ErrorKind::CannotDeclareMain => "cannot declare main - must be func"@,
            ErrorKind::MissingTypeOrInit => "missing type or init expr"@,
            ErrorKind::ExtraInitExpr { .. } => "extra init expr"@,
            ErrorKind::ExtraInitExprAt { .. } => "extra init expr at"@,
            ErrorKind::MissingInitExpr { .. } => "missing init expr for"@,
            ErrorKind::InvalidToken { .. } => "invalid token"@,
            ErrorKind::Redeclared { .. } => "redeclared in this block"@,
        }
    }

    /// What the error says, without what it says it of.
    pub fn text(&self) -> (text: &'static str)
        ensures
            text@ == self.spec_text(),
    {
        match self {
            ErrorKind::InvalidImportPath { .. } => "invalid import path",
            ErrorKind::InvalidImportChar { .. } => "invalid character",
            ErrorKind::CouldNotImport { .. } => "could not import",
            ErrorKind::CannotDeclareInit => "cannot declare init - must be func",
            ErrorKind::CannotDeclareMain => "cannot declare main - must be func",
            ErrorKind::MissingTypeOrInit => "missing type or init expr",
            ErrorKind::ExtraInitExpr { .. } => "extra init expr",
            ErrorKind::ExtraInitExprAt { .. } => "extra init expr at",
            ErrorKind::MissingInitExpr { .. } => "missing init expr for",
            ErrorKind::InvalidToken { .. } => "invalid token",
            ErrorKind::Redeclared { .. } => "redeclared in this block",
        }
    }
}

/// An error with the position it is reported at.
#[derive(Clone, Copy, Debug, PartialEq, Eq, Structural)]
pub struct Diagnostic {
    pub pos: Pos,
    pub kind: ErrorKind,
}

} // verus!
