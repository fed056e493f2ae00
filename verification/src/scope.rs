//! Scopes: tables of names with a link to the enclosing scope.

use vstd::prelude::*;
use crate::objects::{ObjKey, ScopeKey};
use crate::position::Pos;

verus! {

/// A table of the objects that one region of source declares. The name of
/// an entry is the name of its object, and no name is bound twice. Entries
/// stay in the order in which they were inserted.
#[derive(Debug)]
pub struct Scope {
    /// The enclosing scope; none for the outermost one.
    pub parent: Option<ScopeKey>,
    pub elems: Vec<ObjKey>,
    /// Where the region starts.
    pub pos: Pos,
    /// Where the region ends.
    pub end: Pos,
    /// A label for diagnostics.
    pub comment: String,
}

/// A scope, as contracts see it.
pub struct ScopeView {
    pub parent: Option<ScopeKey>,
    pub elems: Seq<ObjKey>,
    pub pos: Pos,
    pub end: Pos,
    pub comment: Seq<char>,
}

impl View for Scope {
    type V = ScopeView;

    open spec fn view(&self) -> ScopeView {
        ScopeView {
            parent: self.parent,
            elems: self.elems@,
            pos: self.pos,
            end: self.end,
            comment: self.comment@,
        }
    }
}

} // verus!
