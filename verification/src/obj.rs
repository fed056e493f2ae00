//! Declared objects.

use vstd::prelude::*;
use vstd::string::StrSliceExecFns;
use crate::objects::{PackageKey, TypeKey};
use crate::position::Pos;
use crate::text::{char_is_uppercase, is_uppercase_char};

verus! {

/// What kind of symbol an object is.
#[derive(Clone, Copy, Debug, PartialEq, Eq, Structural)]
pub enum EntityType {
    /// The name under which a file knows an imported package.
    PkgName { imported: PackageKey },
    /// A constant; `val` is its ordinal, the index of its spec in its
    /// declaration.
    Const { val: usize },
    TypeName,
    Var,
    Func,
    Label,
}

/// A declared symbol.
#[derive(Debug)]
pub struct LangObj {
    pub kind: EntityType,
    /// The package that declares the object; none for an object of the
    /// universe.
    pub pkg: Option<PackageKey>,
    pub name: String,
    /// Where the object is declared.
    pub pos: Pos,
    /// The object's type, once a later pass has found it.
    pub typ: Option<TypeKey>,
    /// The place of the object among the declarations of its package,
    /// counted from 1; 0 for an object that has none.
    pub order: usize,
}

/// A declared symbol, as contracts see it.
pub struct LangObjView {
    pub kind: EntityType,
    pub pkg: Option<PackageKey>,
    pub name: Seq<char>,
    pub pos: Pos,
    pub typ: Option<TypeKey>,
    pub order: usize,
}

impl View for LangObj {
    type V = LangObjView;

    open spec fn view(&self) -> LangObjView {
        LangObjView {
            kind: self.kind,
            pkg: self.pkg,
            name: self.name@,
            pos: self.pos,
            typ: self.typ,
            order: self.order,
        }
    }
}

/// A name is exported when it starts with an uppercase character.
pub open spec fn is_exported(name: Seq<char>) -> bool {
    name.len() > 0 && is_uppercase_char(name[0])
}

/// Whether `name` is exported, given whether its first character is
/// uppercase: a name without characters is not.
pub fn exported_given(name: &str, first_upper: bool) -> (b: bool)
    ensures
        b == (name@.len() > 0 && first_upper),
{
    name.unicode_len() > 0 && first_upper
}

/// Whether `name` is exported.
pub fn exported(name: &str) -> (b: bool)
    ensures
        b == is_exported(name@),
{
    if name.unicode_len() > 0 {
        exported_given(name, char_is_uppercase(name.get_char(0)))
    } else {
        false
    }
}

impl LangObj {
    /// A constant with ordinal `val`, not yet typed and not yet ordered.
    pub fn new_const(pos: Pos, pkg: Option<PackageKey>, name: String, val: usize) -> (o: LangObj)
        ensures
            o@ == (LangObjView {
                kind: EntityType::Const { val },
                pkg,
                name: name@,
                pos,
                typ: None,
                order: 0,
            }),
    {
        LangObj { kind: EntityType::Const { val }, pkg, name, pos, typ: None, order: 0 }
    }

    /// The name of the imported package `imported` in a file.
    pub fn new_pkg_name(pos: Pos, pkg: Option<PackageKey>, name: String, imported: PackageKey) -> (o:
        LangObj)
        ensures
            o@ == (LangObjView {
                kind: EntityType::PkgName { imported },
                pkg,
                name: name@,
                pos,
                typ: None,
                order: 0,
            }),
    {
        LangObj { kind: EntityType::PkgName { imported }, pkg, name, pos, typ: None, order: 0 }
    }

    /// Whether the object's name is exported.
    pub fn exported(&self) -> (b: bool)
        ensures
            b == is_exported(self@.name),
    {
        exported(self.name.as_str())
    }
}

} // verus!
