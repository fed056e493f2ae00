//! The state of a check of one package, and the declaration of an object in
//! a scope.

use vstd::prelude::*;
use vstd::string::StringExecFns;
use crate::ast::{AstObjects, Decl, File, Spec};
use crate::errors::{Diagnostic, ErrorKind};
use crate::importer::{ImportEntry, ImportKeyView};
use crate::objects::{
    lemma_grows_trans, prefix, DeclKey, IdentKey, ObjKey, PackageKey, ScopeKey, TCObjects,
    TCObjectsView,
};
use crate::package::SpecRef;
use crate::position::{
    entries_fit, file_set_entries, position_string, position_text, Pos,
};
use crate::text::{push_char, str_eq};

verus! {

/// What the check of a package has found out about its syntax tree.
#[derive(Debug)]
pub struct TypeInfo {
    /// The scope of each file that was opened: the file's index and its
    /// scope.
    pub scopes: Vec<(usize, ScopeKey)>,
    /// The object that each declaring identifier declares.
    pub defs: Vec<(IdentKey, ObjKey)>,
    /// The object that an import spec without a name declares.
    pub implicits: Vec<(SpecRef, ObjKey)>,
}

/// The check of one package.
#[derive(Debug)]
pub struct Checker {
    pub tc_objs: TCObjects,
    /// The package being checked.
    pub pkg: PackageKey,
    /// The import cache: the package found for each import that was
    /// resolved. No key occurs twice and no entry is ever taken out.
    pub imp_map: Vec<ImportEntry>,
    /// The declaration record of each package-level object, in the order of
    /// declaration.
    pub obj_map: Vec<(ObjKey, DeclKey)>,
    /// The errors reported so far.
    pub errors: Vec<Diagnostic>,
    pub result: TypeInfo,
}

/// The check of one package, as contracts see it.
pub struct CheckerView {
    pub objs: TCObjectsView,
    pub pkg: PackageKey,
    pub imp_map: Seq<(ImportKeyView, PackageKey)>,
    pub obj_map: Seq<(ObjKey, DeclKey)>,
    pub errors: Seq<Diagnostic>,
    pub scopes: Seq<(usize, ScopeKey)>,
    pub defs: Seq<(IdentKey, ObjKey)>,
    pub implicits: Seq<(SpecRef, ObjKey)>,
}

impl View for Checker {
    type V = CheckerView;

    open spec fn view(&self) -> CheckerView {
        CheckerView {
            objs: self.tc_objs@,
            pkg: self.pkg,
            imp_map: self.imp_map@.map_values(|e: ImportEntry| e@),
            obj_map: self.obj_map@,
            errors: self.errors@,
            scopes: self.result.scopes@,
            defs: self.result.defs@,
            implicits: self.result.implicits@,
        }
    }
}

/// Where the pass over the files stands: the next spec to look at is spec
/// `spec` of declaration `decl` of file `file`.
#[derive(Clone, Copy, Debug, PartialEq, Eq, Structural)]
pub struct Cursor {
    pub file: usize,
    pub decl: usize,
    pub spec: usize,
    /// The scope of the file, once the file has been opened.
    pub file_scope: Option<ScopeKey>,
    /// Among the specs of the declaration that the pass has gone through,
    /// the last value spec with a type or with values.
    pub last_full: Option<usize>,
}

/// The files being checked, and what the pass over them keeps of its own.
pub struct FilesContext<'a> {
    pub files: &'a Vec<File>,
    /// For each import that merges a package into a file scope: the file
    /// scope, the package, and where the import stands. A later pass
    /// reports the imports among these that nothing in the file uses.
    pub unused_dot_imports: Vec<(ScopeKey, PackageKey, Pos)>,
    pub cursor: Cursor,
}

impl Cursor {
    /// The cursor before the first file.
    pub open spec fn start() -> Cursor {
        Cursor { file: 0, decl: 0, spec: 0, file_scope: None, last_full: None }
    }
}

impl<'a> FilesContext<'a> {
    /// The context of a pass over `files` that has not started.
    pub fn new(files: &'a Vec<File>) -> (fctx: FilesContext<'a>)
        ensures
            fctx.files == files,
            fctx.unused_dot_imports@.len() == 0,
            fctx.cursor == Cursor::start(),
    {
        FilesContext {
            files,
            unused_dot_imports: Vec::new(),
            cursor: Cursor { file: 0, decl: 0, spec: 0, file_scope: None, last_full: None },
        }
    }

    /// Records an import that merges `pkg` into the file scope `scope`.
    pub fn add_unused_dot_import(&mut self, scope: ScopeKey, pkg: PackageKey, pos: Pos)
        ensures
            final(self).unused_dot_imports@ == old(self).unused_dot_imports@.push((scope, pkg, pos)),
            final(self).files == old(self).files,
            final(self).cursor == old(self).cursor,
    {
        self.unused_dot_imports.push((scope, pkg, pos));
    }
}

/// The literal of the import at `spec` in `files`, where an import stands
/// there.
pub open spec fn import_literal(files: Seq<File>, spec: SpecRef) -> Option<Seq<char>> {
    if spec.file < files.len() && spec.decl < files[spec.file as int].decls@.len() {
        match files[spec.file as int].decls@[spec.decl as int] {
            Decl::Gen(g) => if spec.spec < g.specs@.len() {
                match g.specs@[spec.spec as int] {
                    Spec::Import(is) => Some(is.path.value@),
                    _ => None,
                }
            } else {
                None
            },
            _ => None,
        }
    } else {
        None
    }
}

impl CheckerView {
    /// The state is sound: the arenas are, the package and the cached
    /// packages are in the arena, no import key is cached twice, and the
    /// objects with a declaration record are numbered 1, 2, 3, ... in the
    /// order of their declaration, each with a record of the arena.
    pub open spec fn wf(self) -> bool {
        &&& self.objs.wf()
        &&& self.objs.has_pkg(self.pkg)
        &&& forall|i: int| 0 <= i < self.imp_map.len() ==> self.objs.has_pkg((#[trigger] self.imp_map[i]).1)
        &&& forall|i: int, j: int|
            0 <= i < j < self.imp_map.len() ==> (#[trigger] self.imp_map[i]).0 != (
            #[trigger] self.imp_map[j]).0
        &&& forall|i: int|
            0 <= i < self.obj_map.len() ==> {
                &&& self.objs.has_obj((#[trigger] self.obj_map[i]).0)
                &&& self.objs.obj(self.obj_map[i].0).order == i + 1
                &&& self.obj_map[i].1.0 < self.objs.decls.len()
            }
    }

    /// The state `b` is the state `self` after it has grown: the arenas
    /// have grown, and what was cached, recorded and reported is still
    /// there, in its place, before what has come since.
    pub open spec fn grows_to(self, b: CheckerView) -> bool {
        &&& b.pkg == self.pkg
        &&& self.objs.grows_to(b.objs)
        &&& prefix(self.imp_map, b.imp_map)
        &&& prefix(self.obj_map, b.obj_map)
        &&& prefix(self.errors, b.errors)
        &&& prefix(self.scopes, b.scopes)
        &&& prefix(self.defs, b.defs)
        &&& prefix(self.implicits, b.implicits)
    }

    /// The object `okey` has a declaration record.
    pub open spec fn has_record(self, okey: ObjKey) -> bool {
        exists|j: int| 0 <= j < self.obj_map.len() && (#[trigger] self.obj_map[j]).0 == okey
    }

    /// Every object that the scope of the package binds has a declaration
    /// record. By the numbering of the records it has one only.
    pub open spec fn records_complete(self) -> bool {
        forall|i: int|
            0 <= i < self.objs.scope(self.pkg_scope()).elems.len() ==> self.has_record(
                #[trigger] self.objs.scope(self.pkg_scope()).elems[i],
            )
    }

    /// The error `d` in words: what the kind of the error says, with the
    /// literal, the character, the path, the place, the name or the token
    /// that it says it of. An extra value is not put into words; it is
    /// found at the position of the error.
    pub open spec fn message(
        self,
        arena: &AstObjects,
        files: Seq<File>,
        fset: goscript_parser::position::FileSet,
        d: Diagnostic,
    ) -> Seq<char> {
        let text = d.kind.spec_text();
        match d.kind {
            ErrorKind::InvalidImportPath { spec } => match import_literal(files, spec) {
                Some(lit) => text + ": "@ + lit,
                None => text,
            },
            ErrorKind::InvalidImportChar { ch } => (text + ": "@).push(ch),
            ErrorKind::CouldNotImport { pkg } => if self.objs.has_pkg(pkg) {
                text + " "@ + self.objs.pkg(pkg).path
            } else {
                text
            },
            ErrorKind::ExtraInitExprAt { pos } => if entries_fit(file_set_entries(fset)) && pos
                < usize::MAX {
                text + " "@ + position_text(fset, pos as int)
            } else {
                text
            },
            ErrorKind::MissingInitExpr { name } => if name.0 < arena.idents@.len() {
                text + " "@ + arena.ident(name).name@
            } else {
                text
            },
            ErrorKind::InvalidToken { token } => text + " "@ + token.spec_text(),
            ErrorKind::Redeclared { obj, .. } => if self.objs.has_obj(obj) {
                self.objs.obj(obj).name + " "@ + text
            } else {
                text
            },
            _ => text,
        }
    }

    /// The object `o` is the name of a package or an exported object: what
    /// an import may bring into the scope of a file.
    pub open spec fn entry_ok(self, o: ObjKey) -> bool {
        self.objs.obj(o).kind is PkgName || crate::obj::is_exported(self.objs.obj(o).name)
    }

    /// The number of entries that the scope `s` holds; none where it is not
    /// in the arena.
    pub open spec fn entries(self, s: ScopeKey) -> int {
        if self.objs.has_scope(s) {
            self.objs.scope(s).elems.len() as int
        } else {
            0
        }
    }

    /// Every entry that has come into a scope other than the scope of the
    /// package since the state was `self` is the name of a package or an
    /// exported object.
    pub open spec fn clean_to(self, b: CheckerView) -> bool {
        forall|s: ScopeKey, i: int|
            b.objs.has_scope(s) && s != b.pkg_scope() && self.entries(s) <= i < b.objs.scope(
                s,
            ).elems.len() ==> b.entry_ok(#[trigger] b.objs.scope(s).elems[i])
    }

    /// The scope of the package being checked.
    pub open spec fn pkg_scope(self) -> ScopeKey {
        self.objs.pkg(self.pkg).scope
    }

    /// The state with one more error.
    pub open spec fn error(self, pos: Pos, kind: ErrorKind) -> CheckerView {
        CheckerView { errors: self.errors.push(Diagnostic { pos, kind }), ..self }
    }

    /// The state after the identifier `ident`, where there is one, is
    /// recorded as declaring `okey`.
    pub open spec fn record_def(self, ident: Option<IdentKey>, okey: ObjKey) -> CheckerView {
        match ident {
            Some(k) => CheckerView { defs: self.defs.push((k, okey)), ..self },
            None => self,
        }
    }

    /// The state after `okey` is declared in `scope`.
    ///
    /// An object called `_` is bound nowhere. Where the scope binds the
    /// name already, the first binding stays, an error is reported at the
    /// object, and nothing is recorded for the identifier.
    pub open spec fn declare(self, scope: ScopeKey, ident: Option<IdentKey>, okey: ObjKey)
        -> CheckerView {
        let name = self.objs.obj(okey).name;
        if name == "_"@ {
            self.record_def(ident, okey)
        } else {
            match self.objs.lookup(scope, name) {
                Some(alt) => self.error(
                    self.objs.obj(okey).pos,
                    ErrorKind::Redeclared { obj: okey, other: alt },
                ),
                None => (CheckerView { objs: self.objs.insert(scope, okey), ..self }).record_def(
                    ident,
                    okey,
                ),
            }
        }
    }
}

/// A state that has grown and grows again has grown.
pub proof fn lemma_checker_grows_trans(a: CheckerView, b: CheckerView, c: CheckerView)
    requires
        a.grows_to(b),
        b.grows_to(c),
    ensures
        a.grows_to(c),
{
    lemma_grows_trans(a.objs, b.objs, c.objs);
}

/// What has come into the scopes of files in two stretches has come into
/// them in one.
pub proof fn lemma_clean_trans(a: CheckerView, b: CheckerView, c: CheckerView)
    requires
        a.grows_to(b),
        b.grows_to(c),
        b.objs.wf(),
        a.objs.has_pkg(a.pkg),
        a.clean_to(b),
        b.clean_to(c),
    ensures
        a.clean_to(c),
{
    lemma_grows_pkg_scope(a, b);
    lemma_grows_pkg_scope(b, c);
    assert forall|s: ScopeKey, i: int|
        c.objs.has_scope(s) && s != c.pkg_scope() && a.entries(s) <= i < c.objs.scope(s).elems.len()
        implies c.entry_ok(#[trigger] c.objs.scope(s).elems[i]) by {
        if b.objs.has_scope(s) && i < b.objs.scope(s).elems.len() {
            let o = b.objs.scope(s).elems[i];
            assert(b.objs.scope_wf(s.0 as int));
            assert(b.objs.has_obj(o));
            assert(b.entry_ok(o));
            assert(c.objs.scopes[s.0 as int] == (crate::scope::ScopeView {
                elems: c.objs.scopes[s.0 as int].elems,
                ..b.objs.scopes[s.0 as int]
            }));
            assert(c.objs.scope(s).elems[i] == o);
            assert(c.objs.lobjs[o.0 as int] == (crate::obj::LangObjView {
                order: c.objs.lobjs[o.0 as int].order,
                ..b.objs.lobjs[o.0 as int]
            }));
        }
    }
}

/// The scope of the package stays the scope of the package when the state
/// grows.
pub proof fn lemma_grows_pkg_scope(a: CheckerView, b: CheckerView)
    requires
        a.grows_to(b),
        a.objs.has_pkg(a.pkg),
    ensures
        b.pkg_scope() == a.pkg_scope(),
{
    assert(b.objs.pkgs[a.pkg.0 as int] == (crate::package::PackageValView {
        imports: b.objs.pkgs[a.pkg.0 as int].imports,
        ..a.objs.pkgs[a.pkg.0 as int]
    }));
}

/// Where the state grows and the scope of the package binds what it bound,
/// every object that the scope binds still has its declaration record.
pub proof fn lemma_records_kept(a: CheckerView, b: CheckerView)
    requires
        a.records_complete(),
        a.objs.has_pkg(a.pkg),
        a.grows_to(b),
        b.objs.scope(b.pkg_scope()).elems == a.objs.scope(a.pkg_scope()).elems,
    ensures
        b.records_complete(),
{
    let elems = b.objs.scope(b.pkg_scope()).elems;
    assert forall|i: int| 0 <= i < elems.len() implies b.has_record(#[trigger] elems[i]) by {
        assert(a.has_record(a.objs.scope(a.pkg_scope()).elems[i]));
        let j = choose|j: int| 0 <= j < a.obj_map.len() && (#[trigger] a.obj_map[j]).0 == elems[i];
        assert(b.obj_map[j] == a.obj_map[j]);
    }
}

/// Declaring an object in a scope other than that of the package leaves
/// every object of the scope of the package with its declaration record.
pub proof fn lemma_declare_records(
    c: CheckerView,
    scope: ScopeKey,
    ident: Option<IdentKey>,
    okey: ObjKey,
)
    requires
        c.wf(),
        c.objs.has_scope(scope),
        c.objs.has_obj(okey),
        scope != c.pkg_scope(),
        c.records_complete(),
    ensures
        c.declare(scope, ident, okey).records_complete(),
        c.declare(scope, ident, okey).pkg_scope() == c.pkg_scope(),
{
    let d = c.declare(scope, ident, okey);
    assert(c.objs.pkg_wf(c.pkg.0 as int));
    assert(d.objs.scope(d.pkg_scope()).elems == c.objs.scope(c.pkg_scope()).elems);
    assert forall|i: int| 0 <= i < d.objs.scope(d.pkg_scope()).elems.len() implies d.has_record(
        #[trigger] d.objs.scope(d.pkg_scope()).elems[i],
    ) by {
        let e = c.objs.scope(c.pkg_scope()).elems[i];
        assert(c.has_record(e));
        let j = choose|j: int| 0 <= j < c.obj_map.len() && (#[trigger] c.obj_map[j]).0 == e;
        assert(d.obj_map[j] == c.obj_map[j]);
    }
}

/// Declaring an object of the arena in a scope of the arena keeps the state
/// sound.
pub proof fn lemma_declare_wf(c: CheckerView, scope: ScopeKey, ident: Option<IdentKey>, okey: ObjKey)
    requires
        c.wf(),
        c.objs.has_scope(scope),
        c.objs.has_obj(okey),
    ensures
        c.declare(scope, ident, okey).wf(),
        c.declare(scope, ident, okey).objs.lobjs == c.objs.lobjs,
        c.declare(scope, ident, okey).objs.pkgs == c.objs.pkgs,
        c.declare(scope, ident, okey).objs.decls == c.objs.decls,
        c.declare(scope, ident, okey).objs.scopes.len() == c.objs.scopes.len(),
        c.declare(scope, ident, okey).obj_map == c.obj_map,
        c.declare(scope, ident, okey).imp_map == c.imp_map,
        c.declare(scope, ident, okey).pkg == c.pkg,
{
    crate::objects::lemma_insert_wf(c.objs, scope, okey);
}

impl Checker {
    /// A check of the package `pkg` that has not started.
    pub fn new(tc_objs: TCObjects, pkg: PackageKey) -> (c: Checker)
        requires
            tc_objs@.wf(),
            tc_objs@.has_pkg(pkg),
        ensures
            c@.objs == tc_objs@,
            c@.pkg == pkg,
            c@.imp_map.len() == 0,
            c@.obj_map.len() == 0,
            c@.errors.len() == 0,
            c@.scopes.len() == 0,
            c@.defs.len() == 0,
            c@.implicits.len() == 0,
            c@.wf(),
    {
        Checker {
            tc_objs,
            pkg,
            imp_map: Vec::new(),
            obj_map: Vec::new(),
            errors: Vec::new(),
            result: TypeInfo { scopes: Vec::new(), defs: Vec::new(), implicits: Vec::new() },
        }
    }

    /// The error `d` in words.
    pub fn message(
        &self,
        arena: &AstObjects,
        files: &Vec<File>,
        fset: &goscript_parser::position::FileSet,
        d: &Diagnostic,
    ) -> (s: String)
        ensures
            s@ == self@.message(arena, files@, *fset, *d),
    {
        let mut s = String::from_str(d.kind.text());
        match d.kind {
            ErrorKind::InvalidImportPath { spec } => {
                if spec.file < files.len() && spec.decl < files[spec.file].decls.len() {
                    match &files[spec.file].decls[spec.decl] {
                        Decl::Gen(g) => {
                            if spec.spec < g.specs.len() {
                                match &g.specs[spec.spec] {
                                    Spec::Import(is) => {
                                        s.append(": ");
                                        s.append(is.path.value.as_str());
                                    },
                                    _ => {},
                                }
                            }
                        },
                        _ => {},
                    }
                }
            },
            ErrorKind::InvalidImportChar { ch } => {
                s.append(": ");
                push_char(&mut s, ch);
            },
            ErrorKind::CouldNotImport { pkg } => {
                if pkg.0 < self.tc_objs.pkgs.len() {
                    s.append(" ");
                    s.append(self.tc_objs.pkgs[pkg.0].path.as_str());
                }
            },
            ErrorKind::ExtraInitExprAt { pos } => {
                match position_string(fset, pos) {
                    Some(p) => {
                        s.append(" ");
                        s.append(p.as_str());
                    },
                    None => {},
                }
            },
            ErrorKind::MissingInitExpr { name } => {
                if name.0 < arena.idents.len() {
                    s.append(" ");
                    s.append(arena.idents[name.0].name.as_str());
                }
            },
            ErrorKind::InvalidToken { token } => {
                s.append(" ");
                s.append(token.token_text());
            },
            ErrorKind::Redeclared { obj, .. } => {
                if obj.0 < self.tc_objs.lobjs.len() {
                    let mut t = self.tc_objs.lobjs[obj.0].name.clone();
                    t.append(" ");
                    t.append(d.kind.text());
                    return t;
                }
            },
            _ => {},
        }
        s
    }

    /// Reports an error. The pass goes on.
    pub fn error(&mut self, pos: Pos, kind: ErrorKind)
        ensures
            final(self)@ == old(self)@.error(pos, kind),
            old(self)@.grows_to(final(self)@),
    {
        self.errors.push(Diagnostic { pos, kind });
    }

    /// Declares `okey` in `scope`, and records that `ident` declares it.
    pub fn declare(&mut self, scope: ScopeKey, ident: Option<IdentKey>, okey: ObjKey)
        requires
            old(self)@.wf(),
            old(self)@.objs.has_scope(scope),
            old(self)@.objs.has_obj(okey),
        ensures
            final(self)@ == old(self)@.declare(scope, ident, okey),
            final(self)@.wf(),
            old(self)@.grows_to(final(self)@),
            old(self)@.records_complete() && scope != old(self)@.pkg_scope()
                ==> final(self)@.records_complete(),
            scope == old(self)@.pkg_scope() || old(self)@.entry_ok(okey) ==> old(self)@.clean_to(
                final(self)@,
            ),
    {
        proof {
            assert(self@.objs.pkg_wf(self@.pkg.0 as int));
            lemma_declare_wf(self@, scope, ident, okey);
            if self@.records_complete() && scope != self@.pkg_scope() {
                lemma_declare_records(self@, scope, ident, okey);
            }
        }
        if !str_eq(self.tc_objs.lobjs[okey.0].name.as_str(), "_") {
            let alt = self.tc_objs.insert(scope, okey);
            match alt {
                Some(other) => {
                    let pos = self.tc_objs.lobjs[okey.0].pos;
                    self.error(pos, ErrorKind::Redeclared { obj: okey, other });
                    return ;
                },
                None => {},
            }
        }
        match ident {
            Some(k) => {
                self.result.defs.push((k, okey));
            },
            None => {},
        }
    }
}


impl Checker {
    /// Whether the state of the check is sound.
    pub fn is_wf(&self) -> (b: bool)
        ensures
            b == self@.wf(),
    {
        if !self.tc_objs.is_wf() {
            return false;
        }
        if self.pkg.0 >= self.tc_objs.pkgs.len() {
            return false;
        }
        let n = self.imp_map.len();
        let mut j: usize = 0;
        while j < n
            invariant
                j <= n == self.imp_map@.len(),
                forall|k: int| 0 <= k < j ==> self@.objs.has_pkg((#[trigger] self@.imp_map[k]).1),
                forall|a: int, b: int|
                    0 <= a < b < j ==> (#[trigger] self@.imp_map[a]).0 != (
                    #[trigger] self@.imp_map[b]).0,
            decreases n - j,
        {
            assert(self@.imp_map[j as int] == self.imp_map@[j as int]@);
            if self.imp_map[j].pkg.0 >= self.tc_objs.pkgs.len() {
                assert(!self@.objs.has_pkg(self@.imp_map[j as int].1));
                return false;
            }
            let mut i: usize = 0;
            while i < j
                invariant
                    i <= j < n == self.imp_map@.len(),
                    forall|a: int|
                        0 <= a < i ==> (#[trigger] self@.imp_map[a]).0 != self@.imp_map[j as int].0,
                decreases j - i,
            {
                assert(self@.imp_map[i as int] == self.imp_map@[i as int]@);
                assert(self@.imp_map[j as int] == self.imp_map@[j as int]@);
                if self.imp_map[i].key.same(&self.imp_map[j].key) {
                    return false;
                }
                i += 1;
            }
            j += 1;
        }
        let mut i: usize = 0;
        while i < self.obj_map.len()
            invariant
                i <= self.obj_map@.len(),
                forall|k: int|
                    0 <= k < i ==> {
                        &&& self@.objs.has_obj((#[trigger] self@.obj_map[k]).0)
                        &&& self@.objs.obj(self@.obj_map[k].0).order == k + 1
                        &&& self@.obj_map[k].1.0 < self@.objs.decls.len()
                    },
            decreases self.obj_map@.len() - i,
        {
            let okey = self.obj_map[i].0;
            if okey.0 >= self.tc_objs.lobjs.len() {
                assert(!self@.objs.has_obj(self@.obj_map[i as int].0));
                return false;
            }
            if self.tc_objs.lobjs[okey.0].order != i + 1 {
                assert(self@.objs.obj(self@.obj_map[i as int].0).order != i + 1);
                return false;
            }
            if self.obj_map[i].1.0 >= self.tc_objs.decls.len() {
                assert(self@.obj_map[i as int].1.0 >= self@.objs.decls.len());
                return false;
            }
            i += 1;
        }
        true
    }
}

} // verus!
