//! The collection of package-level declarations: the first pass of the
//! check of a package.
//!
//! The pass goes through the files of the package in order, opens a scope
//! for each file, resolves the imports of the file, and declares the
//! constants of the package. It reports what is wrong and goes on.
//!
//! Importing a package is not done here. Where the pass comes to an import
//! that is not in the import cache, it stops and says which import it
//! needs; its caller imports the package, hands the outcome to
//! [`Checker::import_package`], and calls the pass again.

use vstd::prelude::*;
use vstd::string::{StrSliceExecFns, StringExecFns};
use crate::ast::{AstObjects, BasicLit, Decl, File, Ident, ImportSpec, Spec, ValueSpec};
use crate::check::checker::{
    lemma_checker_grows_trans, lemma_clean_trans, lemma_declare_wf, lemma_grows_pkg_scope,
    lemma_records_kept, Checker, CheckerView, Cursor, FilesContext,
};
use crate::check::model::{
    blocked, const_decl_info, dot_merged, dot_recorded, is_const_spec, is_dot_import,
    merged_into, name_merged, passed, scope_of_file, const_object, cursor_wf, decls_left, done, files_left, import_key,
    import_name, import_spec, is_full, last_full_after, lemma_last_full_after, lemma_step_cursor,
    lemma_wf_frame, open_file, pass_wf, run, specs_left, step, PassState,
};
use crate::errors::{Diagnostic, ErrorKind};
use crate::importer::{
    check_import_path, fake_package_name, find_import, import_path, lemma_find_import_none,
    lemma_find_import_push, package_name_of_path, ImportEntry, ImportKey, ImportKeyView,
};
use crate::obj::LangObj;
use crate::objects::{prefix, DeclKey, IdentKey, ObjKey, PackageKey, ScopeKey};
use crate::package::{DeclInfo, ExprRef, ExprSlot, SpecRef};
use crate::position::{entry_at, file_set_entries, source_file_at, Pos};
use crate::text::str_eq;
use crate::token::Token;

verus! {

/// The index of the last slash or backslash among the first `n` characters
/// of `s`, or -1 where there is none.
pub open spec fn last_separator(s: Seq<char>, n: int) -> int
    decreases n,
{
    if n <= 0 {
        -1
    } else if s[n - 1] == '/' || s[n - 1] == '\\' {
        n - 1
    } else {
        last_separator(s, n - 1)
    }
}

/// The directory of the file called `name`: what stands before the last
/// slash or backslash of the name, or "." where the name has no separator
/// after its first character.
pub open spec fn dir_of(name: Seq<char>) -> Seq<char> {
    let i = last_separator(name, name.len() as int);
    if i > 0 {
        name.subrange(0, i)
    } else {
        "."@
    }
}

/// The directory that the imports of `file` are resolved from: the
/// directory of the source file that the file's name belongs to, or "."
/// where the file set has no such file.
pub open spec fn file_dir_of(entries: Seq<(Seq<char>, int, int)>, arena: &AstObjects, file: &File)
    -> Seq<char> {
    match entry_at(entries, arena.ident(file.name).pos as int) {
        Some(e) => dir_of(e.0),
        None => "."@,
    }
}

/// The directory of the file called `name`.
pub fn dir_of_name(name: &str) -> (dir: String)
    ensures
        dir@ == dir_of(name@),
{
    let n = name.unicode_len();
    let mut i = n;
    while i > 0 && name.get_char(i - 1) != '/' && name.get_char(i - 1) != '\\'
        invariant
            i <= n == name@.len(),
            last_separator(name@, n as int) == last_separator(name@, i as int),
        decreases i,
    {
        i -= 1;
    }
    // `i` is one past the last separator, or 0 where there is none.
    if i > 1 {
        String::from_str(name.substring_char(0, i - 1))
    } else {
        String::from_str(".")
    }
}

/// What is wrong with the number of values of a value spec.
///
/// `s` has `N` names. `init` is the spec whose values `s` uses: `s` itself
/// or, for a constant without type and values, the spec that it repeats; it
/// is absent where the values are those of `s` and `s` is checked by
/// itself. `R` is the number of values of `init`, or of `s` where `init`
/// is absent.
///
/// - No `init` and `R = 0`: right with a type; without, "missing type or
///   init expr" at the first name.
/// - `N < R`: value `N` has no name. Without `init`, "extra init expr" at
///   that value; with `init`, "extra init expr at" the first name of
///   `init`, reported at the first name of `s`.
/// - `N > R`, and there is an `init` or `R` is not 1: name `R` has no
///   value, "missing init expr" at that name.
/// - Else right.
pub open spec fn arity_error(arena: &AstObjects, s: &ValueSpec, init: Option<&ValueSpec>) -> Option<
    Diagnostic,
> {
    let l = s.names@.len();
    let r = match init {
        Some(i) => i.values@.len(),
        None => s.values@.len(),
    };
    if init is None && r == 0 {
        if s.typ is None {
            Some(
                Diagnostic { pos: arena.ident(s.names@[0]).pos, kind: ErrorKind::MissingTypeOrInit },
            )
        } else {
            None
        }
    } else if l < r {
        match init {
            None => Some(
                Diagnostic {
                    pos: s.values@[l as int].spec_pos(arena) as usize,
                    kind: ErrorKind::ExtraInitExpr { index: l as usize },
                },
            ),
            Some(i) => Some(
                Diagnostic {
                    pos: arena.ident(s.names@[0]).pos,
                    kind: ErrorKind::ExtraInitExprAt { pos: arena.ident(i.names@[0]).pos },
                },
            ),
        }
    } else if l > r && (init is Some || r != 1) {
        Some(
            Diagnostic {
                pos: arena.ident(s.names@[r as int]).pos,
                kind: ErrorKind::MissingInitExpr { name: s.names@[r as int] },
            },
        )
    } else {
        None
    }
}

/// The names of a value spec are identifiers of the arena, and there is at
/// least one.
pub open spec fn names_in_arena(arena: &AstObjects, s: &ValueSpec) -> bool {
    &&& s.names@.len() > 0
    &&& forall|i: int| 0 <= i < s.names@.len() ==> arena.has(#[trigger] s.names@[i])
}

/// What the check of the number of values reads is there: the name or the
/// value at which the error is reported, and for an extra value of the
/// spec whose values are used the first name of that spec. Where nothing
/// is wrong, nothing is read.
pub open spec fn arity_readable(arena: &AstObjects, s: &ValueSpec, init: Option<&ValueSpec>) -> bool {
    let l = s.names@.len();
    let r = match init {
        Some(i) => i.values@.len(),
        None => s.values@.len(),
    };
    if init is None && r == 0 {
        s.typ is None ==> l > 0 && arena.has(s.names@[0])
    } else if l < r {
        match init {
            None => s.values@[l as int].can_pos(arena),
            Some(i) => l > 0 && arena.has(s.names@[0]) && i.names@.len() > 0 && arena.has(
                i.names@[0],
            ),
        }
    } else if l > r && (init is Some || r != 1) {
        arena.has(s.names@[r as int])
    } else {
        true
    }
}

/// What the pass reads of the spec `spec` of `file`, which stands in a
/// declaration with the keyword `token`: of an import the identifier that
/// names it and, where its literal names a path, the name of the file; of a
/// const spec its names; of a value spec under a keyword other than const
/// and var its first name. A var spec and a type spec are not read.
pub open spec fn spec_readable(arena: &AstObjects, file: &File, token: Token, spec: Spec) -> bool {
    match spec {
        Spec::Import(is) => {
            &&& is.name matches Some(n) ==> arena.has(n)
            &&& import_path(is.path.value@) is Ok ==> arena.has(file.name)
        },
        Spec::Value(vs) => match token {
            Token::CONST => names_in_arena(arena, &*vs),
            Token::VAR => true,
            _ => vs.names@.len() > 0 && arena.has(vs.names@[0]),
        },
        Spec::Type(_) => true,
    }
}

/// What the pass reads of a declaration of `file`: its specs, where it has
/// any.
pub open spec fn decl_readable(arena: &AstObjects, file: &File, d: Decl) -> bool {
    match d {
        Decl::Gen(g) => forall|j: int|
            0 <= j < g.specs@.len() ==> spec_readable(arena, file, g.token, #[trigger] g.specs@[j]),
        _ => true,
    }
}

/// What the pass reads of `file` is there.
///
/// The end of the file is asked for whatever the file set holds: the pass
/// reads it for a file that the file set does not know, and which files it
/// knows is the file set's to say. Statements, expressions and function
/// declarations are not read.
pub open spec fn collectable(arena: &AstObjects, file: &File) -> bool {
    &&& file.can_end(arena)
    &&& forall|i: int|
        0 <= i < file.decls@.len() ==> decl_readable(arena, file, #[trigger] file.decls@[i])
}

/// Of a well-formed file, what the pass reads is there.
pub proof fn lemma_wf_collectable(arena: &AstObjects, file: &File)
    requires
        file.wf(arena),
    ensures
        collectable(arena, file),
{
    crate::span::lemma_file_can(file, arena);
    assert forall|i: int| 0 <= i < file.decls@.len() implies decl_readable(
        arena,
        file,
        #[trigger] file.decls@[i],
    ) by {
        let d = file.decls@[i];
        assert(d.wf(arena));
        match d {
            Decl::Gen(g) => {
                assert forall|j: int| 0 <= j < g.specs@.len() implies spec_readable(
                    arena,
                    file,
                    g.token,
                    #[trigger] g.specs@[j],
                ) by {
                    lemma_spec_readable(arena, file, g.token, &g.specs@[j]);
                }
            },
            _ => {},
        }
    }
}

/// Of a well-formed spec of a file with a name of the arena, what the pass
/// reads is there.
pub proof fn lemma_spec_readable(arena: &AstObjects, file: &File, token: Token, spec: &Spec)
    requires
        spec.wf(arena),
        arena.has(file.name),
    ensures
        spec_readable(arena, file, token, *spec),
{
    match spec {
        Spec::Value(vs) => {
            assert forall|i: int| 0 <= i < vs.names@.len() implies arena.has(
                #[trigger] vs.names@[i],
            ) by {
                assert(arena.has_ident(vs.names@[i]));
            }
            assert(arena.has_ident(vs.names@[0]));
        },
        _ => {},
    }
}

impl CheckerView {
    /// The state after what is wrong with the literal of the import at
    /// `spec`, if anything, is reported at the literal.
    pub open spec fn valid_import_path(self, blit: &BasicLit, spec: SpecRef) -> CheckerView {
        match import_path(blit.value@) {
            Ok(_) => self,
            Err(e) => self.error(blit.pos, e.spec_kind(spec)),
        }
    }

    /// Whether the object called as `ident` may be declared in the scope of
    /// the package: not under the name `init`, and not under the name
    /// `main` in a package called `main`.
    pub open spec fn may_declare(self, ident: Ident) -> bool {
        &&& ident.name@ != "init"@
        &&& !(ident.name@ == "main"@ && self.objs.pkg(self.pkg).name == "main"@)
    }

    /// The state after the object `okey`, which the identifier `ikey`
    /// declares, is declared in the scope of the package with the
    /// declaration record `d`.
    ///
    /// Where the name may not be declared, an error is reported at the
    /// identifier and nothing else changes. Else the object is declared,
    /// the record is stored for it, and it gets the next place among the
    /// declarations of the package.
    pub open spec fn declare_pkg_obj(self, arena: &AstObjects, ikey: IdentKey, okey: ObjKey, d: DeclInfo)
        -> CheckerView {
        let ident = arena.ident(ikey);
        if ident.name@ == "init"@ {
            self.error(ident.pos, ErrorKind::CannotDeclareInit)
        } else if ident.name@ == "main"@ && self.objs.pkg(self.pkg).name == "main"@ {
            self.error(ident.pos, ErrorKind::CannotDeclareMain)
        } else {
            let c = self.declare(self.pkg_scope(), Some(ikey), okey);
            let dkey = DeclKey(c.objs.decls.len() as usize);
            let obj_map = c.obj_map.push((okey, dkey));
            CheckerView {
                objs: c.objs.add_decl(d).set_order(okey, obj_map.len() as usize),
                obj_map,
                ..c
            }
        }
    }

    /// The package that the import cache holds for `key`.
    pub open spec fn cached_package(self, key: ImportKeyView) -> Option<PackageKey> {
        find_import(self.imp_map, key, 0)
    }

    /// The state after the outcome `imported` of importing `key` is taken
    /// in.
    ///
    /// Where the cache holds the key already, nothing changes. Else a
    /// package that was imported is cached under the key; for one that was
    /// not, a package that stands in for it is made, named after the last
    /// segment of the path and marked as fake, an error is reported at
    /// `pos`, and the stand-in is cached under the key.
    pub open spec fn import_package(
        self,
        pos: Pos,
        key: ImportKeyView,
        imported: Result<PackageKey, ()>,
    ) -> CheckerView {
        if self.cached_package(key) is Some {
            self
        } else {
            match imported {
                Ok(p) => CheckerView { imp_map: self.imp_map.push((key, p)), ..self },
                Err(_) => {
                    let fake = PackageKey(self.objs.pkgs.len() as usize);
                    CheckerView {
                        objs: self.objs.new_package(key.path, fake_package_name(key.path), true),
                        imp_map: self.imp_map.push((key, fake)),
                        ..self
                    }.error(pos, ErrorKind::CouldNotImport { pkg: fake })
                },
            }
        }
    }

    /// The package that importing `key` with the outcome `imported` gives.
    pub open spec fn imported_package(self, key: ImportKeyView, imported: Result<PackageKey, ()>)
        -> PackageKey {
        match self.cached_package(key) {
            Some(p) => p,
            None => match imported {
                Ok(p) => p,
                Err(_) => PackageKey(self.objs.pkgs.len() as usize),
            },
        }
    }
}

/// Declaring a new object in the scope of the package keeps the state
/// sound.
pub proof fn lemma_declare_pkg_obj_wf(
    c: CheckerView,
    arena: &AstObjects,
    ikey: IdentKey,
    okey: ObjKey,
    d: DeclInfo,
)
    requires
        c.wf(),
        c.objs.has_obj(okey),
        c.objs.obj(okey).order == 0,
        c.obj_map.len() < usize::MAX,
    ensures
        c.declare_pkg_obj(arena, ikey, okey, d).wf(),
{
    let ident = arena.ident(ikey);
    if c.may_declare(ident) {
        assert(c.objs.pkg_wf(c.pkg.0 as int));
        let c1 = c.declare(c.pkg_scope(), Some(ikey), okey);
        lemma_declare_wf(c, c.pkg_scope(), Some(ikey), okey);
        let dkey = DeclKey(c1.objs.decls.len() as usize);
        let obj_map = c1.obj_map.push((okey, dkey));
        crate::objects::lemma_add_decl_wf(c1.objs, d);
        crate::objects::lemma_set_order_wf(c1.objs.add_decl(d), okey, obj_map.len() as usize);
        let c2 = c.declare_pkg_obj(arena, ikey, okey, d);
        assert forall|i: int| 0 <= i < c2.obj_map.len() implies {
            &&& c2.objs.has_obj((#[trigger] c2.obj_map[i]).0)
            &&& c2.objs.obj(c2.obj_map[i].0).order == i + 1
            &&& c2.obj_map[i].1.0 < c2.objs.decls.len()
        } by {
            if i < c.obj_map.len() {
                assert(c2.obj_map[i] == c.obj_map[i]);
                assert(c.objs.obj(c.obj_map[i].0).order == i + 1);
                assert(c.obj_map[i].0 != okey);
            }
        }
        assert forall|i: int| 0 <= i < c2.imp_map.len() implies c2.objs.has_pkg(
            (#[trigger] c2.imp_map[i]).1,
        ) by {
            assert(c.objs.has_pkg(c.imp_map[i].1));
        }
    }
}

/// Declaring an object in the scope of the package makes no scope and no
/// package, and leaves the packages and the cache as they are.
pub proof fn lemma_declare_pkg_obj_frame(
    c: CheckerView,
    arena: &AstObjects,
    ikey: IdentKey,
    okey: ObjKey,
    d: DeclInfo,
)
    requires
        c.wf(),
        c.objs.has_obj(okey),
    ensures
        c.declare_pkg_obj(arena, ikey, okey, d).objs.scopes.len() == c.objs.scopes.len(),
        c.declare_pkg_obj(arena, ikey, okey, d).objs.pkgs == c.objs.pkgs,
        c.declare_pkg_obj(arena, ikey, okey, d).objs.lobjs.len() == c.objs.lobjs.len(),
        c.declare_pkg_obj(arena, ikey, okey, d).imp_map == c.imp_map,
        c.declare_pkg_obj(arena, ikey, okey, d).pkg == c.pkg,
{
    assert(c.objs.pkg_wf(c.pkg.0 as int));
    lemma_declare_wf(c, c.pkg_scope(), Some(ikey), okey);
}

/// After an object is declared in the scope of the package, every object
/// that the scope binds has a declaration record, if that was so before.
pub proof fn lemma_declare_pkg_obj_records(
    c: CheckerView,
    arena: &AstObjects,
    ikey: IdentKey,
    okey: ObjKey,
    d: DeclInfo,
)
    requires
        c.wf(),
        c.objs.has_obj(okey),
        c.records_complete(),
    ensures
        c.declare_pkg_obj(arena, ikey, okey, d).records_complete(),
{
    let c2 = c.declare_pkg_obj(arena, ikey, okey, d);
    assert(c.objs.pkg_wf(c.pkg.0 as int));
    let old_elems = c.objs.scope(c.pkg_scope()).elems;
    let elems = c2.objs.scope(c2.pkg_scope()).elems;
    if c.may_declare(arena.ident(ikey)) {
        lemma_declare_wf(c, c.pkg_scope(), Some(ikey), okey);
        assert(c2.pkg_scope() == c.pkg_scope());
        assert forall|i: int| 0 <= i < elems.len() implies c2.has_record(#[trigger] elems[i]) by {
            if i < old_elems.len() {
                assert(elems[i] == old_elems[i]);
                assert(c.has_record(old_elems[i]));
                let j = choose|j: int|
                    0 <= j < c.obj_map.len() && (#[trigger] c.obj_map[j]).0 == old_elems[i];
                assert(c2.obj_map[j] == c.obj_map[j]);
            } else {
                assert(elems[i] == okey);
                assert(c2.obj_map[c.obj_map.len() as int].0 == okey);
            }
        }
    } else {
        assert(elems == old_elems);
        assert forall|i: int| 0 <= i < elems.len() implies c2.has_record(#[trigger] elems[i]) by {
            assert(c.has_record(old_elems[i]));
            let j = choose|j: int|
                0 <= j < c.obj_map.len() && (#[trigger] c.obj_map[j]).0 == old_elems[i];
            assert(c2.obj_map[j] == c.obj_map[j]);
        }
    }
}

/// Taking in the outcome of an import keeps the state sound.
pub proof fn lemma_import_package_wf(
    c: CheckerView,
    pos: Pos,
    key: ImportKeyView,
    imported: Result<PackageKey, ()>,
)
    requires
        c.wf(),
        imported matches Ok(p) ==> c.objs.has_pkg(p),
        c.objs.pkgs.len() <= usize::MAX,
        c.objs.scopes.len() <= usize::MAX,
    ensures
        c.import_package(pos, key, imported).wf(),
        c.import_package(pos, key, imported).cached_package(key) == Some(
            c.imported_package(key, imported),
        ),
        c.import_package(pos, key, imported).objs.has_pkg(c.imported_package(key, imported)),
{
    let c2 = c.import_package(pos, key, imported);
    if c.cached_package(key) is Some {
        crate::importer::lemma_find_import_some(c.imp_map, key, 0);
    } else {
        let p = c.imported_package(key, imported);
        lemma_find_import_none(c.imp_map, key, 0);
        lemma_find_import_push(c.imp_map, (key, p), key, 0);
        if imported is Err {
            crate::objects::lemma_new_package_wf(c.objs, key.path, fake_package_name(key.path), true);
        }
        assert forall|i: int| 0 <= i < c2.imp_map.len() implies c2.objs.has_pkg(
            (#[trigger] c2.imp_map[i]).1,
        ) by {
            if i < c.imp_map.len() {
                assert(c2.imp_map[i] == c.imp_map[i]);
                assert(c.objs.has_pkg(c.imp_map[i].1));
            }
        }
        assert forall|i: int, j: int| 0 <= i < j < c2.imp_map.len() implies (
        #[trigger] c2.imp_map[i]).0 != (#[trigger] c2.imp_map[j]).0 by {
            assert(c2.imp_map[i] == c.imp_map[i]);
            if j < c.imp_map.len() {
                assert(c2.imp_map[j] == c.imp_map[j]);
            }
        }
        assert forall|i: int| 0 <= i < c2.obj_map.len() implies {
            &&& c2.objs.has_obj((#[trigger] c2.obj_map[i]).0)
            &&& c2.objs.obj(c2.obj_map[i].0).order == i + 1
            &&& c2.obj_map[i].1.0 < c2.objs.decls.len()
        } by {
            assert(c.objs.has_obj(c.obj_map[i].0));
        }
    }
}

impl Checker {
    /// The directory that the imports of `file` are resolved from.
    pub fn file_dir(fset: &goscript_parser::position::FileSet, arena: &AstObjects, file: &File) -> (dir:
        String)
        requires
            arena.has(file.name),
        ensures
            dir@ == file_dir_of(file_set_entries(*fset), arena, file),
    {
        match source_file_at(fset, arena.idents[file.name.0].pos) {
            Some(f) => dir_of_name(f.name.as_str()),
            None => String::from_str("."),
        }
    }

    /// Checks that a const or var spec has as many values as it needs, and
    /// reports the first thing that is wrong. `cst` says that the spec is a
    /// const spec; the check is the same for both.
    pub fn arity_match(
        &mut self,
        arena: &AstObjects,
        s: &ValueSpec,
        cst: bool,
        init: Option<&ValueSpec>,
    ) -> (res: Result<(), ()>)
        requires
            arity_readable(arena, s, init),
        ensures
            res is Ok <==> arity_error(arena, s, init) is None,
            final(self)@ == match arity_error(arena, s, init) {
                Some(d) => old(self)@.error(d.pos, d.kind),
                None => old(self)@,
            },
            old(self)@.grows_to(final(self)@),
    {
        let l = s.names.len();
        let r = match init {
            Some(i) => i.values.len(),
            None => s.values.len(),
        };
        if init.is_none() && r == 0 {
            if s.typ.is_none() {
                self.error(arena.idents[s.names[0].0].pos, ErrorKind::MissingTypeOrInit);
                return Err(());
            }
        } else if l < r {
            match init {
                None => {
                    let pos = s.values[l].pos(arena);
                    self.error(pos, ErrorKind::ExtraInitExpr { index: l });
                    return Err(());
                },
                Some(i) => {
                    let pos = arena.idents[i.names[0].0].pos;
                    self.error(arena.idents[s.names[0].0].pos, ErrorKind::ExtraInitExprAt { pos });
                    return Err(());
                },
            }
        } else if l > r && (init.is_some() || r != 1) {
            let name = s.names[r];
            self.error(arena.idents[name.0].pos, ErrorKind::MissingInitExpr { name });
            return Err(());
        }
        Ok(())
    }

    /// The path that the literal of the import at `spec` names. A literal
    /// that names none is reported, at the literal.
    pub fn valid_import_path(&mut self, blit: &BasicLit, spec: SpecRef) -> (res: Result<String, ()>)
        ensures
            final(self)@ == old(self)@.valid_import_path(blit, spec),
            old(self)@.grows_to(final(self)@),
            match import_path(blit.value@) {
                Ok(p) => res is Ok && res->Ok_0@ == p,
                Err(_) => res is Err,
            },
    {
        match check_import_path(blit.value.as_str()) {
            Ok(p) => Ok(p),
            Err(e) => {
                self.error(blit.pos, e.kind(spec));
                Err(())
            },
        }
    }

    /// Declares the object `okey`, which the identifier `ikey` declares, in
    /// the scope of the package, with the declaration record `d`. The
    /// object must not be a function.
    pub fn declare_pkg_obj(&mut self, arena: &AstObjects, ikey: IdentKey, okey: ObjKey, d: DeclInfo) -> (res:
        Result<(), ()>)
        requires
            old(self)@.wf(),
            arena.has(ikey),
            old(self)@.objs.has_obj(okey),
            old(self)@.objs.obj(okey).name == arena.ident(ikey).name@,
            old(self)@.objs.obj(okey).order == 0,
        ensures
            res is Ok <==> old(self)@.may_declare(arena.ident(ikey)),
            final(self)@ == old(self)@.declare_pkg_obj(arena, ikey, okey, d),
            final(self)@.wf(),
            old(self)@.grows_to(final(self)@),
            old(self)@.records_complete() ==> final(self)@.records_complete(),
            old(self)@.clean_to(final(self)@),
    {
        proof {
            if self@.records_complete() {
                lemma_declare_pkg_obj_records(self@, arena, ikey, okey, d);
            }
        }
        let ident = &arena.idents[ikey.0];
        if str_eq(ident.name.as_str(), "init") {
            self.error(ident.pos, ErrorKind::CannotDeclareInit);
            return Err(());
        }
        if str_eq(ident.name.as_str(), "main") && str_eq(
            self.tc_objs.pkgs[self.pkg.0].name.as_str(),
            "main",
        ) {
            self.error(ident.pos, ErrorKind::CannotDeclareMain);
            return Err(());
        }
        proof {
            assert(self@.objs.pkg_wf(self.pkg.0 as int));
            lemma_declare_wf(self@, self@.pkg_scope(), Some(ikey), okey);
        }
        let scope = self.tc_objs.pkgs[self.pkg.0].scope;
        self.declare(scope, Some(ikey), okey);
        let ghost c1 = self@;
        let dkey = self.tc_objs.add_decl(d);
        let ghost c2 = self@;
        self.obj_map.push((okey, dkey));
        let order = self.obj_map.len();
        self.tc_objs.set_order(okey, order);
        proof {
            lemma_declare_pkg_obj_wf(old(self)@, arena, ikey, okey, d);
            crate::objects::lemma_grows_trans(c1.objs, c2.objs, self@.objs);
            crate::objects::lemma_grows_trans(old(self)@.objs, c1.objs, self@.objs);
            assert(self@.objs.scopes == c1.objs.scopes);
            assert(c1.clean_to(self@));
            lemma_clean_trans(old(self)@, c1, self@);
        }
        Ok(())
    }

    /// The package that the import cache holds for `key`.
    pub fn cached_package(&self, key: &ImportKey) -> (r: Option<PackageKey>)
        ensures
            r == self@.cached_package(key@),
    {
        let mut i: usize = 0;
        while i < self.imp_map.len()
            invariant
                i <= self.imp_map.len(),
                find_import(self@.imp_map, key@, 0) == find_import(self@.imp_map, key@, i as int),
            decreases self.imp_map.len() - i,
        {
            assert(self@.imp_map[i as int] == self.imp_map@[i as int]@);
            if self.imp_map[i].key.same(key) {
                return Some(self.imp_map[i].pkg);
            }
            i += 1;
        }
        None
    }

    /// Takes in the outcome `imported` of importing `key`, and gives the
    /// package that the import stands for from now on.
    ///
    /// Where the cache holds the key already, the cached package is given
    /// and the outcome is not looked at.
    pub fn import_package(&mut self, pos: Pos, key: ImportKey, imported: Result<PackageKey, ()>) -> (pkg:
        PackageKey)
        requires
            old(self)@.wf(),
            imported matches Ok(p) ==> old(self)@.objs.has_pkg(p),
        ensures
            final(self)@ == old(self)@.import_package(pos, key@, imported),
            pkg == old(self)@.imported_package(key@, imported),
            final(self)@.wf(),
            final(self)@.objs.has_pkg(pkg),
            old(self)@.grows_to(final(self)@),
            old(self)@.records_complete() ==> final(self)@.records_complete(),
    {
        proof {
            assert(self@.objs.pkgs.len() == self.tc_objs.pkgs.len());
            assert(self@.objs.scopes.len() == self.tc_objs.scopes.len());
        }
        match self.cached_package(&key) {
            Some(p) => {
                proof {
                    crate::importer::lemma_find_import_some(self@.imp_map, key@, 0);
                }
                return p;
            },
            None => {},
        }
        let pkg = match imported {
            Ok(p) => p,
            Err(_) => {
                let name = package_name_of_path(key.path.as_str());
                let p = self.tc_objs.new_package(key.path.clone(), name, true);
                self.error(pos, ErrorKind::CouldNotImport { pkg: p });
                p
            },
        };
        proof {
            lemma_import_package_wf(old(self)@, pos, key@, imported);
        }
        let entry = ImportEntry { key, pkg };
        self.imp_map.push(entry);
        proof {
            assert(self@.imp_map =~= old(self)@.import_package(pos, key@, imported).imp_map);
            if old(self)@.records_complete() {
                assert(old(self)@.objs.pkg_wf(old(self)@.pkg.0 as int));
                lemma_grows_pkg_scope(old(self)@, self@);
                lemma_records_kept(old(self)@, self@);
            }
        }
        pkg
    }
}


impl Checker {
    /// Declares the constants of the const spec `vs`, whose index in its
    /// declaration is `iota`, and then checks the number of its values.
    /// `eff` is the spec whose type and values `vs` uses, with its place.
    pub fn collect_const_spec(
        &mut self,
        arena: &AstObjects,
        vs: &ValueSpec,
        iota: usize,
        file_scope: ScopeKey,
        eff: Option<(SpecRef, &ValueSpec)>,
    )
        requires
            old(self)@.wf(),
            names_in_arena(arena, vs),
            arity_readable(
                arena,
                vs,
                match eff {
                    Some((_, v)) => Some(v),
                    None => None,
                },
            ),
        ensures
            final(self)@ == old(self)@.const_spec(arena, vs, iota, file_scope, eff),
            final(self)@.wf(),
            final(self)@.objs.scopes.len() == old(self)@.objs.scopes.len(),
            final(self)@.objs.pkgs == old(self)@.objs.pkgs,
            final(self)@.imp_map == old(self)@.imp_map,
            old(self)@.grows_to(final(self)@),
            old(self)@.clean_to(final(self)@),
            old(self)@.records_complete() ==> final(self)@.records_complete(),
            forall|k: int|
                0 <= k < vs.names@.len() ==> #[trigger] final(self)@.const_declared(
                    arena,
                    vs.names@[k],
                    iota,
                    eff,
                    k,
                ),
    {
        let mut i: usize = 0;
        while i < vs.names.len()
            invariant
                i <= vs.names@.len(),
                names_in_arena(arena, vs),
                self@.wf(),
                self@ == old(self)@.declare_consts(arena, vs, iota, file_scope, eff, i as int),
                self@.objs.scopes.len() == old(self)@.objs.scopes.len(),
                self@.objs.pkgs == old(self)@.objs.pkgs,
                self@.imp_map == old(self)@.imp_map,
                old(self)@.grows_to(self@),
                old(self)@.clean_to(self@),
                old(self)@.records_complete() ==> self@.records_complete(),
                forall|k: int|
                    0 <= k < i ==> #[trigger] self@.const_declared(
                        arena,
                        vs.names@[k],
                        iota,
                        eff,
                        k,
                    ),
            decreases vs.names@.len() - i,
        {
            let ghost before = self@;
            let name = vs.names[i];
            assert(arena.has(vs.names@[i as int]));
            let ident = &arena.idents[name.0];
            let lobj = LangObj::new_const(ident.pos, Some(self.pkg), ident.name.clone(), iota);
            assert(lobj@ == const_object(before, arena, name, iota));
            let okey = self.tc_objs.add_obj(lobj);
            let ghost added = self@;
            let typ = match eff {
                Some((r, v)) => if v.typ.is_some() {
                    Some(ExprRef { spec: r, slot: ExprSlot::Typ })
                } else {
                    None
                },
                None => None,
            };
            let init = match eff {
                Some((r, v)) => if i < v.values.len() {
                    Some(ExprRef { spec: r, slot: ExprSlot::Value(i) })
                } else {
                    None
                },
                None => None,
            };
            let d = DeclInfo { file_scope, lhs: None, typ, init, fdecl: None };
            assert(d == const_decl_info(file_scope, eff, i as int));
            proof {
                lemma_wf_frame(before, self@);
                lemma_declare_pkg_obj_frame(self@, arena, name, okey, d);
                if before.records_complete() {
                    lemma_records_kept(before, self@);
                }
            }
            assert(added.objs.decls.len() == self.tc_objs.decls.len());
            assert(added.obj_map.len() == self.obj_map.len());
            let _ = self.declare_pkg_obj(arena, name, okey, d);
            proof {
                lemma_checker_grows_trans(before, added, self@);
                assert(before.clean_to(added));
                lemma_clean_trans(before, added, self@);
                lemma_clean_trans(old(self)@, before, self@);
                lemma_checker_grows_trans(old(self)@, before, self@);
                // The constants that were declared are still there.
                assert forall|k: int| 0 <= k < i implies #[trigger] self@.const_declared(
                    arena,
                    vs.names@[k],
                    iota,
                    eff,
                    k,
                ) by {
                    assert(before.const_declared(arena, vs.names@[k], iota, eff, k));
                    let o = choose|o: ObjKey|
                        #[trigger] before.is_const_of(arena, o, vs.names@[k], iota, eff, k);
                    crate::check::laws::lemma_const_kept(
                        before,
                        self@,
                        arena,
                        o,
                        vs.names@[k],
                        iota,
                        eff,
                        k,
                    );
                }
                // The new object is the constant of the name.
                assert(added.objs.pkg_wf(added.pkg.0 as int));
                lemma_declare_wf(added, added.pkg_scope(), Some(name), okey);
                assert(added.objs.lobjs[okey.0 as int] == lobj@);
                assert(self@.objs.lobjs[okey.0 as int] == (crate::obj::LangObjView {
                    order: self@.objs.lobjs[okey.0 as int].order,
                    ..added.objs.lobjs[okey.0 as int]
                }));
                if self@.may_declare(arena.ident(name)) {
                    let j = added.obj_map.len() as int;
                    assert(self@.obj_map[j].0 == okey);
                    assert(self@.obj_map[j].1.0 == added.objs.decls.len());
                    assert(self@.objs.decls[added.objs.decls.len() as int] == d);
                    assert(self@.has_const_record(okey, eff, i as int));
                }
                assert(self@.is_const_of(arena, okey, name, iota, eff, i as int));
            }
            i += 1;
        }
        let init = match eff {
            Some((_, v)) => Some(v),
            None => None,
        };
        let ghost declared = self@;
        let _ = self.arity_match(arena, vs, true, init);
        proof {
            assert(declared.clean_to(self@));
            lemma_clean_trans(old(self)@, declared, self@);
            lemma_checker_grows_trans(old(self)@, declared, self@);
            if declared.records_complete() {
                lemma_records_kept(declared, self@);
            }
            assert forall|k: int| 0 <= k < vs.names@.len() implies #[trigger] self@.const_declared(
                arena,
                vs.names@[k],
                iota,
                eff,
                k,
            ) by {
                assert(declared.const_declared(arena, vs.names@[k], iota, eff, k));
                let o = choose|o: ObjKey|
                    #[trigger] declared.is_const_of(arena, o, vs.names@[k], iota, eff, k);
                crate::check::laws::lemma_const_kept(
                    declared,
                    self@,
                    arena,
                    o,
                    vs.names@[k],
                    iota,
                    eff,
                    k,
                );
            }
        }
    }
}


/// Merging the exported objects of a scope into a file scope makes no
/// object, scope or package and keeps the state sound.
pub proof fn lemma_merge_exported_wf(c: CheckerView, file_scope: ScopeKey, elems: Seq<ObjKey>, n: int)
    requires
        c.wf(),
        c.objs.has_scope(file_scope),
        n <= elems.len(),
        forall|i: int| 0 <= i < elems.len() ==> c.objs.has_obj(#[trigger] elems[i]),
    ensures
        c.merge_exported(file_scope, elems, n).wf(),
        c.merge_exported(file_scope, elems, n).objs.lobjs == c.objs.lobjs,
        c.merge_exported(file_scope, elems, n).objs.pkgs == c.objs.pkgs,
        c.merge_exported(file_scope, elems, n).objs.scopes.len() == c.objs.scopes.len(),
        c.merge_exported(file_scope, elems, n).imp_map == c.imp_map,
        c.merge_exported(file_scope, elems, n).pkg == c.pkg,
    decreases n,
{
    if n > 0 {
        lemma_merge_exported_wf(c, file_scope, elems, n - 1);
        let c1 = c.merge_exported(file_scope, elems, n - 1);
        assert(c1.objs.has_obj(elems[n - 1]));
        lemma_declare_wf(c1, file_scope, None, elems[n - 1]);
    }
}

/// A copy of a list of objects.
fn copy_keys(v: &Vec<ObjKey>) -> (r: Vec<ObjKey>)
    ensures
        r@ == v@,
{
    let mut r: Vec<ObjKey> = Vec::new();
    let mut i: usize = 0;
    while i < v.len()
        invariant
            i <= v.len(),
            r@ == v@.subrange(0, i as int),
        decreases v.len() - i,
    {
        r.push(v[i]);
        assert(r@ =~= v@.subrange(0, i + 1));
        i += 1;
    }
    assert(v@.subrange(0, v@.len() as int) =~= v@);
    r
}

impl Checker {
    /// Whether `imp` is among the imports of the package being checked.
    pub fn imports_contain(&self, imp: PackageKey) -> (b: bool)
        requires
            self@.objs.has_pkg(self.pkg),
        ensures
            b == self@.objs.pkg(self.pkg).imports.contains(imp),
    {
        let imports = &self.tc_objs.pkgs[self.pkg.0].imports;
        assert(imports@ == self@.objs.pkg(self.pkg).imports);
        let mut i: usize = 0;
        while i < imports.len()
            invariant
                i <= imports.len(),
                imports@ == self@.objs.pkg(self.pkg).imports,
                forall|j: int| 0 <= j < i ==> imports@[j] != imp,
            decreases imports.len() - i,
        {
            if imports[i] == imp {
                assert(imports@[i as int] == imp);
                return true;
            }
            i += 1;
        }
        false
    }

    /// Declares in `file_scope` the exported ones among the objects
    /// `elems`.
    fn merge_exported(&mut self, file_scope: ScopeKey, elems: &Vec<ObjKey>)
        requires
            old(self)@.wf(),
            old(self)@.objs.has_scope(file_scope),
            forall|i: int| 0 <= i < elems@.len() ==> old(self)@.objs.has_obj(#[trigger] elems@[i]),
        ensures
            final(self)@ == old(self)@.merge_exported(file_scope, elems@, elems@.len() as int),
            final(self)@.wf(),
            old(self)@.grows_to(final(self)@),
            old(self)@.clean_to(final(self)@),
            old(self)@.records_complete() && file_scope != old(self)@.pkg_scope()
                ==> final(self)@.records_complete(),
    {
        let mut i: usize = 0;
        while i < elems.len()
            invariant
                i <= elems@.len(),
                old(self)@.wf(),
                old(self)@.objs.has_scope(file_scope),
                forall|i: int|
                    0 <= i < elems@.len() ==> old(self)@.objs.has_obj(#[trigger] elems@[i]),
                self@ == old(self)@.merge_exported(file_scope, elems@, i as int),
                old(self)@.grows_to(self@),
                old(self)@.clean_to(self@),
                old(self)@.records_complete() && file_scope != old(self)@.pkg_scope()
                    ==> self@.records_complete(),
            decreases elems@.len() - i,
        {
            proof {
                lemma_merge_exported_wf(old(self)@, file_scope, elems@, i as int);
                lemma_grows_pkg_scope(old(self)@, self@);
            }
            let ghost before = self@;
            let k = elems[i];
            assert(old(self)@.objs.has_obj(elems@[i as int]));
            if self.tc_objs.lobjs[k.0].exported() {
                self.declare(file_scope, None, k);
            }
            proof {
                lemma_clean_trans(old(self)@, before, self@);
                lemma_checker_grows_trans(old(self)@, before, self@);
            }
            i += 1;
        }
        proof {
            lemma_merge_exported_wf(old(self)@, file_scope, elems@, elems@.len() as int);
        }
    }

    /// Takes in the import spec `is` of `file`, which stands at `sref` and
    /// starts at `spec_pos`, unless the import cache does not hold the
    /// import: then nothing changes, and the key of the import is
    /// returned.
    pub fn collect_import_spec(
        &mut self,
        fctx: &mut FilesContext,
        arena: &AstObjects,
        fset: &goscript_parser::position::FileSet,
        file: &File,
        is: &ImportSpec,
        sref: SpecRef,
        spec_pos: Pos,
    ) -> (need: Option<ImportKey>)
        requires
            old(self)@.wf(),
            old(fctx).cursor.file_scope matches Some(s) && old(self)@.objs.has_scope(s),
            is.name matches Some(n) ==> arena.has(n),
            import_path(is.path.value@) is Ok ==> arena.has(file.name),
        ensures
            final(fctx).files == old(fctx).files,
            final(fctx).cursor == old(fctx).cursor,
            match need {
                Some(key) => {
                    &&& import_key(file_set_entries(*fset), arena, file, is) == Some(key@)
                    &&& old(self)@.cached_package(key@) is None
                    &&& pass_state(final(self), final(fctx)) == pass_state(old(self), old(fctx))
                },
                None => {
                    &&& import_key(file_set_entries(*fset), arena, file, is) matches Some(key)
                        ==> old(self)@.cached_package(key) is Some
                    &&& pass_state(final(self), final(fctx)) == import_spec(
                        pass_state(old(self), old(fctx)),
                        file_set_entries(*fset),
                        arena,
                        file,
                        is,
                        sref,
                        spec_pos,
                    )
                },
            },
            final(self)@.wf(),
            final(self)@.objs.scopes.len() == old(self)@.objs.scopes.len(),
            final(self)@.imp_map == old(self)@.imp_map,
            old(self)@.grows_to(final(self)@),
            old(self)@.clean_to(final(self)@),
            prefix(old(fctx).unused_dot_imports@, final(fctx).unused_dot_imports@),
            old(self)@.records_complete() && old(fctx).cursor.file_scope != Some(
                old(self)@.pkg_scope(),
            ) ==> final(self)@.records_complete(),
            need is None && import_path(is.path.value@) is Ok && (is.name matches Some(n)
                && arena.ident(n).name@ == "."@) ==> merged_into(
                old(fctx).cursor,
                final(self)@,
                old(fctx).cursor.file,
                old(self)@.cached_package(import_key(file_set_entries(*fset), arena, file, is)->0),
                old(fctx).cursor.file_scope->0,
                old(self)@.objs.scope(
                    old(self)@.objs.pkg(
                        old(self)@.cached_package(
                            import_key(file_set_entries(*fset), arena, file, is)->0,
                        )->0,
                    ).scope,
                ).elems.len() as int,
            ),
            need is None && import_path(is.path.value@) is Ok && (is.name matches Some(n)
                && arena.ident(n).name@ == "."@) ==> final(fctx).unused_dot_imports@ == old(
                fctx,
            ).unused_dot_imports@.push(
                (
                    old(fctx).cursor.file_scope->0,
                    old(self)@.cached_package(
                        import_key(file_set_entries(*fset), arena, file, is)->0,
                    )->0,
                    spec_pos,
                ),
            ),
    {
        let file_scope = fctx.cursor.file_scope.unwrap();
        let ghost complete = self@.records_complete() && file_scope != self@.pkg_scope();
        let path = match self.valid_import_path(&is.path, sref) {
            Ok(p) => p,
            Err(_) => {
                proof {
                    if complete {
                        lemma_records_kept(old(self)@, self@);
                    }
                }
                return None;
            },
        };
        let dir = Checker::file_dir(fset, arena, file);
        let key = ImportKey::new(path, dir);
        let imp = match self.cached_package(&key) {
            Some(p) => p,
            None => {
                return Some(key);
            },
        };
        proof {
            crate::importer::lemma_find_import_some(self@.imp_map, key@, 0);
        }
        let ghost c0 = self@;
        if !self.imports_contain(imp) {
            self.tc_objs.add_import(self.pkg, imp);
            proof {
                lemma_wf_frame(c0, self@);
            }
        }
        let ghost c1 = self@;
        assert(c1 == c0.note_import(imp));
        assert(c0.grows_to(c1));
        let name = match is.name {
            Some(k) => {
                let ident = &arena.idents[k.0];
                if str_eq(ident.name.as_str(), "init") {
                    self.error(ident.pos, ErrorKind::CannotDeclareInit);
                    proof {
                        reveal_strlit("init");
                        reveal_strlit(".");
                        assert("init"@.len() == 4 && "."@.len() == 1);
                        assert(ident.name@ != "."@);
                        lemma_checker_grows_trans(c0, c1, self@);
                        if complete {
                            lemma_records_kept(old(self)@, self@);
                        }
                    }
                    return None;
                }
                ident.name.clone()
            },
            None => self.tc_objs.pkgs[imp.0].name.clone(),
        };
        assert(name@ == import_name(c1, arena, is, imp));
        let is_dot = str_eq(name.as_str(), ".");
        let obj = LangObj::new_pkg_name(spec_pos, Some(self.pkg), name, imp);
        let okey = self.tc_objs.add_obj(obj);
        match is.name {
            Some(k) => {
                self.result.defs.push((k, okey));
            },
            None => {
                self.result.implicits.push((sref, okey));
            },
        }
        let ghost c3 = self@;
        proof {
            lemma_wf_frame(c1, c3);
            assert(c1.grows_to(c3));
            lemma_checker_grows_trans(c0, c1, c3);
            lemma_grows_pkg_scope(c0, c3);
            if complete {
                lemma_records_kept(c0, c3);
            }
        }
        if is_dot {
            assert(c3.objs.pkg_wf(imp.0 as int));
            let scope = self.tc_objs.pkgs[imp.0].scope;
            let elems = copy_keys(&self.tc_objs.scopes[scope.0].elems);
            assert(elems@ == c3.objs.scope(c3.objs.pkg(imp).scope).elems);
            assert(c3.objs.scope_wf(scope.0 as int));
            proof {
                lemma_merge_exported_wf(c3, file_scope, elems@, elems@.len() as int);
            }
            self.merge_exported(file_scope, &elems);
            fctx.add_unused_dot_import(file_scope, imp, spec_pos);
            proof {
                let d = self@;
                let n = elems@.len() as int;
                assert(d.objs.scope(d.objs.pkg(imp).scope).elems.len() >= n);
                assert forall|i: int| 0 <= i < n implies name_merged(
                    d,
                    file_scope,
                    #[trigger] d.objs.scope(d.objs.pkg(imp).scope).elems[i],
                ) by {
                    let o = elems@[i];
                    assert(c3.objs.has_obj(o));
                    assert(d.objs.scopes[scope.0 as int] == (crate::scope::ScopeView {
                        elems: d.objs.scopes[scope.0 as int].elems,
                        ..c3.objs.scopes[scope.0 as int]
                    }));
                    assert(d.objs.scope(d.objs.pkg(imp).scope).elems[i] == o);
                    let name = c3.objs.obj(o).name;
                    crate::check::laws::lemma_dot_import(c3, file_scope, elems@, n, name);
                    crate::objects::lemma_find_name(
                        c3.objs.lobjs,
                        c3.objs.scope(file_scope).elems,
                        name,
                    );
                }
            }
        } else {
            proof {
                lemma_declare_wf(c3, file_scope, None, okey);
            }
            self.declare(file_scope, None, okey);
        }
        proof {
            assert(c0.clean_to(c3));
            lemma_clean_trans(c0, c3, self@);
            lemma_checker_grows_trans(c0, c3, self@);
        }
        None
    }
}


/// What the pass says when it stops.
#[derive(Debug)]
pub enum Progress {
    /// The pass has gone through all files.
    Done,
    /// The pass needs the package with this key imported. It stands at the
    /// import, whose literal is at `pos`, and has not taken it in.
    NeedImport { key: ImportKey, pos: Pos },
}

/// The state of the pass that `c` and `fctx` hold.
pub open spec fn pass_state(c: &Checker, fctx: &FilesContext) -> PassState {
    PassState { c: c@, cur: fctx.cursor, dots: fctx.unused_dot_imports@ }
}

impl Checker {
    /// Opens the file at the cursor: makes its scope, under the scope of
    /// the package, and records it.
    fn open_file(
        &mut self,
        fctx: &mut FilesContext,
        arena: &AstObjects,
        fset: &goscript_parser::position::FileSet,
    )
        requires
            pass_wf(pass_state(old(self), old(fctx)), old(fctx).files@),
            old(fctx).cursor.file < old(fctx).files@.len(),
            old(fctx).cursor.file_scope is None,
            old(fctx).files@[old(fctx).cursor.file as int].can_end(arena),
        ensures
            final(fctx).files == old(fctx).files,
            pass_state(final(self), final(fctx)) == open_file(
                pass_state(old(self), old(fctx)),
                old(fctx).files@,
                arena,
                file_set_entries(*fset),
            ),
            final(self)@.wf(),
            final(fctx).cursor.file_scope matches Some(s) && final(self)@.objs.has_scope(s),
            old(self)@.grows_to(final(self)@),
            old(self)@.clean_to(final(self)@),
            final(fctx).unused_dot_imports@ == old(fctx).unused_dot_imports@,
            final(fctx).cursor.file_scope != Some(final(self)@.pkg_scope()),
            old(self)@.records_complete() ==> final(self)@.records_complete(),
    {
        let files = fctx.files;
        let file_num = fctx.cursor.file;
        let file = &files[file_num];
        let ghost c0 = self@;
        assert(c0.objs.pkg_wf(c0.pkg.0 as int));
        let parent = self.tc_objs.pkgs[self.pkg.0].scope;
        let scope = match source_file_at(fset, file.pos()) {
            Some(f) => self.tc_objs.new_scope(Some(parent), f.base, f.base + f.size, f.name),
            None => {
                let end = file.end(arena);
                self.tc_objs.new_scope(Some(parent), file.pos(), end, String::new())
            },
        };
        self.result.scopes.push((file_num, scope));
        fctx.cursor = Cursor {
            file: file_num,
            decl: 0,
            spec: 0,
            file_scope: Some(scope),
            last_full: None,
        };
        proof {
            lemma_wf_frame(c0, self@);
            lemma_grows_pkg_scope(c0, self@);
            if c0.records_complete() {
                lemma_records_kept(c0, self@);
            }
        }
    }

    /// Takes one step in the open file at the cursor, which stands at a
    /// declaration: takes in the spec at the cursor, or moves on to the
    /// next declaration. Where the spec is an import that the cache does
    /// not hold, nothing changes, and the key of the import is returned
    /// with the position of its literal.
    fn step_in_decl(
        &mut self,
        fctx: &mut FilesContext,
        arena: &AstObjects,
        fset: &goscript_parser::position::FileSet,
    ) -> (need: Option<(ImportKey, Pos)>)
        requires
            pass_wf(pass_state(old(self), old(fctx)), old(fctx).files@),
            old(fctx).cursor.file < old(fctx).files@.len(),
            old(fctx).cursor.file_scope is Some,
            old(fctx).cursor.decl < old(fctx).files@[old(fctx).cursor.file as int].decls@.len(),
            collectable(arena, &old(fctx).files@[old(fctx).cursor.file as int]),
        ensures
            final(fctx).files == old(fctx).files,
            final(self)@.wf(),
            final(self)@.objs.scopes.len() >= old(self)@.objs.scopes.len(),
            old(self)@.grows_to(final(self)@),
            old(self)@.clean_to(final(self)@),
            prefix(old(fctx).unused_dot_imports@, final(fctx).unused_dot_imports@),
            old(self)@.records_complete() ==> final(self)@.records_complete(),
            need is None && is_dot_import(
                old(fctx).files@,
                arena,
                SpecRef {
                    file: old(fctx).cursor.file,
                    decl: old(fctx).cursor.decl,
                    spec: old(fctx).cursor.spec,
                },
            ) ==> dot_merged(
                old(fctx).cursor,
                final(self)@,
                old(fctx).files@,
                arena,
                file_set_entries(*fset),
                SpecRef {
                    file: old(fctx).cursor.file,
                    decl: old(fctx).cursor.decl,
                    spec: old(fctx).cursor.spec,
                },
            ),
            need is None && is_dot_import(
                old(fctx).files@,
                arena,
                SpecRef {
                    file: old(fctx).cursor.file,
                    decl: old(fctx).cursor.decl,
                    spec: old(fctx).cursor.spec,
                },
            ) ==> dot_recorded(
                old(fctx).cursor,
                final(self)@,
                final(fctx).unused_dot_imports@,
                old(fctx).files@,
                arena,
                file_set_entries(*fset),
                SpecRef {
                    file: old(fctx).cursor.file,
                    decl: old(fctx).cursor.decl,
                    spec: old(fctx).cursor.spec,
                },
            ),
            need is None && is_const_spec(
                old(fctx).files@,
                SpecRef {
                    file: old(fctx).cursor.file,
                    decl: old(fctx).cursor.decl,
                    spec: old(fctx).cursor.spec,
                },
            ) ==> final(self)@.consts_declared(
                arena,
                old(fctx).files@,
                SpecRef {
                    file: old(fctx).cursor.file,
                    decl: old(fctx).cursor.decl,
                    spec: old(fctx).cursor.spec,
                },
            ),
            match need {
                Some((key, pos)) => {
                    &&& blocked(
                        pass_state(old(self), old(fctx)),
                        old(fctx).files@,
                        arena,
                        file_set_entries(*fset),
                    ) == Some((key@, pos))
                    &&& pass_state(final(self), final(fctx)) == pass_state(old(self), old(fctx))
                },
                None => {
                    &&& blocked(
                        pass_state(old(self), old(fctx)),
                        old(fctx).files@,
                        arena,
                        file_set_entries(*fset),
                    ) is None
                    &&& pass_state(final(self), final(fctx)) == step(
                        pass_state(old(self), old(fctx)),
                        old(fctx).files@,
                        arena,
                        file_set_entries(*fset),
                    )
                },
            },
    {
        let files = fctx.files;
        let cur = fctx.cursor;
        let file = &files[cur.file];
        let ghost st = pass_state(self, fctx);
        let ghost entries = file_set_entries(*fset);
        assert(cur.decl < file.decls.len());
        let next_decl = Cursor {
            file: cur.file,
            decl: cur.decl + 1,
            spec: 0,
            file_scope: cur.file_scope,
            last_full: None,
        };
        match &file.decls[cur.decl] {
            Decl::Gen(g) => {
                if cur.spec >= g.specs.len() {
                    fctx.cursor = next_decl;
                    return None;
                }
                proof {
                    assert(decl_readable(arena, file, file.decls@[cur.decl as int]));
                    assert(spec_readable(arena, file, g.token, g.specs@[cur.spec as int]));
                    lemma_last_full_after(g.specs@, cur.spec as int);
                }
                let spec = &g.specs[cur.spec];
                let sref = SpecRef { file: cur.file, decl: cur.decl, spec: cur.spec };
                let mut last_full = cur.last_full;
                match spec {
                    Spec::Import(is) => {
                        let spec_pos = spec.pos(arena);
                        match self.collect_import_spec(
                            fctx,
                            arena,
                            fset,
                            file,
                            is,
                            sref,
                            spec_pos,
                        ) {
                            Some(key) => {
                                return Some((key, is.path.pos));
                            },
                            None => {
                                proof {
                                    let at = SpecRef {
                                        file: cur.file,
                                        decl: cur.decl,
                                        spec: cur.spec,
                                    };
                                    if is_dot_import(files@, arena, at) {
                                        let last = fctx.unused_dot_imports@.len() - 1;
                                        assert(fctx.unused_dot_imports@[last].0
                                            == cur.file_scope->0);
                                    }
                                }
                            },
                        }
                    },
                    Spec::Value(vs) => {
                        if vs.typ.is_some() || vs.values.len() > 0 {
                            last_full = Some(cur.spec);
                        }
                        match g.token {
                            Token::CONST => {
                                let eff = match last_full {
                                    Some(j) => match &g.specs[j] {
                                        Spec::Value(v) => {
                                            proof {
                                                assert(spec_readable(
                                                    arena,
                                                    file,
                                                    g.token,
                                                    g.specs@[j as int],
                                                ));
                                            }
                                            Some(
                                                (
                                                    SpecRef {
                                                        file: cur.file,
                                                        decl: cur.decl,
                                                        spec: j,
                                                    },
                                                    &**v,
                                                ),
                                            )
                                        },
                                        _ => None,
                                    },
                                    None => None,
                                };
                                self.collect_const_spec(
                                    arena,
                                    vs,
                                    cur.spec,
                                    cur.file_scope.unwrap(),
                                    eff,
                                );
                            },
                            Token::VAR => {},
                            _ => {
                                let spec_pos = spec.pos(arena);
                                self.error(spec_pos, ErrorKind::InvalidToken { token: g.token });
                                proof {
                                    if old(self)@.records_complete() {
                                        lemma_records_kept(old(self)@, self@);
                                    }
                                }
                            },
                        }
                    },
                    Spec::Type(_) => {},
                }
                fctx.cursor = Cursor {
                    file: cur.file,
                    decl: cur.decl,
                    spec: cur.spec + 1,
                    file_scope: cur.file_scope,
                    last_full,
                };
                None
            },
            _ => {
                fctx.cursor = next_decl;
                None
            },
        }
    }

    /// Collects the package-level declarations of the files of `fctx`, from
    /// where the cursor stands: opens a scope for each file, resolves its
    /// imports against the import cache, and declares the constants of the
    /// package. Errors are reported and the pass goes on.
    ///
    /// The pass stops when it has gone through all files, or when it comes
    /// to an import that the cache does not hold. Then it says which
    /// import it needs. Once the outcome of that import has been handed to
    /// [`Checker::import_package`], a new call goes on from there.
    ///
    /// The pass reads of the files what [`collectable`] names; a file that
    /// is well-formed is collectable ([`lemma_wf_collectable`]).
    ///
    /// Of the state in which the pass stops the contract says what it is,
    /// step by step, and what holds of it whatever the files are: the state
    /// has only grown, the cache is as it was, every const spec that the
    /// pass has gone through has its constants, with the index of the spec
    /// as their ordinal and the type and values of the spec that it uses
    /// in their records, every import under the name `.` that it has gone
    /// through is recorded and has the exported names of its package bound
    /// in the scope of its file, and nothing but names of packages and
    /// exported objects has come into a scope other than that of the
    /// package.
    pub fn collect_objects(
        &mut self,
        fctx: &mut FilesContext,
        arena: &AstObjects,
        fset: &goscript_parser::position::FileSet,
    ) -> (r: Progress)
        requires
            pass_wf(pass_state(old(self), old(fctx)), old(fctx).files@),
            forall|i: int|
                0 <= i < old(fctx).files@.len() ==> collectable(
                    arena,
                    #[trigger] &old(fctx).files@[i],
                ),
        ensures
            final(fctx).files == old(fctx).files,
            pass_state(final(self), final(fctx)) == run(
                pass_state(old(self), old(fctx)),
                old(fctx).files@,
                arena,
                file_set_entries(*fset),
            ),
            pass_wf(pass_state(final(self), final(fctx)), old(fctx).files@),
            old(self)@.grows_to(final(self)@),
            old(self)@.clean_to(final(self)@),
            final(self)@.imp_map == old(self)@.imp_map,
            prefix(old(fctx).unused_dot_imports@, final(fctx).unused_dot_imports@),
            old(self)@.records_complete() ==> final(self)@.records_complete(),
            forall|at: SpecRef|
                passed(old(fctx).cursor, final(fctx).cursor, at) && #[trigger] is_const_spec(
                    old(fctx).files@,
                    at,
                ) ==> final(self)@.consts_declared(arena, old(fctx).files@, at),
            forall|at: SpecRef|
                passed(old(fctx).cursor, final(fctx).cursor, at) && #[trigger] is_dot_import(
                    old(fctx).files@,
                    arena,
                    at,
                ) ==> dot_merged(
                    old(fctx).cursor,
                    final(self)@,
                    old(fctx).files@,
                    arena,
                    file_set_entries(*fset),
                    at,
                ),
            forall|at: SpecRef|
                passed(old(fctx).cursor, final(fctx).cursor, at) && #[trigger] is_dot_import(
                    old(fctx).files@,
                    arena,
                    at,
                ) ==> dot_recorded(
                    old(fctx).cursor,
                    final(self)@,
                    final(fctx).unused_dot_imports@,
                    old(fctx).files@,
                    arena,
                    file_set_entries(*fset),
                    at,
                ),
            match r {
                Progress::Done => done(pass_state(final(self), final(fctx)), old(fctx).files@),
                Progress::NeedImport { key, pos } => blocked(
                    pass_state(final(self), final(fctx)),
                    old(fctx).files@,
                    arena,
                    file_set_entries(*fset),
                ) == Some((key@, pos)),
            },
    {
        let files = fctx.files;
        let ghost entries = file_set_entries(*fset);
        let ghost start = pass_state(self, fctx);
        loop
            invariant
                fctx.files == files,
                files == old(fctx).files,
                entries == file_set_entries(*fset),
                start == pass_state(old(self), old(fctx)),
                pass_wf(pass_state(self, fctx), files@),
                forall|i: int| 0 <= i < files@.len() ==> collectable(arena, #[trigger] &files@[i]),
                run(pass_state(self, fctx), files@, arena, entries) == run(
                    start,
                    files@,
                    arena,
                    entries,
                ),
                files_left(fctx.cursor, files@) >= 0,
                decls_left(fctx.cursor, files@) >= 0,
                specs_left(fctx.cursor, files@) >= 0,
                old(self)@.wf(),
                old(self)@.grows_to(self@),
                old(self)@.clean_to(self@),
                self@.imp_map == old(self)@.imp_map,
                prefix(old(fctx).unused_dot_imports@, fctx.unused_dot_imports@),
                old(self)@.records_complete() ==> self@.records_complete(),
                forall|at: SpecRef|
                    passed(old(fctx).cursor, fctx.cursor, at) && #[trigger] is_const_spec(files@, at)
                        ==> self@.consts_declared(arena, files@, at),
                fctx.cursor.file_scope matches Some(fs) ==> scope_of_file(
                    old(fctx).cursor,
                    self@,
                    fctx.cursor.file,
                    fs,
                ),
                forall|at: SpecRef|
                    passed(old(fctx).cursor, fctx.cursor, at) && #[trigger] is_dot_import(
                        files@,
                        arena,
                        at,
                    ) ==> dot_merged(old(fctx).cursor, self@, files@, arena, entries, at),
                forall|at: SpecRef|
                    passed(old(fctx).cursor, fctx.cursor, at) && #[trigger] is_dot_import(
                        files@,
                        arena,
                        at,
                    ) ==> dot_recorded(
                        old(fctx).cursor,
                        self@,
                        fctx.unused_dot_imports@,
                        files@,
                        arena,
                        entries,
                        at,
                    ),
            decreases
                    files_left(fctx.cursor, files@),
                    decls_left(fctx.cursor, files@),
                    specs_left(fctx.cursor, files@),
        {
            let cur = fctx.cursor;
            let ghost st = pass_state(self, fctx);
            if cur.file >= files.len() {
                return Progress::Done;
            }
            proof {
                lemma_step_cursor(st, files@, arena, entries);
                assert(collectable(arena, &files@[cur.file as int]));
            }
            match cur.file_scope {
                None => {
                    assert(blocked(st, files@, arena, entries) is None);
                    self.open_file(fctx, arena, fset);
                },
                Some(_) => {
                    if cur.decl >= files[cur.file].decls.len() {
                        assert(blocked(st, files@, arena, entries) is None);
                        fctx.cursor = Cursor {
                            file: cur.file + 1,
                            decl: 0,
                            spec: 0,
                            file_scope: None,
                            last_full: None,
                        };
                    } else {
                        match self.step_in_decl(fctx, arena, fset) {
                            Some((key, pos)) => {
                                return Progress::NeedImport { key, pos };
                            },
                            None => {},
                        }
                    }
                },
            }
            assert(pass_state(self, fctx) == step(st, files@, arena, entries));
            proof {
                lemma_clean_trans(old(self)@, st.c, self@);
                lemma_checker_grows_trans(old(self)@, st.c, self@);
                crate::check::laws::lemma_step_keeps(st, files@, arena, entries);
                assert forall|at: SpecRef|
                    passed(old(fctx).cursor, fctx.cursor, at) && #[trigger] is_const_spec(
                        files@,
                        at,
                    ) implies self@.consts_declared(arena, files@, at) by {
                    if passed(old(fctx).cursor, cur, at) {
                        crate::check::laws::lemma_consts_kept(st.c, self@, arena, files@, at);
                    } else {
                        assert(at == (SpecRef { file: cur.file, decl: cur.decl, spec: cur.spec }));
                    }
                }
                if fctx.cursor.file_scope is Some {
                    if cur.file_scope is None {
                        let last = self@.scopes.len() - 1;
                        assert(self@.scopes[last] == (cur.file, fctx.cursor.file_scope->0));
                    } else {
                        crate::check::laws::lemma_scope_of_file_kept(
                            old(fctx).cursor,
                            st.c,
                            self@,
                            cur.file,
                            cur.file_scope->0,
                        );
                    }
                }
                assert forall|at: SpecRef|
                    passed(old(fctx).cursor, fctx.cursor, at) && #[trigger] is_dot_import(
                        files@,
                        arena,
                        at,
                    ) implies dot_merged(old(fctx).cursor, self@, files@, arena, entries, at) by {
                    let spec = files@[at.file as int].decls@[at.decl as int]->Gen_0.specs@[at.spec as int];
                    let key = import_key(
                        entries,
                        arena,
                        &files@[at.file as int],
                        &*spec->Import_0,
                    )->0;
                    if passed(old(fctx).cursor, cur, at) {
                        assert(dot_merged(old(fctx).cursor, st.c, files@, arena, entries, at));
                        let (fs, n) = choose|fs: ScopeKey, n: int| #[trigger]
                            merged_into(
                                old(fctx).cursor,
                                st.c,
                                at.file,
                                st.c.cached_package(key),
                                fs,
                                n,
                            );
                        crate::check::laws::lemma_merged_kept(
                            old(fctx).cursor,
                            st.c,
                            self@,
                            at.file,
                            st.c.cached_package(key),
                            fs,
                            n,
                        );
                    } else {
                        assert(at == (SpecRef { file: cur.file, decl: cur.decl, spec: cur.spec }));
                        assert(dot_merged(cur, self@, files@, arena, entries, at));
                        let (fs, n) = choose|fs: ScopeKey, n: int| #[trigger]
                            merged_into(cur, self@, at.file, self@.cached_package(key), fs, n);
                        if cur.file_scope == Some(fs) {
                            crate::check::laws::lemma_scope_of_file_kept(
                                old(fctx).cursor,
                                st.c,
                                self@,
                                cur.file,
                                fs,
                            );
                        }
                        assert(scope_of_file(old(fctx).cursor, self@, at.file, fs));
                        assert(merged_into(
                            old(fctx).cursor,
                            self@,
                            at.file,
                            self@.cached_package(key),
                            fs,
                            n,
                        ));
                    }
                }
                assert forall|at: SpecRef|
                    passed(old(fctx).cursor, fctx.cursor, at) && #[trigger] is_dot_import(
                        files@,
                        arena,
                        at,
                    ) implies dot_recorded(
                    old(fctx).cursor,
                    self@,
                    fctx.unused_dot_imports@,
                    files@,
                    arena,
                    entries,
                    at,
                ) by {
                    if passed(old(fctx).cursor, cur, at) {
                        crate::check::laws::lemma_dot_kept(
                            old(fctx).cursor,
                            st.c,
                            st.dots,
                            self@,
                            fctx.unused_dot_imports@,
                            files@,
                            arena,
                            entries,
                            at,
                        );
                    } else {
                        assert(at == (SpecRef { file: cur.file, decl: cur.decl, spec: cur.spec }));
                    }
                }
            }
        }
    }
}


/// Whether `spec` is a value spec with a type or with values.
pub fn full_spec(spec: &Spec) -> (b: bool)
    ensures
        b == is_full(*spec),
{
    match spec {
        Spec::Value(vs) => vs.typ.is_some() || vs.values.len() > 0,
        _ => false,
    }
}

/// Among the first `n` of `specs`, the index of the last one that is a
/// value spec with a type or with values.
pub fn last_full_spec(specs: &Vec<Spec>, n: usize) -> (last: Option<usize>)
    requires
        n <= specs@.len(),
    ensures
        last == last_full_after(specs@, n as int),
{
    let mut last: Option<usize> = None;
    let mut i: usize = 0;
    while i < n
        invariant
            i <= n <= specs@.len(),
            last == last_full_after(specs@, i as int),
        decreases n - i,
    {
        if full_spec(&specs[i]) {
            last = Some(i);
        }
        i += 1;
    }
    last
}

impl<'a> FilesContext<'a> {
    /// Whether the cursor stands in the files.
    pub fn cursor_ok(&self) -> (b: bool)
        ensures
            b == cursor_wf(self.cursor, self.files@),
    {
        let cur = self.cursor;
        if cur.file > self.files.len() {
            return false;
        }
        if cur.file == self.files.len() {
            return true;
        }
        let decls = &self.files[cur.file].decls;
        match cur.file_scope {
            None => cur.decl == 0 && cur.spec == 0 && cur.last_full.is_none(),
            Some(_) => {
                if cur.decl > decls.len() {
                    return false;
                }
                if cur.decl < decls.len() {
                    match &decls[cur.decl] {
                        Decl::Gen(g) => {
                            return cur.spec <= g.specs.len() && cur.last_full == last_full_spec(
                                &g.specs,
                                cur.spec,
                            );
                        },
                        _ => {},
                    }
                }
                cur.spec == 0 && cur.last_full.is_none()
            },
        }
    }
}

impl Checker {
    /// Whether the pass can be called: the state of the check is sound,
    /// the cursor stands in the files, and the scope of the open file is a
    /// scope of the arena other than the scope of the package.
    pub fn ready(&self, fctx: &FilesContext) -> (b: bool)
        ensures
            b == pass_wf(pass_state(self, fctx), fctx.files@),
    {
        self.is_wf() && fctx.cursor_ok() && match fctx.cursor.file_scope {
            Some(s) => s.0 < self.tc_objs.scopes.len() && s != self.tc_objs.pkgs[self.pkg.0].scope,
            None => true,
        }
    }
}

} // verus!
