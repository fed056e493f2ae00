//! What the collection of declarations does, step by step, as a function
//! on the state of the check.
//!
//! The pass looks at one thing at a time: it opens a file, takes in one
//! spec, or moves on to the next declaration or file. `step` says what each
//! of these does to the state, `blocked` says when the pass cannot go on
//! because it needs a package imported, and `run` is the state in which the
//! pass stops.

use vstd::prelude::*;
use crate::ast::{AstObjects, Decl, File, ImportSpec, Spec, ValueSpec};
use crate::check::checker::{CheckerView, Cursor};
use crate::check::resolver::{arity_error, file_dir_of};
use crate::errors::ErrorKind;
use crate::importer::{import_path, ImportKeyView};
use crate::obj::{is_exported, EntityType, LangObjView};
use crate::objects::{IdentKey, ObjKey, PackageKey, ScopeKey};
use crate::package::{DeclInfo, ExprRef, ExprSlot, SpecRef};
use crate::position::{entry_at, Pos};
use crate::token::Token;

verus! {

/// The state of the pass: the state of the check, where the pass stands,
/// and the imports that merged a package into a file scope.
pub struct PassState {
    pub c: CheckerView,
    pub cur: Cursor,
    pub dots: Seq<(ScopeKey, PackageKey, Pos)>,
}

/// A value spec with a type or with values: one that a later spec without
/// either repeats.
pub open spec fn is_full(spec: Spec) -> bool {
    spec matches Spec::Value(vs) && (vs.typ is Some || vs.values@.len() > 0)
}

/// Among the first `n` specs of a declaration, the index of the last one
/// that is full.
pub open spec fn last_full_after(specs: Seq<Spec>, n: int) -> Option<usize>
    decreases n,
{
    if n <= 0 {
        None
    } else if is_full(specs[n - 1]) {
        Some((n - 1) as usize)
    } else {
        last_full_after(specs, n - 1)
    }
}

/// The last full spec among the first `n` is full, and no spec between it
/// and spec `n` is; where there is none, none of the first `n` is full.
pub proof fn lemma_last_full_after(specs: Seq<Spec>, n: int)
    requires
        n <= specs.len() <= usize::MAX,
    ensures
        match last_full_after(specs, n) {
            Some(j) => {
                &&& 0 <= j < n
                &&& is_full(specs[j as int])
                &&& forall|k: int| j < k < n ==> !is_full(#[trigger] specs[k])
            },
            None => forall|k: int| 0 <= k < n ==> !is_full(#[trigger] specs[k]),
        },
    decreases n,
{
    if n > 0 && !is_full(specs[n - 1]) {
        lemma_last_full_after(specs, n - 1);
    }
}

/// The spec whose type and values the const spec with index `i` uses: the
/// spec itself where it is full, else the nearest full spec before it.
pub open spec fn effective_spec(specs: Seq<Spec>, i: int) -> Option<usize> {
    last_full_after(specs, i + 1)
}

/// The declaration record of the name with index `i` of a const spec that
/// uses the type and the values of the spec `eff`, which is given with its
/// place: the record names the type of that spec, where it has one, and its
/// value with index `i`, where it has that many.
pub open spec fn const_decl_info(
    file_scope: ScopeKey,
    eff: Option<(SpecRef, &ValueSpec)>,
    i: int,
) -> DeclInfo {
    DeclInfo {
        file_scope,
        lhs: None,
        typ: match eff {
            Some((r, v)) => if v.typ is Some {
                Some(ExprRef { spec: r, slot: ExprSlot::Typ })
            } else {
                None
            },
            None => None,
        },
        init: match eff {
            Some((r, v)) => if i < v.values@.len() {
                Some(ExprRef { spec: r, slot: ExprSlot::Value(i as usize) })
            } else {
                None
            },
            None => None,
        },
        fdecl: None,
    }
}

/// The constant that the identifier `name` of a const spec with index
/// `iota` declares: its ordinal is the index of its spec.
pub open spec fn const_object(c: CheckerView, arena: &AstObjects, name: IdentKey, iota: usize)
    -> LangObjView {
    LangObjView {
        kind: EntityType::Const { val: iota },
        pkg: Some(c.pkg),
        name: arena.ident(name).name@,
        pos: arena.ident(name).pos,
        typ: None,
        order: 0,
    }
}

impl CheckerView {
    /// The state after the first `n` names of the const spec `vs` are
    /// declared, one constant for each name, from left to right.
    pub open spec fn declare_consts(
        self,
        arena: &AstObjects,
        vs: &ValueSpec,
        iota: usize,
        file_scope: ScopeKey,
        eff: Option<(SpecRef, &ValueSpec)>,
        n: int,
    ) -> CheckerView
        decreases n,
    {
        if n <= 0 {
            self
        } else {
            let c = self.declare_consts(arena, vs, iota, file_scope, eff, n - 1);
            let name = vs.names@[n - 1];
            let okey = ObjKey(c.objs.lobjs.len() as usize);
            (CheckerView { objs: c.objs.add_obj(const_object(c, arena, name, iota)), ..c }).declare_pkg_obj(
                arena,
                name,
                okey,
                const_decl_info(file_scope, eff, n - 1),
            )
        }
    }

    /// The state after the const spec `vs` is taken in: its names are
    /// declared, and then what is wrong with the number of its values is
    /// reported.
    pub open spec fn const_spec(
        self,
        arena: &AstObjects,
        vs: &ValueSpec,
        iota: usize,
        file_scope: ScopeKey,
        eff: Option<(SpecRef, &ValueSpec)>,
    ) -> CheckerView {
        let c = self.declare_consts(arena, vs, iota, file_scope, eff, vs.names@.len() as int);
        let init = match eff {
            Some((_, v)) => Some(v),
            None => None,
        };
        match arity_error(arena, vs, init) {
            Some(d) => c.error(d.pos, d.kind),
            None => c,
        }
    }

    /// The state after the exported ones among the first `n` of `elems`
    /// are declared in `file_scope`.
    pub open spec fn merge_exported(self, file_scope: ScopeKey, elems: Seq<ObjKey>, n: int) -> CheckerView
        decreases n,
    {
        if n <= 0 {
            self
        } else {
            let c = self.merge_exported(file_scope, elems, n - 1);
            if is_exported(c.objs.obj(elems[n - 1]).name) {
                c.declare(file_scope, None, elems[n - 1])
            } else {
                c
            }
        }
    }

    /// The state after `imp` is put among the imports of the package,
    /// unless it is among them.
    pub open spec fn note_import(self, imp: PackageKey) -> CheckerView {
        if self.objs.pkg(self.pkg).imports.contains(imp) {
            self
        } else {
            CheckerView { objs: self.objs.add_import(self.pkg, imp), ..self }
        }
    }
}

/// The key under which the import `is` of `file` is cached, where the
/// literal of the import names a path.
pub open spec fn import_key(
    entries: Seq<(Seq<char>, int, int)>,
    arena: &AstObjects,
    file: &File,
    is: &ImportSpec,
) -> Option<ImportKeyView> {
    match import_path(is.path.value@) {
        Ok(path) => Some(ImportKeyView { path, dir: file_dir_of(entries, arena, file) }),
        Err(_) => None,
    }
}

/// The name under which the import `is` of the package `imp` is known in
/// its file: the name that the import gives, or the package's own.
pub open spec fn import_name(c: CheckerView, arena: &AstObjects, is: &ImportSpec, imp: PackageKey)
    -> Seq<char> {
    match is.name {
        Some(k) => arena.ident(k).name@,
        None => c.objs.pkg(imp).name,
    }
}

/// The state after the import `is`, which stands at `sref` and starts at
/// `spec_pos`, is taken in.
///
/// A literal that names no path is reported and nothing else happens. Else
/// the package in the cache is put among the imports of the package. An
/// import under the name `init` is reported, at the name, and declares
/// nothing. Else an object for the package is made. Under the name `.` the
/// exported objects of the package are declared in the file scope, in
/// place of the object, and the import is recorded; else the object is
/// declared in the file scope.
pub open spec fn import_spec(
    st: PassState,
    entries: Seq<(Seq<char>, int, int)>,
    arena: &AstObjects,
    file: &File,
    is: &ImportSpec,
    sref: SpecRef,
    spec_pos: Pos,
) -> PassState {
    let file_scope = st.cur.file_scope->0;
    match import_key(entries, arena, file, is) {
        None => PassState { c: st.c.valid_import_path(&*is.path, sref), ..st },
        Some(key) => {
            let imp = st.c.cached_package(key)->0;
            let c1 = st.c.note_import(imp);
            let name = import_name(c1, arena, is, imp);
            if is.name is Some && name == "init"@ {
                PassState {
                    c: c1.error(arena.ident(is.name->0).pos, ErrorKind::CannotDeclareInit),
                    ..st
                }
            } else {
                let okey = ObjKey(c1.objs.lobjs.len() as usize);
                let obj = LangObjView {
                    kind: EntityType::PkgName { imported: imp },
                    pkg: Some(c1.pkg),
                    name,
                    pos: spec_pos,
                    typ: None,
                    order: 0,
                };
                let c2 = CheckerView { objs: c1.objs.add_obj(obj), ..c1 };
                let c3 = match is.name {
                    Some(k) => c2.record_def(Some(k), okey),
                    None => CheckerView { implicits: c2.implicits.push((sref, okey)), ..c2 },
                };
                if name == "."@ {
                    let elems = c3.objs.scope(c3.objs.pkg(imp).scope).elems;
                    PassState {
                        c: c3.merge_exported(file_scope, elems, elems.len() as int),
                        dots: st.dots.push((file_scope, imp, spec_pos)),
                        ..st
                    }
                } else {
                    PassState { c: c3.declare(file_scope, None, okey), ..st }
                }
            }
        },
    }
}

/// A change of the state that leaves the cache and the declaration records
/// alone, adds to the arenas and renumbers no object keeps the state sound.
pub proof fn lemma_wf_frame(c: CheckerView, d: CheckerView)
    requires
        c.wf(),
        d.objs.wf(),
        d.pkg == c.pkg,
        d.imp_map == c.imp_map,
        d.obj_map == c.obj_map,
        d.objs.pkgs.len() >= c.objs.pkgs.len(),
        d.objs.lobjs.len() >= c.objs.lobjs.len(),
        d.objs.decls.len() >= c.objs.decls.len(),
        forall|k: int|
            0 <= k < c.objs.lobjs.len() ==> (#[trigger] d.objs.lobjs[k]).order
                == c.objs.lobjs[k].order,
    ensures
        d.wf(),
{
    assert forall|i: int| 0 <= i < d.imp_map.len() implies d.objs.has_pkg(
        (#[trigger] d.imp_map[i]).1,
    ) by {
        assert(c.objs.has_pkg(c.imp_map[i].1));
    }
    assert forall|i: int| 0 <= i < d.obj_map.len() implies {
        &&& d.objs.has_obj((#[trigger] d.obj_map[i]).0)
        &&& d.objs.obj(d.obj_map[i].0).order == i + 1
        &&& d.obj_map[i].1.0 < d.objs.decls.len()
    } by {
        assert(c.objs.has_obj(c.obj_map[i].0));
    }
}

/// The span of the scope of `file`, with the label of the scope: the range
/// and the name of the source file that the start of `file` belongs to, or
/// the span of the syntax tree where the file set has no such file.
pub open spec fn file_extent(entries: Seq<(Seq<char>, int, int)>, arena: &AstObjects, file: &File)
    -> (Pos, Pos, Seq<char>) {
    match entry_at(entries, file.spec_pos()) {
        Some(e) => (e.1 as usize, (e.1 + e.2) as usize, e.0),
        None => (file.package, file.spec_end(arena) as usize, Seq::empty()),
    }
}

/// The pass has gone through all files.
pub open spec fn done(st: PassState, files: Seq<File>) -> bool {
    st.cur.file >= files.len()
}

/// The cursor stands in the files: at a file that is not open yet, or in
/// an open file at a declaration or after the last one, and in a
/// declaration with specs at a spec or after the last one.
pub open spec fn cursor_wf(cur: Cursor, files: Seq<File>) -> bool {
    &&& cur.file <= files.len() <= usize::MAX
    &&& cur.file < files.len() ==> {
        let decls = files[cur.file as int].decls@;
        match cur.file_scope {
            None => cur.decl == 0 && cur.spec == 0 && cur.last_full is None,
            Some(_) => {
                &&& cur.decl <= decls.len()
                &&& if cur.decl < decls.len() && decls[cur.decl as int] is Gen {
                    let specs = decls[cur.decl as int]->Gen_0.specs@;
                    cur.spec <= specs.len() && cur.last_full == last_full_after(
                        specs,
                        cur.spec as int,
                    )
                } else {
                    cur.spec == 0 && cur.last_full is None
                }
            },
        }
    }
}

/// The state of the pass is sound: the state of the check is, the cursor
/// stands in the files, and the scope of the open file is a scope of the
/// arena other than the scope of the package.
pub open spec fn pass_wf(st: PassState, files: Seq<File>) -> bool {
    &&& st.c.wf()
    &&& cursor_wf(st.cur, files)
    &&& st.cur.file_scope matches Some(s) ==> st.c.objs.has_scope(s) && s != st.c.pkg_scope()
}

/// The spec that the cursor stands at, where it stands at one.
pub open spec fn spec_at(cur: Cursor, files: Seq<File>) -> Option<Spec> {
    if cur.file < files.len() && cur.file_scope is Some {
        let decls = files[cur.file as int].decls@;
        if cur.decl < decls.len() && decls[cur.decl as int] is Gen {
            let specs = decls[cur.decl as int]->Gen_0.specs@;
            if cur.spec < specs.len() {
                Some(specs[cur.spec as int])
            } else {
                None
            }
        } else {
            None
        }
    } else {
        None
    }
}

/// The import that the pass needs before it can go on: the cursor stands
/// at an import whose literal names a path, and the cache does not hold
/// the import's key. Given are the key and the position of the literal.
pub open spec fn blocked(
    st: PassState,
    files: Seq<File>,
    arena: &AstObjects,
    entries: Seq<(Seq<char>, int, int)>,
) -> Option<(ImportKeyView, Pos)> {
    match spec_at(st.cur, files) {
        Some(Spec::Import(is)) => match import_key(entries, arena, &files[st.cur.file as int], &*is) {
            Some(key) => if st.c.cached_package(key) is None {
                Some((key, is.path.pos))
            } else {
                None
            },
            None => None,
        },
        _ => None,
    }
}

/// The state after the file that the cursor stands at is opened: the file
/// gets a scope of its own under the scope of the package, and the scope
/// is recorded for the file.
pub open spec fn open_file(
    st: PassState,
    files: Seq<File>,
    arena: &AstObjects,
    entries: Seq<(Seq<char>, int, int)>,
) -> PassState {
    let file = files[st.cur.file as int];
    let (pos, end, label) = file_extent(entries, arena, &file);
    let scope = ScopeKey(st.c.objs.scopes.len() as usize);
    PassState {
        c: CheckerView {
            objs: st.c.objs.new_scope(Some(st.c.pkg_scope()), pos, end, label),
            scopes: st.c.scopes.push((st.cur.file, scope)),
            ..st.c
        },
        cur: Cursor { file_scope: Some(scope), decl: 0, spec: 0, last_full: None, ..st.cur },
        ..st
    }
}

/// The state after the spec `spec`, at which the cursor stands, is taken
/// in. `token` is the keyword of the declaration.
///
/// An import is resolved; the names of a const spec are declared; a var
/// spec and a type spec are left to a later pass; a value spec under any
/// other keyword is reported. The index of the spec in its declaration is
/// the ordinal of the constants that it declares.
pub open spec fn take_spec(
    st: PassState,
    files: Seq<File>,
    arena: &AstObjects,
    entries: Seq<(Seq<char>, int, int)>,
    token: Token,
    specs: Seq<Spec>,
) -> PassState {
    let cur = st.cur;
    let spec = specs[cur.spec as int];
    let sref = SpecRef { file: cur.file, decl: cur.decl, spec: cur.spec };
    let spec_pos = spec.spec_pos(arena) as usize;
    let next = Cursor {
        spec: (cur.spec + 1) as usize,
        last_full: last_full_after(specs, cur.spec + 1),
        ..cur
    };
    let st1 = match spec {
        Spec::Import(is) => import_spec(
            st,
            entries,
            arena,
            &files[cur.file as int],
            &*is,
            sref,
            spec_pos,
        ),
        Spec::Value(vs) => match token {
            Token::CONST => {
                let eff = match effective_spec(specs, cur.spec as int) {
                    Some(j) => Some((SpecRef { spec: j, ..sref }, &*specs[j as int]->Value_0)),
                    None => None,
                };
                PassState {
                    c: st.c.const_spec(arena, &*vs, cur.spec, cur.file_scope->0, eff),
                    ..st
                }
            },
            Token::VAR => st,
            _ => PassState { c: st.c.error(spec_pos, ErrorKind::InvalidToken { token }), ..st },
        },
        Spec::Type(_) => st,
    };
    PassState { cur: next, ..st1 }
}

/// The state after one step of the pass, which is neither done nor
/// blocked.
pub open spec fn step(
    st: PassState,
    files: Seq<File>,
    arena: &AstObjects,
    entries: Seq<(Seq<char>, int, int)>,
) -> PassState {
    let cur = st.cur;
    let decls = files[cur.file as int].decls@;
    if cur.file_scope is None {
        open_file(st, files, arena, entries)
    } else if cur.decl >= decls.len() {
        PassState {
            cur: Cursor {
                file: (cur.file + 1) as usize,
                decl: 0,
                spec: 0,
                file_scope: None,
                last_full: None,
            },
            ..st
        }
    } else {
        let next_decl = PassState {
            cur: Cursor { decl: (cur.decl + 1) as usize, spec: 0, last_full: None, ..cur },
            ..st
        };
        match decls[cur.decl as int] {
            Decl::Gen(g) => if cur.spec >= g.specs@.len() {
                next_decl
            } else {
                take_spec(st, files, arena, entries, g.token, g.specs@)
            },
            _ => next_decl,
        }
    }
}

/// Where the cursor stands after one step.
pub open spec fn next_cursor(cur: Cursor, files: Seq<File>, scopes: nat) -> Cursor {
    let decls = files[cur.file as int].decls@;
    if cur.file_scope is None {
        Cursor {
            file_scope: Some(ScopeKey(scopes as usize)),
            decl: 0,
            spec: 0,
            last_full: None,
            ..cur
        }
    } else if cur.decl >= decls.len() {
        Cursor { file: (cur.file + 1) as usize, decl: 0, spec: 0, file_scope: None, last_full: None }
    } else if decls[cur.decl as int] is Gen && cur.spec < decls[cur.decl as int]->Gen_0.specs@.len() {
        Cursor {
            spec: (cur.spec + 1) as usize,
            last_full: last_full_after(decls[cur.decl as int]->Gen_0.specs@, cur.spec + 1),
            ..cur
        }
    } else {
        Cursor { decl: (cur.decl + 1) as usize, spec: 0, last_full: None, ..cur }
    }
}

/// A step moves the cursor on, and leaves it standing in the files.
pub proof fn lemma_step_cursor(
    st: PassState,
    files: Seq<File>,
    arena: &AstObjects,
    entries: Seq<(Seq<char>, int, int)>,
)
    requires
        !done(st, files),
        cursor_wf(st.cur, files),
    ensures
        step(st, files, arena, entries).cur == next_cursor(st.cur, files, st.c.objs.scopes.len()),
        cursor_wf(step(st, files, arena, entries).cur, files),
        ({
            let a = st.cur;
            let b = step(st, files, arena, entries).cur;
            ||| files_left(b, files) < files_left(a, files)
            ||| (files_left(b, files) == files_left(a, files) && decls_left(b, files) < decls_left(
                a,
                files,
            ))
            ||| (files_left(b, files) == files_left(a, files) && decls_left(b, files) == decls_left(
                a,
                files,
            ) && specs_left(b, files) < specs_left(a, files))
        }),
        files_left(step(st, files, arena, entries).cur, files) >= 0,
        decls_left(step(st, files, arena, entries).cur, files) >= 0,
        specs_left(step(st, files, arena, entries).cur, files) >= 0,
{
    let cur = st.cur;
    let decls = files[cur.file as int].decls;
    let b = next_cursor(cur, files, st.c.objs.scopes.len());
    assert(decls@.len() == decls.len());
    if cur.file_scope is Some && cur.decl < decls@.len() {
        match decls@[cur.decl as int] {
            Decl::Gen(g) => {
                assert(g.specs@.len() == g.specs.len());
                if cur.spec < g.specs@.len() {
                    let spec = g.specs@[cur.spec as int];
                    match spec {
                        Spec::Import(is) => {},
                        Spec::Value(vs) => {},
                        Spec::Type(_) => {},
                    }
                }
            },
            _ => {},
        }
    }
    assert(step(st, files, arena, entries).cur == b);
    if b.file == cur.file && b.file_scope is Some && b.decl < decls@.len() && b.decl != cur.decl
        || cur.file_scope is None {
        if b.decl < decls@.len() && decls@[b.decl as int] is Gen {
            assert(last_full_after(decls@[b.decl as int]->Gen_0.specs@, 0) is None);
        }
    }
}

/// How many files the pass has not gone through.
pub open spec fn files_left(cur: Cursor, files: Seq<File>) -> int {
    files.len() - cur.file
}

/// How much of the file at the cursor the pass has not gone through.
pub open spec fn decls_left(cur: Cursor, files: Seq<File>) -> int {
    if cur.file < files.len() {
        let n = files[cur.file as int].decls@.len() as int;
        match cur.file_scope {
            None => n + 1,
            Some(_) => n - cur.decl,
        }
    } else {
        0
    }
}

/// How many specs of the declaration at the cursor the pass has not gone
/// through.
pub open spec fn specs_left(cur: Cursor, files: Seq<File>) -> int {
    if cur.file < files.len() && cur.file_scope is Some {
        let decls = files[cur.file as int].decls@;
        if cur.decl < decls.len() && decls[cur.decl as int] is Gen {
            decls[cur.decl as int]->Gen_0.specs@.len() - cur.spec
        } else {
            0
        }
    } else {
        0
    }
}

/// The state in which the pass stops when it starts in `st`: the first
/// state on its way in which it is done or blocked.
pub open spec fn run(
    st: PassState,
    files: Seq<File>,
    arena: &AstObjects,
    entries: Seq<(Seq<char>, int, int)>,
) -> PassState
    decreases files_left(st.cur, files), decls_left(st.cur, files), specs_left(st.cur, files),
{
    if done(st, files) || !cursor_wf(st.cur, files) || blocked(st, files, arena, entries) is Some {
        st
    } else {
        proof {
            lemma_step_cursor(st, files, arena, entries);
        }
        run(step(st, files, arena, entries), files, arena, entries)
    }
}


/// The spec at the place `r` in `files` is a const spec: a value spec of a
/// declaration with the keyword const.
pub open spec fn is_const_spec(files: Seq<File>, r: SpecRef) -> bool {
    &&& r.file < files.len()
    &&& r.decl < files[r.file as int].decls@.len()
    &&& files[r.file as int].decls@[r.decl as int] matches Decl::Gen(g)
    &&& g.token == Token::CONST
    &&& r.spec < g.specs@.len()
    &&& g.specs@[r.spec as int] is Value
}

/// The spec whose type and values the const spec at `r` uses, with its
/// place.
pub open spec fn effective_at<'a>(files: Seq<File>, r: SpecRef) -> Option<(SpecRef, &'a ValueSpec)> {
    let specs = files[r.file as int].decls@[r.decl as int]->Gen_0.specs@;
    match effective_spec(specs, r.spec as int) {
        Some(j) => Some((SpecRef { spec: j, ..r }, &*specs[j as int]->Value_0)),
        None => None,
    }
}

impl CheckerView {
    /// The object `o` has a declaration record that names the type and the
    /// value that the name with index `k` of a const spec has from the
    /// spec `eff`.
    pub open spec fn has_const_record(self, o: ObjKey, eff: Option<(SpecRef, &ValueSpec)>, k: int)
        -> bool {
        exists|j: int|
            0 <= j < self.obj_map.len() && (#[trigger] self.obj_map[j]).0 == o && self.obj_map[j].1.0
                < self.objs.decls.len() && ({
                let d = self.objs.decls[self.obj_map[j].1.0 as int];
                let info = const_decl_info(d.file_scope, eff, k);
                d == info
            })
    }

    /// The object `o` is the constant of the name `name`, the name with
    /// index `k` of a const spec with index `iota` that uses the type and
    /// the values of the spec `eff`: it is a constant with the ordinal
    /// `iota`, called and placed as the name is, and where the name may be
    /// declared it has the declaration record of the name.
    pub open spec fn is_const_of(
        self,
        arena: &AstObjects,
        o: ObjKey,
        name: IdentKey,
        iota: usize,
        eff: Option<(SpecRef, &ValueSpec)>,
        k: int,
    ) -> bool {
        &&& self.objs.has_obj(o)
        &&& self.objs.obj(o).kind == EntityType::Const { val: iota }
        &&& self.objs.obj(o).name == arena.ident(name).name@
        &&& self.objs.obj(o).pos == arena.ident(name).pos
        &&& self.may_declare(arena.ident(name)) ==> self.has_const_record(o, eff, k)
    }

    /// The name with index `k` of a const spec has its constant.
    pub open spec fn const_declared(
        self,
        arena: &AstObjects,
        name: IdentKey,
        iota: usize,
        eff: Option<(SpecRef, &ValueSpec)>,
        k: int,
    ) -> bool {
        exists|o: ObjKey| #[trigger] self.is_const_of(arena, o, name, iota, eff, k)
    }

    /// Every name of the const spec at `r` has its constant: its ordinal is
    /// the index of the spec in its declaration, and its declaration record
    /// names the type and the value of the spec whose type and values the
    /// const spec uses.
    pub open spec fn consts_declared(self, arena: &AstObjects, files: Seq<File>, r: SpecRef) -> bool {
        let vs = files[r.file as int].decls@[r.decl as int]->Gen_0.specs@[r.spec as int]->Value_0;
        forall|k: int|
            0 <= k < vs.names@.len() ==> #[trigger] self.const_declared(
                arena,
                vs.names@[k],
                r.spec,
                effective_at(files, r),
                k,
            )
    }
}

/// The place `r` lies at or after the cursor `from` and before the cursor
/// `to`: the pass has gone through the spec there on its way from the one
/// to the other.
pub open spec fn passed(from: Cursor, to: Cursor, r: SpecRef) -> bool {
    &&& r.file > from.file || (r.file == from.file && (r.decl > from.decl || (r.decl == from.decl
        && r.spec >= from.spec)))
    &&& r.file < to.file || (r.file == to.file && (r.decl < to.decl || (r.decl == to.decl && r.spec
        < to.spec)))
}


/// The spec at the place `r` in `files` is an import under the name `.`
/// whose literal names a path.
pub open spec fn is_dot_import(files: Seq<File>, arena: &AstObjects, r: SpecRef) -> bool {
    &&& r.file < files.len()
    &&& r.decl < files[r.file as int].decls@.len()
    &&& files[r.file as int].decls@[r.decl as int] matches Decl::Gen(g)
    &&& r.spec < g.specs@.len()
    &&& g.specs@[r.spec as int] matches Spec::Import(is)
    &&& import_path(is.path.value@) is Ok
    &&& is.name matches Some(n)
    &&& arena.ident(n).name@ == "."@
}

/// `fs` is the scope of the file with index `f`: the scope that the pass
/// has recorded for the file, or the scope of the file that was open when
/// the pass set out from `from`.
pub open spec fn scope_of_file(from: Cursor, c: CheckerView, f: usize, fs: ScopeKey) -> bool {
    ||| f == from.file && from.file_scope == Some(fs)
    ||| exists|i: int| 0 <= i < c.scopes.len() && #[trigger] c.scopes[i] == (f, fs)
}

/// The import under the name `.` at the place `r` is among the recorded
/// ones: with the scope of its file, the package that the cache holds for
/// it, and the position at which the import starts.
pub open spec fn dot_recorded(
    from: Cursor,
    c: CheckerView,
    dots: Seq<(ScopeKey, PackageKey, Pos)>,
    files: Seq<File>,
    arena: &AstObjects,
    entries: Seq<(Seq<char>, int, int)>,
    r: SpecRef,
) -> bool {
    let spec = files[r.file as int].decls@[r.decl as int]->Gen_0.specs@[r.spec as int];
    let key = import_key(entries, arena, &files[r.file as int], &*spec->Import_0)->0;
    exists|i: int|
        0 <= i < dots.len() && scope_of_file(from, c, r.file, (#[trigger] dots[i]).0)
            && c.cached_package(key) == Some(dots[i].1) && dots[i].2 == spec.spec_pos(arena)
}


/// The import under the name `.` at the place `r` has brought the exported
/// objects of its package into the scope of its file: there is a number
/// `n`, the number of objects that the scope of the package held when it
/// was imported, such that the name of each of the first `n` objects of
/// that scope, if it is exported and not `_`, is bound in the file scope to
/// an object of that name.
pub open spec fn dot_merged(
    from: Cursor,
    c: CheckerView,
    files: Seq<File>,
    arena: &AstObjects,
    entries: Seq<(Seq<char>, int, int)>,
    r: SpecRef,
) -> bool {
    let spec = files[r.file as int].decls@[r.decl as int]->Gen_0.specs@[r.spec as int];
    let key = import_key(entries, arena, &files[r.file as int], &*spec->Import_0)->0;
    exists|fs: ScopeKey, n: int| #[trigger]
        merged_into(from, c, r.file, c.cached_package(key), fs, n)
}

/// The first `n` objects of the scope of the package `imp` are merged into
/// `fs`, the scope of the file with index `f`.
pub open spec fn merged_into(
    from: Cursor,
    c: CheckerView,
    f: usize,
    imp: Option<PackageKey>,
    fs: ScopeKey,
    n: int,
) -> bool {
    &&& imp matches Some(q)
    &&& c.objs.has_pkg(q)
    &&& c.objs.has_scope(fs)
    &&& scope_of_file(from, c, f, fs)
    &&& 0 <= n <= c.objs.scope(c.objs.pkg(q).scope).elems.len()
    &&& forall|i: int|
        0 <= i < n ==> name_merged(c, fs, #[trigger] c.objs.scope(c.objs.pkg(q).scope).elems[i])
}

/// The name of the object `o`, if it is exported and not `_`, is bound in
/// `fs` to an object of that name.
pub open spec fn name_merged(c: CheckerView, fs: ScopeKey, o: ObjKey) -> bool {
    let name = c.objs.obj(o).name;
    is_exported(name) && name != "_"@ ==> (c.objs.lookup(fs, name) matches Some(k) && c.objs.obj(k).name
        == name)
}

} // verus!
