//! Laws of the collection of declarations: what holds of every state and
//! of every input, stated over the functions that say what the pass does.

use vstd::prelude::*;
use crate::ast::{AstObjects, File, Spec, ValueSpec};
use crate::check::checker::CheckerView;
use crate::check::model::{
    blocked, const_decl_info, cursor_wf, done, effective_spec, import_key, is_full,
    last_full_after, lemma_last_full_after, lemma_step_cursor, run, step, PassState,
};
use crate::check::resolver::{lemma_import_package_wf, lemma_merge_exported_wf};
use crate::importer::ImportKeyView;
use crate::obj::{is_exported, EntityType, LangObjView};
use crate::objects::{find_name, ObjKey, PackageKey, ScopeKey};
use crate::package::{DeclInfo, SpecRef};
use crate::position::Pos;

verus! {

/// A const spec with a type or with values uses its own. A const spec
/// without either uses the type and the values of the nearest spec before
/// it, in the same declaration, that has a type or values; where there is
/// no such spec, it uses none.
pub proof fn lemma_effective_spec(specs: Seq<Spec>, i: int)
    requires
        0 <= i < specs.len() <= usize::MAX,
    ensures
        is_full(specs[i]) ==> effective_spec(specs, i) == Some(i as usize),
        !is_full(specs[i]) ==> match effective_spec(specs, i) {
            Some(j) => {
                &&& 0 <= j < i
                &&& is_full(specs[j as int])
                &&& forall|k: int| j < k < i ==> !is_full(#[trigger] specs[k])
            },
            None => forall|k: int| 0 <= k < i ==> !is_full(#[trigger] specs[k]),
        },
{
    lemma_last_full_after(specs, i);
    assert(last_full_after(specs, i + 1) == if is_full(specs[i]) {
        Some(i as usize)
    } else {
        last_full_after(specs, i)
    });
}

/// `rec` is the declaration record of one of the first `n` names of a const
/// spec that uses the type and the values of the spec `eff`.
pub open spec fn is_const_record(
    file_scope: ScopeKey,
    eff: Option<(SpecRef, &ValueSpec)>,
    n: int,
    rec: DeclInfo,
) -> bool {
    exists|i: int| 0 <= i < n && #[trigger] const_decl_info(file_scope, eff, i) == rec
}

/// A const spec makes one constant for each of its names, in the order of
/// the names. The ordinal of each is the index of the spec in its
/// declaration, whichever spec its type and values come from; its name and
/// position are those of the identifier. The objects that were there stay
/// as they are. Every declaration record that is added is the record of
/// one of the names: it names the type and a value of the spec whose type
/// and values the const spec uses.
pub proof fn lemma_const_objects(
    c: CheckerView,
    arena: &AstObjects,
    vs: &ValueSpec,
    iota: usize,
    file_scope: ScopeKey,
    eff: Option<(SpecRef, &ValueSpec)>,
    n: int,
)
    requires
        c.wf(),
        0 <= n <= vs.names@.len(),
        c.objs.lobjs.len() + n <= usize::MAX,
        c.obj_map.len() + n <= usize::MAX,
    ensures
        ({
            let d = c.declare_consts(arena, vs, iota, file_scope, eff, n);
            &&& d.wf()
            &&& d.pkg == c.pkg
            &&& d.obj_map.len() <= c.obj_map.len() + n
            &&& d.objs.lobjs.len() == c.objs.lobjs.len() + n
            &&& forall|k: int| 0 <= k < c.objs.lobjs.len() ==> #[trigger] d.objs.lobjs[k] == c.objs.lobjs[k]
            &&& forall|i: int|
                0 <= i < n ==> {
                    let o = #[trigger] d.objs.lobjs[c.objs.lobjs.len() + i];
                    &&& o.kind == EntityType::Const { val: iota }
                    &&& o.name == arena.ident(vs.names@[i]).name@
                    &&& o.pos == arena.ident(vs.names@[i]).pos
                    &&& o.pkg == Some(c.pkg)
                }
            &&& c.objs.decls.len() <= d.objs.decls.len()
            &&& forall|k: int|
                0 <= k < c.objs.decls.len() ==> #[trigger] d.objs.decls[k] == c.objs.decls[k]
            &&& forall|k: int|
                c.objs.decls.len() <= k < d.objs.decls.len() ==> is_const_record(
                    file_scope,
                    eff,
                    n,
                    #[trigger] d.objs.decls[k],
                )
        }),
    decreases n,
{
    if n > 0 {
        lemma_const_objects(c, arena, vs, iota, file_scope, eff, n - 1);
        let c1 = c.declare_consts(arena, vs, iota, file_scope, eff, n - 1);
        let name = vs.names@[n - 1];
        let okey = ObjKey(c1.objs.lobjs.len() as usize);
        let obj = crate::check::model::const_object(c1, arena, name, iota);
        let c2 = CheckerView { objs: c1.objs.add_obj(obj), ..c1 };
        crate::objects::lemma_add_obj_wf(c1.objs, obj);
        crate::check::model::lemma_wf_frame(c1, c2);
        let info = const_decl_info(file_scope, eff, n - 1);
        crate::check::resolver::lemma_declare_pkg_obj_wf(c2, arena, name, okey, info);
        crate::check::resolver::lemma_declare_pkg_obj_frame(c2, arena, name, okey, info);
        assert(c2.objs.pkg_wf(c2.pkg.0 as int));
        crate::check::checker::lemma_declare_wf(c2, c2.pkg_scope(), Some(name), okey);
        let d = c.declare_consts(arena, vs, iota, file_scope, eff, n);
        assert(d == c2.declare_pkg_obj(arena, name, okey, info));
        assert forall|k: int| 0 <= k < c.objs.lobjs.len() implies #[trigger] d.objs.lobjs[k]
            == c.objs.lobjs[k] by {
            assert(c1.objs.lobjs[k] == c.objs.lobjs[k]);
            assert(c2.objs.lobjs[k] == c1.objs.lobjs[k]);
        }
        assert forall|k: int| 0 <= k < c.objs.decls.len() implies #[trigger] d.objs.decls[k]
            == c.objs.decls[k] by {
            assert(c1.objs.decls[k] == c.objs.decls[k]);
        }
        assert forall|k: int| c.objs.decls.len() <= k < d.objs.decls.len() implies is_const_record(
            file_scope,
            eff,
            n,
            #[trigger] d.objs.decls[k],
        ) by {
            if k < c1.objs.decls.len() {
                assert(is_const_record(file_scope, eff, n - 1, c1.objs.decls[k]));
                let i = choose|i: int|
                    0 <= i < n - 1 && #[trigger] const_decl_info(file_scope, eff, i)
                        == c1.objs.decls[k];
                assert(d.objs.decls[k] == c1.objs.decls[k]);
                assert(0 <= i < n && const_decl_info(file_scope, eff, i) == d.objs.decls[k]);
            } else {
                assert(const_decl_info(file_scope, eff, n - 1) == d.objs.decls[k]);
            }
        }
        assert forall|i: int| 0 <= i < n implies {
            let o = #[trigger] d.objs.lobjs[c.objs.lobjs.len() + i];
            &&& o.kind == EntityType::Const { val: iota }
            &&& o.name == arena.ident(vs.names@[i]).name@
            &&& o.pos == arena.ident(vs.names@[i]).pos
            &&& o.pkg == Some(c.pkg)
        } by {
            if i < n - 1 {
                let o1 = c1.objs.lobjs[c.objs.lobjs.len() + i];
                assert(c2.objs.lobjs[c.objs.lobjs.len() + i] == o1);
            }
        }
    }
}

/// The import cache answers the same every time: once the outcome of an
/// import has been taken in, the import stands for the same package
/// whatever outcome is handed in for it again, and handing one in changes
/// nothing. So an import that failed is reported once, and a package is
/// asked for at most once.
pub proof fn lemma_import_idempotent(
    c: CheckerView,
    pos: Pos,
    key: ImportKeyView,
    imported: Result<PackageKey, ()>,
    pos2: Pos,
    imported2: Result<PackageKey, ()>,
)
    requires
        c.wf(),
        imported matches Ok(p) ==> c.objs.has_pkg(p),
        c.objs.pkgs.len() <= usize::MAX,
        c.objs.scopes.len() <= usize::MAX,
    ensures
        ({
            let c1 = c.import_package(pos, key, imported);
            &&& c1.cached_package(key) == Some(c.imported_package(key, imported))
            &&& c1.imported_package(key, imported2) == c.imported_package(key, imported)
            &&& c1.import_package(pos2, key, imported2) == c1
        }),
{
    lemma_import_package_wf(c, pos, key, imported);
}

/// The first binding of a name in a list of bindings stays the first when
/// a binding is added at the end; a name that was not bound is bound by the
/// added binding if that has the name.
pub proof fn lemma_find_name_push(
    lobjs: Seq<LangObjView>,
    elems: Seq<ObjKey>,
    k: ObjKey,
    name: Seq<char>,
)
    ensures
        find_name(lobjs, elems.push(k), name) == match find_name(lobjs, elems, name) {
            Some(o) => Some(o),
            None => if lobjs[k.0 as int].name == name {
                Some(k)
            } else {
                None
            },
        },
    decreases elems.len(),
{
    let more = elems.push(k);
    if elems.len() == 0 {
        assert(more.drop_first() =~= Seq::<ObjKey>::empty());
        assert(find_name(lobjs, more.drop_first(), name) is None);
    } else {
        assert(more[0] == elems[0]);
        assert(more.drop_first() =~= elems.drop_first().push(k));
        if lobjs[elems[0].0 as int].name != name {
            lemma_find_name_push(lobjs, elems.drop_first(), k, name);
        }
    }
}

/// What a scope binds a name to after an object is declared in it: what it
/// bound the name to before, or, where it bound it to nothing, the object,
/// if that has the name and the name is not `_`.
pub proof fn lemma_lookup_declare(c: CheckerView, scope: ScopeKey, okey: ObjKey, name: Seq<char>)
    requires
        c.objs.has_scope(scope),
    ensures
        c.declare(scope, None, okey).objs.lookup(scope, name) == match c.objs.lookup(scope, name) {
            Some(o) => Some(o),
            None => if c.objs.obj(okey).name == name && name != "_"@ {
                Some(okey)
            } else {
                None
            },
        },
{
    let oname = c.objs.obj(okey).name;
    if oname != "_"@ && c.objs.lookup(scope, oname) is None {
        lemma_find_name_push(c.objs.lobjs, c.objs.scope(scope).elems, okey, name);
    }
}

/// What an import under the name `.` brings into the scope of a file.
///
/// `elems` are the objects of the scope of the imported package. After the
/// import, a name that the file scope bound before is bound as before. A
/// name that it did not bind is bound if and only if it is exported, is
/// not `_`, and is the name of an object of the package; and then it is
/// bound to an object of the package with that name. So the exported
/// objects of the package come into the file scope, and no other object
/// does.
pub proof fn lemma_dot_import(
    c: CheckerView,
    file_scope: ScopeKey,
    elems: Seq<ObjKey>,
    n: int,
    name: Seq<char>,
)
    requires
        c.wf(),
        c.objs.has_scope(file_scope),
        0 <= n <= elems.len(),
        forall|i: int| 0 <= i < elems.len() ==> c.objs.has_obj(#[trigger] elems[i]),
    ensures
        ({
            let d = c.merge_exported(file_scope, elems, n);
            match c.objs.lookup(file_scope, name) {
                Some(o) => d.objs.lookup(file_scope, name) == Some(o),
                None => {
                    &&& d.objs.lookup(file_scope, name) is Some <==> (is_exported(name) && name
                        != "_"@ && exists|i: int|
                        0 <= i < n && c.objs.obj(#[trigger] elems[i]).name == name)
                    &&& d.objs.lookup(file_scope, name) matches Some(k) ==> exists|i: int|
                        0 <= i < n && #[trigger] elems[i] == k && c.objs.obj(k).name == name
                },
            }
        }),
    decreases n,
{
    if n > 0 {
        lemma_dot_import(c, file_scope, elems, n - 1, name);
        lemma_merge_exported_wf(c, file_scope, elems, n - 1);
        let c1 = c.merge_exported(file_scope, elems, n - 1);
        let k = elems[n - 1];
        assert(c.objs.has_obj(k));
        let d = c.merge_exported(file_scope, elems, n);
        if is_exported(c1.objs.obj(k).name) {
            lemma_lookup_declare(c1, file_scope, k, name);
        }
        if c.objs.lookup(file_scope, name) is None {
            if d.objs.lookup(file_scope, name) is Some {
                if c1.objs.lookup(file_scope, name) is Some {
                    let i = choose|i: int|
                        0 <= i < n - 1 && c.objs.obj(#[trigger] elems[i]).name == name;
                    assert(0 <= i < n && c.objs.obj(elems[i]).name == name);
                    let kk = c1.objs.lookup(file_scope, name)->0;
                    let j = choose|j: int|
                        0 <= j < n - 1 && #[trigger] elems[j] == kk && c.objs.obj(kk).name == name;
                    assert(0 <= j < n && elems[j] == kk);
                } else {
                    assert(elems[n - 1] == k && c.objs.obj(k).name == name);
                }
            }
            if is_exported(name) && name != "_"@ && exists|i: int|
                0 <= i < n && c.objs.obj(#[trigger] elems[i]).name == name {
                let i = choose|i: int| 0 <= i < n && c.objs.obj(#[trigger] elems[i]).name == name;
                if i < n - 1 {
                    assert(c1.objs.lookup(file_scope, name) is Some);
                }
            }
        }
    }
}

/// The objects with a declaration record are numbered in the order of
/// their declaration: a later one has a greater number, and no two have
/// the same.
pub proof fn lemma_declaration_order(c: CheckerView, i: int, j: int)
    requires
        c.wf(),
        0 <= i < j < c.obj_map.len(),
    ensures
        c.objs.obj(c.obj_map[i].0).order < c.objs.obj(c.obj_map[j].0).order,
        c.obj_map[i].0 != c.obj_map[j].0,
{
}


/// What a step of the pass may do to the state of the check: it leaves the
/// import cache and the package as they are, and it takes back no error.
pub open spec fn keeps(a: CheckerView, b: CheckerView) -> bool {
    &&& b.imp_map == a.imp_map
    &&& b.pkg == a.pkg
    &&& a.errors.is_prefix_of(b.errors)
}

/// Declaring an object reads the import cache and the package and takes
/// back no error.
pub proof fn lemma_declare_keeps(
    c: CheckerView,
    scope: ScopeKey,
    ident: Option<crate::objects::IdentKey>,
    okey: ObjKey,
)
    ensures
        keeps(c, c.declare(scope, ident, okey)),
{
}

/// Declaring the constants of a spec leaves the import cache and the
/// package as they are and takes back no error.
pub proof fn lemma_const_spec_keeps(
    c: CheckerView,
    arena: &AstObjects,
    vs: &ValueSpec,
    iota: usize,
    file_scope: ScopeKey,
    eff: Option<(SpecRef, &ValueSpec)>,
    n: int,
)
    ensures
        keeps(c, c.declare_consts(arena, vs, iota, file_scope, eff, n)),
        n == vs.names@.len() ==> keeps(c, c.const_spec(arena, vs, iota, file_scope, eff)),
    decreases n,
{
    if n > 0 {
        lemma_const_spec_keeps(c, arena, vs, iota, file_scope, eff, n - 1);
        let c1 = c.declare_consts(arena, vs, iota, file_scope, eff, n - 1);
        let name = vs.names@[n - 1];
        let okey = ObjKey(c1.objs.lobjs.len() as usize);
        let c2 = CheckerView {
            objs: c1.objs.add_obj(crate::check::model::const_object(c1, arena, name, iota)),
            ..c1
        };
        lemma_declare_keeps(c2, c2.pkg_scope(), Some(name), okey);
    }
}

/// Merging the exported objects of a package into a file scope leaves the
/// import cache and the package as they are and takes back no error.
pub proof fn lemma_merge_exported_keeps(
    c: CheckerView,
    file_scope: ScopeKey,
    elems: Seq<ObjKey>,
    n: int,
)
    ensures
        keeps(c, c.merge_exported(file_scope, elems, n)),
    decreases n,
{
    if n > 0 {
        lemma_merge_exported_keeps(c, file_scope, elems, n - 1);
        let c1 = c.merge_exported(file_scope, elems, n - 1);
        lemma_declare_keeps(c1, file_scope, None, elems[n - 1]);
    }
}

/// A step of the pass leaves the import cache as it is and takes back no
/// error.
pub proof fn lemma_step_keeps(
    st: PassState,
    files: Seq<File>,
    arena: &AstObjects,
    entries: Seq<(Seq<char>, int, int)>,
)
    ensures
        keeps(st.c, step(st, files, arena, entries).c),
{
    let cur = st.cur;
    let decls = files[cur.file as int].decls@;
    if cur.file_scope is Some && cur.decl < decls.len() {
        match decls[cur.decl as int] {
            crate::ast::Decl::Gen(g) => {
                if cur.spec < g.specs@.len() {
                    let specs = g.specs@;
                    let sref = SpecRef { file: cur.file, decl: cur.decl, spec: cur.spec };
                    match specs[cur.spec as int] {
                        Spec::Import(is) => {
                            let file = files[cur.file as int];
                            match import_key(entries, arena, &file, &*is) {
                                None => {},
                                Some(key) => {
                                    let imp = st.c.cached_package(key)->0;
                                    let c1 = st.c.note_import(imp);
                                    let name = crate::check::model::import_name(
                                        c1,
                                        arena,
                                        &*is,
                                        imp,
                                    );
                                    let okey = ObjKey(c1.objs.lobjs.len() as usize);
                                    let obj = LangObjView {
                                        kind: EntityType::PkgName { imported: imp },
                                        pkg: Some(c1.pkg),
                                        name,
                                        pos: specs[cur.spec as int].spec_pos(arena) as usize,
                                        typ: None,
                                        order: 0,
                                    };
                                    let c2 = CheckerView { objs: c1.objs.add_obj(obj), ..c1 };
                                    let c3 = match is.name {
                                        Some(k) => c2.record_def(Some(k), okey),
                                        None => CheckerView {
                                            implicits: c2.implicits.push((sref, okey)),
                                            ..c2
                                        },
                                    };
                                    let elems = c3.objs.scope(c3.objs.pkg(imp).scope).elems;
                                    lemma_merge_exported_keeps(
                                        c3,
                                        cur.file_scope->0,
                                        elems,
                                        elems.len() as int,
                                    );
                                    lemma_declare_keeps(c3, cur.file_scope->0, None, okey);
                                },
                            }
                        },
                        Spec::Value(vs) => {
                            let eff = match effective_spec(specs, cur.spec as int) {
                                Some(j) => Some(
                                    (SpecRef { spec: j, ..sref }, &*specs[j as int]->Value_0),
                                ),
                                None => None,
                            };
                            lemma_const_spec_keeps(
                                st.c,
                                arena,
                                &*vs,
                                cur.spec,
                                cur.file_scope->0,
                                eff,
                                vs.names@.len() as int,
                            );
                        },
                        Spec::Type(_) => {},
                    }
                }
            },
            _ => {},
        }
    }
}

/// The pass reads the import cache and never writes it, and it takes back
/// no error that was reported. Where it stops without being done, it stands
/// at an import that the cache does not hold.
///
/// With [`lemma_import_idempotent`]: once the outcome of an import has been
/// handed in, the pass never asks for that import again.
pub proof fn lemma_run_keeps(
    st: PassState,
    files: Seq<File>,
    arena: &AstObjects,
    entries: Seq<(Seq<char>, int, int)>,
)
    requires
        cursor_wf(st.cur, files),
    ensures
        keeps(st.c, run(st, files, arena, entries).c),
        cursor_wf(run(st, files, arena, entries).cur, files),
        !done(run(st, files, arena, entries), files) ==> (blocked(
            run(st, files, arena, entries),
            files,
            arena,
            entries,
        ) matches Some((key, _)) && run(st, files, arena, entries).c.cached_package(key) is None),
    decreases
            crate::check::model::files_left(st.cur, files),
            crate::check::model::decls_left(st.cur, files),
            crate::check::model::specs_left(st.cur, files),
{
    if !done(st, files) && blocked(st, files, arena, entries) is None {
        lemma_step_cursor(st, files, arena, entries);
        lemma_step_keeps(st, files, arena, entries);
        lemma_run_keeps(step(st, files, arena, entries), files, arena, entries);
    }
}


/// A constant stays the constant of its name when the state grows.
pub proof fn lemma_const_kept(
    a: CheckerView,
    b: CheckerView,
    arena: &AstObjects,
    o: ObjKey,
    name: crate::objects::IdentKey,
    iota: usize,
    eff: Option<(SpecRef, &ValueSpec)>,
    k: int,
)
    requires
        a.grows_to(b),
        a.objs.has_pkg(a.pkg),
        a.is_const_of(arena, o, name, iota, eff, k),
    ensures
        b.is_const_of(arena, o, name, iota, eff, k),
{
    assert(b.objs.lobjs[o.0 as int] == (LangObjView {
        order: b.objs.lobjs[o.0 as int].order,
        ..a.objs.lobjs[o.0 as int]
    }));
    assert(b.objs.pkgs[a.pkg.0 as int] == (crate::package::PackageValView {
        imports: b.objs.pkgs[a.pkg.0 as int].imports,
        ..a.objs.pkgs[a.pkg.0 as int]
    }));
    if a.may_declare(arena.ident(name)) {
        let j = choose|j: int|
            0 <= j < a.obj_map.len() && (#[trigger] a.obj_map[j]).0 == o && a.obj_map[j].1.0
                < a.objs.decls.len() && ({
                let d = a.objs.decls[a.obj_map[j].1.0 as int];
                d == const_decl_info(d.file_scope, eff, k)
            });
        assert(b.obj_map[j] == a.obj_map[j]);
        assert(b.objs.decls[a.obj_map[j].1.0 as int] == a.objs.decls[a.obj_map[j].1.0 as int]);
    }
}

/// The constants of a const spec stay the constants of its names when the
/// state grows.
pub proof fn lemma_consts_kept(
    a: CheckerView,
    b: CheckerView,
    arena: &AstObjects,
    files: Seq<File>,
    r: SpecRef,
)
    requires
        a.grows_to(b),
        a.objs.has_pkg(a.pkg),
        a.consts_declared(arena, files, r),
    ensures
        b.consts_declared(arena, files, r),
{
    let vs = files[r.file as int].decls@[r.decl as int]->Gen_0.specs@[r.spec as int]->Value_0;
    let eff = crate::check::model::effective_at(files, r);
    assert forall|k: int| 0 <= k < vs.names@.len() implies #[trigger] b.const_declared(
        arena,
        vs.names@[k],
        r.spec,
        eff,
        k,
    ) by {
        assert(a.const_declared(arena, vs.names@[k], r.spec, eff, k));
        let o = choose|o: ObjKey| #[trigger] a.is_const_of(arena, o, vs.names@[k], r.spec, eff, k);
        lemma_const_kept(a, b, arena, o, vs.names@[k], r.spec, eff, k);
    }
}


/// The scope of a file stays the scope of the file when the state grows.
pub proof fn lemma_scope_of_file_kept(
    from: crate::check::checker::Cursor,
    a: CheckerView,
    b: CheckerView,
    f: usize,
    fs: ScopeKey,
)
    requires
        a.grows_to(b),
        crate::check::model::scope_of_file(from, a, f, fs),
    ensures
        crate::check::model::scope_of_file(from, b, f, fs),
{
    if !(f == from.file && from.file_scope == Some(fs)) {
        let i = choose|i: int| 0 <= i < a.scopes.len() && #[trigger] a.scopes[i] == (f, fs);
        assert(b.scopes[i] == (f, fs));
    }
}

/// An import under the name `.` that is recorded stays recorded when the
/// state grows, the cache stays as it is and more imports are recorded.
pub proof fn lemma_dot_kept(
    from: crate::check::checker::Cursor,
    a: CheckerView,
    dots: Seq<(ScopeKey, PackageKey, Pos)>,
    b: CheckerView,
    more: Seq<(ScopeKey, PackageKey, Pos)>,
    files: Seq<File>,
    arena: &AstObjects,
    entries: Seq<(Seq<char>, int, int)>,
    r: SpecRef,
)
    requires
        a.grows_to(b),
        b.imp_map == a.imp_map,
        crate::objects::prefix(dots, more),
        crate::check::model::dot_recorded(from, a, dots, files, arena, entries, r),
    ensures
        crate::check::model::dot_recorded(from, b, more, files, arena, entries, r),
{
    let spec = files[r.file as int].decls@[r.decl as int]->Gen_0.specs@[r.spec as int];
    let key = import_key(entries, arena, &files[r.file as int], &*spec->Import_0)->0;
    let i = choose|i: int|
        0 <= i < dots.len() && crate::check::model::scope_of_file(
            from,
            a,
            r.file,
            (#[trigger] dots[i]).0,
        ) && a.cached_package(key) == Some(dots[i].1) && dots[i].2 == spec.spec_pos(arena);
    assert(more[i] == dots[i]);
    lemma_scope_of_file_kept(from, a, b, r.file, dots[i].0);
}


/// The first binding of a name in a list of bindings stays the first when
/// bindings are added at the end and objects are added to the arena.
pub proof fn lemma_find_name_prefix(
    lobjs: Seq<LangObjView>,
    elems: Seq<ObjKey>,
    more_objs: Seq<LangObjView>,
    more: Seq<ObjKey>,
    name: Seq<char>,
)
    requires
        crate::objects::prefix(elems, more),
        lobjs.len() <= more_objs.len(),
        forall|k: int| 0 <= k < lobjs.len() ==> (#[trigger] more_objs[k]).name == lobjs[k].name,
        forall|i: int| 0 <= i < elems.len() ==> (#[trigger] elems[i]).0 < lobjs.len(),
        find_name(lobjs, elems, name) is Some,
    ensures
        find_name(more_objs, more, name) == find_name(lobjs, elems, name),
    decreases elems.len(),
{
    assert(elems.len() > 0);
    assert(more[0] == elems[0]);
    assert(elems[0].0 < lobjs.len());
    if lobjs[elems[0].0 as int].name != name {
        let e1 = elems.drop_first();
        let m1 = more.drop_first();
        assert forall|i: int| 0 <= i < e1.len() implies e1[i] == m1[i] by {
            assert(e1[i] == elems[i + 1]);
            assert(m1[i] == more[i + 1]);
        }
        assert forall|i: int| 0 <= i < e1.len() implies (#[trigger] e1[i]).0 < lobjs.len() by {
            assert(e1[i] == elems[i + 1]);
        }
        lemma_find_name_prefix(lobjs, e1, more_objs, m1, name);
    }
}

/// What a scope binds a name to it binds it to for good: the binding is
/// there whenever the arenas have grown.
pub proof fn lemma_lookup_kept(
    a: crate::objects::TCObjectsView,
    b: crate::objects::TCObjectsView,
    s: ScopeKey,
    name: Seq<char>,
)
    requires
        a.wf(),
        a.grows_to(b),
        a.has_scope(s),
        a.lookup(s, name) is Some,
    ensures
        b.lookup(s, name) == a.lookup(s, name),
{
    assert(a.scope_wf(s.0 as int));
    assert(b.scopes[s.0 as int] == (crate::scope::ScopeView {
        elems: b.scopes[s.0 as int].elems,
        ..a.scopes[s.0 as int]
    }));
    assert forall|k: int| 0 <= k < a.lobjs.len() implies (#[trigger] b.lobjs[k]).name
        == a.lobjs[k].name by {
        assert(b.lobjs[k] == (LangObjView { order: b.lobjs[k].order, ..a.lobjs[k] }));
    }
    lemma_find_name_prefix(a.lobjs, a.scope(s).elems, b.lobjs, b.scope(s).elems, name);
}

/// What an import under the name `.` has merged into the scope of its file
/// stays merged when the state grows and the cache stays as it is.
pub proof fn lemma_merged_kept(
    from: crate::check::checker::Cursor,
    a: CheckerView,
    b: CheckerView,
    f: usize,
    imp: Option<PackageKey>,
    fs: ScopeKey,
    n: int,
)
    requires
        a.wf(),
        a.grows_to(b),
        crate::check::model::merged_into(from, a, f, imp, fs, n),
    ensures
        crate::check::model::merged_into(from, b, f, imp, fs, n),
{
    let q = imp->0;
    lemma_scope_of_file_kept(from, a, b, f, fs);
    assert(a.objs.pkg_wf(q.0 as int));
    let qs = a.objs.pkg(q).scope;
    assert(b.objs.pkgs[q.0 as int] == (crate::package::PackageValView {
        imports: b.objs.pkgs[q.0 as int].imports,
        ..a.objs.pkgs[q.0 as int]
    }));
    assert(b.objs.scopes[qs.0 as int] == (crate::scope::ScopeView {
        elems: b.objs.scopes[qs.0 as int].elems,
        ..a.objs.scopes[qs.0 as int]
    }));
    assert(a.objs.scope_wf(qs.0 as int));
    assert forall|i: int| 0 <= i < n implies crate::check::model::name_merged(
        b,
        fs,
        #[trigger] b.objs.scope(b.objs.pkg(q).scope).elems[i],
    ) by {
        let o = a.objs.scope(qs).elems[i];
        assert(b.objs.scope(qs).elems[i] == o);
        assert(crate::check::model::name_merged(a, fs, o));
        assert(a.objs.has_obj(o));
        assert(b.objs.lobjs[o.0 as int] == (LangObjView {
            order: b.objs.lobjs[o.0 as int].order,
            ..a.objs.lobjs[o.0 as int]
        }));
        let name = a.objs.obj(o).name;
        if is_exported(name) && name != "_"@ {
            let k = a.objs.lookup(fs, name)->0;
            lemma_lookup_kept(a.objs, b.objs, fs, name);
            crate::objects::lemma_find_name(a.objs.lobjs, a.objs.scope(fs).elems, name);
            assert(a.objs.scope_wf(fs.0 as int));
            assert(a.objs.has_obj(k));
            assert(b.objs.lobjs[k.0 as int] == (LangObjView {
                order: b.objs.lobjs[k.0 as int].order,
                ..a.objs.lobjs[k.0 as int]
            }));
        }
    }
}

} // verus!
