//! Handles into the arenas that a compilation session owns.
//!
//! A handle is the index of an entry in its arena. Arenas only grow, so a
//! handle that was valid once stays valid.

use vstd::prelude::*;
use crate::obj::{LangObj, LangObjView};
use crate::package::{DeclInfo, PackageVal, PackageValView};
use crate::position::Pos;
use crate::scope::{Scope, ScopeView};
use crate::text::str_eq;

verus! {

/// Handle of an identifier in the identifier arena.
#[derive(Clone, Copy, Debug, PartialEq, Eq, Structural)]
pub struct IdentKey(pub usize);

/// Handle of a scope in the scope arena.
#[derive(Clone, Copy, Debug, PartialEq, Eq, Structural)]
pub struct ScopeKey(pub usize);

/// Handle of a declared object in the object arena.
#[derive(Clone, Copy, Debug, PartialEq, Eq, Structural)]
pub struct ObjKey(pub usize);

/// Handle of a package in the package arena.
#[derive(Clone, Copy, Debug, PartialEq, Eq, Structural)]
pub struct PackageKey(pub usize);

/// Handle of a declaration record in the declaration arena.
#[derive(Clone, Copy, Debug, PartialEq, Eq, Structural)]
pub struct DeclKey(pub usize);

/// Handle of a type; types are made by a later pass.
#[derive(Clone, Copy, Debug, PartialEq, Eq, Structural)]
pub struct TypeKey(pub usize);


/// The arenas of the checker: objects, scopes, packages and declaration
/// records. They only grow.
#[derive(Debug)]
pub struct TCObjects {
    pub lobjs: Vec<LangObj>,
    pub scopes: Vec<Scope>,
    pub pkgs: Vec<PackageVal>,
    pub decls: Vec<DeclInfo>,
}

/// The arenas, as contracts see them.
pub struct TCObjectsView {
    pub lobjs: Seq<LangObjView>,
    pub scopes: Seq<ScopeView>,
    pub pkgs: Seq<PackageValView>,
    pub decls: Seq<DeclInfo>,
}

impl View for TCObjects {
    type V = TCObjectsView;

    open spec fn view(&self) -> TCObjectsView {
        TCObjectsView {
            lobjs: self.lobjs@.map_values(|o: LangObj| o@),
            scopes: self.scopes@.map_values(|s: Scope| s@),
            pkgs: self.pkgs@.map_values(|p: PackageVal| p@),
            decls: self.decls@,
        }
    }
}

/// The first of `elems` whose object is called `name`.
pub open spec fn find_name(lobjs: Seq<LangObjView>, elems: Seq<ObjKey>, name: Seq<char>) -> Option<
    ObjKey,
>
    decreases elems.len(),
{
    if elems.len() == 0 {
        None
    } else if lobjs[elems[0].0 as int].name == name {
        Some(elems[0])
    } else {
        find_name(lobjs, elems.drop_first(), name)
    }
}

/// `find_name` finds an entry with the name, and finds none only where no
/// entry has it.
pub proof fn lemma_find_name(lobjs: Seq<LangObjView>, elems: Seq<ObjKey>, name: Seq<char>)
    ensures
        match find_name(lobjs, elems, name) {
            Some(k) => elems.contains(k) && lobjs[k.0 as int].name == name,
            None => forall|i: int|
                0 <= i < elems.len() ==> lobjs[(#[trigger] elems[i]).0 as int].name != name,
        },
    decreases elems.len(),
{
    if elems.len() > 0 && lobjs[elems[0].0 as int].name != name {
        let rest = elems.drop_first();
        lemma_find_name(lobjs, rest, name);
        match find_name(lobjs, rest, name) {
            Some(k) => {
                let i = choose|i: int| 0 <= i < rest.len() && rest[i] == k;
                assert(elems[i + 1] == k);
            },
            None => {
                assert forall|i: int| 0 <= i < elems.len() implies lobjs[(
                #[trigger] elems[i]).0 as int].name != name by {
                    if i > 0 {
                        assert(rest[i - 1] == elems[i]);
                    }
                }
            },
        }
    }
}

impl TCObjectsView {
    pub open spec fn has_obj(self, k: ObjKey) -> bool {
        k.0 < self.lobjs.len()
    }

    pub open spec fn has_scope(self, k: ScopeKey) -> bool {
        k.0 < self.scopes.len()
    }

    pub open spec fn has_pkg(self, k: PackageKey) -> bool {
        k.0 < self.pkgs.len()
    }

    pub open spec fn obj(self, k: ObjKey) -> LangObjView {
        self.lobjs[k.0 as int]
    }

    pub open spec fn scope(self, k: ScopeKey) -> ScopeView {
        self.scopes[k.0 as int]
    }

    pub open spec fn pkg(self, k: PackageKey) -> PackageValView {
        self.pkgs[k.0 as int]
    }

    /// The scope with index `s` is sound: its parent was made before it,
    /// its entries are objects of the arena, and no two of them have the
    /// same name.
    pub open spec fn scope_wf(self, s: int) -> bool {
        let sc = self.scopes[s];
        &&& sc.parent matches Some(p) ==> p.0 < s
        &&& forall|i: int| 0 <= i < sc.elems.len() ==> self.has_obj(#[trigger] sc.elems[i])
        &&& forall|i: int, j: int|
            0 <= i < j < sc.elems.len() ==> self.obj(#[trigger] sc.elems[i]).name != self.obj(
                #[trigger] sc.elems[j],
            ).name
    }

    /// The package with index `p` is sound: its scope and the packages it
    /// imports are in the arenas.
    pub open spec fn pkg_wf(self, p: int) -> bool {
        let pk = self.pkgs[p];
        &&& self.has_scope(pk.scope)
        &&& forall|i: int| 0 <= i < pk.imports.len() ==> self.has_pkg(#[trigger] pk.imports[i])
    }

    /// Every handle that the arenas hold names an entry.
    pub open spec fn wf(self) -> bool {
        &&& forall|s: int| 0 <= s < self.scopes.len() ==> #[trigger] self.scope_wf(s)
        &&& forall|p: int| 0 <= p < self.pkgs.len() ==> #[trigger] self.pkg_wf(p)
    }

    /// The object that `scope` itself binds to `name`.
    pub open spec fn lookup(self, scope: ScopeKey, name: Seq<char>) -> Option<ObjKey> {
        find_name(self.lobjs, self.scope(scope).elems, name)
    }

    /// The object that `name` means in `scope`: the binding of the
    /// innermost scope, from `scope` outward, that binds the name, with
    /// that scope.
    pub open spec fn lookup_parent(self, scope: ScopeKey, name: Seq<char>) -> Option<
        (ScopeKey, ObjKey),
    >
        decreases scope.0,
    {
        if !self.has_scope(scope) {
            None
        } else {
            match self.lookup(scope, name) {
                Some(o) => Some((scope, o)),
                None => match self.scope(scope).parent {
                    Some(p) => if p.0 < scope.0 {
                        self.lookup_parent(p, name)
                    } else {
                        None
                    },
                    None => None,
                },
            }
        }
    }

    /// The arenas with one more object.
    pub open spec fn add_obj(self, o: LangObjView) -> TCObjectsView {
        TCObjectsView { lobjs: self.lobjs.push(o), ..self }
    }

    /// The arenas with one more scope, which is empty.
    pub open spec fn new_scope(self, parent: Option<ScopeKey>, pos: Pos, end: Pos, comment: Seq<char>)
        -> TCObjectsView {
        TCObjectsView {
            scopes: self.scopes.push(
                ScopeView { parent, elems: Seq::empty(), pos, end, comment },
            ),
            ..self
        }
    }

    /// The arenas with one more package, called `name`, and its scope.
    pub open spec fn new_package(self, path: Seq<char>, name: Seq<char>, fake: bool) -> TCObjectsView {
        TCObjectsView {
            scopes: self.scopes.push(
                ScopeView { parent: None, elems: Seq::empty(), pos: 0, end: 0, comment: path },
            ),
            pkgs: self.pkgs.push(
                PackageValView {
                    name,
                    path,
                    scope: ScopeKey(self.scopes.len() as usize),
                    imports: Seq::empty(),
                    fake,
                },
            ),
            ..self
        }
    }

    /// The arenas after `okey` is inserted in `scope`: bound under its
    /// name, unless the scope binds that name already.
    pub open spec fn insert(self, scope: ScopeKey, okey: ObjKey) -> TCObjectsView {
        if self.lookup(scope, self.obj(okey).name) is Some {
            self
        } else {
            let sc = self.scope(scope);
            TCObjectsView {
                scopes: self.scopes.update(
                    scope.0 as int,
                    ScopeView { elems: sc.elems.push(okey), ..sc },
                ),
                ..self
            }
        }
    }

    /// The arenas after the object `okey` is given its place among the
    /// declarations.
    pub open spec fn set_order(self, okey: ObjKey, order: usize) -> TCObjectsView {
        TCObjectsView {
            lobjs: self.lobjs.update(okey.0 as int, LangObjView { order, ..self.obj(okey) }),
            ..self
        }
    }

    /// The arenas with one more declaration record.
    pub open spec fn add_decl(self, d: DeclInfo) -> TCObjectsView {
        TCObjectsView { decls: self.decls.push(d), ..self }
    }

    /// The arenas after `imp` is added to the imports of `pkg`.
    pub open spec fn add_import(self, pkg: PackageKey, imp: PackageKey) -> TCObjectsView {
        let pk = self.pkg(pkg);
        TCObjectsView {
            pkgs: self.pkgs.update(
                pkg.0 as int,
                PackageValView { imports: pk.imports.push(imp), ..pk },
            ),
            ..self
        }
    }
}


/// `a` is the beginning of `b`.
pub open spec fn prefix<A>(a: Seq<A>, b: Seq<A>) -> bool {
    &&& a.len() <= b.len()
    &&& forall|i: int| 0 <= i < a.len() ==> a[i] == b[i]
}

impl TCObjectsView {
    /// The arenas `b` are the arenas `self` after they have grown: what was
    /// there is there, in its place. An object may have got its place
    /// among the declarations, a scope may have got more entries after
    /// those it had, and a package more imports after those it had;
    /// nothing else has changed.
    pub open spec fn grows_to(self, b: TCObjectsView) -> bool {
        &&& prefix(self.decls, b.decls)
        &&& self.lobjs.len() <= b.lobjs.len()
        &&& forall|k: int|
            0 <= k < self.lobjs.len() ==> #[trigger] b.lobjs[k] == (LangObjView {
                order: b.lobjs[k].order,
                ..self.lobjs[k]
            })
        &&& self.scopes.len() <= b.scopes.len()
        &&& forall|s: int|
            0 <= s < self.scopes.len() ==> {
                &&& #[trigger] b.scopes[s] == (ScopeView {
                    elems: b.scopes[s].elems,
                    ..self.scopes[s]
                })
                &&& prefix(self.scopes[s].elems, b.scopes[s].elems)
            }
        &&& self.pkgs.len() <= b.pkgs.len()
        &&& forall|p: int|
            0 <= p < self.pkgs.len() ==> {
                &&& #[trigger] b.pkgs[p] == (PackageValView {
                    imports: b.pkgs[p].imports,
                    ..self.pkgs[p]
                })
                &&& prefix(self.pkgs[p].imports, b.pkgs[p].imports)
            }
    }
}

/// Arenas that have grown and grow again have grown.
pub proof fn lemma_grows_trans(a: TCObjectsView, b: TCObjectsView, c: TCObjectsView)
    requires
        a.grows_to(b),
        b.grows_to(c),
    ensures
        a.grows_to(c),
{
    assert forall|k: int| 0 <= k < a.lobjs.len() implies #[trigger] c.lobjs[k] == (LangObjView {
        order: c.lobjs[k].order,
        ..a.lobjs[k]
    }) by {
        assert(b.lobjs[k] == (LangObjView { order: b.lobjs[k].order, ..a.lobjs[k] }));
    }
    assert forall|s: int| 0 <= s < a.scopes.len() implies {
        &&& #[trigger] c.scopes[s] == (ScopeView { elems: c.scopes[s].elems, ..a.scopes[s] })
        &&& prefix(a.scopes[s].elems, c.scopes[s].elems)
    } by {
        assert(b.scopes[s] == (ScopeView { elems: b.scopes[s].elems, ..a.scopes[s] }));
        assert(prefix(a.scopes[s].elems, b.scopes[s].elems));
        assert(prefix(b.scopes[s].elems, c.scopes[s].elems));
    }
    assert forall|p: int| 0 <= p < a.pkgs.len() implies {
        &&& #[trigger] c.pkgs[p] == (PackageValView { imports: c.pkgs[p].imports, ..a.pkgs[p] })
        &&& prefix(a.pkgs[p].imports, c.pkgs[p].imports)
    } by {
        assert(b.pkgs[p] == (PackageValView { imports: b.pkgs[p].imports, ..a.pkgs[p] }));
        assert(prefix(a.pkgs[p].imports, b.pkgs[p].imports));
        assert(prefix(b.pkgs[p].imports, c.pkgs[p].imports));
    }
}

/// Adding an object keeps the arenas sound.
pub proof fn lemma_add_obj_wf(v: TCObjectsView, o: LangObjView)
    requires
        v.wf(),
    ensures
        v.add_obj(o).wf(),
{
    let w = v.add_obj(o);
    assert forall|s: int| 0 <= s < w.scopes.len() implies #[trigger] w.scope_wf(s) by {
        assert(v.scope_wf(s));
    }
    assert forall|p: int| 0 <= p < w.pkgs.len() implies #[trigger] w.pkg_wf(p) by {
        assert(v.pkg_wf(p));
    }
}

/// Adding a scope under a scope of the arena keeps the arenas sound.
pub proof fn lemma_new_scope_wf(
    v: TCObjectsView,
    parent: Option<ScopeKey>,
    pos: Pos,
    end: Pos,
    comment: Seq<char>,
)
    requires
        v.wf(),
        parent matches Some(p) ==> v.has_scope(p),
    ensures
        v.new_scope(parent, pos, end, comment).wf(),
{
    let w = v.new_scope(parent, pos, end, comment);
    assert forall|s: int| 0 <= s < w.scopes.len() implies #[trigger] w.scope_wf(s) by {
        if s < v.scopes.len() {
            assert(v.scope_wf(s));
        }
    }
    assert forall|p: int| 0 <= p < w.pkgs.len() implies #[trigger] w.pkg_wf(p) by {
        assert(v.pkg_wf(p));
    }
}

/// Adding a package keeps the arenas sound.
pub proof fn lemma_new_package_wf(v: TCObjectsView, path: Seq<char>, name: Seq<char>, fake: bool)
    requires
        v.wf(),
        v.scopes.len() <= usize::MAX,
    ensures
        v.new_package(path, name, fake).wf(),
{
    let w = v.new_package(path, name, fake);
    assert forall|s: int| 0 <= s < w.scopes.len() implies #[trigger] w.scope_wf(s) by {
        if s < v.scopes.len() {
            assert(v.scope_wf(s));
        }
    }
    assert forall|p: int| 0 <= p < w.pkgs.len() implies #[trigger] w.pkg_wf(p) by {
        if p < v.pkgs.len() {
            assert(v.pkg_wf(p));
        }
    }
}

/// Inserting an object of the arena in a scope keeps the arenas sound.
pub proof fn lemma_insert_wf(v: TCObjectsView, scope: ScopeKey, okey: ObjKey)
    requires
        v.wf(),
        v.has_scope(scope),
        v.has_obj(okey),
    ensures
        v.insert(scope, okey).wf(),
{
    let w = v.insert(scope, okey);
    let name = v.obj(okey).name;
    if v.lookup(scope, name) is None {
        lemma_find_name(v.lobjs, v.scope(scope).elems, name);
        assert forall|s: int| 0 <= s < w.scopes.len() implies #[trigger] w.scope_wf(s) by {
            assert(v.scope_wf(s));
            if s == scope.0 {
                let old_elems = v.scopes[s].elems;
                let elems = w.scopes[s].elems;
                assert forall|i: int| 0 <= i < elems.len() implies w.has_obj(
                    #[trigger] elems[i],
                ) by {
                    if i < old_elems.len() {
                        assert(elems[i] == old_elems[i]);
                    }
                }
                assert forall|i: int, j: int| 0 <= i < j < elems.len() implies w.obj(
                    #[trigger] elems[i],
                ).name != w.obj(#[trigger] elems[j]).name by {
                    assert(elems[i] == old_elems[i]);
                    if j < old_elems.len() {
                        assert(elems[j] == old_elems[j]);
                    }
                }
            }
        }
        assert forall|p: int| 0 <= p < w.pkgs.len() implies #[trigger] w.pkg_wf(p) by {
            assert(v.pkg_wf(p));
        }
    }
}

/// Giving an object its place among the declarations keeps the arenas
/// sound.
pub proof fn lemma_set_order_wf(v: TCObjectsView, okey: ObjKey, order: usize)
    requires
        v.wf(),
        v.has_obj(okey),
    ensures
        v.set_order(okey, order).wf(),
{
    let w = v.set_order(okey, order);
    assert forall|s: int| 0 <= s < w.scopes.len() implies #[trigger] w.scope_wf(s) by {
        assert(v.scope_wf(s));
    }
    assert forall|p: int| 0 <= p < w.pkgs.len() implies #[trigger] w.pkg_wf(p) by {
        assert(v.pkg_wf(p));
    }
}

/// Adding a declaration record keeps the arenas sound.
pub proof fn lemma_add_decl_wf(v: TCObjectsView, d: DeclInfo)
    requires
        v.wf(),
    ensures
        v.add_decl(d).wf(),
{
    let w = v.add_decl(d);
    assert forall|s: int| 0 <= s < w.scopes.len() implies #[trigger] w.scope_wf(s) by {
        assert(v.scope_wf(s));
    }
    assert forall|p: int| 0 <= p < w.pkgs.len() implies #[trigger] w.pkg_wf(p) by {
        assert(v.pkg_wf(p));
    }
}

/// Adding a package of the arena to the imports of another keeps the
/// arenas sound.
pub proof fn lemma_add_import_wf(v: TCObjectsView, pkg: PackageKey, imp: PackageKey)
    requires
        v.wf(),
        v.has_pkg(pkg),
        v.has_pkg(imp),
    ensures
        v.add_import(pkg, imp).wf(),
{
    let w = v.add_import(pkg, imp);
    assert forall|s: int| 0 <= s < w.scopes.len() implies #[trigger] w.scope_wf(s) by {
        assert(v.scope_wf(s));
    }
    assert forall|p: int| 0 <= p < w.pkgs.len() implies #[trigger] w.pkg_wf(p) by {
        assert(v.pkg_wf(p));
        if p == pkg.0 {
            let old_imports = v.pkgs[p].imports;
            let imports = w.pkgs[p].imports;
            assert forall|i: int| 0 <= i < imports.len() implies w.has_pkg(
                #[trigger] imports[i],
            ) by {
                if i < old_imports.len() {
                    assert(imports[i] == old_imports[i]);
                }
            }
        }
    }
}

impl TCObjects {
    /// Empty arenas.
    pub fn new() -> (o: TCObjects)
        ensures
            o@.lobjs.len() == 0,
            o@.scopes.len() == 0,
            o@.pkgs.len() == 0,
            o@.decls.len() == 0,
            o@.wf(),
    {
        TCObjects { lobjs: Vec::new(), scopes: Vec::new(), pkgs: Vec::new(), decls: Vec::new() }
    }

    /// Adds an object to the arena and gives its handle.
    pub fn add_obj(&mut self, o: LangObj) -> (k: ObjKey)
        ensures
            final(self)@ == old(self)@.add_obj(o@),
            old(self)@.grows_to(final(self)@),
            k.0 == old(self)@.lobjs.len(),
            old(self)@.wf() ==> final(self)@.wf(),
    {
        let k = ObjKey(self.lobjs.len());
        self.lobjs.push(o);
        proof {
            assert(self@.lobjs =~= old(self)@.lobjs.push(o@));
            assert(self@.scopes =~= old(self)@.scopes);
            assert(self@.pkgs =~= old(self)@.pkgs);
            if old(self)@.wf() {
                lemma_add_obj_wf(old(self)@, o@);
            }
        }
        k
    }

    /// Makes an empty scope under `parent` and gives its handle.
    pub fn new_scope(&mut self, parent: Option<ScopeKey>, pos: Pos, end: Pos, comment: String) -> (k:
        ScopeKey)
        ensures
            final(self)@ == old(self)@.new_scope(parent, pos, end, comment@),
            old(self)@.grows_to(final(self)@),
            k.0 == old(self)@.scopes.len(),
            old(self)@.wf() && (parent matches Some(p) ==> old(self)@.has_scope(p))
                ==> final(self)@.wf(),
    {
        let k = ScopeKey(self.scopes.len());
        let sc = Scope { parent, elems: Vec::new(), pos, end, comment };
        self.scopes.push(sc);
        proof {
            assert(self@.scopes =~= old(self)@.scopes.push(sc@));
            assert(sc@.elems =~= Seq::empty());
            assert(self@.lobjs =~= old(self)@.lobjs);
            assert(self@.pkgs =~= old(self)@.pkgs);
            if old(self)@.wf() && (parent matches Some(p) ==> old(self)@.has_scope(p)) {
                lemma_new_scope_wf(old(self)@, parent, pos, end, comment@);
            }
        }
        k
    }

    /// Makes a package with a scope of its own and gives its handle.
    pub fn new_package(&mut self, path: String, name: String, fake: bool) -> (k: PackageKey)
        ensures
            final(self)@ == old(self)@.new_package(path@, name@, fake),
            old(self)@.grows_to(final(self)@),
            k.0 == old(self)@.pkgs.len(),
            old(self)@.wf() ==> final(self)@.wf(),
    {
        let k = PackageKey(self.pkgs.len());
        let scope = ScopeKey(self.scopes.len());
        let sc = Scope { parent: None, elems: Vec::new(), pos: 0, end: 0, comment: path.clone() };
        self.scopes.push(sc);
        let pk = PackageVal { name, path, scope, imports: Vec::new(), fake };
        self.pkgs.push(pk);
        proof {
            assert(sc@.elems =~= Seq::empty());
            assert(pk@.imports =~= Seq::empty());
            assert(self@.scopes =~= old(self)@.new_package(path@, name@, fake).scopes);
            assert(self@.pkgs =~= old(self)@.new_package(path@, name@, fake).pkgs);
            assert(self@.lobjs =~= old(self)@.lobjs);
            if old(self)@.wf() {
                lemma_new_package_wf(old(self)@, path@, name@, fake);
            }
        }
        k
    }

    /// The object that `scope` itself binds to `name`.
    pub fn lookup(&self, scope: ScopeKey, name: &str) -> (r: Option<ObjKey>)
        requires
            self@.wf(),
            self@.has_scope(scope),
        ensures
            r == self@.lookup(scope, name@),
    {
        let elems = &self.scopes[scope.0].elems;
        proof {
            assert(self@.scope_wf(scope.0 as int));
            assert(elems@ == self@.scope(scope).elems);
            assert(elems@.skip(0) =~= elems@);
        }
        let mut i: usize = 0;
        while i < elems.len()
            invariant
                i <= elems.len(),
                self@.scope_wf(scope.0 as int),
                self@.has_scope(scope),
                elems@ == self@.scope(scope).elems,
                find_name(self@.lobjs, elems@, name@) == find_name(
                    self@.lobjs,
                    elems@.skip(i as int),
                    name@,
                ),
            decreases elems.len() - i,
        {
            let k = elems[i];
            assert(self@.has_obj(elems@[i as int]));
            proof {
                assert(elems@.skip(i as int)[0] == k);
                assert(elems@.skip(i as int).drop_first() =~= elems@.skip(i as int + 1));
            }
            if str_eq(self.lobjs[k.0].name.as_str(), name) {
                return Some(k);
            }
            i += 1;
        }
        None
    }

    /// The object that `name` means in `scope`, with the scope that binds
    /// it: the search goes from `scope` outward and stops at the first
    /// scope that binds the name.
    pub fn lookup_parent(&self, scope: ScopeKey, name: &str) -> (r: Option<(ScopeKey, ObjKey)>)
        requires
            self@.wf(),
            self@.has_scope(scope),
        ensures
            r == self@.lookup_parent(scope, name@),
    {
        let mut cur = scope;
        loop
            invariant
                self@.wf(),
                self@.has_scope(cur),
                self@.lookup_parent(scope, name@) == self@.lookup_parent(cur, name@),
            decreases cur.0,
        {
            match self.lookup(cur, name) {
                Some(o) => {
                    return Some((cur, o));
                },
                None => {},
            }
            proof {
                assert(self@.scope_wf(cur.0 as int));
            }
            match self.scopes[cur.0].parent {
                Some(p) => {
                    cur = p;
                },
                None => {
                    return None;
                },
            }
        }
    }

    /// Binds `okey` under its name in `scope`, unless the scope binds that
    /// name already: then nothing changes, and the object that holds the
    /// name is returned.
    pub fn insert(&mut self, scope: ScopeKey, okey: ObjKey) -> (alt: Option<ObjKey>)
        requires
            old(self)@.wf(),
            old(self)@.has_scope(scope),
            old(self)@.has_obj(okey),
        ensures
            alt == old(self)@.lookup(scope, old(self)@.obj(okey).name),
            final(self)@ == old(self)@.insert(scope, okey),
            old(self)@.grows_to(final(self)@),
            final(self)@.wf(),
    {
        let alt = self.lookup(scope, self.lobjs[okey.0].name.as_str());
        if alt.is_none() {
            self.scopes[scope.0].elems.push(okey);
            proof {
                assert(self@.scopes =~= old(self)@.insert(scope, okey).scopes);
                assert(self@.lobjs =~= old(self)@.lobjs);
                assert(self@.pkgs =~= old(self)@.pkgs);
            }
        }
        proof {
            lemma_insert_wf(old(self)@, scope, okey);
        }
        alt
    }

    /// Gives the object `okey` its place among the declarations.
    pub fn set_order(&mut self, okey: ObjKey, order: usize)
        requires
            old(self)@.has_obj(okey),
        ensures
            final(self)@ == old(self)@.set_order(okey, order),
            old(self)@.grows_to(final(self)@),
            old(self)@.wf() ==> final(self)@.wf(),
    {
        self.lobjs[okey.0].order = order;
        proof {
            assert(self@.lobjs =~= old(self)@.set_order(okey, order).lobjs);
            assert(self@.scopes =~= old(self)@.scopes);
            assert(self@.pkgs =~= old(self)@.pkgs);
            if old(self)@.wf() {
                lemma_set_order_wf(old(self)@, okey, order);
            }
        }
    }

    /// Adds a declaration record and gives its handle.
    pub fn add_decl(&mut self, d: DeclInfo) -> (k: DeclKey)
        ensures
            final(self)@ == old(self)@.add_decl(d),
            old(self)@.grows_to(final(self)@),
            k.0 == old(self)@.decls.len(),
            old(self)@.wf() ==> final(self)@.wf(),
    {
        let k = DeclKey(self.decls.len());
        self.decls.push(d);
        proof {
            assert(self@.lobjs =~= old(self)@.lobjs);
            assert(self@.scopes =~= old(self)@.scopes);
            assert(self@.pkgs =~= old(self)@.pkgs);
            if old(self)@.wf() {
                lemma_add_decl_wf(old(self)@, d);
            }
        }
        k
    }

    /// Adds `imp` to the imports of `pkg`.
    pub fn add_import(&mut self, pkg: PackageKey, imp: PackageKey)
        requires
            old(self)@.has_pkg(pkg),
        ensures
            final(self)@ == old(self)@.add_import(pkg, imp),
            old(self)@.grows_to(final(self)@),
            old(self)@.wf() && old(self)@.has_pkg(imp) ==> final(self)@.wf(),
    {
        self.pkgs[pkg.0].imports.push(imp);
        proof {
            assert(self@.pkgs =~= old(self)@.add_import(pkg, imp).pkgs);
            assert(self@.lobjs =~= old(self)@.lobjs);
            assert(self@.scopes =~= old(self)@.scopes);
            if old(self)@.wf() && old(self)@.has_pkg(imp) {
                lemma_add_import_wf(old(self)@, pkg, imp);
            }
        }
    }
}


impl TCObjects {
    /// Whether the scope with index `s` is sound.
    pub fn check_scope(&self, s: usize) -> (b: bool)
        requires
            s < self.scopes@.len(),
        ensures
            b == self@.scope_wf(s as int),
    {
        let sc = &self.scopes[s];
        assert(sc@ == self@.scopes[s as int]);
        match sc.parent {
            Some(p) => {
                if p.0 >= s {
                    return false;
                }
            },
            None => {},
        }
        let n = sc.elems.len();
        let mut i: usize = 0;
        while i < n
            invariant
                i <= n == sc.elems@.len(),
                s < self.scopes@.len(),
                sc@ == self@.scopes[s as int],
                forall|j: int| 0 <= j < i ==> self@.has_obj(#[trigger] sc.elems@[j]),
            decreases n - i,
        {
            if sc.elems[i].0 >= self.lobjs.len() {
                assert(!self@.has_obj(sc.elems@[i as int]));
                return false;
            }
            i += 1;
        }
        let mut j: usize = 0;
        while j < n
            invariant
                j <= n == sc.elems@.len(),
                s < self.scopes@.len(),
                sc@ == self@.scopes[s as int],
                forall|k: int| 0 <= k < n ==> self@.has_obj(#[trigger] sc.elems@[k]),
                forall|a: int, b: int|
                    0 <= a < b < j ==> self@.obj(#[trigger] sc.elems@[a]).name != self@.obj(
                        #[trigger] sc.elems@[b],
                    ).name,
            decreases n - j,
        {
            let mut i: usize = 0;
            while i < j
                invariant
                    i <= j < n == sc.elems@.len(),
                    s < self.scopes@.len(),
                    sc@ == self@.scopes[s as int],
                    forall|k: int| 0 <= k < n ==> self@.has_obj(#[trigger] sc.elems@[k]),
                    forall|a: int|
                        0 <= a < i ==> self@.obj(#[trigger] sc.elems@[a]).name != self@.obj(
                            sc.elems@[j as int],
                        ).name,
                decreases j - i,
            {
                assert(self@.has_obj(sc.elems@[i as int]));
                assert(self@.has_obj(sc.elems@[j as int]));
                if str_eq(
                    self.lobjs[sc.elems[i].0].name.as_str(),
                    self.lobjs[sc.elems[j].0].name.as_str(),
                ) {
                    assert(self@.obj(sc.elems@[i as int]).name == self@.obj(
                        sc.elems@[j as int],
                    ).name);
                    return false;
                }
                i += 1;
            }
            j += 1;
        }
        true
    }

    /// Whether the package with index `p` is sound.
    pub fn check_pkg(&self, p: usize) -> (b: bool)
        requires
            p < self.pkgs@.len(),
        ensures
            b == self@.pkg_wf(p as int),
    {
        let pk = &self.pkgs[p];
        assert(pk@ == self@.pkgs[p as int]);
        if pk.scope.0 >= self.scopes.len() {
            return false;
        }
        let mut i: usize = 0;
        while i < pk.imports.len()
            invariant
                i <= pk.imports@.len(),
                p < self.pkgs@.len(),
                pk@ == self@.pkgs[p as int],
                forall|j: int| 0 <= j < i ==> self@.has_pkg(#[trigger] pk.imports@[j]),
            decreases pk.imports@.len() - i,
        {
            if pk.imports[i].0 >= self.pkgs.len() {
                assert(self@.pkgs[p as int].imports[i as int] == pk.imports@[i as int]);
                assert(!self@.has_pkg(self@.pkgs[p as int].imports[i as int]));
                return false;
            }
            i += 1;
        }
        true
    }

    /// Whether the arenas are sound.
    pub fn is_wf(&self) -> (b: bool)
        ensures
            b == self@.wf(),
    {
        let mut s: usize = 0;
        while s < self.scopes.len()
            invariant
                s <= self.scopes@.len(),
                forall|k: int| 0 <= k < s ==> #[trigger] self@.scope_wf(k),
            decreases self.scopes@.len() - s,
        {
            if !self.check_scope(s) {
                return false;
            }
            s += 1;
        }
        let mut p: usize = 0;
        while p < self.pkgs.len()
            invariant
                p <= self.pkgs@.len(),
                forall|k: int| 0 <= k < self.scopes@.len() ==> #[trigger] self@.scope_wf(k),
                forall|k: int| 0 <= k < p ==> #[trigger] self@.pkg_wf(k),
            decreases self.pkgs@.len() - p,
        {
            if !self.check_pkg(p) {
                return false;
            }
            p += 1;
        }
        true
    }
}

} // verus!
