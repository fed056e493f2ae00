use goscript_parser::position::FileSet;
use goscript_resolver::ast::{
    AstObjects, BasicLit, Decl, Expr, File, GenDecl, Ident, ImportSpec, Spec, TypeSpec, ValueSpec,
};
use goscript_resolver::check::checker::{Checker, Cursor, FilesContext};
use goscript_resolver::check::resolver::{dir_of_name, full_spec, last_full_spec, Progress};
use goscript_resolver::errors::{Diagnostic, ErrorKind};
use goscript_resolver::importer::{
    check_import_path, illegal_path_char, illegal_path_char_given, package_name_of_path,
    ImportKey, PathError,
};
use goscript_resolver::obj::{exported, exported_given, EntityType, LangObj};
use goscript_resolver::objects::{IdentKey, ObjKey, PackageKey, ScopeKey, TCObjects};
use goscript_resolver::package::{DeclInfo, ExprRef, ExprSlot, SpecRef};
use goscript_resolver::position::{position_string, source_file_at};
use goscript_resolver::text::str_eq;
use goscript_resolver::token::Token;

fn ident(arena: &mut AstObjects, pos: usize, name: &str) -> IdentKey {
    arena.idents.push(Ident { pos, name: name.to_string(), obj: None });
    IdentKey(arena.idents.len() - 1)
}

fn int_lit(pos: usize, text: &str) -> Expr {
    Expr::BasicLit(Box::new(BasicLit { pos, kind: Token::INT, value: text.to_string() }))
}

fn value_spec(names: Vec<IdentKey>, typ: Option<Expr>, values: Vec<Expr>) -> ValueSpec {
    ValueSpec { names, typ, values }
}

fn gen_decl(token: Token, token_pos: usize, specs: Vec<Spec>) -> Decl {
    Decl::Gen(Box::new(GenDecl {
        token_pos,
        token,
        l_paran: Some(token_pos + 6),
        specs,
        r_paren: Some(1000),
    }))
}

fn file(arena: &mut AstObjects, package: usize, decls: Vec<Decl>) -> File {
    let name = ident(arena, package + 8, "main");
    File { package, name, decls, scope: None, imports: vec![], unresolved: vec![] }
}

fn import_spec(name: Option<IdentKey>, pos: usize, path: &str) -> Spec {
    Spec::Import(Box::new(ImportSpec {
        name,
        path: Box::new(BasicLit { pos, kind: Token::STRING, value: path.to_string() }),
        end_pos: None,
    }))
}

/// A checker of a package called `name`.
fn checker(name: &str) -> Checker {
    let mut objs = TCObjects::new();
    let pkg = objs.new_package(name.to_string(), name.to_string(), false);
    Checker::new(objs, pkg)
}

fn lookup(c: &Checker, scope: ScopeKey, name: &str) -> Option<ObjKey> {
    c.tc_objs.lookup(scope, name)
}

fn pkg_scope(c: &Checker) -> ScopeKey {
    c.tc_objs.pkgs[c.pkg.0].scope
}

/// Runs the pass to its end; every import fails.
fn run_without_imports(c: &mut Checker, fctx: &mut FilesContext, arena: &AstObjects, fset: &FileSet) {
    loop {
        assert!(c.ready(fctx));
        match c.collect_objects(fctx, arena, fset) {
            Progress::Done => return,
            Progress::NeedImport { key, pos } => {
                c.import_package(pos, key, Err(()));
            }
        }
    }
}

#[test]
fn arity_no_init_no_values_needs_type() {
    let mut arena = AstObjects { idents: vec![] };
    let x = ident(&mut arena, 10, "x");
    let mut c = checker("p");
    let s = value_spec(vec![x], None, vec![]);
    assert_eq!(c.arity_match(&arena, &s, false, None), Err(()));
    assert_eq!(c.errors, vec![Diagnostic { pos: 10, kind: ErrorKind::MissingTypeOrInit }]);

    let mut c = checker("p");
    let t = ident(&mut arena, 12, "int");
    let s = value_spec(vec![x], Some(Expr::Ident(t)), vec![]);
    assert_eq!(c.arity_match(&arena, &s, false, None), Ok(()));
    assert!(c.errors.is_empty());
}

#[test]
fn arity_extra_init_expr_in_the_spec_itself() {
    let mut arena = AstObjects { idents: vec![] };
    let x = ident(&mut arena, 10, "x");
    let mut c = checker("p");
    let s = value_spec(vec![x], None, vec![int_lit(14, "1"), int_lit(17, "2"), int_lit(20, "3")]);
    assert_eq!(c.arity_match(&arena, &s, false, None), Err(()));
    assert_eq!(
        c.errors,
        vec![Diagnostic { pos: 17, kind: ErrorKind::ExtraInitExpr { index: 1 } }]
    );
}

#[test]
fn arity_extra_init_expr_of_a_repeated_spec() {
    let mut arena = AstObjects { idents: vec![] };
    let a = ident(&mut arena, 10, "a");
    let b = ident(&mut arena, 13, "b");
    let x = ident(&mut arena, 30, "x");
    let mut c = checker("p");
    let full = value_spec(vec![a, b], None, vec![int_lit(17, "1"), int_lit(20, "2")]);
    let s = value_spec(vec![x], None, vec![]);
    assert_eq!(c.arity_match(&arena, &s, true, Some(&full)), Err(()));
    assert_eq!(
        c.errors,
        vec![Diagnostic { pos: 30, kind: ErrorKind::ExtraInitExprAt { pos: 10 } }]
    );
}

#[test]
fn arity_missing_init_expr() {
    let mut arena = AstObjects { idents: vec![] };
    let x = ident(&mut arena, 10, "x");
    let y = ident(&mut arena, 13, "y");
    let z = ident(&mut arena, 16, "z");
    // Three names, two values, checked by itself.
    let mut c = checker("p");
    let s = value_spec(vec![x, y, z], None, vec![int_lit(20, "1"), int_lit(23, "2")]);
    assert_eq!(c.arity_match(&arena, &s, false, None), Err(()));
    assert_eq!(
        c.errors,
        vec![Diagnostic { pos: 16, kind: ErrorKind::MissingInitExpr { name: z } }]
    );
    // Two names, one value, checked against itself as a const spec is.
    let mut c = checker("p");
    let s = value_spec(vec![x, y], None, vec![int_lit(20, "1")]);
    assert_eq!(c.arity_match(&arena, &s, true, Some(&s)), Err(()));
    assert_eq!(
        c.errors,
        vec![Diagnostic { pos: 13, kind: ErrorKind::MissingInitExpr { name: y } }]
    );
}

#[test]
fn arity_accepts_equal_counts_and_one_value_for_many_names() {
    let mut arena = AstObjects { idents: vec![] };
    let x = ident(&mut arena, 10, "x");
    let y = ident(&mut arena, 13, "y");
    let mut c = checker("p");
    let s = value_spec(vec![x, y], None, vec![int_lit(20, "1"), int_lit(23, "2")]);
    assert_eq!(c.arity_match(&arena, &s, false, None), Ok(()));
    assert_eq!(c.arity_match(&arena, &s, true, Some(&s)), Ok(()));
    // One value for two names is left to the pass that types the value.
    let s = value_spec(vec![x, y], None, vec![int_lit(20, "f()")]);
    assert_eq!(c.arity_match(&arena, &s, false, None), Ok(()));
    assert!(c.errors.is_empty());
}

#[test]
fn arity_of_a_typed_const_without_values() {
    let mut arena = AstObjects { idents: vec![] };
    let x = ident(&mut arena, 10, "x");
    let t = ident(&mut arena, 12, "int");
    let mut c = checker("p");
    let s = value_spec(vec![x], Some(Expr::Ident(t)), vec![]);
    assert_eq!(c.arity_match(&arena, &s, true, Some(&s)), Err(()));
    assert_eq!(
        c.errors,
        vec![Diagnostic { pos: 10, kind: ErrorKind::MissingInitExpr { name: x } }]
    );
}

#[test]
fn import_path_is_the_literal_without_quotes() {
    assert_eq!(check_import_path("\"fmt\""), Ok("fmt".to_string()));
    assert_eq!(check_import_path("\"a/b-c_d.e\""), Ok("a/b-c_d.e".to_string()));
    assert_eq!(check_import_path("\"x\""), Ok("x".to_string()));
    assert_eq!(check_import_path("\"\u{e9}t\u{e9}\""), Ok("\u{e9}t\u{e9}".to_string()));
}

#[test]
fn import_path_refused() {
    assert_eq!(check_import_path("\"\""), Err(PathError::NoPath));
    assert_eq!(check_import_path(""), Err(PathError::NoPath));
    assert_eq!(check_import_path("fmt"), Err(PathError::NoPath));
    assert_eq!(check_import_path("`fmt`"), Err(PathError::NoPath));
    assert_eq!(check_import_path("\"fmt"), Err(PathError::NoPath));
    assert_eq!(check_import_path("fmt\""), Err(PathError::NoPath));
}

#[test]
fn import_path_with_a_character_that_no_path_may_hold() {
    assert_eq!(check_import_path("\"a b\""), Err(PathError::BadChar { ch: ' ' }));
    assert_eq!(check_import_path("\"a\tb\""), Err(PathError::BadChar { ch: '\t' }));
    assert_eq!(check_import_path("\"a!b?\""), Err(PathError::BadChar { ch: '!' }));
    assert_eq!(check_import_path("\"a\\b\""), Err(PathError::BadChar { ch: '\\' }));
    assert_eq!(
        check_import_path("\"a\u{FFFD}\""),
        Err(PathError::BadChar { ch: '\u{FFFD}' })
    );
    assert_eq!(
        check_import_path("\"a\u{2003}b\""),
        Err(PathError::BadChar { ch: '\u{2003}' })
    );
    for c in "!\"#$%&'()*,:;<=>?[\\]^{|}`".chars() {
        assert!(illegal_path_char(c), "{}", c);
    }
    for c in "abcXYZ019/._-+~@".chars() {
        assert!(!illegal_path_char(c), "{}", c);
    }
}

#[test]
fn name_of_the_stand_in_package() {
    assert_eq!(package_name_of_path("a/b/c"), "c");
    assert_eq!(package_name_of_path("a/b/"), "b");
    assert_eq!(package_name_of_path("../x"), "x");
    assert_eq!(package_name_of_path("x"), "x");
    assert_eq!(package_name_of_path("/"), "");
    assert_eq!(package_name_of_path(""), "");
    assert_eq!(package_name_of_path("a//"), "");
}

#[test]
fn directory_of_a_file_name() {
    assert_eq!(dir_of_name("dir/sub/a.go"), "dir/sub");
    assert_eq!(dir_of_name("dir\\a.go"), "dir");
    assert_eq!(dir_of_name("a.go"), ".");
    assert_eq!(dir_of_name("/a.go"), ".");
    assert_eq!(dir_of_name(""), ".");
    assert_eq!(dir_of_name("./tests/data/case1.gos"), "./tests/data");
}

#[test]
fn file_of_a_position() {
    let mut fset = FileSet::new();
    fset.add_file("one.go".to_string(), None, 100);
    fset.add_file("dir/two.go".to_string(), None, 50);
    let f = source_file_at(&fset, 0).unwrap();
    assert_eq!((f.name.as_str(), f.base, f.size), ("one.go", 0, 100));
    let f = source_file_at(&fset, 100).unwrap();
    assert_eq!((f.name.as_str(), f.base, f.size), ("one.go", 0, 100));
    let f = source_file_at(&fset, 101).unwrap();
    assert_eq!((f.name.as_str(), f.base, f.size), ("dir/two.go", 101, 50));
    let f = source_file_at(&fset, 151).unwrap();
    assert_eq!(f.name, "dir/two.go");
    assert!(source_file_at(&fset, 152).is_none());
    assert!(source_file_at(&FileSet::new(), 0).is_none());
}

#[test]
fn file_dir_comes_from_the_file_set() {
    let mut arena = AstObjects { idents: vec![] };
    let mut fset = FileSet::new();
    fset.add_file("dir/sub/a.go".to_string(), Some(1), 100);
    let f = file(&mut arena, 1, vec![]);
    assert_eq!(Checker::file_dir(&fset, &arena, &f), "dir/sub");
    // A file that the file set does not know.
    let g = file(&mut arena, 500, vec![]);
    assert_eq!(Checker::file_dir(&fset, &arena, &g), ".");
}

#[test]
fn exported_names_start_with_an_uppercase_character() {
    assert!(exported("Foo"));
    assert!(exported("\u{c9}t\u{e9}"));
    assert!(!exported("bar"));
    assert!(!exported("_Foo"));
    assert!(!exported("9"));
    assert!(!exported(""));
}

#[test]
fn texts_are_compared_by_their_characters() {
    assert!(str_eq("init", "init"));
    assert!(!str_eq("init", "Init"));
    assert!(!str_eq("init", "ini"));
    assert!(str_eq("", ""));
}

#[test]
fn scope_lookup_goes_outward() {
    let mut objs = TCObjects::new();
    let outer = objs.new_scope(None, 0, 100, "outer".to_string());
    let inner = objs.new_scope(Some(outer), 10, 50, "inner".to_string());
    assert_eq!(objs.scopes[inner.0].elems.len(), 0);
    let a = objs.add_obj(LangObj::new_const(1, None, "a".to_string(), 0));
    let b = objs.add_obj(LangObj::new_const(2, None, "b".to_string(), 0));
    let a2 = objs.add_obj(LangObj::new_const(3, None, "a".to_string(), 0));
    assert_eq!(objs.insert(outer, a), None);
    assert_eq!(objs.insert(outer, b), None);
    assert_eq!(objs.insert(inner, a2), None);
    assert_eq!(objs.lookup(inner, "a"), Some(a2));
    assert_eq!(objs.lookup(inner, "b"), None);
    assert_eq!(objs.lookup_parent(inner, "a"), Some((inner, a2)));
    assert_eq!(objs.lookup_parent(inner, "b"), Some((outer, b)));
    assert_eq!(objs.lookup_parent(outer, "a"), Some((outer, a)));
    assert_eq!(objs.lookup_parent(inner, "c"), None);
    // A second binding of a name is refused and the first one stays.
    let a3 = objs.add_obj(LangObj::new_const(4, None, "a".to_string(), 0));
    assert_eq!(objs.insert(outer, a3), Some(a));
    assert_eq!(objs.lookup(outer, "a"), Some(a));
    assert_eq!(objs.scopes[outer.0].elems, vec![a, b]);
}

#[test]
fn declare_reports_a_second_declaration_and_keeps_the_first() {
    let mut c = checker("p");
    let scope = pkg_scope(&c);
    let a = c.tc_objs.add_obj(LangObj::new_const(5, Some(c.pkg), "a".to_string(), 0));
    let again = c.tc_objs.add_obj(LangObj::new_const(9, Some(c.pkg), "a".to_string(), 1));
    c.declare(scope, Some(IdentKey(0)), a);
    c.declare(scope, Some(IdentKey(1)), again);
    assert_eq!(lookup(&c, scope, "a"), Some(a));
    assert_eq!(
        c.errors,
        vec![Diagnostic { pos: 9, kind: ErrorKind::Redeclared { obj: again, other: a } }]
    );
    assert_eq!(c.result.defs, vec![(IdentKey(0), a)]);
}

#[test]
fn declare_binds_the_blank_name_nowhere() {
    let mut c = checker("p");
    let scope = pkg_scope(&c);
    let one = c.tc_objs.add_obj(LangObj::new_const(5, Some(c.pkg), "_".to_string(), 0));
    let two = c.tc_objs.add_obj(LangObj::new_const(9, Some(c.pkg), "_".to_string(), 1));
    c.declare(scope, Some(IdentKey(0)), one);
    c.declare(scope, None, two);
    assert_eq!(lookup(&c, scope, "_"), None);
    assert!(c.errors.is_empty());
    assert_eq!(c.result.defs, vec![(IdentKey(0), one)]);
}

fn decl_info(scope: ScopeKey) -> DeclInfo {
    DeclInfo { file_scope: scope, lhs: None, typ: None, init: None, fdecl: None }
}

#[test]
fn declare_pkg_obj_refuses_init() {
    // `var init = 1`
    let mut arena = AstObjects { idents: vec![] };
    let k = ident(&mut arena, 4, "init");
    let mut c = checker("p");
    let scope = pkg_scope(&c);
    let o = c.tc_objs.add_obj(LangObj {
        kind: EntityType::Var,
        pkg: Some(c.pkg),
        name: "init".to_string(),
        pos: 4,
        typ: None,
        order: 0,
    });
    assert_eq!(c.declare_pkg_obj(&arena, k, o, decl_info(scope)), Err(()));
    assert_eq!(c.errors, vec![Diagnostic { pos: 4, kind: ErrorKind::CannotDeclareInit }]);
    assert_eq!(lookup(&c, scope, "init"), None);
    assert!(c.tc_objs.scopes[scope.0].elems.is_empty());
    assert!(c.obj_map.is_empty());
    assert!(c.tc_objs.decls.is_empty());
    assert_eq!(c.tc_objs.lobjs[o.0].order, 0);
}

#[test]
fn declare_pkg_obj_refuses_main_in_package_main() {
    let mut arena = AstObjects { idents: vec![] };
    let k = ident(&mut arena, 4, "main");
    let mut c = checker("main");
    let scope = pkg_scope(&c);
    let o = c.tc_objs.add_obj(LangObj::new_const(4, Some(c.pkg), "main".to_string(), 0));
    assert_eq!(c.declare_pkg_obj(&arena, k, o, decl_info(scope)), Err(()));
    assert_eq!(c.errors, vec![Diagnostic { pos: 4, kind: ErrorKind::CannotDeclareMain }]);
    assert_eq!(lookup(&c, scope, "main"), None);

    // In another package `main` is a name like any other.
    let mut c = checker("lib");
    let scope = pkg_scope(&c);
    let o = c.tc_objs.add_obj(LangObj::new_const(4, Some(c.pkg), "main".to_string(), 0));
    assert_eq!(c.declare_pkg_obj(&arena, k, o, decl_info(scope)), Ok(()));
    assert!(c.errors.is_empty());
    assert_eq!(lookup(&c, scope, "main"), Some(o));
}

#[test]
fn declare_pkg_obj_numbers_the_declarations() {
    let mut arena = AstObjects { idents: vec![] };
    let ka = ident(&mut arena, 4, "a");
    let kb = ident(&mut arena, 8, "b");
    let kc = ident(&mut arena, 12, "a");
    let mut c = checker("p");
    let scope = pkg_scope(&c);
    let a = c.tc_objs.add_obj(LangObj::new_const(4, Some(c.pkg), "a".to_string(), 0));
    let b = c.tc_objs.add_obj(LangObj::new_const(8, Some(c.pkg), "b".to_string(), 0));
    let a2 = c.tc_objs.add_obj(LangObj::new_const(12, Some(c.pkg), "a".to_string(), 0));
    assert_eq!(c.declare_pkg_obj(&arena, ka, a, decl_info(scope)), Ok(()));
    assert_eq!(c.declare_pkg_obj(&arena, kb, b, decl_info(scope)), Ok(()));
    // A name that is taken is reported; the object still gets its record and its number.
    assert_eq!(c.declare_pkg_obj(&arena, kc, a2, decl_info(scope)), Ok(()));
    assert_eq!(c.tc_objs.lobjs[a.0].order, 1);
    assert_eq!(c.tc_objs.lobjs[b.0].order, 2);
    assert_eq!(c.tc_objs.lobjs[a2.0].order, 3);
    assert_eq!(c.obj_map.len(), 3);
    assert_eq!(c.tc_objs.decls.len(), 3);
    assert_eq!(lookup(&c, scope, "a"), Some(a));
    assert_eq!(
        c.errors,
        vec![Diagnostic { pos: 12, kind: ErrorKind::Redeclared { obj: a2, other: a } }]
    );
    assert_eq!(c.result.defs, vec![(ka, a), (kb, b)]);
}

#[test]
fn import_cache_answers_the_same_every_time() {
    let mut c = checker("p");
    let key = || ImportKey::new("../x".to_string(), "dir".to_string());
    assert_eq!(c.cached_package(&key()), None);
    let first = c.import_package(7, key(), Err(()));
    assert_eq!(c.cached_package(&key()), Some(first));
    assert_eq!(
        c.errors,
        vec![Diagnostic { pos: 7, kind: ErrorKind::CouldNotImport { pkg: first } }]
    );
    assert!(c.tc_objs.pkgs[first.0].fake);
    assert_eq!(c.tc_objs.pkgs[first.0].name, "x");
    assert_eq!(c.tc_objs.pkgs[first.0].path, "../x");
    let packages = c.tc_objs.pkgs.len();
    // The same import again: the same package, no second error, no second stand-in.
    let second = c.import_package(9, key(), Err(()));
    assert_eq!(second, first);
    let third = c.import_package(9, key(), Ok(c.pkg));
    assert_eq!(third, first);
    assert_eq!(c.errors.len(), 1);
    assert_eq!(c.tc_objs.pkgs.len(), packages);
    assert_eq!(c.imp_map.len(), 1);
    // Another directory is another import.
    let other = ImportKey::new("../x".to_string(), "other".to_string());
    assert_eq!(c.cached_package(&other), None);
}

#[test]
fn import_cache_keeps_an_imported_package() {
    let mut c = checker("p");
    let lib = c.tc_objs.new_package("lib".to_string(), "lib".to_string(), false);
    let key = || ImportKey::new("lib".to_string(), ".".to_string());
    assert_eq!(c.import_package(3, key(), Ok(lib)), lib);
    assert_eq!(c.cached_package(&key()), Some(lib));
    assert!(c.errors.is_empty());
    assert!(!c.tc_objs.pkgs[lib.0].fake);
}

#[test]
fn const_block_with_iota() {
    // const ( A = iota; B; C )
    let mut arena = AstObjects { idents: vec![] };
    let a = ident(&mut arena, 30, "A");
    let b = ident(&mut arena, 40, "B");
    let cc = ident(&mut arena, 50, "C");
    let iota = ident(&mut arena, 34, "iota");
    let decl = gen_decl(
        Token::CONST,
        20,
        vec![
            Spec::Value(Box::new(value_spec(vec![a], None, vec![Expr::Ident(iota)]))),
            Spec::Value(Box::new(value_spec(vec![b], None, vec![]))),
            Spec::Value(Box::new(value_spec(vec![cc], None, vec![]))),
        ],
    );
    let files = vec![file(&mut arena, 1, vec![decl])];
    assert!(files[0].is_wf(&arena));
    let fset = FileSet::new();
    let mut c = checker("p");
    let mut fctx = FilesContext::new(&files);
    run_without_imports(&mut c, &mut fctx, &arena, &fset);
    assert!(c.errors.is_empty());
    let scope = pkg_scope(&c);
    let file_scope = c.result.scopes[0].1;
    let first = SpecRef { file: 0, decl: 0, spec: 0 };
    for (i, name) in ["A", "B", "C"].iter().enumerate() {
        let o = lookup(&c, scope, name).unwrap();
        let obj = &c.tc_objs.lobjs[o.0];
        assert_eq!(obj.kind, EntityType::Const { val: i });
        assert_eq!(obj.order, i + 1);
        assert_eq!(obj.pkg, Some(c.pkg));
        assert_eq!(obj.typ, None);
        let (_, d) = c.obj_map[i];
        assert_eq!(c.obj_map[i].0, o);
        assert_eq!(
            c.tc_objs.decls[d.0],
            DeclInfo {
                file_scope,
                lhs: None,
                typ: None,
                init: Some(ExprRef { spec: first, slot: ExprSlot::Value(0) }),
                fdecl: None,
            }
        );
    }
    assert_eq!(fctx.cursor.file, 1);
}

#[test]
fn const_with_two_names_and_one_value() {
    // const X, Y = 1
    let mut arena = AstObjects { idents: vec![] };
    let x = ident(&mut arena, 26, "X");
    let y = ident(&mut arena, 29, "Y");
    let decl = gen_decl(
        Token::CONST,
        20,
        vec![Spec::Value(Box::new(value_spec(vec![x, y], None, vec![int_lit(33, "1")])))],
    );
    let files = vec![file(&mut arena, 1, vec![decl])];
    let fset = FileSet::new();
    let mut c = checker("p");
    let mut fctx = FilesContext::new(&files);
    run_without_imports(&mut c, &mut fctx, &arena, &fset);
    assert_eq!(
        c.errors,
        vec![Diagnostic { pos: 29, kind: ErrorKind::MissingInitExpr { name: y } }]
    );
    assert_eq!(arena.idents[y.0].name, "Y");
    assert_eq!(c.message(&arena, &files, &fset, &c.errors[0]), "missing init expr for Y");
    // Both names are declared all the same.
    let scope = pkg_scope(&c);
    assert!(lookup(&c, scope, "X").is_some());
    let oy = lookup(&c, scope, "Y").unwrap();
    assert_eq!(c.tc_objs.decls[c.obj_map[1].1 .0].init, None);
    assert_eq!(c.obj_map[1].0, oy);
}

#[test]
fn const_repeats_the_nearest_full_spec() {
    // const ( A int = 1; B; C, D = "x", "y"; E, F; G )
    let mut arena = AstObjects { idents: vec![] };
    let names: Vec<IdentKey> = ["A", "B", "C", "D", "E", "F", "G"]
        .iter()
        .enumerate()
        .map(|(i, n)| ident(&mut arena, 30 + 10 * i, n))
        .collect();
    let int = ident(&mut arena, 32, "int");
    let decl = gen_decl(
        Token::CONST,
        20,
        vec![
            Spec::Value(Box::new(value_spec(
                vec![names[0]],
                Some(Expr::Ident(int)),
                vec![int_lit(38, "1")],
            ))),
            Spec::Value(Box::new(value_spec(vec![names[1]], None, vec![]))),
            Spec::Value(Box::new(value_spec(
                vec![names[2], names[3]],
                None,
                vec![int_lit(55, "x"), int_lit(58, "y")],
            ))),
            Spec::Value(Box::new(value_spec(vec![names[4], names[5]], None, vec![]))),
            Spec::Value(Box::new(value_spec(vec![names[6]], None, vec![]))),
        ],
    );
    let files = vec![file(&mut arena, 1, vec![decl])];
    let fset = FileSet::new();
    let mut c = checker("p");
    let mut fctx = FilesContext::new(&files);
    run_without_imports(&mut c, &mut fctx, &arena, &fset);
    let at = |spec: usize| SpecRef { file: 0, decl: 0, spec };
    let info = |i: usize| c.tc_objs.decls[c.obj_map[i].1 .0];
    let typ0 = Some(ExprRef { spec: at(0), slot: ExprSlot::Typ });
    let val = |spec: usize, i: usize| Some(ExprRef { spec: at(spec), slot: ExprSlot::Value(i) });
    assert_eq!((info(0).typ, info(0).init), (typ0, val(0, 0)));
    assert_eq!((info(1).typ, info(1).init), (typ0, val(0, 0)));
    assert_eq!((info(2).typ, info(2).init), (None, val(2, 0)));
    assert_eq!((info(3).typ, info(3).init), (None, val(2, 1)));
    assert_eq!((info(4).typ, info(4).init), (None, val(2, 0)));
    assert_eq!((info(5).typ, info(5).init), (None, val(2, 1)));
    assert_eq!((info(6).typ, info(6).init), (None, val(2, 0)));
    // The ordinal is the index of the spec, not that of the spec that is repeated.
    let ordinals: Vec<EntityType> =
        (0..7).map(|i| c.tc_objs.lobjs[c.obj_map[i].0 .0].kind).collect();
    let expected: Vec<EntityType> =
        [0, 1, 2, 2, 3, 3, 4].iter().map(|v| EntityType::Const { val: *v }).collect();
    assert_eq!(ordinals, expected);
    // G repeats a spec with two values and has one name.
    assert_eq!(
        c.errors,
        vec![Diagnostic { pos: 90, kind: ErrorKind::ExtraInitExprAt { pos: 50 } }]
    );
}

#[test]
fn const_without_anything_to_repeat() {
    // const ( A )
    let mut arena = AstObjects { idents: vec![] };
    let a = ident(&mut arena, 30, "A");
    let decl =
        gen_decl(Token::CONST, 20, vec![Spec::Value(Box::new(value_spec(vec![a], None, vec![])))]);
    let files = vec![file(&mut arena, 1, vec![decl])];
    let fset = FileSet::new();
    let mut c = checker("p");
    let mut fctx = FilesContext::new(&files);
    run_without_imports(&mut c, &mut fctx, &arena, &fset);
    assert_eq!(c.errors, vec![Diagnostic { pos: 30, kind: ErrorKind::MissingTypeOrInit }]);
    let d = c.tc_objs.decls[c.obj_map[0].1 .0];
    assert_eq!((d.typ, d.init), (None, None));
}

#[test]
fn const_init_is_reported_and_not_declared() {
    // const init = 1
    let mut arena = AstObjects { idents: vec![] };
    let k = ident(&mut arena, 26, "init");
    let decl = gen_decl(
        Token::CONST,
        20,
        vec![Spec::Value(Box::new(value_spec(vec![k], None, vec![int_lit(33, "1")])))],
    );
    let files = vec![file(&mut arena, 1, vec![decl])];
    let fset = FileSet::new();
    let mut c = checker("p");
    let mut fctx = FilesContext::new(&files);
    run_without_imports(&mut c, &mut fctx, &arena, &fset);
    assert_eq!(c.errors, vec![Diagnostic { pos: 26, kind: ErrorKind::CannotDeclareInit }]);
    assert_eq!(lookup(&c, pkg_scope(&c), "init"), None);
    assert!(c.obj_map.is_empty());
}

#[test]
fn var_and_type_specs_are_left_alone_and_other_tokens_reported() {
    let mut arena = AstObjects { idents: vec![] };
    let v = ident(&mut arena, 26, "v");
    let t = ident(&mut arena, 46, "T");
    let int = ident(&mut arena, 48, "int");
    let w = ident(&mut arena, 66, "w");
    let decls = vec![
        gen_decl(
            Token::VAR,
            20,
            vec![Spec::Value(Box::new(value_spec(vec![v], None, vec![int_lit(30, "1")])))],
        ),
        gen_decl(
            Token::TYPE,
            40,
            vec![Spec::Type(Box::new(TypeSpec { name: t, assign: 0, typ: Expr::Ident(int) }))],
        ),
        gen_decl(
            Token::TYPE,
            60,
            vec![Spec::Value(Box::new(value_spec(vec![w], None, vec![int_lit(70, "1")])))],
        ),
    ];
    let files = vec![file(&mut arena, 1, decls)];
    let fset = FileSet::new();
    let mut c = checker("p");
    let mut fctx = FilesContext::new(&files);
    run_without_imports(&mut c, &mut fctx, &arena, &fset);
    assert_eq!(
        c.errors,
        vec![Diagnostic { pos: 66, kind: ErrorKind::InvalidToken { token: Token::TYPE } }]
    );
    assert!(c.tc_objs.scopes[pkg_scope(&c).0].elems.is_empty());
    assert!(c.obj_map.is_empty());
}

#[test]
fn file_scope_spans_the_source_file() {
    let mut arena = AstObjects { idents: vec![] };
    let mut fset = FileSet::new();
    fset.add_file("a.go".to_string(), Some(0), 300);
    fset.add_file("b.go".to_string(), Some(301), 200);
    let x = ident(&mut arena, 330, "X");
    let decl = Decl::Gen(Box::new(GenDecl {
        token_pos: 320,
        token: Token::CONST,
        l_paran: None,
        specs: vec![Spec::Value(Box::new(value_spec(vec![x], None, vec![int_lit(334, "12")])))],
        r_paren: None,
    }));
    let known = file(&mut arena, 310, vec![decl]);
    let unknown = file(&mut arena, 700, vec![]);
    let files = vec![known, unknown];
    let mut c = checker("p");
    let mut fctx = FilesContext::new(&files);
    run_without_imports(&mut c, &mut fctx, &arena, &fset);
    assert_eq!(c.result.scopes.len(), 2);
    let (n0, s0) = c.result.scopes[0];
    let (n1, s1) = c.result.scopes[1];
    assert_eq!((n0, n1), (0, 1));
    let s0 = &c.tc_objs.scopes[s0.0];
    assert_eq!((s0.pos, s0.end, s0.comment.as_str()), (301, 501, "b.go"));
    assert_eq!(s0.parent, Some(pkg_scope(&c)));
    // The span of the tree where the file set does not know the file: from the package
    // keyword to the end of the package name.
    let s1 = &c.tc_objs.scopes[s1.0];
    assert_eq!((s1.pos, s1.end, s1.comment.as_str()), (700, 712, ""));
    assert!(s1.elems.is_empty());
}

/// A package `pkg` that exports `Foo` and keeps `bar` to itself.
fn add_pkg(c: &mut Checker) -> (PackageKey, ObjKey, ObjKey) {
    let lib = c.tc_objs.new_package("pkg".to_string(), "pkg".to_string(), false);
    let scope = c.tc_objs.pkgs[lib.0].scope;
    let foo = c.tc_objs.add_obj(LangObj::new_const(1, Some(lib), "Foo".to_string(), 0));
    let bar = c.tc_objs.add_obj(LangObj::new_const(2, Some(lib), "bar".to_string(), 0));
    assert_eq!(c.tc_objs.insert(scope, foo), None);
    assert_eq!(c.tc_objs.insert(scope, bar), None);
    (lib, foo, bar)
}

#[test]
fn dot_import_brings_in_the_exported_objects() {
    // import . "pkg"
    let mut arena = AstObjects { idents: vec![] };
    let dot = ident(&mut arena, 27, ".");
    let decl = gen_decl(Token::IMPORT, 20, vec![import_spec(Some(dot), 29, "\"pkg\"")]);
    let files = vec![file(&mut arena, 1, vec![decl])];
    let fset = FileSet::new();
    let mut c = checker("p");
    let (lib, foo, _bar) = add_pkg(&mut c);
    let mut fctx = FilesContext::new(&files);
    let mut asked = 0;
    loop {
        match c.collect_objects(&mut fctx, &arena, &fset) {
            Progress::Done => break,
            Progress::NeedImport { key, pos } => {
                asked += 1;
                assert_eq!((key.path.as_str(), key.dir.as_str(), pos), ("pkg", ".", 29));
                assert_eq!(fctx.cursor.spec, 0);
                c.import_package(pos, key, Ok(lib));
            }
        }
    }
    assert_eq!(asked, 1);
    assert!(c.errors.is_empty());
    let file_scope = c.result.scopes[0].1;
    assert_eq!(lookup(&c, file_scope, "Foo"), Some(foo));
    assert_eq!(lookup(&c, file_scope, "bar"), None);
    assert_eq!(lookup(&c, file_scope, "pkg"), None);
    assert_eq!(lookup(&c, file_scope, "."), None);
    assert_eq!(c.tc_objs.scopes[file_scope.0].elems, vec![foo]);
    // The import is kept for the pass that reports imports that nothing uses.
    assert_eq!(fctx.unused_dot_imports, vec![(file_scope, lib, 27)]);
    assert_eq!(c.tc_objs.pkgs[c.pkg.0].imports, vec![lib]);
    // The dot declares the object that stands for the package.
    assert_eq!(c.result.defs.len(), 1);
    let (k, o) = c.result.defs[0];
    assert_eq!(k, dot);
    assert_eq!(c.tc_objs.lobjs[o.0].kind, EntityType::PkgName { imported: lib });
}

#[test]
fn import_declares_the_package_name_in_the_file_scope() {
    // import ( "pkg"; q "pkg"; init "pkg" )
    let mut arena = AstObjects { idents: vec![] };
    let q = ident(&mut arena, 40, "q");
    let init = ident(&mut arena, 50, "init");
    let decl = gen_decl(
        Token::IMPORT,
        20,
        vec![
            import_spec(None, 30, "\"pkg\""),
            import_spec(Some(q), 42, "\"pkg\""),
            import_spec(Some(init), 55, "\"pkg\""),
        ],
    );
    let files = vec![file(&mut arena, 1, vec![decl])];
    let fset = FileSet::new();
    let mut c = checker("p");
    let (lib, _, _) = add_pkg(&mut c);
    let mut fctx = FilesContext::new(&files);
    let mut asked = 0;
    loop {
        match c.collect_objects(&mut fctx, &arena, &fset) {
            Progress::Done => break,
            Progress::NeedImport { key, pos } => {
                asked += 1;
                c.import_package(pos, key, Ok(lib));
            }
        }
    }
    // Three imports of one package from one directory: the package is asked for once.
    assert_eq!(asked, 1);
    let file_scope = c.result.scopes[0].1;
    let by_name = lookup(&c, file_scope, "pkg").unwrap();
    let by_alias = lookup(&c, file_scope, "q").unwrap();
    assert_eq!(c.tc_objs.lobjs[by_name.0].kind, EntityType::PkgName { imported: lib });
    assert_eq!(c.tc_objs.lobjs[by_name.0].pos, 30);
    assert_eq!(c.tc_objs.lobjs[by_alias.0].kind, EntityType::PkgName { imported: lib });
    assert_eq!(c.tc_objs.lobjs[by_alias.0].pos, 40);
    assert_eq!(lookup(&c, file_scope, "init"), None);
    assert_eq!(lookup(&c, file_scope, "Foo"), None);
    assert_eq!(c.errors, vec![Diagnostic { pos: 50, kind: ErrorKind::CannotDeclareInit }]);
    assert_eq!(c.tc_objs.pkgs[c.pkg.0].imports, vec![lib]);
    assert_eq!(c.result.implicits, vec![(SpecRef { file: 0, decl: 0, spec: 0 }, by_name)]);
    assert_eq!(c.result.defs, vec![(q, by_alias)]);
    assert!(fctx.unused_dot_imports.is_empty());
    // Nothing of this is declared in the scope of the package.
    assert!(c.tc_objs.scopes[pkg_scope(&c).0].elems.is_empty());
}

#[test]
fn import_that_fails_is_reported_once() {
    // Two files of one directory import "../x", which cannot be imported.
    let mut arena = AstObjects { idents: vec![] };
    let d1 = gen_decl(Token::IMPORT, 20, vec![import_spec(None, 30, "\"../x\"")]);
    let d2 = gen_decl(Token::IMPORT, 120, vec![import_spec(None, 130, "\"../x\"")]);
    let files = vec![file(&mut arena, 1, vec![d1]), file(&mut arena, 101, vec![d2])];
    let mut fset = FileSet::new();
    fset.add_file("src/a.go".to_string(), Some(0), 99);
    fset.add_file("src/b.go".to_string(), Some(100), 99);
    let mut c = checker("p");
    let mut fctx = FilesContext::new(&files);
    let mut asked = vec![];
    loop {
        match c.collect_objects(&mut fctx, &arena, &fset) {
            Progress::Done => break,
            Progress::NeedImport { key, pos } => {
                asked.push((key.path.clone(), key.dir.clone(), pos));
                c.import_package(pos, key, Err(()));
            }
        }
    }
    assert_eq!(asked, vec![("../x".to_string(), "src".to_string(), 30)]);
    assert_eq!(c.errors.len(), 1);
    let fake = match c.errors[0] {
        Diagnostic { pos: 30, kind: ErrorKind::CouldNotImport { pkg } } => pkg,
        other => panic!("{:?}", other),
    };
    assert!(c.tc_objs.pkgs[fake.0].fake);
    assert_eq!(c.tc_objs.pkgs[fake.0].name, "x");
    // Both files know the stand-in under its name.
    for (_, scope) in c.result.scopes.iter() {
        let o = lookup(&c, *scope, "x").unwrap();
        assert_eq!(c.tc_objs.lobjs[o.0].kind, EntityType::PkgName { imported: fake });
    }
    assert_eq!(c.tc_objs.pkgs[c.pkg.0].imports, vec![fake]);
}

#[test]
fn import_with_a_bad_path_is_reported_and_skipped() {
    let mut arena = AstObjects { idents: vec![] };
    let x = ident(&mut arena, 60, "X");
    let decls = vec![
        gen_decl(
            Token::IMPORT,
            20,
            vec![import_spec(None, 30, "\"a b\""), import_spec(None, 40, "\"\"")],
        ),
        gen_decl(
            Token::CONST,
            50,
            vec![Spec::Value(Box::new(value_spec(vec![x], None, vec![int_lit(64, "1")])))],
        ),
    ];
    let files = vec![file(&mut arena, 1, decls)];
    let fset = FileSet::new();
    let mut c = checker("p");
    let mut fctx = FilesContext::new(&files);
    match c.collect_objects(&mut fctx, &arena, &fset) {
        Progress::Done => {}
        Progress::NeedImport { .. } => panic!("no import has a path"),
    }
    assert_eq!(
        c.errors,
        vec![
            Diagnostic { pos: 30, kind: ErrorKind::InvalidImportChar { ch: ' ' } },
            Diagnostic {
                pos: 40,
                kind: ErrorKind::InvalidImportPath { spec: SpecRef { file: 0, decl: 0, spec: 1 } },
            },
        ]
    );
    assert_eq!(c.message(&arena, &files, &fset, &c.errors[0]), "invalid character:  ");
    assert_eq!(c.message(&arena, &files, &fset, &c.errors[1]), "invalid import path: \"\"");
    assert!(lookup(&c, pkg_scope(&c), "X").is_some());
    assert!(c.imp_map.is_empty());
}

#[test]
fn pass_stands_still_until_the_import_is_handed_in() {
    let mut arena = AstObjects { idents: vec![] };
    let decl = gen_decl(Token::IMPORT, 20, vec![import_spec(None, 30, "\"pkg\"")]);
    let files = vec![file(&mut arena, 1, vec![decl])];
    let fset = FileSet::new();
    let mut c = checker("p");
    let mut fctx = FilesContext::new(&files);
    assert_eq!(fctx.cursor, Cursor { file: 0, decl: 0, spec: 0, file_scope: None, last_full: None });
    for _ in 0..3 {
        match c.collect_objects(&mut fctx, &arena, &fset) {
            Progress::NeedImport { key, pos } => {
                assert_eq!((key.path.as_str(), pos), ("pkg", 30));
            }
            Progress::Done => panic!("the import is not in the cache"),
        }
        assert_eq!(c.result.scopes.len(), 1);
        assert_eq!((fctx.cursor.file, fctx.cursor.decl, fctx.cursor.spec), (0, 0, 0));
        assert!(c.errors.is_empty());
    }
}

#[test]
fn dot_import_does_not_replace_what_the_file_scope_binds() {
    // import ( Foo "other"; . "pkg" )
    let mut arena = AstObjects { idents: vec![] };
    let alias = ident(&mut arena, 30, "Foo");
    let dot = ident(&mut arena, 50, ".");
    let decl = gen_decl(
        Token::IMPORT,
        20,
        vec![import_spec(Some(alias), 34, "\"other\""), import_spec(Some(dot), 52, "\"pkg\"")],
    );
    let files = vec![file(&mut arena, 1, vec![decl])];
    let fset = FileSet::new();
    let mut c = checker("p");
    let (lib, foo, _) = add_pkg(&mut c);
    let other = c.tc_objs.new_package("other".to_string(), "other".to_string(), false);
    let mut fctx = FilesContext::new(&files);
    loop {
        match c.collect_objects(&mut fctx, &arena, &fset) {
            Progress::Done => break,
            Progress::NeedImport { key, pos } => {
                let p = if key.path == "pkg" { lib } else { other };
                c.import_package(pos, key, Ok(p));
            }
        }
    }
    let file_scope = c.result.scopes[0].1;
    let bound = lookup(&c, file_scope, "Foo").unwrap();
    assert_eq!(c.tc_objs.lobjs[bound.0].kind, EntityType::PkgName { imported: other });
    assert_eq!(
        c.errors,
        vec![Diagnostic { pos: 1, kind: ErrorKind::Redeclared { obj: foo, other: bound } }]
    );
}

#[test]
fn blank_import_declares_nothing() {
    // import _ "pkg"
    let mut arena = AstObjects { idents: vec![] };
    let blank = ident(&mut arena, 27, "_");
    let decl = gen_decl(Token::IMPORT, 20, vec![import_spec(Some(blank), 29, "\"pkg\"")]);
    let files = vec![file(&mut arena, 1, vec![decl])];
    let fset = FileSet::new();
    let mut c = checker("p");
    let (lib, _, _) = add_pkg(&mut c);
    let mut fctx = FilesContext::new(&files);
    loop {
        match c.collect_objects(&mut fctx, &arena, &fset) {
            Progress::Done => break,
            Progress::NeedImport { key, pos } => {
                c.import_package(pos, key, Ok(lib));
            }
        }
    }
    assert!(c.errors.is_empty());
    let file_scope = c.result.scopes[0].1;
    assert!(c.tc_objs.scopes[file_scope.0].elems.is_empty());
    assert_eq!(c.tc_objs.pkgs[c.pkg.0].imports, vec![lib]);
    assert!(fctx.unused_dot_imports.is_empty());
    assert_eq!(c.result.defs.len(), 1);
}

#[test]
fn soundness_of_the_arenas_is_told() {
    let mut objs = TCObjects::new();
    assert!(objs.is_wf());
    let pkg = objs.new_package("p".to_string(), "p".to_string(), false);
    let scope = objs.pkgs[pkg.0].scope;
    let a = objs.add_obj(LangObj::new_const(1, Some(pkg), "a".to_string(), 0));
    let a2 = objs.add_obj(LangObj::new_const(2, Some(pkg), "a".to_string(), 0));
    let b = objs.add_obj(LangObj::new_const(3, Some(pkg), "b".to_string(), 0));
    objs.insert(scope, a);
    objs.insert(scope, b);
    assert!(objs.is_wf());
    assert!(objs.check_scope(scope.0) && objs.check_pkg(pkg.0));
    // One name bound twice.
    objs.scopes[scope.0].elems.push(a2);
    assert!(!objs.check_scope(scope.0));
    assert!(!objs.is_wf());
    objs.scopes[scope.0].elems.pop();
    // An entry that is no object.
    objs.scopes[scope.0].elems.push(ObjKey(99));
    assert!(!objs.is_wf());
    objs.scopes[scope.0].elems.pop();
    // A scope that is its own parent.
    objs.scopes[scope.0].parent = Some(scope);
    assert!(!objs.is_wf());
    objs.scopes[scope.0].parent = None;
    // An import that is no package, a scope that is no scope.
    objs.pkgs[pkg.0].imports.push(PackageKey(7));
    assert!(!objs.check_pkg(pkg.0));
    objs.pkgs[pkg.0].imports.pop();
    objs.pkgs[pkg.0].scope = ScopeKey(7);
    assert!(!objs.is_wf());
    objs.pkgs[pkg.0].scope = scope;
    assert!(objs.is_wf());
}

#[test]
fn soundness_of_the_check_is_told() {
    let mut arena = AstObjects { idents: vec![] };
    let ka = ident(&mut arena, 4, "a");
    let mut c = checker("p");
    assert!(c.is_wf());
    let scope = pkg_scope(&c);
    let a = c.tc_objs.add_obj(LangObj::new_const(4, Some(c.pkg), "a".to_string(), 0));
    c.declare_pkg_obj(&arena, ka, a, decl_info(scope)).unwrap();
    let key = || ImportKey::new("x".to_string(), ".".to_string());
    let fake = c.import_package(1, key(), Err(()));
    assert!(c.is_wf());
    // A number out of order.
    c.tc_objs.lobjs[a.0].order = 5;
    assert!(!c.is_wf());
    c.tc_objs.lobjs[a.0].order = 1;
    // A key cached twice.
    c.imp_map.push(goscript_resolver::importer::ImportEntry { key: key(), pkg: fake });
    assert!(!c.is_wf());
    c.imp_map.pop();
    // A cached package that is no package.
    c.imp_map[0].pkg = PackageKey(50);
    assert!(!c.is_wf());
    c.imp_map[0].pkg = fake;
    // A package that is no package.
    let pkg = c.pkg;
    c.pkg = PackageKey(50);
    assert!(!c.is_wf());
    c.pkg = pkg;
    assert!(c.is_wf());
}

#[test]
fn cursor_that_stands_outside_the_files_is_told() {
    let mut arena = AstObjects { idents: vec![] };
    let a = ident(&mut arena, 30, "A");
    let b = ident(&mut arena, 40, "B");
    let decl = gen_decl(
        Token::CONST,
        20,
        vec![
            Spec::Value(Box::new(value_spec(vec![a], None, vec![int_lit(34, "1")]))),
            Spec::Value(Box::new(value_spec(vec![b], None, vec![]))),
        ],
    );
    let files = vec![file(&mut arena, 1, vec![decl])];
    let mut c = checker("p");
    let mut fctx = FilesContext::new(&files);
    assert!(fctx.cursor_ok() && c.ready(&fctx));
    let package_scope = pkg_scope(&c);
    let scope = Some(c.tc_objs.new_scope(Some(package_scope), 0, 100, String::new()));
    let at = |file, decl, spec, file_scope, last_full| Cursor { file, decl, spec, file_scope, last_full };
    for (cursor, ok) in [
        (at(0, 0, 0, scope, None), true),
        (at(0, 0, 1, scope, Some(0)), true),
        (at(0, 0, 2, scope, Some(0)), true),
        (at(0, 1, 0, scope, None), true),
        (at(1, 0, 0, None, None), true),
        (at(0, 0, 1, scope, None), false),
        (at(0, 0, 2, scope, Some(1)), false),
        (at(0, 0, 3, scope, Some(0)), false),
        (at(0, 2, 0, scope, None), false),
        (at(0, 1, 1, scope, None), false),
        (at(0, 0, 1, None, None), false),
        (at(2, 0, 0, None, None), false),
    ] {
        fctx.cursor = cursor;
        assert_eq!(fctx.cursor_ok(), ok, "{:?}", cursor);
        assert_eq!(c.ready(&fctx), ok, "{:?}", cursor);
    }
    // The scope of the open file has to be a scope, and not that of the package.
    fctx.cursor = at(0, 0, 0, Some(ScopeKey(9)), None);
    assert!(fctx.cursor_ok());
    assert!(!c.ready(&fctx));
    fctx.cursor = at(0, 0, 0, Some(package_scope), None);
    assert!(fctx.cursor_ok());
    assert!(!c.ready(&fctx));
}

#[test]
fn wording_of_the_errors() {
    let nowhere = SpecRef { file: 0, decl: 0, spec: 0 };
    assert_eq!(ErrorKind::InvalidImportPath { spec: nowhere }.text(), "invalid import path");
    assert_eq!(ErrorKind::InvalidImportChar { ch: '!' }.text(), "invalid character");
    assert_eq!(ErrorKind::CouldNotImport { pkg: PackageKey(0) }.text(), "could not import");
    assert_eq!(ErrorKind::CannotDeclareInit.text(), "cannot declare init - must be func");
    assert_eq!(ErrorKind::CannotDeclareMain.text(), "cannot declare main - must be func");
    assert_eq!(ErrorKind::MissingTypeOrInit.text(), "missing type or init expr");
    assert_eq!(ErrorKind::ExtraInitExpr { index: 0 }.text(), "extra init expr");
    assert_eq!(ErrorKind::ExtraInitExprAt { pos: 0 }.text(), "extra init expr at");
    assert_eq!(ErrorKind::MissingInitExpr { name: IdentKey(0) }.text(), "missing init expr for");
    assert_eq!(ErrorKind::InvalidToken { token: Token::TYPE }.text(), "invalid token");
    assert_eq!(
        ErrorKind::Redeclared { obj: ObjKey(0), other: ObjKey(1) }.text(),
        "redeclared in this block"
    );
}

#[test]
fn errors_in_words() {
    let mut arena = AstObjects { idents: vec![] };
    let y = ident(&mut arena, 13, "Y");
    let decl = gen_decl(Token::IMPORT, 20, vec![import_spec(None, 30, "'pkg'")]);
    let files = vec![file(&mut arena, 1, vec![decl])];
    let mut fset = FileSet::new();
    fset.add_file("dir/a.go".to_string(), Some(0), 99);
    let mut c = checker("p");
    let key = ImportKey::new("../x".to_string(), ".".to_string());
    let fake = c.import_package(7, key, Err(()));
    let a = c.tc_objs.add_obj(LangObj::new_const(5, Some(c.pkg), "a".to_string(), 0));
    let say = |kind: ErrorKind| c.message(&arena, &files, &fset, &Diagnostic { pos: 1, kind });
    let at = |file, decl, spec| SpecRef { file, decl, spec };
    assert_eq!(
        say(ErrorKind::InvalidImportPath { spec: at(0, 0, 0) }),
        "invalid import path: 'pkg'"
    );
    assert_eq!(say(ErrorKind::InvalidImportChar { ch: '?' }), "invalid character: ?");
    assert_eq!(say(ErrorKind::CouldNotImport { pkg: fake }), "could not import ../x");
    assert_eq!(say(ErrorKind::CannotDeclareInit), "cannot declare init - must be func");
    assert_eq!(say(ErrorKind::CannotDeclareMain), "cannot declare main - must be func");
    assert_eq!(say(ErrorKind::MissingTypeOrInit), "missing type or init expr");
    assert_eq!(say(ErrorKind::ExtraInitExpr { index: 1 }), "extra init expr");
    assert_eq!(say(ErrorKind::ExtraInitExprAt { pos: 10 }), "extra init expr at dir/a.go:1:11");
    assert_eq!(say(ErrorKind::MissingInitExpr { name: y }), "missing init expr for Y");
    assert_eq!(say(ErrorKind::InvalidToken { token: Token::TYPE }), "invalid token type");
    assert_eq!(say(ErrorKind::InvalidToken { token: Token::IMPORT }), "invalid token import");
    assert_eq!(
        say(ErrorKind::Redeclared { obj: a, other: ObjKey(0) }),
        "a redeclared in this block"
    );
    // An error that names what is not there says what it can.
    for spec in [at(0, 0, 1), at(0, 1, 0), at(1, 0, 0)] {
        assert_eq!(say(ErrorKind::InvalidImportPath { spec }), "invalid import path");
    }
    assert_eq!(say(ErrorKind::CouldNotImport { pkg: PackageKey(77) }), "could not import");
    assert_eq!(say(ErrorKind::MissingInitExpr { name: IdentKey(77) }), "missing init expr for");
    assert_eq!(
        say(ErrorKind::Redeclared { obj: ObjKey(77), other: a }),
        "redeclared in this block"
    );
    assert_eq!(
        say(ErrorKind::ExtraInitExprAt { pos: usize::MAX }),
        "extra init expr at"
    );
    assert_eq!(c.message(&arena, &files, &fset, &c.errors[0]), "could not import ../x");
}

#[test]
fn positions_in_words() {
    let mut fset = FileSet::new();
    fset.add_file("a.go".to_string(), None, 100);
    fset.add_file("b.go".to_string(), None, 50);
    assert_eq!(position_string(&fset, 0), Some("a.go:1:1".to_string()));
    assert_eq!(position_string(&fset, 100), Some("a.go:1:101".to_string()));
    assert_eq!(position_string(&fset, 105), Some("b.go:1:5".to_string()));
    // A position that belongs to no file.
    assert_eq!(position_string(&fset, 500), Some("non_file_name".to_string()));
    assert_eq!(position_string(&fset, usize::MAX), None);
    // A file that ends beyond the machine word.
    fset.add_file("c.go".to_string(), Some(usize::MAX - 5), 10);
    assert_eq!(position_string(&fset, 0), None);
    assert!(source_file_at(&fset, usize::MAX - 2).is_none());
    assert_eq!(source_file_at(&fset, 3).unwrap().name, "a.go");
}

#[test]
fn illegal_path_characters_given_the_white_space_test() {
    for c in "!\"#$%&'()*,:;<=>?[\\]^{|}`\u{FFFD}".chars() {
        assert!(illegal_path_char_given(c, false), "{}", c);
        assert!(illegal_path_char_given(c, true), "{}", c);
    }
    for c in "fmt/._-+~@ \t".chars() {
        assert!(!illegal_path_char_given(c, false), "{}", c);
        assert!(illegal_path_char_given(c, true), "{}", c);
    }
}

#[test]
fn exported_given_the_uppercase_test() {
    assert!(exported_given("Foo", true));
    assert!(!exported_given("Foo", false));
    assert!(!exported_given("", true));
    assert!(!exported_given("", false));
}

#[test]
fn pass_reads_no_statement_and_no_expression() {
    // const X = <a value that names an identifier that is not there>
    let mut arena = AstObjects { idents: vec![] };
    let x = ident(&mut arena, 26, "X");
    let decl = gen_decl(
        Token::CONST,
        20,
        vec![Spec::Value(Box::new(value_spec(vec![x], None, vec![Expr::Ident(IdentKey(99))])))],
    );
    let files = vec![file(&mut arena, 1, vec![decl])];
    assert!(!files[0].is_wf(&arena));
    let mut fset = FileSet::new();
    fset.add_file("a.go".to_string(), Some(0), 99);
    let mut c = checker("p");
    let mut fctx = FilesContext::new(&files);
    run_without_imports(&mut c, &mut fctx, &arena, &fset);
    assert!(c.errors.is_empty());
    assert!(lookup(&c, pkg_scope(&c), "X").is_some());
}
