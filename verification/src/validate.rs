//! Tests of well-formedness: whether the spans of a tree can be computed.
//!
//! A tree that comes from outside is tested once; after that its spans are
//! computed without any test.

use vstd::prelude::*;
use crate::ast::{
    AstObjects, BasicLit, BlockStmt, Decl, Expr, Field, FieldList, File, FuncType, ImportSpec,
    Spec, Stmt,
};
use crate::objects::IdentKey;

verus! {

impl AstObjects {
    /// Whether `k` names an identifier of the arena whose end fits the
    /// machine word.
    pub fn check_ident(&self, k: IdentKey) -> (b: bool)
        ensures
            b == self.has_ident(k),
    {
        k.0 < self.idents.len() && self.idents[k.0].name.as_str().as_bytes().len() <= usize::MAX
            - self.idents[k.0].pos
    }

    /// Whether each of `keys` names an identifier of the arena whose end
    /// fits the machine word.
    pub fn check_idents(&self, keys: &Vec<IdentKey>) -> (b: bool)
        ensures
            b == forall|i: int| 0 <= i < keys@.len() ==> self.has_ident(#[trigger] keys@[i]),
    {
        let mut i: usize = 0;
        while i < keys.len()
            invariant
                i <= keys@.len(),
                forall|j: int| 0 <= j < i ==> self.has_ident(#[trigger] keys@[j]),
            decreases keys@.len() - i,
        {
            if !self.check_ident(keys[i]) {
                return false;
            }
            i += 1;
        }
        true
    }
}

impl BasicLit {
    /// Whether the end of the literal fits the machine word.
    pub fn is_wf(&self) -> (b: bool)
        ensures
            b == self.wf(),
    {
        self.value.as_str().as_bytes().len() <= usize::MAX - self.pos
    }
}

/// Whether each of `v` is well-formed.
pub fn exprs_wf(v: &Vec<Expr>, arena: &AstObjects) -> (b: bool)
    ensures
        b == forall|i: int| 0 <= i < v@.len() ==> (#[trigger] v@[i]).wf(arena),
    decreases v,
{
    let mut i: usize = 0;
    while i < v.len()
        invariant
            i <= v@.len(),
            forall|j: int| 0 <= j < i ==> (#[trigger] v@[j]).wf(arena),
        decreases v@.len() - i,
    {
        if !v[i].is_wf(arena) {
            return false;
        }
        i += 1;
    }
    true
}

/// Whether the expression, where there is one, is well-formed.
pub fn opt_expr_wf(e: &Option<Expr>, arena: &AstObjects) -> (b: bool)
    ensures
        b == match e {
            Some(x) => x.wf(arena),
            None => true,
        },
    decreases e,
{
    match e {
        Some(x) => x.is_wf(arena),
        None => true,
    }
}

/// Whether each of `v` is well-formed.
pub fn stmts_wf(v: &Vec<Stmt>, arena: &AstObjects) -> (b: bool)
    ensures
        b == forall|i: int| 0 <= i < v@.len() ==> (#[trigger] v@[i]).wf(arena),
    decreases v,
{
    let mut i: usize = 0;
    while i < v.len()
        invariant
            i <= v@.len(),
            forall|j: int| 0 <= j < i ==> (#[trigger] v@[j]).wf(arena),
        decreases v@.len() - i,
    {
        if !v[i].is_wf(arena) {
            return false;
        }
        i += 1;
    }
    true
}

/// Whether the statement, where there is one, is well-formed.
pub fn opt_stmt_wf(s: &Option<Stmt>, arena: &AstObjects) -> (b: bool)
    ensures
        b == match s {
            Some(x) => x.wf(arena),
            None => true,
        },
    decreases s,
{
    match s {
        Some(x) => x.is_wf(arena),
        None => true,
    }
}

impl Expr {
    /// Whether the expression is well-formed.
    pub fn is_wf(&self, arena: &AstObjects) -> (b: bool)
        ensures
            b == self.wf(arena),
        decreases self,
    {
        match self {
            Expr::Bad(_) => true,
            Expr::Ident(k) => arena.check_ident(*k),
            Expr::Ellipsis(e) => match &e.elt {
                Some(x) => x.is_wf(arena),
                None => e.pos <= usize::MAX - 3,
            },
            Expr::BasicLit(e) => e.is_wf(),
            Expr::FuncLit(e) => e.typ.is_wf(arena) && e.body.is_wf(arena),
            Expr::CompositeLit(e) => opt_expr_wf(&e.typ, arena) && exprs_wf(&e.elts, arena)
                && e.r_brace < usize::MAX,
            Expr::Paren(e) => e.expr.is_wf(arena) && e.r_paren < usize::MAX,
            Expr::Selector(e) => e.expr.is_wf(arena) && arena.check_ident(e.sel),
            Expr::Index(e) => e.expr.is_wf(arena) && e.index.is_wf(arena) && e.r_brack
                < usize::MAX,
            Expr::Slice(e) => e.expr.is_wf(arena) && opt_expr_wf(&e.low, arena) && opt_expr_wf(
                &e.high,
                arena,
            ) && opt_expr_wf(&e.max, arena) && e.r_brack < usize::MAX,
            Expr::TypeAssert(e) => e.expr.is_wf(arena) && e.typ.is_wf(arena) && e.r_paren
                < usize::MAX,
            Expr::Call(e) => e.func.is_wf(arena) && exprs_wf(&e.args, arena) && e.r_paren
                < usize::MAX,
            Expr::Star(e) => e.star.is_wf(arena) && e.expr.is_wf(arena),
            Expr::Unary(e) => e.expr.is_wf(arena),
            Expr::Binary(e) => e.expr_a.is_wf(arena) && e.expr_b.is_wf(arena),
            Expr::KeyValue(e) => e.key.is_wf(arena) && e.val.is_wf(arena),
            Expr::Array(e) => e.len.is_wf(arena) && e.elt.is_wf(arena),
            Expr::Struct(e) => e.fields.is_wf(arena),
            Expr::Func(e) => e.is_wf(arena),
            Expr::Interface(e) => e.methods.is_wf(arena),
            Expr::MapType(e) => e.key.is_wf(arena) && e.val.is_wf(arena),
            Expr::Chan(e) => e.val.is_wf(arena),
        }
    }
}

impl FuncType {
    /// Whether the function type is well-formed.
    pub fn is_wf(&self, arena: &AstObjects) -> (b: bool)
        ensures
            b == self.wf(arena),
        decreases self,
    {
        self.params.is_wf(arena) && match &self.results {
            Some(r) => r.is_wf(arena),
            None => true,
        }
    }
}

impl Field {
    /// Whether the field is well-formed.
    pub fn is_wf(&self, arena: &AstObjects) -> (b: bool)
        ensures
            b == self.wf(arena),
        decreases self,
    {
        exprs_wf(&self.names, arena) && self.typ.is_wf(arena) && opt_expr_wf(&self.tag, arena)
    }
}

impl FieldList {
    /// Whether the field list is well-formed.
    pub fn is_wf(&self, arena: &AstObjects) -> (b: bool)
        ensures
            b == self.wf(arena),
        decreases self,
    {
        let mut i: usize = 0;
        while i < self.list.len()
            invariant
                i <= self.list@.len(),
                forall|j: int| 0 <= j < i ==> (#[trigger] self.list@[j]).wf(arena),
            decreases self.list@.len() - i,
        {
            if !self.list[i].is_wf(arena) {
                return false;
            }
            i += 1;
        }
        if self.openning.is_none() || self.closing.is_none() {
            self.list.len() > 0
        } else {
            true
        }
    }
}

impl BlockStmt {
    /// Whether the block is well-formed.
    pub fn is_wf(&self, arena: &AstObjects) -> (b: bool)
        ensures
            b == self.wf(arena),
        decreases self,
    {
        stmts_wf(&self.list, arena)
    }
}

impl Stmt {
    /// Whether the statement is well-formed.
    pub fn is_wf(&self, arena: &AstObjects) -> (b: bool)
        ensures
            b == self.wf(arena),
        decreases self,
    {
        match self {
            Stmt::Bad(_) => true,
            Stmt::Decl(d) => d.is_wf(arena),
            Stmt::Empty(s) => s.implicit || s.semi < usize::MAX,
            Stmt::Labeled(s) => arena.check_ident(s.label) && s.stmt.is_wf(arena),
            Stmt::Expr(e) => e.is_wf(arena),
            Stmt::Send(s) => s.chan.is_wf(arena) && s.val.is_wf(arena),
            Stmt::IncDec(s) => s.expr.is_wf(arena) && s.token_pos <= usize::MAX - 2,
            Stmt::Assign(s) => s.lhs.len() > 0 && s.rhs.len() > 0 && exprs_wf(&s.lhs, arena)
                && exprs_wf(&s.rhs, arena),
            Stmt::Go(s) => s.call.is_wf(arena),
            Stmt::Defer(s) => s.call.is_wf(arena),
            Stmt::Return(s) => exprs_wf(&s.results, arena) && (s.results.len() > 0 || s.ret
                <= usize::MAX - 6),
            Stmt::Branch(s) => match s.label {
                Some(l) => arena.check_ident(l),
                None => s.token.token_text().as_bytes().len() <= usize::MAX - s.token_pos,
            },
            Stmt::Block(s) => s.is_wf(arena),
            Stmt::If(s) => opt_stmt_wf(&s.init, arena) && s.cond.is_wf(arena) && s.body.is_wf(
                arena,
            ) && opt_stmt_wf(&s.els, arena),
            Stmt::Case(s) => exprs_wf(&s.list, arena) && stmts_wf(&s.body, arena) && (s.body.len()
                > 0 || s.colon < usize::MAX),
            Stmt::Switch(s) => opt_stmt_wf(&s.init, arena) && opt_expr_wf(&s.tag, arena)
                && s.body.is_wf(arena),
            Stmt::TypeSwitch(s) => opt_stmt_wf(&s.init, arena) && s.assign.is_wf(arena)
                && s.body.is_wf(arena),
            Stmt::Comm(s) => opt_stmt_wf(&s.comm, arena) && stmts_wf(&s.body, arena) && (
            s.body.len() > 0 || s.colon < usize::MAX),
            Stmt::Select(s) => s.body.is_wf(arena),
            Stmt::For(s) => s.init.is_wf(arena) && s.cond.is_wf(arena) && s.post.is_wf(arena)
                && s.body.is_wf(arena),
            Stmt::Range(s) => opt_expr_wf(&s.key, arena) && opt_expr_wf(&s.val, arena)
                && s.expr.is_wf(arena) && s.body.is_wf(arena),
        }
    }
}

impl ImportSpec {
    /// Whether the import spec is well-formed.
    pub fn is_wf(&self, arena: &AstObjects) -> (b: bool)
        ensures
            b == self.wf(arena),
    {
        (match self.name {
            Some(n) => arena.check_ident(n),
            None => true,
        }) && self.path.is_wf()
    }
}

impl Spec {
    /// Whether the spec is well-formed.
    pub fn is_wf(&self, arena: &AstObjects) -> (b: bool)
        ensures
            b == self.wf(arena),
        decreases self,
    {
        match self {
            Spec::Import(s) => s.is_wf(arena),
            Spec::Value(s) => s.names.len() > 0 && arena.check_idents(&s.names) && opt_expr_wf(
                &s.typ,
                arena,
            ) && exprs_wf(&s.values, arena),
            Spec::Type(s) => arena.check_ident(s.name) && s.typ.is_wf(arena),
        }
    }
}

/// Whether each of `v` is well-formed.
pub fn specs_wf(v: &Vec<Spec>, arena: &AstObjects) -> (b: bool)
    ensures
        b == forall|i: int| 0 <= i < v@.len() ==> (#[trigger] v@[i]).wf(arena),
    decreases v,
{
    let mut i: usize = 0;
    while i < v.len()
        invariant
            i <= v@.len(),
            forall|j: int| 0 <= j < i ==> (#[trigger] v@[j]).wf(arena),
        decreases v@.len() - i,
    {
        if !v[i].is_wf(arena) {
            return false;
        }
        i += 1;
    }
    true
}

impl Decl {
    /// Whether the declaration is well-formed.
    pub fn is_wf(&self, arena: &AstObjects) -> (b: bool)
        ensures
            b == self.wf(arena),
        decreases self,
    {
        match self {
            Decl::Bad(_) => true,
            Decl::Gen(d) => specs_wf(&d.specs, arena) && match d.r_paren {
                Some(p) => p < usize::MAX,
                None => d.specs.len() > 0,
            },
            Decl::Func(d) => (match &d.recv {
                Some(r) => r.is_wf(arena),
                None => true,
            }) && arena.check_ident(d.name) && d.typ.is_wf(arena) && (match &d.body {
                Some(b) => b.is_wf(arena),
                None => true,
            }),
        }
    }
}

impl File {
    /// Whether the file is well-formed.
    pub fn is_wf(&self, arena: &AstObjects) -> (b: bool)
        ensures
            b == self.wf(arena),
    {
        if !arena.check_ident(self.name) {
            return false;
        }
        let mut i: usize = 0;
        while i < self.decls.len()
            invariant
                i <= self.decls@.len(),
                forall|j: int| 0 <= j < i ==> (#[trigger] self.decls@[j]).wf(arena),
            decreases self.decls@.len() - i,
        {
            if !self.decls[i].is_wf(arena) {
                return false;
            }
            i += 1;
        }
        let mut i: usize = 0;
        while i < self.imports.len()
            invariant
                i <= self.imports@.len(),
                forall|j: int| 0 <= j < self.decls@.len() ==> (#[trigger] self.decls@[j]).wf(arena),
                forall|j: int| 0 <= j < i ==> (#[trigger] self.imports@[j]).wf(arena),
            decreases self.imports@.len() - i,
        {
            if !self.imports[i].is_wf(arena) {
                return false;
            }
            i += 1;
        }
        arena.check_idents(&self.unresolved)
    }
}

} // verus!
