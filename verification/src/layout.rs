//! Source order of a syntax tree, and the law that a node in source order
//! starts no later than it ends.
//!
//! `in_order` holds of a node whose tokens and children, as far as its span
//! is read from them, stand in the order in which the grammar writes them.
//! A parser produces such trees; a tree built by hand need not be one.

use vstd::prelude::*;
use crate::ast::{
    AstObjects, Decl, Expr, Field, FieldList, File, FuncType, Package, Spec, Stmt,
};

verus! {

impl Expr {
    /// The expression is in source order.
    pub open spec fn in_order(&self, arena: &AstObjects) -> bool
        decreases self,
    {
        match self {
            Expr::Bad(e) => e.from <= e.to,
            Expr::Ident(_) => true,
            Expr::Ellipsis(e) => match e.elt {
                Some(x) => x.in_order(arena) && e.pos <= x.spec_pos(arena),
                None => true,
            },
            Expr::BasicLit(_) => true,
            Expr::FuncLit(e) => e.typ.in_order(arena) && e.typ.spec_end(arena) <= e.body.l_brace,
            Expr::CompositeLit(e) => {
                &&& e.l_brace <= e.r_brace
                &&& match e.typ {
                    Some(t) => t.in_order(arena) && t.spec_end(arena) <= e.l_brace,
                    None => true,
                }
            },
            Expr::Paren(e) => e.l_paren <= e.r_paren,
            Expr::Selector(e) => {
                &&& e.expr.in_order(arena)
                &&& e.expr.spec_end(arena) <= arena.ident(e.sel).pos
            },
            Expr::Index(e) => {
                &&& e.expr.in_order(arena)
                &&& e.expr.spec_end(arena) <= e.l_brack <= e.r_brack
            },
            Expr::Slice(e) => {
                &&& e.expr.in_order(arena)
                &&& e.expr.spec_end(arena) <= e.l_brack <= e.r_brack
            },
            Expr::TypeAssert(e) => {
                &&& e.expr.in_order(arena)
                &&& e.expr.spec_end(arena) <= e.l_paren <= e.r_paren
            },
            Expr::Call(e) => {
                &&& e.func.in_order(arena)
                &&& e.func.spec_end(arena) <= e.l_paren <= e.r_paren
            },
            Expr::Star(e) => {
                &&& e.star.in_order(arena)
                &&& e.expr.in_order(arena)
                &&& e.star.spec_end(arena) <= e.expr.spec_pos(arena)
            },
            Expr::Unary(e) => e.expr.in_order(arena) && e.op_pos <= e.expr.spec_pos(arena),
            Expr::Binary(e) => {
                &&& e.expr_a.in_order(arena)
                &&& e.expr_b.in_order(arena)
                &&& e.expr_a.spec_end(arena) <= e.op_pos <= e.expr_b.spec_pos(arena)
            },
            Expr::KeyValue(e) => {
                &&& e.key.in_order(arena)
                &&& e.val.in_order(arena)
                &&& e.key.spec_end(arena) <= e.colon <= e.val.spec_pos(arena)
            },
            Expr::Array(e) => e.elt.in_order(arena) && e.l_brack <= e.elt.spec_pos(arena),
            Expr::Struct(e) => {
                &&& e.fields.in_order(arena)
                &&& e.struct_pos <= e.fields.spec_pos(arena)
            },
            Expr::Func(e) => e.in_order(arena),
            Expr::Interface(e) => {
                &&& e.methods.in_order(arena)
                &&& e.interface <= e.methods.spec_pos(arena)
            },
            Expr::MapType(e) => e.val.in_order(arena) && e.map <= e.val.spec_pos(arena),
            Expr::Chan(e) => e.val.in_order(arena) && e.begin <= e.val.spec_pos(arena),
        }
    }
}

impl FuncType {
    /// The function type is in source order.
    pub open spec fn in_order(&self, arena: &AstObjects) -> bool
        decreases self,
    {
        &&& self.params.in_order(arena)
        &&& match self.func {
            Some(p) => p <= self.params.spec_pos(arena),
            None => true,
        }
        &&& match self.results {
            Some(r) => r.in_order(arena) && self.params.spec_end(arena) <= r.spec_pos(arena),
            None => true,
        }
    }
}

impl Field {
    /// The field is in source order.
    pub open spec fn in_order(&self, arena: &AstObjects) -> bool
        decreases self,
    {
        &&& self.typ.in_order(arena)
        &&& self.names@.len() > 0 ==> {
            &&& self.names@[0].in_order(arena)
            &&& self.names@[0].spec_end(arena) <= self.typ.spec_pos(arena)
        }
        &&& match self.tag {
            Some(t) => t.in_order(arena) && self.typ.spec_end(arena) <= t.spec_pos(arena),
            None => true,
        }
    }
}

impl FieldList {
    /// The field list is in source order.
    pub open spec fn in_order(&self, arena: &AstObjects) -> bool
        decreases self,
    {
        &&& forall|i: int| 0 <= i < self.list@.len() ==> (#[trigger] self.list@[i]).in_order(arena)
        &&& forall|i: int, j: int|
            0 <= i < j < self.list@.len() ==> (#[trigger] self.list@[i]).spec_end(arena) <= (
            #[trigger] self.list@[j]).spec_pos(arena)
        &&& match self.openning {
            Some(o) => forall|i: int|
                0 <= i < self.list@.len() ==> o <= (#[trigger] self.list@[i]).spec_pos(arena),
            None => true,
        }
        &&& match self.closing {
            Some(c) => forall|i: int|
                0 <= i < self.list@.len() ==> (#[trigger] self.list@[i]).spec_end(arena) <= c,
            None => true,
        }
        &&& match (self.openning, self.closing) {
            (Some(o), Some(c)) => o <= c,
            _ => true,
        }
    }
}

impl Stmt {
    /// The statement is in source order.
    pub open spec fn in_order(&self, arena: &AstObjects) -> bool
        decreases self,
    {
        match self {
            Stmt::Bad(s) => s.from <= s.to,
            Stmt::Decl(d) => d.in_order(arena),
            Stmt::Empty(_) => true,
            Stmt::Labeled(s) => {
                &&& s.stmt.in_order(arena)
                &&& arena.ident(s.label).spec_end() <= s.colon <= s.stmt.spec_pos(arena)
            },
            Stmt::Expr(e) => e.in_order(arena),
            Stmt::Send(s) => {
                &&& s.chan.in_order(arena)
                &&& s.val.in_order(arena)
                &&& s.chan.spec_end(arena) <= s.arrow <= s.val.spec_pos(arena)
            },
            Stmt::IncDec(s) => s.expr.in_order(arena) && s.expr.spec_end(arena) <= s.token_pos,
            Stmt::Assign(s) => s.lhs@.len() > 0 && s.rhs@.len() > 0 ==> {
                &&& s.lhs@[0].in_order(arena)
                &&& s.rhs@[s.rhs@.len() - 1].in_order(arena)
                &&& s.lhs@[0].spec_end(arena) <= s.token_pos <= s.rhs@[s.rhs@.len() - 1].spec_pos(
                    arena,
                )
            },
            Stmt::Go(s) => s.call.in_order(arena) && s.go <= s.call.spec_pos(arena),
            Stmt::Defer(s) => s.call.in_order(arena) && s.defer <= s.call.spec_pos(arena),
            Stmt::Return(s) => s.results@.len() > 0 ==> {
                &&& s.results@[s.results@.len() - 1].in_order(arena)
                &&& s.ret <= s.results@[s.results@.len() - 1].spec_pos(arena)
            },
            Stmt::Branch(s) => match s.label {
                Some(l) => s.token_pos <= arena.ident(l).pos,
                None => true,
            },
            Stmt::Block(_) => true,
            Stmt::If(s) => {
                &&& s.if_pos <= s.body.l_brace
                &&& match s.els {
                    Some(e) => e.in_order(arena) && s.body.l_brace <= e.spec_pos(arena),
                    None => true,
                }
            },
            Stmt::Case(s) => {
                &&& s.case <= s.colon
                &&& s.body@.len() > 0 ==> {
                    &&& s.body@[s.body@.len() - 1].in_order(arena)
                    &&& s.colon <= s.body@[s.body@.len() - 1].spec_pos(arena)
                }
            },
            Stmt::Switch(s) => s.switch <= s.body.l_brace,
            Stmt::TypeSwitch(s) => s.switch <= s.body.l_brace,
            Stmt::Comm(s) => {
                &&& s.case <= s.colon
                &&& s.body@.len() > 0 ==> {
                    &&& s.body@[s.body@.len() - 1].in_order(arena)
                    &&& s.colon <= s.body@[s.body@.len() - 1].spec_pos(arena)
                }
            },
            Stmt::Select(s) => s.select <= s.body.l_brace,
            Stmt::For(s) => s.for_pos <= s.body.l_brace,
            Stmt::Range(s) => s.for_pos <= s.body.l_brace,
        }
    }
}

impl Spec {
    /// The spec is in source order.
    pub open spec fn in_order(&self, arena: &AstObjects) -> bool
        decreases self,
    {
        match self {
            Spec::Import(s) => {
                &&& match s.name {
                    Some(n) => arena.ident(n).spec_end() <= s.path.pos,
                    None => true,
                }
                &&& match s.end_pos {
                    Some(p) => s.path.spec_end() <= p,
                    None => true,
                }
            },
            Spec::Value(s) => s.names@.len() > 0 ==> {
                let last = arena.ident(s.names@[s.names@.len() - 1]);
                &&& arena.ident(s.names@[0]).pos <= last.pos
                &&& match s.typ {
                    Some(t) => t.in_order(arena) && last.spec_end() <= t.spec_pos(arena),
                    None => true,
                }
                &&& s.values@.len() > 0 ==> {
                    &&& s.values@[s.values@.len() - 1].in_order(arena)
                    &&& last.spec_end() <= s.values@[s.values@.len() - 1].spec_pos(arena)
                }
            },
            Spec::Type(s) => {
                &&& s.typ.in_order(arena)
                &&& arena.ident(s.name).spec_end() <= s.typ.spec_pos(arena)
            },
        }
    }
}

impl Decl {
    /// The declaration is in source order.
    pub open spec fn in_order(&self, arena: &AstObjects) -> bool
        decreases self,
    {
        match self {
            Decl::Bad(d) => d.from <= d.to,
            Decl::Gen(d) => match d.r_paren {
                Some(p) => d.token_pos <= p,
                None => d.specs@.len() > 0 ==> {
                    &&& d.specs@[0].in_order(arena)
                    &&& d.token_pos <= d.specs@[0].spec_pos(arena)
                },
            },
            Decl::Func(d) => {
                &&& d.typ.in_order(arena)
                &&& match d.body {
                    Some(b) => d.typ.spec_end(arena) <= b.l_brace,
                    None => true,
                }
            },
        }
    }
}

impl File {
    /// The file is in source order.
    pub open spec fn in_order(&self, arena: &AstObjects) -> bool {
        if self.decls@.len() > 0 {
            &&& self.decls@[self.decls@.len() - 1].in_order(arena)
            &&& self.package <= self.decls@[self.decls@.len() - 1].spec_pos(arena)
        } else {
            self.package <= arena.ident(self.name).pos
        }
    }
}

/// An expression in source order starts no later than it ends.
pub proof fn lemma_expr_span(e: &Expr, arena: &AstObjects)
    requires
        e.wf(arena),
        e.in_order(arena),
    ensures
        e.spec_pos(arena) <= e.spec_end(arena),
    decreases e,
{
    match e {
        Expr::Ellipsis(x) => match &x.elt {
            Some(y) => lemma_expr_span(y, arena),
            None => {},
        },
        Expr::FuncLit(x) => lemma_func_type_span(&x.typ, arena),
        Expr::CompositeLit(x) => match &x.typ {
            Some(t) => lemma_expr_span(t, arena),
            None => {},
        },
        Expr::Selector(x) => lemma_expr_span(&x.expr, arena),
        Expr::Index(x) => lemma_expr_span(&x.expr, arena),
        Expr::Slice(x) => lemma_expr_span(&x.expr, arena),
        Expr::TypeAssert(x) => lemma_expr_span(&x.expr, arena),
        Expr::Call(x) => lemma_expr_span(&x.func, arena),
        Expr::Star(x) => {
            lemma_expr_span(&x.star, arena);
            lemma_expr_span(&x.expr, arena);
        },
        Expr::Unary(x) => lemma_expr_span(&x.expr, arena),
        Expr::Binary(x) => {
            lemma_expr_span(&x.expr_a, arena);
            lemma_expr_span(&x.expr_b, arena);
        },
        Expr::KeyValue(x) => {
            lemma_expr_span(&x.key, arena);
            lemma_expr_span(&x.val, arena);
        },
        Expr::Array(x) => lemma_expr_span(&x.elt, arena),
        Expr::Struct(x) => lemma_field_list_span(&x.fields, arena),
        Expr::Func(x) => lemma_func_type_span(x, arena),
        Expr::Interface(x) => lemma_field_list_span(&x.methods, arena),
        Expr::MapType(x) => lemma_expr_span(&x.val, arena),
        Expr::Chan(x) => lemma_expr_span(&x.val, arena),
        _ => {},
    }
}

/// A function type in source order starts no later than it ends.
pub proof fn lemma_func_type_span(t: &FuncType, arena: &AstObjects)
    requires
        t.wf(arena),
        t.in_order(arena),
    ensures
        t.spec_pos(arena) <= t.spec_end(arena),
    decreases t,
{
    lemma_field_list_span(&t.params, arena);
    match &t.results {
        Some(r) => lemma_field_list_span(r, arena),
        None => {},
    }
}

/// A field in source order starts no later than it ends.
pub proof fn lemma_field_span(f: &Field, arena: &AstObjects)
    requires
        f.wf(arena),
        f.in_order(arena),
    ensures
        f.spec_pos(arena) <= f.spec_end(arena),
    decreases f,
{
    lemma_expr_span(&f.typ, arena);
    if f.names@.len() > 0 {
        lemma_expr_span(&f.names@[0], arena);
    }
    match &f.tag {
        Some(t) => lemma_expr_span(t, arena),
        None => {},
    }
}

/// A field list in source order starts no later than it ends.
pub proof fn lemma_field_list_span(l: &FieldList, arena: &AstObjects)
    requires
        l.wf(arena),
        l.in_order(arena),
    ensures
        l.spec_pos(arena) <= l.spec_end(arena),
    decreases l,
{
    let n = l.list@.len() as int;
    if n > 0 {
        lemma_field_span(&l.list@[0], arena);
        lemma_field_span(&l.list@[n - 1], arena);
    }
}

/// A statement in source order starts no later than it ends.
pub proof fn lemma_stmt_span(s: &Stmt, arena: &AstObjects)
    requires
        s.wf(arena),
        s.in_order(arena),
    ensures
        s.spec_pos(arena) <= s.spec_end(arena),
    decreases s,
{
    match s {
        Stmt::Decl(d) => lemma_decl_span(d, arena),
        Stmt::Labeled(x) => lemma_stmt_span(&x.stmt, arena),
        Stmt::Expr(e) => lemma_expr_span(e, arena),
        Stmt::Send(x) => {
            lemma_expr_span(&x.chan, arena);
            lemma_expr_span(&x.val, arena);
        },
        Stmt::IncDec(x) => lemma_expr_span(&x.expr, arena),
        Stmt::Assign(x) => {
            lemma_expr_span(&x.lhs@[0], arena);
            lemma_expr_span(&x.rhs@[x.rhs@.len() - 1], arena);
        },
        Stmt::Go(x) => lemma_expr_span(&x.call, arena),
        Stmt::Defer(x) => lemma_expr_span(&x.call, arena),
        Stmt::Return(x) => if x.results@.len() > 0 {
            lemma_expr_span(&x.results@[x.results@.len() - 1], arena);
        },
        Stmt::If(x) => match &x.els {
            Some(e) => lemma_stmt_span(e, arena),
            None => {},
        },
        Stmt::Case(x) => if x.body@.len() > 0 {
            lemma_stmt_span(&x.body@[x.body@.len() - 1], arena);
        },
        Stmt::Comm(x) => if x.body@.len() > 0 {
            lemma_stmt_span(&x.body@[x.body@.len() - 1], arena);
        },
        _ => {},
    }
}

/// A spec in source order starts no later than it ends.
pub proof fn lemma_spec_span(s: &Spec, arena: &AstObjects)
    requires
        s.wf(arena),
        s.in_order(arena),
    ensures
        s.spec_pos(arena) <= s.spec_end(arena),
    decreases s,
{
    match s {
        Spec::Import(_) => {},
        Spec::Value(x) => {
            if x.values@.len() > 0 {
                lemma_expr_span(&x.values@[x.values@.len() - 1], arena);
            }
            match &x.typ {
                Some(t) => lemma_expr_span(t, arena),
                None => {},
            }
        },
        Spec::Type(x) => lemma_expr_span(&x.typ, arena),
    }
}

/// A declaration in source order starts no later than it ends.
pub proof fn lemma_decl_span(d: &Decl, arena: &AstObjects)
    requires
        d.wf(arena),
        d.in_order(arena),
    ensures
        d.spec_pos(arena) <= d.spec_end(arena),
    decreases d,
{
    match d {
        Decl::Bad(_) => {},
        Decl::Gen(x) => match x.r_paren {
            Some(_) => {},
            None => lemma_spec_span(&x.specs@[0], arena),
        },
        Decl::Func(x) => lemma_func_type_span(&x.typ, arena),
    }
}

/// A file in source order starts no later than it ends.
pub proof fn lemma_file_span(f: &File, arena: &AstObjects)
    requires
        f.wf(arena),
        f.in_order(arena),
    ensures
        f.spec_pos() <= f.spec_end(arena),
{
    if f.decls@.len() > 0 {
        lemma_decl_span(&f.decls@[f.decls@.len() - 1], arena);
    }
}

/// A package has no span of its own: it starts and ends at 0.
pub proof fn lemma_package_span(p: &Package)
    ensures
        p.spec_pos() <= p.spec_end(),
{
}

} // verus!
