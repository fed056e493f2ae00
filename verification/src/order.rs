//! Tests of source order: whether a tree is laid out as a parser lays it
//! out.
//!
//! Source order speaks of the starts and the ends of the parts of a node,
//! so a test of it reads both of many nodes: it asks for a tree that is
//! well-formed throughout.

use vstd::prelude::*;
use crate::ast::{AstObjects, Decl, Expr, Field, FieldList, File, FuncType, Spec, Stmt};
use crate::span::{
    lemma_decl_can, lemma_expr_can, lemma_field_can, lemma_field_list_can, lemma_func_type_can,
    lemma_spec_can, lemma_stmt_can,
};

verus! {

impl Expr {
    /// Whether the expression is in source order.
    pub fn is_in_order(&self, arena: &AstObjects) -> (b: bool)
        requires
            self.wf(arena),
        ensures
            b == self.in_order(arena),
        decreases self,
    {
        proof {
            match self {
                Expr::Ellipsis(x) => match &x.elt {
                    Some(y) => lemma_expr_can(y, arena),
                    None => {},
                },
                Expr::FuncLit(x) => lemma_func_type_can(&x.typ, arena),
                Expr::CompositeLit(x) => match &x.typ {
                    Some(t) => lemma_expr_can(t, arena),
                    None => {},
                },
                Expr::Selector(x) => lemma_expr_can(&x.expr, arena),
                Expr::Index(x) => lemma_expr_can(&x.expr, arena),
                Expr::Slice(x) => lemma_expr_can(&x.expr, arena),
                Expr::TypeAssert(x) => lemma_expr_can(&x.expr, arena),
                Expr::Call(x) => lemma_expr_can(&x.func, arena),
                Expr::Star(x) => {
                    lemma_expr_can(&x.star, arena);
                    lemma_expr_can(&x.expr, arena);
                },
                Expr::Unary(x) => lemma_expr_can(&x.expr, arena),
                Expr::Binary(x) => {
                    lemma_expr_can(&x.expr_a, arena);
                    lemma_expr_can(&x.expr_b, arena);
                },
                Expr::KeyValue(x) => {
                    lemma_expr_can(&x.key, arena);
                    lemma_expr_can(&x.val, arena);
                },
                Expr::Array(x) => lemma_expr_can(&x.elt, arena),
                Expr::Struct(x) => lemma_field_list_can(&x.fields, arena),
                Expr::Interface(x) => lemma_field_list_can(&x.methods, arena),
                Expr::MapType(x) => lemma_expr_can(&x.val, arena),
                Expr::Chan(x) => lemma_expr_can(&x.val, arena),
                _ => {},
            }
        }
        match self {
            Expr::Bad(e) => e.from <= e.to,
            Expr::Ident(_) => true,
            Expr::Ellipsis(e) => match &e.elt {
                Some(x) => x.is_in_order(arena) && e.pos <= x.pos(arena),
                None => true,
            },
            Expr::BasicLit(_) => true,
            Expr::FuncLit(e) => e.typ.is_in_order(arena) && e.typ.end(arena) <= e.body.l_brace,
            Expr::CompositeLit(e) => e.l_brace <= e.r_brace && match &e.typ {
                Some(t) => t.is_in_order(arena) && t.end(arena) <= e.l_brace,
                None => true,
            },
            Expr::Paren(e) => e.l_paren <= e.r_paren,
            Expr::Selector(e) => e.expr.is_in_order(arena) && e.expr.end(arena)
                <= arena.idents[e.sel.0].pos,
            Expr::Index(e) => e.expr.is_in_order(arena) && e.expr.end(arena) <= e.l_brack
                && e.l_brack <= e.r_brack,
            Expr::Slice(e) => e.expr.is_in_order(arena) && e.expr.end(arena) <= e.l_brack
                && e.l_brack <= e.r_brack,
            Expr::TypeAssert(e) => e.expr.is_in_order(arena) && e.expr.end(arena) <= e.l_paren
                && e.l_paren <= e.r_paren,
            Expr::Call(e) => e.func.is_in_order(arena) && e.func.end(arena) <= e.l_paren
                && e.l_paren <= e.r_paren,
            Expr::Star(e) => e.star.is_in_order(arena) && e.expr.is_in_order(arena)
                && e.star.end(arena) <= e.expr.pos(arena),
            Expr::Unary(e) => e.expr.is_in_order(arena) && e.op_pos <= e.expr.pos(arena),
            Expr::Binary(e) => e.expr_a.is_in_order(arena) && e.expr_b.is_in_order(arena)
                && e.expr_a.end(arena) <= e.op_pos && e.op_pos <= e.expr_b.pos(arena),
            Expr::KeyValue(e) => e.key.is_in_order(arena) && e.val.is_in_order(arena)
                && e.key.end(arena) <= e.colon && e.colon <= e.val.pos(arena),
            Expr::Array(e) => e.elt.is_in_order(arena) && e.l_brack <= e.elt.pos(arena),
            Expr::Struct(e) => e.fields.is_in_order(arena) && e.struct_pos <= e.fields.pos(arena),
            Expr::Func(e) => e.is_in_order(arena),
            Expr::Interface(e) => e.methods.is_in_order(arena) && e.interface <= e.methods.pos(
                arena,
            ),
            Expr::MapType(e) => e.val.is_in_order(arena) && e.map <= e.val.pos(arena),
            Expr::Chan(e) => e.val.is_in_order(arena) && e.begin <= e.val.pos(arena),
        }
    }
}

impl FuncType {
    /// Whether the function type is in source order.
    pub fn is_in_order(&self, arena: &AstObjects) -> (b: bool)
        requires
            self.wf(arena),
        ensures
            b == self.in_order(arena),
        decreases self,
    {
        proof {
            lemma_field_list_can(&self.params, arena);
            match &self.results {
                Some(r) => lemma_field_list_can(r, arena),
                None => {},
            }
        }
        self.params.is_in_order(arena) && (match self.func {
            Some(p) => p <= self.params.pos(arena),
            None => true,
        }) && (match &self.results {
            Some(r) => r.is_in_order(arena) && self.params.end(arena) <= r.pos(arena),
            None => true,
        })
    }
}

impl Field {
    /// Whether the field is in source order.
    pub fn is_in_order(&self, arena: &AstObjects) -> (b: bool)
        requires
            self.wf(arena),
        ensures
            b == self.in_order(arena),
        decreases self,
    {
        proof {
            lemma_expr_can(&self.typ, arena);
            if self.names@.len() > 0 {
                lemma_expr_can(&self.names@[0], arena);
            }
            match &self.tag {
                Some(t) => lemma_expr_can(t, arena),
                None => {},
            }
        }
        self.typ.is_in_order(arena) && (self.names.len() == 0 || (self.names[0].is_in_order(arena)
            && self.names[0].end(arena) <= self.typ.pos(arena))) && (match &self.tag {
            Some(t) => t.is_in_order(arena) && self.typ.end(arena) <= t.pos(arena),
            None => true,
        })
    }
}

impl FieldList {
    /// Whether the field list is in source order.
    pub fn is_in_order(&self, arena: &AstObjects) -> (b: bool)
        requires
            self.wf(arena),
        ensures
            b == self.in_order(arena),
        decreases self,
    {
        let n = self.list.len();
        let mut j: usize = 0;
        while j < n
            invariant
                j <= n == self.list@.len(),
                self.wf(arena),
                forall|i: int| 0 <= i < j ==> (#[trigger] self.list@[i]).in_order(arena),
                forall|a: int, b: int|
                    0 <= a < b < j ==> (#[trigger] self.list@[a]).spec_end(arena) <= (
                    #[trigger] self.list@[b]).spec_pos(arena),
                match self.openning {
                    Some(o) => forall|i: int|
                        0 <= i < j ==> o <= (#[trigger] self.list@[i]).spec_pos(arena),
                    None => true,
                },
                match self.closing {
                    Some(c) => forall|i: int|
                        0 <= i < j ==> (#[trigger] self.list@[i]).spec_end(arena) <= c,
                    None => true,
                },
            decreases n - j,
        {
            assert(self.list@[j as int].wf(arena));
            proof {
                lemma_field_can(&self.list@[j as int], arena);
            }
            if !self.list[j].is_in_order(arena) {
                return false;
            }
            let pos = self.list[j].pos(arena);
            let end = self.list[j].end(arena);
            match self.openning {
                Some(o) => {
                    if o > pos {
                        return false;
                    }
                },
                None => {},
            }
            match self.closing {
                Some(c) => {
                    if end > c {
                        return false;
                    }
                },
                None => {},
            }
            let mut i: usize = 0;
            while i < j
                invariant
                    i <= j < n == self.list@.len(),
                    self.wf(arena),
                    pos == self.list@[j as int].spec_pos(arena),
                    forall|a: int|
                        0 <= a < i ==> (#[trigger] self.list@[a]).spec_end(arena) <= pos,
                decreases j - i,
            {
                assert(self.list@[i as int].wf(arena));
                proof {
                    lemma_field_can(&self.list@[i as int], arena);
                }
                if self.list[i].end(arena) > pos {
                    return false;
                }
                i += 1;
            }
            j += 1;
        }
        match (self.openning, self.closing) {
            (Some(o), Some(c)) => o <= c,
            _ => true,
        }
    }
}

impl Stmt {
    /// Whether the statement is in source order.
    pub fn is_in_order(&self, arena: &AstObjects) -> (b: bool)
        requires
            self.wf(arena),
        ensures
            b == self.in_order(arena),
        decreases self,
    {
        proof {
            match self {
                Stmt::Labeled(x) => lemma_stmt_can(&x.stmt, arena),
                Stmt::Send(x) => {
                    lemma_expr_can(&x.chan, arena);
                    lemma_expr_can(&x.val, arena);
                },
                Stmt::IncDec(x) => lemma_expr_can(&x.expr, arena),
                Stmt::Assign(x) => {
                    lemma_expr_can(&x.lhs@[0], arena);
                    lemma_expr_can(&x.rhs@[x.rhs@.len() - 1], arena);
                },
                Stmt::Go(x) => lemma_expr_can(&x.call, arena),
                Stmt::Defer(x) => lemma_expr_can(&x.call, arena),
                Stmt::Return(x) => if x.results@.len() > 0 {
                    lemma_expr_can(&x.results@[x.results@.len() - 1], arena);
                },
                Stmt::If(x) => match &x.els {
                    Some(e) => lemma_stmt_can(e, arena),
                    None => {},
                },
                Stmt::Case(x) => if x.body@.len() > 0 {
                    lemma_stmt_can(&x.body@[x.body@.len() - 1], arena);
                },
                Stmt::Comm(x) => if x.body@.len() > 0 {
                    lemma_stmt_can(&x.body@[x.body@.len() - 1], arena);
                },
                _ => {},
            }
        }
        match self {
            Stmt::Bad(s) => s.from <= s.to,
            Stmt::Decl(d) => d.is_in_order(arena),
            Stmt::Empty(_) => true,
            Stmt::Labeled(s) => s.stmt.is_in_order(arena) && arena.idents[s.label.0].end()
                <= s.colon && s.colon <= s.stmt.pos(arena),
            Stmt::Expr(e) => e.is_in_order(arena),
            Stmt::Send(s) => s.chan.is_in_order(arena) && s.val.is_in_order(arena) && s.chan.end(
                arena,
            ) <= s.arrow && s.arrow <= s.val.pos(arena),
            Stmt::IncDec(s) => s.expr.is_in_order(arena) && s.expr.end(arena) <= s.token_pos,
            Stmt::Assign(s) => {
                let n = s.rhs.len();
                s.lhs[0].is_in_order(arena) && s.rhs[n - 1].is_in_order(arena) && s.lhs[0].end(
                    arena,
                ) <= s.token_pos && s.token_pos <= s.rhs[n - 1].pos(arena)
            },
            Stmt::Go(s) => s.call.is_in_order(arena) && s.go <= s.call.pos(arena),
            Stmt::Defer(s) => s.call.is_in_order(arena) && s.defer <= s.call.pos(arena),
            Stmt::Return(s) => {
                let n = s.results.len();
                n == 0 || (s.results[n - 1].is_in_order(arena) && s.ret <= s.results[n - 1].pos(
                    arena,
                ))
            },
            Stmt::Branch(s) => match s.label {
                Some(l) => s.token_pos <= arena.idents[l.0].pos,
                None => true,
            },
            Stmt::Block(_) => true,
            Stmt::If(s) => s.if_pos <= s.body.l_brace && match &s.els {
                Some(e) => e.is_in_order(arena) && s.body.l_brace <= e.pos(arena),
                None => true,
            },
            Stmt::Case(s) => {
                let n = s.body.len();
                s.case <= s.colon && (n == 0 || (s.body[n - 1].is_in_order(arena) && s.colon
                    <= s.body[n - 1].pos(arena)))
            },
            Stmt::Switch(s) => s.switch <= s.body.l_brace,
            Stmt::TypeSwitch(s) => s.switch <= s.body.l_brace,
            Stmt::Comm(s) => {
                let n = s.body.len();
                s.case <= s.colon && (n == 0 || (s.body[n - 1].is_in_order(arena) && s.colon
                    <= s.body[n - 1].pos(arena)))
            },
            Stmt::Select(s) => s.select <= s.body.l_brace,
            Stmt::For(s) => s.for_pos <= s.body.l_brace,
            Stmt::Range(s) => s.for_pos <= s.body.l_brace,
        }
    }
}

impl Spec {
    /// Whether the spec is in source order.
    pub fn is_in_order(&self, arena: &AstObjects) -> (b: bool)
        requires
            self.wf(arena),
        ensures
            b == self.in_order(arena),
        decreases self,
    {
        proof {
            match self {
                Spec::Import(_) => {},
                Spec::Value(x) => {
                    if x.values@.len() > 0 {
                        lemma_expr_can(&x.values@[x.values@.len() - 1], arena);
                    }
                    match &x.typ {
                        Some(t) => lemma_expr_can(t, arena),
                        None => {},
                    }
                },
                Spec::Type(x) => lemma_expr_can(&x.typ, arena),
            }
        }
        match self {
            Spec::Import(s) => (match s.name {
                Some(n) => arena.idents[n.0].end() <= s.path.pos,
                None => true,
            }) && (match s.end_pos {
                Some(p) => s.path.pos + s.path.value.as_str().len() <= p,
                None => true,
            }),
            Spec::Value(s) => {
                assert(arena.has_ident(s.names@[0]));
                assert(arena.has_ident(s.names@[s.names@.len() - 1]));
                let last = &arena.idents[s.names[s.names.len() - 1].0];
                let n = s.values.len();
                arena.idents[s.names[0].0].pos <= last.pos && (match &s.typ {
                    Some(t) => t.is_in_order(arena) && last.end() <= t.pos(arena),
                    None => true,
                }) && (n == 0 || (s.values[n - 1].is_in_order(arena) && last.end() <= s.values[n
                    - 1].pos(arena)))
            },
            Spec::Type(s) => s.typ.is_in_order(arena) && arena.idents[s.name.0].end() <= s.typ.pos(
                arena,
            ),
        }
    }
}

impl Decl {
    /// Whether the declaration is in source order.
    pub fn is_in_order(&self, arena: &AstObjects) -> (b: bool)
        requires
            self.wf(arena),
        ensures
            b == self.in_order(arena),
        decreases self,
    {
        proof {
            match self {
                Decl::Bad(_) => {},
                Decl::Gen(x) => if x.specs@.len() > 0 {
                    lemma_spec_can(&x.specs@[0], arena);
                },
                Decl::Func(x) => lemma_func_type_can(&x.typ, arena),
            }
        }
        match self {
            Decl::Bad(d) => d.from <= d.to,
            Decl::Gen(d) => match d.r_paren {
                Some(p) => d.token_pos <= p,
                None => d.specs[0].is_in_order(arena) && d.token_pos <= d.specs[0].pos(arena),
            },
            Decl::Func(d) => d.typ.is_in_order(arena) && match &d.body {
                Some(b) => d.typ.end(arena) <= b.l_brace,
                None => true,
            },
        }
    }
}

impl File {
    /// Whether the file is in source order.
    pub fn is_in_order(&self, arena: &AstObjects) -> (b: bool)
        requires
            self.wf(arena),
        ensures
            b == self.in_order(arena),
    {
        let n = self.decls.len();
        proof {
            if n > 0 {
                lemma_decl_can(&self.decls@[n - 1], arena);
            }
        }
        if n > 0 {
            self.decls[n - 1].is_in_order(arena) && self.package <= self.decls[n - 1].pos(arena)
        } else {
            self.package <= arena.idents[self.name.0].pos
        }
    }
}

} // verus!
