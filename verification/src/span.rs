//! The span of a syntax node: where it starts and where it ends.
//!
//! `spec_pos` and `spec_end` say, as integers, what the span of a node is.
//! `can_pos` and `can_end` say on which nodes the executable `pos` and `end`
//! can be computed: each asks of the node what that function reads on its
//! way, and no more. The identifiers that it reads are in the arena, the
//! lists that it reads an element of have one, and the end fits the machine
//! word. `wf` asks it of every node of a tree, for both functions.

use vstd::prelude::*;
use crate::ast::{
    AstObjects, BasicLit, BlockStmt, Decl, Expr, Field, FieldList, File, FuncType, Ident,
    ImportSpec, Package, Spec, Stmt,
};
use crate::objects::IdentKey;
use crate::position::{byte_len, Pos};

verus! {

impl Ident {
    /// The position after the identifier's last byte.
    pub open spec fn spec_end(&self) -> int {
        self.pos + byte_len(self.name@)
    }

    /// The position after the identifier's last byte.
    pub fn end(&self) -> (p: Pos)
        requires
            self.spec_end() <= usize::MAX,
        ensures
            p == self.spec_end(),
    {
        self.pos + self.name.as_str().len()
    }
}

impl AstObjects {
    /// `k` names an identifier of the arena.
    pub open spec fn has(&self, k: IdentKey) -> bool {
        k.0 < self.idents@.len()
    }

    /// `k` names an identifier of the arena whose end fits the machine word.
    pub open spec fn has_ident(&self, k: IdentKey) -> bool {
        self.has(k) && self.idents@[k.0 as int].spec_end() <= usize::MAX
    }

    /// The identifier that `k` names.
    pub open spec fn ident(&self, k: IdentKey) -> Ident {
        self.idents@[k.0 as int]
    }
}

impl BasicLit {
    /// The position after the last byte of the literal.
    pub open spec fn spec_end(&self) -> int {
        self.pos + byte_len(self.value@)
    }

    /// The start and the end of every node of the tree can be computed.
    pub open spec fn wf(&self) -> bool {
        self.spec_end() <= usize::MAX
    }
}

impl Expr {
    /// The start and the end of every node of the tree can be computed.
    pub open spec fn wf(&self, arena: &AstObjects) -> bool
        decreases self,
    {
        match self {
            Expr::Bad(_) => true,
            Expr::Ident(k) => arena.has_ident(*k),
            Expr::Ellipsis(e) => match e.elt {
                Some(x) => x.wf(arena),
                None => e.pos + 3 <= usize::MAX,
            },
            Expr::BasicLit(e) => e.wf(),
            Expr::FuncLit(e) => e.typ.wf(arena) && e.body.wf(arena),
            Expr::CompositeLit(e) => {
                &&& match e.typ {
                    Some(t) => t.wf(arena),
                    None => true,
                }
                &&& forall|i: int| 0 <= i < e.elts@.len() ==> (#[trigger] e.elts@[i]).wf(arena)
                &&& e.r_brace < usize::MAX
            },
            Expr::Paren(e) => e.expr.wf(arena) && e.r_paren < usize::MAX,
            Expr::Selector(e) => e.expr.wf(arena) && arena.has_ident(e.sel),
            Expr::Index(e) => e.expr.wf(arena) && e.index.wf(arena) && e.r_brack < usize::MAX,
            Expr::Slice(e) => {
                &&& e.expr.wf(arena)
                &&& match e.low {
                    Some(x) => x.wf(arena),
                    None => true,
                }
                &&& match e.high {
                    Some(x) => x.wf(arena),
                    None => true,
                }
                &&& match e.max {
                    Some(x) => x.wf(arena),
                    None => true,
                }
                &&& e.r_brack < usize::MAX
            },
            Expr::TypeAssert(e) => e.expr.wf(arena) && e.typ.wf(arena) && e.r_paren < usize::MAX,
            Expr::Call(e) => {
                &&& e.func.wf(arena)
                &&& forall|i: int| 0 <= i < e.args@.len() ==> (#[trigger] e.args@[i]).wf(arena)
                &&& e.r_paren < usize::MAX
            },
            Expr::Star(e) => e.star.wf(arena) && e.expr.wf(arena),
            Expr::Unary(e) => e.expr.wf(arena),
            Expr::Binary(e) => e.expr_a.wf(arena) && e.expr_b.wf(arena),
            Expr::KeyValue(e) => e.key.wf(arena) && e.val.wf(arena),
            Expr::Array(e) => e.len.wf(arena) && e.elt.wf(arena),
            Expr::Struct(e) => e.fields.wf(arena),
            Expr::Func(e) => e.wf(arena),
            Expr::Interface(e) => e.methods.wf(arena),
            Expr::MapType(e) => e.key.wf(arena) && e.val.wf(arena),
            Expr::Chan(e) => e.val.wf(arena),
        }
    }

    /// Where the expression starts.
    pub open spec fn spec_pos(&self, arena: &AstObjects) -> int
        decreases self,
    {
        match self {
            Expr::Bad(e) => e.from as int,
            Expr::Ident(k) => arena.ident(*k).pos as int,
            Expr::Ellipsis(e) => e.pos as int,
            Expr::BasicLit(e) => e.pos as int,
            Expr::FuncLit(e) => e.typ.spec_pos(arena),
            Expr::CompositeLit(e) => match e.typ {
                Some(t) => t.spec_pos(arena),
                None => e.l_brace as int,
            },
            Expr::Paren(e) => e.l_paren as int,
            Expr::Selector(e) => e.expr.spec_pos(arena),
            Expr::Index(e) => e.expr.spec_pos(arena),
            Expr::Slice(e) => e.expr.spec_pos(arena),
            Expr::TypeAssert(e) => e.expr.spec_pos(arena),
            Expr::Call(e) => e.func.spec_pos(arena),
            Expr::Star(e) => e.star.spec_pos(arena),
            Expr::Unary(e) => e.op_pos as int,
            Expr::Binary(e) => e.expr_a.spec_pos(arena),
            Expr::KeyValue(e) => e.key.spec_pos(arena),
            Expr::Array(e) => e.l_brack as int,
            Expr::Struct(e) => e.struct_pos as int,
            Expr::Func(e) => e.spec_pos(arena),
            Expr::Interface(e) => e.interface as int,
            Expr::MapType(e) => e.map as int,
            Expr::Chan(e) => e.begin as int,
        }
    }

    /// Where the expression ends: the position after its last token, but
    /// for a function literal, which ends where its body's `end` says.
    pub open spec fn spec_end(&self, arena: &AstObjects) -> int
        decreases self,
    {
        match self {
            Expr::Bad(e) => e.to as int,
            Expr::Ident(k) => arena.ident(*k).spec_end(),
            Expr::Ellipsis(e) => match e.elt {
                Some(x) => x.spec_end(arena),
                None => e.pos + 3,
            },
            Expr::BasicLit(e) => e.spec_end(),
            Expr::FuncLit(e) => e.body.spec_end(),
            Expr::CompositeLit(e) => e.r_brace + 1,
            Expr::Paren(e) => e.r_paren + 1,
            Expr::Selector(e) => arena.ident(e.sel).spec_end(),
            Expr::Index(e) => e.r_brack + 1,
            Expr::Slice(e) => e.r_brack + 1,
            Expr::TypeAssert(e) => e.r_paren + 1,
            Expr::Call(e) => e.r_paren + 1,
            Expr::Star(e) => e.expr.spec_end(arena),
            Expr::Unary(e) => e.expr.spec_end(arena),
            Expr::Binary(e) => e.expr_b.spec_end(arena),
            Expr::KeyValue(e) => e.val.spec_end(arena),
            Expr::Array(e) => e.elt.spec_end(arena),
            Expr::Struct(e) => e.fields.spec_end(arena),
            Expr::Func(e) => e.spec_end(arena),
            Expr::Interface(e) => e.methods.spec_end(arena),
            Expr::MapType(e) => e.val.spec_end(arena),
            Expr::Chan(e) => e.val.spec_end(arena),
        }
    }
}

impl FuncType {
    /// The start and the end of every node of the tree can be computed.
    pub open spec fn wf(&self, arena: &AstObjects) -> bool
        decreases self,
    {
        &&& self.params.wf(arena)
        &&& match self.results {
            Some(r) => r.wf(arena),
            None => true,
        }
    }

    /// The position of "func", or of the parameters where there is none.
    pub open spec fn spec_pos(&self, arena: &AstObjects) -> int
        decreases self,
    {
        match self.func {
            Some(p) => p as int,
            None => self.params.spec_pos(arena),
        }
    }

    /// The end of the results, or of the parameters where there are none.
    pub open spec fn spec_end(&self, arena: &AstObjects) -> int
        decreases self,
    {
        match self.results {
            Some(r) => r.spec_end(arena),
            None => self.params.spec_end(arena),
        }
    }
}

impl Field {
    /// The start and the end of every node of the tree can be computed.
    pub open spec fn wf(&self, arena: &AstObjects) -> bool
        decreases self,
    {
        &&& forall|i: int| 0 <= i < self.names@.len() ==> (#[trigger] self.names@[i]).wf(arena)
        &&& self.typ.wf(arena)
        &&& match self.tag {
            Some(t) => t.wf(arena),
            None => true,
        }
    }

    /// The start of the first name, or of the type where there is no name.
    pub open spec fn spec_pos(&self, arena: &AstObjects) -> int
        decreases self,
    {
        if self.names@.len() > 0 {
            self.names@[0].spec_pos(arena)
        } else {
            self.typ.spec_pos(arena)
        }
    }

    /// The end of the tag, or of the type where there is no tag.
    pub open spec fn spec_end(&self, arena: &AstObjects) -> int
        decreases self,
    {
        match self.tag {
            Some(t) => t.spec_end(arena),
            None => self.typ.spec_end(arena),
        }
    }
}

impl FieldList {
    /// The start and the end of every node of the tree can be computed.
    /// For the list itself that asks for a field where a bracket is
    /// missing: the start is read from the first field where there is no
    /// opening bracket, the end from the last where there is no closing
    /// one.
    pub open spec fn wf(&self, arena: &AstObjects) -> bool
        decreases self,
    {
        &&& forall|i: int| 0 <= i < self.list@.len() ==> (#[trigger] self.list@[i]).wf(arena)
        &&& (self.openning is None || self.closing is None) ==> self.list@.len() > 0
    }

    /// The opening bracket, or the start of the first field where there is
    /// no bracket.
    pub open spec fn spec_pos(&self, arena: &AstObjects) -> int
        decreases self,
    {
        match self.openning {
            Some(o) => o as int,
            None => if self.list@.len() > 0 {
                self.list@[0].spec_pos(arena)
            } else {
                0
            },
        }
    }

    /// The closing bracket, or the start of the last field where there is
    /// no bracket.
    pub open spec fn spec_end(&self, arena: &AstObjects) -> int
        decreases self,
    {
        match self.closing {
            Some(c) => c as int,
            None => if self.list@.len() > 0 {
                self.list@[self.list@.len() - 1].spec_pos(arena)
            } else {
                0
            },
        }
    }
}

impl BlockStmt {
    /// The start and the end of every node of the tree can be computed.
    pub open spec fn wf(&self, arena: &AstObjects) -> bool
        decreases self,
    {
        forall|i: int| 0 <= i < self.list@.len() ==> (#[trigger] self.list@[i]).wf(arena)
    }

    /// The end of a block: the position of its opening brace.
    pub open spec fn spec_end(&self) -> int {
        self.l_brace as int
    }
}

impl Stmt {
    /// The start and the end of every node of the tree can be computed.
    pub open spec fn wf(&self, arena: &AstObjects) -> bool
        decreases self,
    {
        match self {
            Stmt::Bad(_) => true,
            Stmt::Decl(d) => d.wf(arena),
            Stmt::Empty(s) => s.implicit || s.semi < usize::MAX,
            Stmt::Labeled(s) => arena.has_ident(s.label) && s.stmt.wf(arena),
            Stmt::Expr(e) => e.wf(arena),
            Stmt::Send(s) => s.chan.wf(arena) && s.val.wf(arena),
            Stmt::IncDec(s) => s.expr.wf(arena) && s.token_pos + 2 <= usize::MAX,
            Stmt::Assign(s) => {
                &&& s.lhs@.len() > 0
                &&& s.rhs@.len() > 0
                &&& forall|i: int| 0 <= i < s.lhs@.len() ==> (#[trigger] s.lhs@[i]).wf(arena)
                &&& forall|i: int| 0 <= i < s.rhs@.len() ==> (#[trigger] s.rhs@[i]).wf(arena)
            },
            Stmt::Go(s) => s.call.wf(arena),
            Stmt::Defer(s) => s.call.wf(arena),
            Stmt::Return(s) => {
                &&& forall|i: int| 0 <= i < s.results@.len() ==> (#[trigger] s.results@[i]).wf(arena)
                &&& s.results@.len() == 0 ==> s.ret + 6 <= usize::MAX
            },
            Stmt::Branch(s) => match s.label {
                Some(l) => arena.has_ident(l),
                None => s.token_pos + byte_len(s.token.spec_text()) <= usize::MAX,
            },
            Stmt::Block(s) => s.wf(arena),
            Stmt::If(s) => {
                &&& match s.init {
                    Some(i) => i.wf(arena),
                    None => true,
                }
                &&& s.cond.wf(arena)
                &&& s.body.wf(arena)
                &&& match s.els {
                    Some(e) => e.wf(arena),
                    None => true,
                }
            },
            Stmt::Case(s) => {
                &&& forall|i: int| 0 <= i < s.list@.len() ==> (#[trigger] s.list@[i]).wf(arena)
                &&& forall|i: int| 0 <= i < s.body@.len() ==> (#[trigger] s.body@[i]).wf(arena)
                &&& s.body@.len() == 0 ==> s.colon < usize::MAX
            },
            Stmt::Switch(s) => {
                &&& match s.init {
                    Some(i) => i.wf(arena),
                    None => true,
                }
                &&& match s.tag {
                    Some(t) => t.wf(arena),
                    None => true,
                }
                &&& s.body.wf(arena)
            },
            Stmt::TypeSwitch(s) => {
                &&& match s.init {
                    Some(i) => i.wf(arena),
                    None => true,
                }
                &&& s.assign.wf(arena)
                &&& s.body.wf(arena)
            },
            Stmt::Comm(s) => {
                &&& match s.comm {
                    Some(c) => c.wf(arena),
                    None => true,
                }
                &&& forall|i: int| 0 <= i < s.body@.len() ==> (#[trigger] s.body@[i]).wf(arena)
                &&& s.body@.len() == 0 ==> s.colon < usize::MAX
            },
            Stmt::Select(s) => s.body.wf(arena),
            Stmt::For(s) => {
                &&& s.init.wf(arena)
                &&& s.cond.wf(arena)
                &&& s.post.wf(arena)
                &&& s.body.wf(arena)
            },
            Stmt::Range(s) => {
                &&& match s.key {
                    Some(k) => k.wf(arena),
                    None => true,
                }
                &&& match s.val {
                    Some(v) => v.wf(arena),
                    None => true,
                }
                &&& s.expr.wf(arena)
                &&& s.body.wf(arena)
            },
        }
    }

    /// Where the statement starts.
    pub open spec fn spec_pos(&self, arena: &AstObjects) -> int
        decreases self,
    {
        match self {
            Stmt::Bad(s) => s.from as int,
            Stmt::Decl(d) => d.spec_pos(arena),
            Stmt::Empty(s) => s.semi as int,
            Stmt::Labeled(s) => arena.ident(s.label).pos as int,
            Stmt::Expr(e) => e.spec_pos(arena),
            Stmt::Send(s) => s.chan.spec_pos(arena),
            Stmt::IncDec(s) => s.expr.spec_pos(arena),
            Stmt::Assign(s) => if s.lhs@.len() > 0 {
                s.lhs@[0].spec_pos(arena)
            } else {
                0
            },
            Stmt::Go(s) => s.go as int,
            Stmt::Defer(s) => s.defer as int,
            Stmt::Return(s) => s.ret as int,
            Stmt::Branch(s) => s.token_pos as int,
            Stmt::Block(s) => s.l_brace as int,
            Stmt::If(s) => s.if_pos as int,
            Stmt::Case(s) => s.case as int,
            Stmt::Switch(s) => s.switch as int,
            Stmt::TypeSwitch(s) => s.switch as int,
            Stmt::Comm(s) => s.case as int,
            Stmt::Select(s) => s.select as int,
            Stmt::For(s) => s.for_pos as int,
            Stmt::Range(s) => s.for_pos as int,
        }
    }

    /// Where the statement ends. A block ends at its opening brace, and so
    /// does a statement that ends with a body; an empty case ends after its
    /// colon.
    pub open spec fn spec_end(&self, arena: &AstObjects) -> int
        decreases self,
    {
        match self {
            Stmt::Bad(s) => s.to as int,
            Stmt::Decl(d) => d.spec_end(arena),
            Stmt::Empty(s) => if s.implicit {
                s.semi as int
            } else {
                s.semi + 1
            },
            Stmt::Labeled(s) => s.stmt.spec_end(arena),
            Stmt::Expr(e) => e.spec_end(arena),
            Stmt::Send(s) => s.val.spec_end(arena),
            Stmt::IncDec(s) => s.token_pos + 2,
            Stmt::Assign(s) => if s.rhs@.len() > 0 {
                s.rhs@[s.rhs@.len() - 1].spec_end(arena)
            } else {
                0
            },
            Stmt::Go(s) => s.call.spec_end(arena),
            Stmt::Defer(s) => s.call.spec_end(arena),
            Stmt::Return(s) => if s.results@.len() > 0 {
                s.results@[s.results@.len() - 1].spec_end(arena)
            } else {
                s.ret + 6
            },
            Stmt::Branch(s) => match s.label {
                Some(l) => arena.ident(l).spec_end(),
                None => s.token_pos + byte_len(s.token.spec_text()),
            },
            Stmt::Block(s) => s.spec_end(),
            Stmt::If(s) => match s.els {
                Some(e) => e.spec_end(arena),
                None => s.body.spec_end(),
            },
            Stmt::Case(s) => if s.body@.len() > 0 {
                s.body@[s.body@.len() - 1].spec_end(arena)
            } else {
                s.colon + 1
            },
            Stmt::Switch(s) => s.body.spec_end(),
            Stmt::TypeSwitch(s) => s.body.spec_end(),
            Stmt::Comm(s) => if s.body@.len() > 0 {
                s.body@[s.body@.len() - 1].spec_end(arena)
            } else {
                s.colon + 1
            },
            Stmt::Select(s) => s.body.spec_end(),
            Stmt::For(s) => s.body.spec_end(),
            Stmt::Range(s) => s.body.spec_end(),
        }
    }
}

impl ImportSpec {
    /// The start and the end of every node of the tree can be computed.
    pub open spec fn wf(&self, arena: &AstObjects) -> bool {
        &&& match self.name {
            Some(n) => arena.has_ident(n),
            None => true,
        }
        &&& self.path.wf()
    }
}

impl Spec {
    /// The start and the end of every node of the tree can be computed.
    pub open spec fn wf(&self, arena: &AstObjects) -> bool
        decreases self,
    {
        match self {
            Spec::Import(s) => s.wf(arena),
            Spec::Value(s) => {
                &&& s.names@.len() > 0
                &&& forall|i: int| 0 <= i < s.names@.len() ==> arena.has_ident(#[trigger] s.names@[i])
                &&& match s.typ {
                    Some(t) => t.wf(arena),
                    None => true,
                }
                &&& forall|i: int| 0 <= i < s.values@.len() ==> (#[trigger] s.values@[i]).wf(arena)
            },
            Spec::Type(s) => arena.has_ident(s.name) && s.typ.wf(arena),
        }
    }

    /// Where the spec starts: at its first name, or at the path of an
    /// import without a name.
    pub open spec fn spec_pos(&self, arena: &AstObjects) -> int {
        match self {
            Spec::Import(s) => match s.name {
                Some(n) => arena.ident(n).pos as int,
                None => s.path.pos as int,
            },
            Spec::Value(s) => if s.names@.len() > 0 {
                arena.ident(s.names@[0]).pos as int
            } else {
                0
            },
            Spec::Type(s) => arena.ident(s.name).pos as int,
        }
    }

    /// Where the spec ends: a value spec after its last value, else after
    /// its type, else after its last name; an import at its recorded end,
    /// or at the start of its path where none is recorded.
    pub open spec fn spec_end(&self, arena: &AstObjects) -> int
        decreases self,
    {
        match self {
            Spec::Import(s) => match s.end_pos {
                Some(p) => p as int,
                None => s.path.pos as int,
            },
            Spec::Value(s) => if s.values@.len() > 0 {
                s.values@[s.values@.len() - 1].spec_end(arena)
            } else {
                match s.typ {
                    Some(t) => t.spec_end(arena),
                    None => if s.names@.len() > 0 {
                        arena.ident(s.names@[s.names@.len() - 1]).spec_end()
                    } else {
                        0
                    },
                }
            },
            Spec::Type(s) => s.typ.spec_end(arena),
        }
    }
}

impl Decl {
    /// The start and the end of every node of the tree can be computed.
    pub open spec fn wf(&self, arena: &AstObjects) -> bool
        decreases self,
    {
        match self {
            Decl::Bad(_) => true,
            Decl::Gen(d) => {
                &&& forall|i: int| 0 <= i < d.specs@.len() ==> (#[trigger] d.specs@[i]).wf(arena)
                &&& match d.r_paren {
                    Some(p) => p < usize::MAX,
                    None => d.specs@.len() > 0,
                }
            },
            Decl::Func(d) => {
                &&& match d.recv {
                    Some(r) => r.wf(arena),
                    None => true,
                }
                &&& arena.has_ident(d.name)
                &&& d.typ.wf(arena)
                &&& match d.body {
                    Some(b) => b.wf(arena),
                    None => true,
                }
            },
        }
    }

    /// Where the declaration starts.
    pub open spec fn spec_pos(&self, arena: &AstObjects) -> int
        decreases self,
    {
        match self {
            Decl::Bad(d) => d.from as int,
            Decl::Gen(d) => d.token_pos as int,
            Decl::Func(d) => d.typ.spec_pos(arena),
        }
    }

    /// Where the declaration ends: a parenthesized declaration after its
    /// closing parenthesis, one without parentheses at the end of its first
    /// spec; a function where its body's `end` says, or at the end of its
    /// type where it has no body.
    pub open spec fn spec_end(&self, arena: &AstObjects) -> int
        decreases self,
    {
        match self {
            Decl::Bad(d) => d.to as int,
            Decl::Gen(d) => match d.r_paren {
                Some(p) => p + 1,
                None => if d.specs@.len() > 0 {
                    d.specs@[0].spec_end(arena)
                } else {
                    0
                },
            },
            Decl::Func(d) => match d.body {
                Some(b) => b.spec_end(),
                None => d.typ.spec_end(arena),
            },
        }
    }
}

impl File {
    /// The start and the end of every node of the tree can be computed.
    pub open spec fn wf(&self, arena: &AstObjects) -> bool {
        &&& arena.has_ident(self.name)
        &&& forall|i: int| 0 <= i < self.decls@.len() ==> (#[trigger] self.decls@[i]).wf(arena)
        &&& forall|i: int| 0 <= i < self.imports@.len() ==> (#[trigger] self.imports@[i]).wf(arena)
        &&& forall|i: int| 0 <= i < self.unresolved@.len() ==> arena.has_ident(#[trigger] self.unresolved@[i])
    }

    /// The position of the "package" keyword.
    pub open spec fn spec_pos(&self) -> int {
        self.package as int
    }

    /// The end of the last declaration, or of the package name where the
    /// file declares nothing.
    pub open spec fn spec_end(&self, arena: &AstObjects) -> int {
        if self.decls@.len() > 0 {
            self.decls@[self.decls@.len() - 1].spec_end(arena)
        } else {
            arena.ident(self.name).spec_end()
        }
    }
}


impl Expr {
    /// The start of the expression can be computed: what `pos` reads on
    /// its way to the first token is there.
    pub open spec fn can_pos(&self, arena: &AstObjects) -> bool
        decreases self,
    {
        match self {
            Expr::Ident(k) => arena.has(*k),
            Expr::FuncLit(e) => e.typ.can_pos(arena),
            Expr::CompositeLit(e) => match e.typ {
                Some(t) => t.can_pos(arena),
                None => true,
            },
            Expr::Selector(e) => e.expr.can_pos(arena),
            Expr::Index(e) => e.expr.can_pos(arena),
            Expr::Slice(e) => e.expr.can_pos(arena),
            Expr::TypeAssert(e) => e.expr.can_pos(arena),
            Expr::Call(e) => e.func.can_pos(arena),
            Expr::Star(e) => e.star.can_pos(arena),
            Expr::Binary(e) => e.expr_a.can_pos(arena),
            Expr::KeyValue(e) => e.key.can_pos(arena),
            Expr::Func(e) => e.can_pos(arena),
            _ => true,
        }
    }

    /// The end of the expression can be computed: what `end` reads on its
    /// way to the last token is there, and the end fits the machine word.
    pub open spec fn can_end(&self, arena: &AstObjects) -> bool
        decreases self,
    {
        match self {
            Expr::Bad(_) => true,
            Expr::Ident(k) => arena.has_ident(*k),
            Expr::Ellipsis(e) => match e.elt {
                Some(x) => x.can_end(arena),
                None => e.pos + 3 <= usize::MAX,
            },
            Expr::BasicLit(e) => e.wf(),
            Expr::FuncLit(_) => true,
            Expr::CompositeLit(e) => e.r_brace < usize::MAX,
            Expr::Paren(e) => e.r_paren < usize::MAX,
            Expr::Selector(e) => arena.has_ident(e.sel),
            Expr::Index(e) => e.r_brack < usize::MAX,
            Expr::Slice(e) => e.r_brack < usize::MAX,
            Expr::TypeAssert(e) => e.r_paren < usize::MAX,
            Expr::Call(e) => e.r_paren < usize::MAX,
            Expr::Star(e) => e.expr.can_end(arena),
            Expr::Unary(e) => e.expr.can_end(arena),
            Expr::Binary(e) => e.expr_b.can_end(arena),
            Expr::KeyValue(e) => e.val.can_end(arena),
            Expr::Array(e) => e.elt.can_end(arena),
            Expr::Struct(e) => e.fields.can_end(arena),
            Expr::Func(e) => e.can_end(arena),
            Expr::Interface(e) => e.methods.can_end(arena),
            Expr::MapType(e) => e.val.can_end(arena),
            Expr::Chan(e) => e.val.can_end(arena),
        }
    }
}

impl FuncType {
    /// The start of the function type can be computed.
    pub open spec fn can_pos(&self, arena: &AstObjects) -> bool
        decreases self,
    {
        match self.func {
            Some(_) => true,
            None => self.params.can_pos(arena),
        }
    }

    /// The end of the function type can be computed.
    pub open spec fn can_end(&self, arena: &AstObjects) -> bool
        decreases self,
    {
        match self.results {
            Some(r) => r.can_end(arena),
            None => self.params.can_end(arena),
        }
    }
}

impl Field {
    /// The start of the field can be computed.
    pub open spec fn can_pos(&self, arena: &AstObjects) -> bool
        decreases self,
    {
        if self.names@.len() > 0 {
            self.names@[0].can_pos(arena)
        } else {
            self.typ.can_pos(arena)
        }
    }

    /// The end of the field can be computed.
    pub open spec fn can_end(&self, arena: &AstObjects) -> bool
        decreases self,
    {
        match self.tag {
            Some(t) => t.can_end(arena),
            None => self.typ.can_end(arena),
        }
    }
}

impl FieldList {
    /// The start of the list can be computed: it has an opening bracket,
    /// or a first field whose start can be computed.
    pub open spec fn can_pos(&self, arena: &AstObjects) -> bool
        decreases self,
    {
        match self.openning {
            Some(_) => true,
            None => self.list@.len() > 0 && self.list@[0].can_pos(arena),
        }
    }

    /// The end of the list can be computed: it has a closing bracket, or a
    /// last field whose start can be computed.
    pub open spec fn can_end(&self, arena: &AstObjects) -> bool
        decreases self,
    {
        match self.closing {
            Some(_) => true,
            None => self.list@.len() > 0 && self.list@[self.list@.len() - 1].can_pos(arena),
        }
    }
}

impl Stmt {
    /// The start of the statement can be computed.
    pub open spec fn can_pos(&self, arena: &AstObjects) -> bool
        decreases self,
    {
        match self {
            Stmt::Decl(d) => d.can_pos(arena),
            Stmt::Labeled(s) => arena.has(s.label),
            Stmt::Expr(e) => e.can_pos(arena),
            Stmt::Send(s) => s.chan.can_pos(arena),
            Stmt::IncDec(s) => s.expr.can_pos(arena),
            Stmt::Assign(s) => s.lhs@.len() > 0 && s.lhs@[0].can_pos(arena),
            _ => true,
        }
    }

    /// The end of the statement can be computed.
    pub open spec fn can_end(&self, arena: &AstObjects) -> bool
        decreases self,
    {
        match self {
            Stmt::Decl(d) => d.can_end(arena),
            Stmt::Empty(s) => s.implicit || s.semi < usize::MAX,
            Stmt::Labeled(s) => s.stmt.can_end(arena),
            Stmt::Expr(e) => e.can_end(arena),
            Stmt::Send(s) => s.val.can_end(arena),
            Stmt::IncDec(s) => s.token_pos + 2 <= usize::MAX,
            Stmt::Assign(s) => s.rhs@.len() > 0 && s.rhs@[s.rhs@.len() - 1].can_end(arena),
            Stmt::Go(s) => s.call.can_end(arena),
            Stmt::Defer(s) => s.call.can_end(arena),
            Stmt::Return(s) => if s.results@.len() > 0 {
                s.results@[s.results@.len() - 1].can_end(arena)
            } else {
                s.ret + 6 <= usize::MAX
            },
            Stmt::Branch(s) => match s.label {
                Some(l) => arena.has_ident(l),
                None => s.token_pos + byte_len(s.token.spec_text()) <= usize::MAX,
            },
            Stmt::If(s) => match s.els {
                Some(e) => e.can_end(arena),
                None => true,
            },
            Stmt::Case(s) => if s.body@.len() > 0 {
                s.body@[s.body@.len() - 1].can_end(arena)
            } else {
                s.colon < usize::MAX
            },
            Stmt::Comm(s) => if s.body@.len() > 0 {
                s.body@[s.body@.len() - 1].can_end(arena)
            } else {
                s.colon < usize::MAX
            },
            _ => true,
        }
    }
}

impl Spec {
    /// The start of the spec can be computed.
    pub open spec fn can_pos(&self, arena: &AstObjects) -> bool {
        match self {
            Spec::Import(s) => match s.name {
                Some(n) => arena.has(n),
                None => true,
            },
            Spec::Value(s) => s.names@.len() > 0 && arena.has(s.names@[0]),
            Spec::Type(s) => arena.has(s.name),
        }
    }

    /// The end of the spec can be computed.
    pub open spec fn can_end(&self, arena: &AstObjects) -> bool
        decreases self,
    {
        match self {
            Spec::Import(_) => true,
            Spec::Value(s) => if s.values@.len() > 0 {
                s.values@[s.values@.len() - 1].can_end(arena)
            } else {
                match s.typ {
                    Some(t) => t.can_end(arena),
                    None => s.names@.len() > 0 && arena.has_ident(s.names@[s.names@.len() - 1]),
                }
            },
            Spec::Type(s) => s.typ.can_end(arena),
        }
    }
}

impl Decl {
    /// The start of the declaration can be computed.
    pub open spec fn can_pos(&self, arena: &AstObjects) -> bool
        decreases self,
    {
        match self {
            Decl::Func(d) => d.typ.can_pos(arena),
            _ => true,
        }
    }

    /// The end of the declaration can be computed.
    pub open spec fn can_end(&self, arena: &AstObjects) -> bool
        decreases self,
    {
        match self {
            Decl::Bad(_) => true,
            Decl::Gen(d) => match d.r_paren {
                Some(p) => p < usize::MAX,
                None => d.specs@.len() > 0 && d.specs@[0].can_end(arena),
            },
            Decl::Func(d) => match d.body {
                Some(_) => true,
                None => d.typ.can_end(arena),
            },
        }
    }
}

impl File {
    /// The end of the file can be computed.
    pub open spec fn can_end(&self, arena: &AstObjects) -> bool {
        if self.decls@.len() > 0 {
            self.decls@[self.decls@.len() - 1].can_end(arena)
        } else {
            arena.has_ident(self.name)
        }
    }
}

/// Of a well-formed expression the start and the end can be computed.
pub proof fn lemma_expr_can(e: &Expr, arena: &AstObjects)
    requires
        e.wf(arena),
    ensures
        e.can_pos(arena),
        e.can_end(arena),
    decreases e,
{
    match e {
        Expr::Ellipsis(x) => match &x.elt {
            Some(y) => lemma_expr_can(y, arena),
            None => {},
        },
        Expr::FuncLit(x) => lemma_func_type_can(&x.typ, arena),
        Expr::CompositeLit(x) => match &x.typ {
            Some(t) => lemma_expr_can(t, arena),
            None => {},
        },
        Expr::Selector(x) => lemma_expr_can(&x.expr, arena),
        Expr::Index(x) => lemma_expr_can(&x.expr, arena),
        Expr::Slice(x) => lemma_expr_can(&x.expr, arena),
        Expr::TypeAssert(x) => lemma_expr_can(&x.expr, arena),
        Expr::Call(x) => lemma_expr_can(&x.func, arena),
        Expr::Star(x) => {
            lemma_expr_can(&x.star, arena);
            lemma_expr_can(&x.expr, arena);
        },
        Expr::Unary(x) => lemma_expr_can(&x.expr, arena),
        Expr::Binary(x) => {
            lemma_expr_can(&x.expr_a, arena);
            lemma_expr_can(&x.expr_b, arena);
        },
        Expr::KeyValue(x) => {
            lemma_expr_can(&x.key, arena);
            lemma_expr_can(&x.val, arena);
        },
        Expr::Array(x) => lemma_expr_can(&x.elt, arena),
        Expr::Struct(x) => lemma_field_list_can(&x.fields, arena),
        Expr::Func(x) => lemma_func_type_can(x, arena),
        Expr::Interface(x) => lemma_field_list_can(&x.methods, arena),
        Expr::MapType(x) => lemma_expr_can(&x.val, arena),
        Expr::Chan(x) => lemma_expr_can(&x.val, arena),
        _ => {},
    }
}

/// Of a well-formed function type the start and the end can be computed.
pub proof fn lemma_func_type_can(t: &FuncType, arena: &AstObjects)
    requires
        t.wf(arena),
    ensures
        t.can_pos(arena),
        t.can_end(arena),
    decreases t,
{
    lemma_field_list_can(&t.params, arena);
    match &t.results {
        Some(r) => lemma_field_list_can(r, arena),
        None => {},
    }
}

/// Of a well-formed field the start and the end can be computed.
pub proof fn lemma_field_can(f: &Field, arena: &AstObjects)
    requires
        f.wf(arena),
    ensures
        f.can_pos(arena),
        f.can_end(arena),
    decreases f,
{
    lemma_expr_can(&f.typ, arena);
    if f.names@.len() > 0 {
        lemma_expr_can(&f.names@[0], arena);
    }
    match &f.tag {
        Some(t) => lemma_expr_can(t, arena),
        None => {},
    }
}

/// Of a well-formed field list the start and the end can be computed.
pub proof fn lemma_field_list_can(l: &FieldList, arena: &AstObjects)
    requires
        l.wf(arena),
    ensures
        l.can_pos(arena),
        l.can_end(arena),
    decreases l,
{
    let n = l.list@.len() as int;
    if n > 0 {
        lemma_field_can(&l.list@[0], arena);
        lemma_field_can(&l.list@[n - 1], arena);
    }
}

/// Of a well-formed statement the start and the end can be computed.
pub proof fn lemma_stmt_can(s: &Stmt, arena: &AstObjects)
    requires
        s.wf(arena),
    ensures
        s.can_pos(arena),
        s.can_end(arena),
    decreases s,
{
    match s {
        Stmt::Decl(d) => lemma_decl_can(d, arena),
        Stmt::Labeled(x) => lemma_stmt_can(&x.stmt, arena),
        Stmt::Expr(e) => lemma_expr_can(e, arena),
        Stmt::Send(x) => {
            lemma_expr_can(&x.chan, arena);
            lemma_expr_can(&x.val, arena);
        },
        Stmt::IncDec(x) => lemma_expr_can(&x.expr, arena),
        Stmt::Assign(x) => {
            lemma_expr_can(&x.lhs@[0], arena);
            lemma_expr_can(&x.rhs@[x.rhs@.len() - 1], arena);
        },
        Stmt::Go(x) => lemma_expr_can(&x.call, arena),
        Stmt::Defer(x) => lemma_expr_can(&x.call, arena),
        Stmt::Return(x) => if x.results@.len() > 0 {
            lemma_expr_can(&x.results@[x.results@.len() - 1], arena);
        },
        Stmt::If(x) => match &x.els {
            Some(e) => lemma_stmt_can(e, arena),
            None => {},
        },
        Stmt::Case(x) => if x.body@.len() > 0 {
            lemma_stmt_can(&x.body@[x.body@.len() - 1], arena);
        },
        Stmt::Comm(x) => if x.body@.len() > 0 {
            lemma_stmt_can(&x.body@[x.body@.len() - 1], arena);
        },
        _ => {},
    }
}

/// Of a well-formed spec the start and the end can be computed.
pub proof fn lemma_spec_can(s: &Spec, arena: &AstObjects)
    requires
        s.wf(arena),
    ensures
        s.can_pos(arena),
        s.can_end(arena),
    decreases s,
{
    match s {
        Spec::Import(_) => {},
        Spec::Value(x) => {
            assert(arena.has_ident(x.names@[0]));
            assert(arena.has_ident(x.names@[x.names@.len() - 1]));
            if x.values@.len() > 0 {
                lemma_expr_can(&x.values@[x.values@.len() - 1], arena);
            }
            match &x.typ {
                Some(t) => lemma_expr_can(t, arena),
                None => {},
            }
        },
        Spec::Type(x) => lemma_expr_can(&x.typ, arena),
    }
}

/// Of a well-formed declaration the start and the end can be computed.
pub proof fn lemma_decl_can(d: &Decl, arena: &AstObjects)
    requires
        d.wf(arena),
    ensures
        d.can_pos(arena),
        d.can_end(arena),
    decreases d,
{
    match d {
        Decl::Bad(_) => {},
        Decl::Gen(x) => match x.r_paren {
            Some(_) => {},
            None => lemma_spec_can(&x.specs@[0], arena),
        },
        Decl::Func(x) => lemma_func_type_can(&x.typ, arena),
    }
}

/// Of a well-formed file the end can be computed.
pub proof fn lemma_file_can(f: &File, arena: &AstObjects)
    requires
        f.wf(arena),
    ensures
        f.can_end(arena),
{
    if f.decls@.len() > 0 {
        lemma_decl_can(&f.decls@[f.decls@.len() - 1], arena);
    }
}

impl Expr {
    /// Where the expression starts.
    pub fn pos(&self, arena: &AstObjects) -> (p: Pos)
        requires
            self.can_pos(arena),
        ensures
            p == self.spec_pos(arena),
        decreases self,
    {
        match self {
            Expr::Bad(e) => e.from,
            Expr::Ident(k) => arena.idents[k.0].pos,
            Expr::Ellipsis(e) => e.pos,
            Expr::BasicLit(e) => e.pos,
            Expr::FuncLit(e) => e.typ.pos(arena),
            Expr::CompositeLit(e) => match &e.typ {
                Some(expr) => expr.pos(arena),
                None => e.l_brace,
            },
            Expr::Paren(e) => e.l_paren,
            Expr::Selector(e) => e.expr.pos(arena),
            Expr::Index(e) => e.expr.pos(arena),
            Expr::Slice(e) => e.expr.pos(arena),
            Expr::TypeAssert(e) => e.expr.pos(arena),
            Expr::Call(e) => e.func.pos(arena),
            Expr::Star(e) => e.star.pos(arena),
            Expr::Unary(e) => e.op_pos,
            Expr::Binary(e) => e.expr_a.pos(arena),
            Expr::KeyValue(e) => e.key.pos(arena),
            Expr::Array(e) => e.l_brack,
            Expr::Struct(e) => e.struct_pos,
            Expr::Func(e) => e.pos(arena),
            Expr::Interface(e) => e.interface,
            Expr::MapType(e) => e.map,
            Expr::Chan(e) => e.begin,
        }
    }

    /// Where the expression ends.
    pub fn end(&self, arena: &AstObjects) -> (p: Pos)
        requires
            self.can_end(arena),
        ensures
            p == self.spec_end(arena),
        decreases self,
    {
        match self {
            Expr::Bad(e) => e.to,
            Expr::Ident(k) => arena.idents[k.0].end(),
            Expr::Ellipsis(e) => match &e.elt {
                Some(expr) => expr.end(arena),
                None => e.pos + 3,
            },
            Expr::BasicLit(e) => e.pos + e.value.as_str().len(),
            Expr::FuncLit(e) => e.body.end(),
            Expr::CompositeLit(e) => e.r_brace + 1,
            Expr::Paren(e) => e.r_paren + 1,
            Expr::Selector(e) => arena.idents[e.sel.0].end(),
            Expr::Index(e) => e.r_brack + 1,
            Expr::Slice(e) => e.r_brack + 1,
            Expr::TypeAssert(e) => e.r_paren + 1,
            Expr::Call(e) => e.r_paren + 1,
            Expr::Star(e) => e.expr.end(arena),
            Expr::Unary(e) => e.expr.end(arena),
            Expr::Binary(e) => e.expr_b.end(arena),
            Expr::KeyValue(e) => e.val.end(arena),
            Expr::Array(e) => e.elt.end(arena),
            Expr::Struct(e) => e.fields.end(arena),
            Expr::Func(e) => e.end(arena),
            Expr::Interface(e) => e.methods.end(arena),
            Expr::MapType(e) => e.val.end(arena),
            Expr::Chan(e) => e.val.end(arena),
        }
    }
}

impl FuncType {
    /// The position of "func", or of the parameters where there is none.
    pub fn pos(&self, arena: &AstObjects) -> (p: Pos)
        requires
            self.can_pos(arena),
        ensures
            p == self.spec_pos(arena),
        decreases self,
    {
        match self.func {
            Some(p) => p,
            None => self.params.pos(arena),
        }
    }

    /// The end of the results, or of the parameters where there are none.
    pub fn end(&self, arena: &AstObjects) -> (p: Pos)
        requires
            self.can_end(arena),
        ensures
            p == self.spec_end(arena),
        decreases self,
    {
        match &self.results {
            Some(r) => r.end(arena),
            None => self.params.end(arena),
        }
    }
}

impl BlockStmt {
    /// The end of a block: the position of its opening brace.
    pub fn end(&self) -> (p: Pos)
        ensures
            p == self.spec_end(),
    {
        self.l_brace
    }
}

impl Field {
    /// The start of the first name, or of the type where there is no name.
    pub fn pos(&self, arena: &AstObjects) -> (p: Pos)
        requires
            self.can_pos(arena),
        ensures
            p == self.spec_pos(arena),
        decreases self,
    {
        if self.names.len() > 0 {
            self.names[0].pos(arena)
        } else {
            self.typ.pos(arena)
        }
    }

    /// The end of the tag, or of the type where there is no tag.
    pub fn end(&self, arena: &AstObjects) -> (p: Pos)
        requires
            self.can_end(arena),
        ensures
            p == self.spec_end(arena),
        decreases self,
    {
        match &self.tag {
            Some(t) => t.end(arena),
            None => self.typ.end(arena),
        }
    }
}

impl FieldList {
    /// The opening bracket, or the start of the first field where there is
    /// no bracket.
    pub fn pos(&self, arena: &AstObjects) -> (p: Pos)
        requires
            self.can_pos(arena),
        ensures
            p == self.spec_pos(arena),
        decreases self,
    {
        match self.openning {
            Some(o) => o,
            None => self.list[0].pos(arena),
        }
    }

    /// The closing bracket, or the start of the last field where there is
    /// no bracket.
    pub fn end(&self, arena: &AstObjects) -> (p: Pos)
        requires
            self.can_end(arena),
        ensures
            p == self.spec_end(arena),
        decreases self,
    {
        match self.closing {
            Some(c) => c,
            None => self.list[self.list.len() - 1].pos(arena),
        }
    }
}

impl Stmt {
    /// Where the statement starts.
    pub fn pos(&self, arena: &AstObjects) -> (p: Pos)
        requires
            self.can_pos(arena),
        ensures
            p == self.spec_pos(arena),
        decreases self,
    {
        match self {
            Stmt::Bad(s) => s.from,
            Stmt::Decl(d) => d.pos(arena),
            Stmt::Empty(s) => s.semi,
            Stmt::Labeled(s) => arena.idents[s.label.0].pos,
            Stmt::Expr(e) => e.pos(arena),
            Stmt::Send(s) => s.chan.pos(arena),
            Stmt::IncDec(s) => s.expr.pos(arena),
            Stmt::Assign(s) => s.lhs[0].pos(arena),
            Stmt::Go(s) => s.go,
            Stmt::Defer(s) => s.defer,
            Stmt::Return(s) => s.ret,
            Stmt::Branch(s) => s.token_pos,
            Stmt::Block(s) => s.l_brace,
            Stmt::If(s) => s.if_pos,
            Stmt::Case(s) => s.case,
            Stmt::Switch(s) => s.switch,
            Stmt::TypeSwitch(s) => s.switch,
            Stmt::Comm(s) => s.case,
            Stmt::Select(s) => s.select,
            Stmt::For(s) => s.for_pos,
            Stmt::Range(s) => s.for_pos,
        }
    }

    /// Where the statement ends.
    pub fn end(&self, arena: &AstObjects) -> (p: Pos)
        requires
            self.can_end(arena),
        ensures
            p == self.spec_end(arena),
        decreases self,
    {
        match self {
            Stmt::Bad(s) => s.to,
            Stmt::Decl(d) => d.end(arena),
            Stmt::Empty(s) => if s.implicit {
                s.semi
            } else {
                s.semi + 1
            },
            Stmt::Labeled(s) => s.stmt.end(arena),
            Stmt::Expr(e) => e.end(arena),
            Stmt::Send(s) => s.val.end(arena),
            Stmt::IncDec(s) => s.token_pos + 2,
            Stmt::Assign(s) => s.rhs[s.rhs.len() - 1].end(arena),
            Stmt::Go(s) => s.call.end(arena),
            Stmt::Defer(s) => s.call.end(arena),
            Stmt::Return(s) => {
                let n = s.results.len();
                if n > 0 {
                    s.results[n - 1].end(arena)
                } else {
                    s.ret + 6
                }
            },
            Stmt::Branch(s) => match &s.label {
                Some(l) => arena.idents[l.0].end(),
                None => s.token_pos + s.token.token_text().len(),
            },
            Stmt::Block(s) => s.end(),
            Stmt::If(s) => match &s.els {
                Some(e) => e.end(arena),
                None => s.body.end(),
            },
            Stmt::Case(s) => {
                let n = s.body.len();
                if n > 0 {
                    s.body[n - 1].end(arena)
                } else {
                    s.colon + 1
                }
            },
            Stmt::Switch(s) => s.body.end(),
            Stmt::TypeSwitch(s) => s.body.end(),
            Stmt::Comm(s) => {
                let n = s.body.len();
                if n > 0 {
                    s.body[n - 1].end(arena)
                } else {
                    s.colon + 1
                }
            },
            Stmt::Select(s) => s.body.end(),
            Stmt::For(s) => s.body.end(),
            Stmt::Range(s) => s.body.end(),
        }
    }
}

impl Spec {
    /// Where the spec starts.
    pub fn pos(&self, arena: &AstObjects) -> (p: Pos)
        requires
            self.can_pos(arena),
        ensures
            p == self.spec_pos(arena),
    {
        match self {
            Spec::Import(s) => match &s.name {
                Some(i) => arena.idents[i.0].pos,
                None => s.path.pos,
            },
            Spec::Value(s) => arena.idents[s.names[0].0].pos,
            Spec::Type(s) => arena.idents[s.name.0].pos,
        }
    }

    /// Where the spec ends.
    pub fn end(&self, arena: &AstObjects) -> (p: Pos)
        requires
            self.can_end(arena),
        ensures
            p == self.spec_end(arena),
        decreases self,
    {
        match self {
            Spec::Import(s) => match s.end_pos {
                Some(p) => p,
                None => s.path.pos,
            },
            Spec::Value(s) => {
                let n = s.values.len();
                if n > 0 {
                    s.values[n - 1].end(arena)
                } else {
                    match &s.typ {
                        Some(t) => t.end(arena),
                        None => arena.idents[s.names[s.names.len() - 1].0].end(),
                    }
                }
            },
            Spec::Type(t) => t.typ.end(arena),
        }
    }
}

impl Decl {
    /// Where the declaration starts.
    pub fn pos(&self, arena: &AstObjects) -> (p: Pos)
        requires
            self.can_pos(arena),
        ensures
            p == self.spec_pos(arena),
        decreases self,
    {
        match self {
            Decl::Bad(d) => d.from,
            Decl::Gen(d) => d.token_pos,
            Decl::Func(d) => d.typ.pos(arena),
        }
    }

    /// Where the declaration ends.
    pub fn end(&self, arena: &AstObjects) -> (p: Pos)
        requires
            self.can_end(arena),
        ensures
            p == self.spec_end(arena),
        decreases self,
    {
        match self {
            Decl::Bad(d) => d.to,
            Decl::Gen(d) => match d.r_paren {
                Some(p) => p + 1,
                None => d.specs[0].end(arena),
            },
            Decl::Func(d) => match &d.body {
                Some(b) => b.end(),
                None => d.typ.end(arena),
            },
        }
    }
}

impl File {
    /// The position of the "package" keyword.
    pub fn pos(&self) -> (p: Pos)
        ensures
            p == self.spec_pos(),
    {
        self.package
    }

    /// The end of the last declaration, or of the package name where the
    /// file declares nothing.
    pub fn end(&self, arena: &AstObjects) -> (p: Pos)
        requires
            self.can_end(arena),
        ensures
            p == self.spec_end(arena),
    {
        let n = self.decls.len();
        if n > 0 {
            self.decls[n - 1].end(arena)
        } else {
            arena.idents[self.name.0].end()
        }
    }
}


impl Package {
    /// A package has no position of its own.
    pub open spec fn spec_pos(&self) -> int {
        0
    }

    /// A package has no position of its own.
    pub open spec fn spec_end(&self) -> int {
        0
    }
}

/// A node of the syntax tree: something with a span.
pub trait Node {
    /// The nodes of which `pos` can be computed.
    spec fn node_can_pos(&self, arena: &AstObjects) -> bool;

    /// The nodes of which `end` can be computed.
    spec fn node_can_end(&self, arena: &AstObjects) -> bool;

    /// Where the node starts.
    spec fn node_pos(&self, arena: &AstObjects) -> int;

    /// Where the node ends.
    spec fn node_end(&self, arena: &AstObjects) -> int;

    fn pos(&self, arena: &AstObjects) -> (p: Pos)
        requires
            self.node_can_pos(arena),
        ensures
            p == self.node_pos(arena),
    ;

    fn end(&self, arena: &AstObjects) -> (p: Pos)
        requires
            self.node_can_end(arena),
        ensures
            p == self.node_end(arena),
    ;
}

impl Node for Expr {
    open spec fn node_can_pos(&self, arena: &AstObjects) -> bool {
        self.can_pos(arena)
    }

    open spec fn node_can_end(&self, arena: &AstObjects) -> bool {
        self.can_end(arena)
    }

    open spec fn node_pos(&self, arena: &AstObjects) -> int {
        self.spec_pos(arena)
    }

    open spec fn node_end(&self, arena: &AstObjects) -> int {
        self.spec_end(arena)
    }

    fn pos(&self, arena: &AstObjects) -> (p: Pos) {
        Expr::pos(self, arena)
    }

    fn end(&self, arena: &AstObjects) -> (p: Pos) {
        Expr::end(self, arena)
    }
}

impl Node for Stmt {
    open spec fn node_can_pos(&self, arena: &AstObjects) -> bool {
        self.can_pos(arena)
    }

    open spec fn node_can_end(&self, arena: &AstObjects) -> bool {
        self.can_end(arena)
    }

    open spec fn node_pos(&self, arena: &AstObjects) -> int {
        self.spec_pos(arena)
    }

    open spec fn node_end(&self, arena: &AstObjects) -> int {
        self.spec_end(arena)
    }

    fn pos(&self, arena: &AstObjects) -> (p: Pos) {
        Stmt::pos(self, arena)
    }

    fn end(&self, arena: &AstObjects) -> (p: Pos) {
        Stmt::end(self, arena)
    }
}

impl Node for Spec {
    open spec fn node_can_pos(&self, arena: &AstObjects) -> bool {
        self.can_pos(arena)
    }

    open spec fn node_can_end(&self, arena: &AstObjects) -> bool {
        self.can_end(arena)
    }

    open spec fn node_pos(&self, arena: &AstObjects) -> int {
        self.spec_pos(arena)
    }

    open spec fn node_end(&self, arena: &AstObjects) -> int {
        self.spec_end(arena)
    }

    fn pos(&self, arena: &AstObjects) -> (p: Pos) {
        Spec::pos(self, arena)
    }

    fn end(&self, arena: &AstObjects) -> (p: Pos) {
        Spec::end(self, arena)
    }
}

impl Node for Decl {
    open spec fn node_can_pos(&self, arena: &AstObjects) -> bool {
        self.can_pos(arena)
    }

    open spec fn node_can_end(&self, arena: &AstObjects) -> bool {
        self.can_end(arena)
    }

    open spec fn node_pos(&self, arena: &AstObjects) -> int {
        self.spec_pos(arena)
    }

    open spec fn node_end(&self, arena: &AstObjects) -> int {
        self.spec_end(arena)
    }

    fn pos(&self, arena: &AstObjects) -> (p: Pos) {
        Decl::pos(self, arena)
    }

    fn end(&self, arena: &AstObjects) -> (p: Pos) {
        Decl::end(self, arena)
    }
}

impl Node for File {
    open spec fn node_can_pos(&self, arena: &AstObjects) -> bool {
        true
    }

    open spec fn node_can_end(&self, arena: &AstObjects) -> bool {
        self.can_end(arena)
    }

    open spec fn node_pos(&self, arena: &AstObjects) -> int {
        self.spec_pos()
    }

    open spec fn node_end(&self, arena: &AstObjects) -> int {
        self.spec_end(arena)
    }

    fn pos(&self, arena: &AstObjects) -> (p: Pos) {
        File::pos(self)
    }

    fn end(&self, arena: &AstObjects) -> (p: Pos) {
        File::end(self, arena)
    }
}

impl Node for Package {
    open spec fn node_can_pos(&self, arena: &AstObjects) -> bool {
        true
    }

    open spec fn node_can_end(&self, arena: &AstObjects) -> bool {
        true
    }

    open spec fn node_pos(&self, arena: &AstObjects) -> int {
        self.spec_pos()
    }

    open spec fn node_end(&self, arena: &AstObjects) -> int {
        self.spec_end()
    }

    fn pos(&self, arena: &AstObjects) -> (p: Pos) {
        0
    }

    fn end(&self, arena: &AstObjects) -> (p: Pos) {
        0
    }
}

impl Node for Field {
    open spec fn node_can_pos(&self, arena: &AstObjects) -> bool {
        self.can_pos(arena)
    }

    open spec fn node_can_end(&self, arena: &AstObjects) -> bool {
        self.can_end(arena)
    }

    open spec fn node_pos(&self, arena: &AstObjects) -> int {
        self.spec_pos(arena)
    }

    open spec fn node_end(&self, arena: &AstObjects) -> int {
        self.spec_end(arena)
    }

    fn pos(&self, arena: &AstObjects) -> (p: Pos) {
        Field::pos(self, arena)
    }

    fn end(&self, arena: &AstObjects) -> (p: Pos) {
        Field::end(self, arena)
    }
}

impl Node for FieldList {
    open spec fn node_can_pos(&self, arena: &AstObjects) -> bool {
        self.can_pos(arena)
    }

    open spec fn node_can_end(&self, arena: &AstObjects) -> bool {
        self.can_end(arena)
    }

    open spec fn node_pos(&self, arena: &AstObjects) -> int {
        self.spec_pos(arena)
    }

    open spec fn node_end(&self, arena: &AstObjects) -> int {
        self.spec_end(arena)
    }

    fn pos(&self, arena: &AstObjects) -> (p: Pos) {
        FieldList::pos(self, arena)
    }

    fn end(&self, arena: &AstObjects) -> (p: Pos) {
        FieldList::end(self, arena)
    }
}

} // verus!
