//! The collection of declarations on whole programs: source text is parsed
//! by the parser crate, the tree is handed to the library, and the
//! declarations are collected. A program that is right gives no error.

use goscript_parser::errors::ErrorList;
use goscript_parser::position::FileSet;
use goscript_resolver::check::checker::{Checker, FilesContext};
use goscript_resolver::check::resolver::Progress;
use goscript_resolver::obj::{EntityType, LangObj};
use goscript_resolver::objects::{ObjKey, PackageKey, TCObjects};

use std::collections::HashMap;

use goscript_parser::ast as past;
use goscript_parser::objects::{IdentKey as PIdentKey, Objects};
use goscript_parser::token::Token as PToken;
use goscript_resolver::ast::{
    ArrayType, AssignStmt, AstObjects, BadDecl, BadExpr, BadStmt, BasicLit, BinaryExpr, BlockStmt,
    BranchStmt, CallExpr, CaseClause, ChanDir, ChanType, CommClause, CompositeLit, Decl,
    DeferStmt, Ellipsis, EmptyStmt, Expr, Field, FieldList, File, ForStmt, FuncDecl, FuncLit,
    FuncType, GenDecl, GoStmt, Ident, IfStmt, ImportSpec, IncDecStmt, IndexExpr, InterfaceType,
    KeyValueExpr, LabeledStmt, MapType, ParenExpr, RangeStmt, ReturnStmt, SelectStmt,
    SelectorExpr, SendStmt, SliceExpr, Spec, StarExpr, Stmt, StructType, SwitchStmt,
    TypeAssertExpr, TypeSpec, TypeSwitchStmt, UnaryExpr, ValueSpec,
};
use goscript_resolver::objects::IdentKey;
use goscript_resolver::position::Pos;
use goscript_resolver::token::Token;

/// Converts the trees that one parser arena holds. The identifiers of the
/// arena are copied, in the arena's order, when the converter is made.
struct Converter<'a> {
    objs: &'a Objects,
    index: HashMap<PIdentKey, usize>,
    arena: AstObjects,
}

fn bad_expr(from: Pos, to: Pos) -> Expr {
    Expr::Bad(Box::new(BadExpr { from, to }))
}

fn token(t: &PToken) -> Token {
    match t {
        PToken::NONE => Token::NONE,
        PToken::ILLEGAL(_) => Token::ILLEGAL,
        PToken::EOF => Token::EOF,
        PToken::COMMENT(_) => Token::COMMENT,
        PToken::IDENT(_) => Token::IDENT,
        PToken::INT(_) => Token::INT,
        PToken::FLOAT(_) => Token::FLOAT,
        PToken::IMAG(_) => Token::IMAG,
        PToken::CHAR(_) => Token::CHAR,
        PToken::STRING(_) => Token::STRING,
        PToken::ADD => Token::ADD,
        PToken::SUB => Token::SUB,
        PToken::MUL => Token::MUL,
        PToken::QUO => Token::QUO,
        PToken::REM => Token::REM,
        PToken::AND => Token::AND,
        PToken::OR => Token::OR,
        PToken::XOR => Token::XOR,
        PToken::SHL => Token::SHL,
        PToken::SHR => Token::SHR,
        PToken::AND_NOT => Token::AND_NOT,
        PToken::ADD_ASSIGN => Token::ADD_ASSIGN,
        PToken::SUB_ASSIGN => Token::SUB_ASSIGN,
        PToken::MUL_ASSIGN => Token::MUL_ASSIGN,
        PToken::QUO_ASSIGN => Token::QUO_ASSIGN,
        PToken::REM_ASSIGN => Token::REM_ASSIGN,
        PToken::AND_ASSIGN => Token::AND_ASSIGN,
        PToken::OR_ASSIGN => Token::OR_ASSIGN,
        PToken::XOR_ASSIGN => Token::XOR_ASSIGN,
        PToken::SHL_ASSIGN => Token::SHL_ASSIGN,
        PToken::SHR_ASSIGN => Token::SHR_ASSIGN,
        PToken::AND_NOT_ASSIGN => Token::AND_NOT_ASSIGN,
        PToken::LAND => Token::LAND,
        PToken::LOR => Token::LOR,
        PToken::ARROW => Token::ARROW,
        PToken::INC => Token::INC,
        PToken::DEC => Token::DEC,
        PToken::EQL => Token::EQL,
        PToken::LSS => Token::LSS,
        PToken::GTR => Token::GTR,
        PToken::ASSIGN => Token::ASSIGN,
        PToken::NOT => Token::NOT,
        PToken::NEQ => Token::NEQ,
        PToken::LEQ => Token::LEQ,
        PToken::GEQ => Token::GEQ,
        PToken::DEFINE => Token::DEFINE,
        PToken::ELLIPSIS => Token::ELLIPSIS,
        PToken::LPAREN => Token::LPAREN,
        PToken::LBRACK => Token::LBRACK,
        PToken::LBRACE => Token::LBRACE,
        PToken::COMMA => Token::COMMA,
        PToken::PERIOD => Token::PERIOD,
        PToken::RPAREN => Token::RPAREN,
        PToken::RBRACK => Token::RBRACK,
        PToken::RBRACE => Token::RBRACE,
        PToken::SEMICOLON(_) => Token::SEMICOLON,
        PToken::COLON => Token::COLON,
        PToken::BREAK => Token::BREAK,
        PToken::CASE => Token::CASE,
        PToken::CHAN => Token::CHAN,
        PToken::CONST => Token::CONST,
        PToken::CONTINUE => Token::CONTINUE,
        PToken::DEFAULT => Token::DEFAULT,
        PToken::DEFER => Token::DEFER,
        PToken::ELSE => Token::ELSE,
        PToken::FALLTHROUGH => Token::FALLTHROUGH,
        PToken::FOR => Token::FOR,
        PToken::FUNC => Token::FUNC,
        PToken::GO => Token::GO,
        PToken::GOTO => Token::GOTO,
        PToken::IF => Token::IF,
        PToken::IMPORT => Token::IMPORT,
        PToken::INTERFACE => Token::INTERFACE,
        PToken::MAP => Token::MAP,
        PToken::PACKAGE => Token::PACKAGE,
        PToken::RANGE => Token::RANGE,
        PToken::RETURN => Token::RETURN,
        PToken::SELECT => Token::SELECT,
        PToken::STRUCT => Token::STRUCT,
        PToken::SWITCH => Token::SWITCH,
        PToken::TYPE => Token::TYPE,
        PToken::VAR => Token::VAR,
    }
}

impl<'a> Converter<'a> {
    fn new(objs: &'a Objects) -> Converter<'a> {
        let mut index = HashMap::new();
        let mut idents = Vec::new();
        for (key, ident) in objs.idents.iter() {
            index.insert(key, idents.len());
            idents.push(Ident { pos: ident.pos, name: ident.name.clone(), obj: None });
        }
        Converter { objs, index, arena: AstObjects { idents } }
    }

    fn ident(&self, key: PIdentKey) -> IdentKey {
        IdentKey(self.index[&key])
    }

    fn basic_lit(&self, lit: &past::BasicLit) -> BasicLit {
        BasicLit {
            pos: lit.pos,
            kind: token(&lit.token),
            value: lit.token.get_literal().to_string(),
        }
    }

    fn exprs(&self, list: &[past::Expr]) -> Vec<Expr> {
        list.iter().map(|e| self.expr(e)).collect()
    }

    fn opt_expr(&self, e: &Option<past::Expr>) -> Option<Expr> {
        e.as_ref().map(|e| self.expr(e))
    }

    fn stmts(&self, list: &[past::Stmt]) -> Vec<Stmt> {
        list.iter().map(|s| self.stmt(s)).collect()
    }

    fn opt_stmt(&self, s: &Option<past::Stmt>) -> Option<Stmt> {
        s.as_ref().map(|s| self.stmt(s))
    }

    fn block(&self, b: &past::BlockStmt) -> Box<BlockStmt> {
        Box::new(BlockStmt { l_brace: b.l_brace, list: self.stmts(&b.list), r_brace: b.r_brace })
    }

    fn field_list(&self, l: &past::FieldList) -> Box<FieldList> {
        let list = l
            .list
            .iter()
            .map(|key| {
                let f = &self.objs.fields[*key];
                Box::new(Field {
                    names: f.names.iter().map(|n| Expr::Ident(self.ident(*n))).collect(),
                    typ: Box::new(self.expr(&f.typ)),
                    tag: self.opt_expr(&f.tag),
                })
            })
            .collect();
        Box::new(FieldList { openning: l.openning, list, closing: l.closing })
    }

    fn func_type(&self, t: &past::FuncType) -> Box<FuncType> {
        Box::new(FuncType {
            func: t.func,
            params: self.field_list(&t.params),
            results: t.results.as_ref().map(|r| self.field_list(r)),
        })
    }

    fn expr(&self, e: &past::Expr) -> Expr {
        match e {
            past::Expr::Bad(x) => bad_expr(x.from, x.to),
            past::Expr::Ident(k) => Expr::Ident(self.ident(*k)),
            past::Expr::Ellipsis(x) => {
                Expr::Ellipsis(Box::new(Ellipsis { pos: x.pos, elt: self.opt_expr(&x.elt) }))
            }
            past::Expr::BasicLit(x) => Expr::BasicLit(Box::new(self.basic_lit(x))),
            past::Expr::FuncLit(x) => Expr::FuncLit(Box::new(FuncLit {
                typ: self.func_type(&self.objs.ftypes[x.typ]),
                body: self.block(&x.body),
            })),
            past::Expr::CompositeLit(x) => Expr::CompositeLit(Box::new(CompositeLit {
                typ: self.opt_expr(&x.typ),
                l_brace: x.l_brace,
                elts: self.exprs(&x.elts),
                r_brace: x.r_brace,
                incomplete: x.incomplete,
            })),
            past::Expr::Paren(x) => Expr::Paren(Box::new(ParenExpr {
                l_paren: x.l_paren,
                expr: self.expr(&x.expr),
                r_paren: x.r_paren,
            })),
            past::Expr::Selector(x) => Expr::Selector(Box::new(SelectorExpr {
                expr: self.expr(&x.expr),
                sel: self.ident(x.sel),
            })),
            past::Expr::Index(x) => Expr::Index(Box::new(IndexExpr {
                expr: self.expr(&x.expr),
                l_brack: x.l_brack,
                index: self.expr(&x.index),
                r_brack: x.r_brack,
            })),
            past::Expr::Slice(x) => Expr::Slice(Box::new(SliceExpr {
                expr: self.expr(&x.expr),
                l_brack: x.l_brack,
                low: self.opt_expr(&x.low),
                high: self.opt_expr(&x.high),
                max: self.opt_expr(&x.max),
                slice3: x.slice3,
                r_brack: x.r_brack,
            })),
            past::Expr::TypeAssert(x) => Expr::TypeAssert(Box::new(TypeAssertExpr {
                expr: self.expr(&x.expr),
                l_paren: x.l_paren,
                // `x.(type)` has no type: the place between the parentheses stands for it.
                typ: match &x.typ {
                    Some(t) => self.expr(t),
                    None => bad_expr(x.l_paren, x.r_paren),
                },
                r_paren: x.r_paren,
            })),
            past::Expr::Call(x) => Expr::Call(Box::new(CallExpr {
                func: self.expr(&x.func),
                l_paren: x.l_paren,
                args: self.exprs(&x.args),
                ellipsis: x.ellipsis.unwrap_or(0),
                r_paren: x.r_paren,
            })),
            past::Expr::Star(x) => Expr::Star(Box::new(StarExpr {
                star: bad_expr(x.star, x.star),
                expr: self.expr(&x.expr),
            })),
            past::Expr::Unary(x) => Expr::Unary(Box::new(UnaryExpr {
                op_pos: x.op_pos,
                op: token(&x.op),
                expr: self.expr(&x.expr),
            })),
            past::Expr::Binary(x) => Expr::Binary(Box::new(BinaryExpr {
                expr_a: self.expr(&x.expr_a),
                op_pos: x.op_pos,
                op: token(&x.op),
                expr_b: self.expr(&x.expr_b),
            })),
            past::Expr::KeyValue(x) => Expr::KeyValue(Box::new(KeyValueExpr {
                key: self.expr(&x.key),
                colon: x.colon,
                val: self.expr(&x.val),
            })),
            past::Expr::Array(x) => Expr::Array(Box::new(ArrayType {
                l_brack: x.l_brack,
                // A slice type has no length: the place of the bracket stands for it.
                len: match &x.len {
                    Some(l) => self.expr(l),
                    None => bad_expr(x.l_brack, x.l_brack),
                },
                elt: self.expr(&x.elt),
            })),
            past::Expr::Struct(x) => Expr::Struct(Box::new(StructType {
                struct_pos: x.struct_pos,
                fields: self.field_list(&x.fields),
                incomplete: x.incomplete,
            })),
            past::Expr::Func(k) => Expr::Func(self.func_type(&self.objs.ftypes[*k])),
            past::Expr::Interface(x) => Expr::Interface(Box::new(InterfaceType {
                interface: x.interface,
                methods: self.field_list(&x.methods),
                incomplete: x.incomplete,
            })),
            past::Expr::Map(x) => Expr::MapType(Box::new(MapType {
                map: x.map,
                key: self.expr(&x.key),
                val: self.expr(&x.val),
            })),
            past::Expr::Chan(x) => Expr::Chan(Box::new(ChanType {
                begin: x.begin,
                arrow: x.arrow,
                dir: match x.dir {
                    past::ChanDir::Recv => ChanDir::RecvFrom,
                    past::ChanDir::Send | past::ChanDir::SendRecv => ChanDir::SendTo,
                },
                val: self.expr(&x.val),
            })),
        }
    }

    fn stmt(&self, s: &past::Stmt) -> Stmt {
        match s {
            past::Stmt::Bad(x) => Stmt::Bad(Box::new(BadStmt { from: x.from, to: x.to })),
            past::Stmt::Decl(d) => Stmt::Decl(self.decl(d)),
            past::Stmt::Empty(x) => {
                Stmt::Empty(Box::new(EmptyStmt { semi: x.semi, implicit: x.implicit }))
            }
            past::Stmt::Labeled(k) => {
                let x = &self.objs.l_stmts[*k];
                Stmt::Labeled(Box::new(LabeledStmt {
                    label: self.ident(x.label),
                    colon: x.colon,
                    stmt: self.stmt(&x.stmt),
                }))
            }
            past::Stmt::Expr(e) => Stmt::Expr(self.expr(e)),
            past::Stmt::Send(x) => Stmt::Send(Box::new(SendStmt {
                chan: self.expr(&x.chan),
                arrow: x.arrow,
                val: self.expr(&x.val),
            })),
            past::Stmt::IncDec(x) => Stmt::IncDec(Box::new(IncDecStmt {
                expr: self.expr(&x.expr),
                token_pos: x.token_pos,
                token: token(&x.token),
            })),
            past::Stmt::Assign(k) => {
                let x = &self.objs.a_stmts[*k];
                Stmt::Assign(Box::new(AssignStmt {
                    lhs: self.exprs(&x.lhs),
                    token_pos: x.token_pos,
                    token: token(&x.token),
                    rhs: self.exprs(&x.rhs),
                }))
            }
            past::Stmt::Go(x) => Stmt::Go(Box::new(GoStmt { go: x.go, call: self.expr(&x.call) })),
            past::Stmt::Defer(x) => {
                Stmt::Defer(Box::new(DeferStmt { defer: x.defer, call: self.expr(&x.call) }))
            }
            past::Stmt::Return(x) => {
                Stmt::Return(Box::new(ReturnStmt { ret: x.ret, results: self.exprs(&x.results) }))
            }
            past::Stmt::Branch(x) => Stmt::Branch(Box::new(BranchStmt {
                token_pos: x.token_pos,
                token: token(&x.token),
                label: x.label.map(|l| self.ident(l)),
            })),
            past::Stmt::Block(x) => Stmt::Block(self.block(x)),
            past::Stmt::If(x) => Stmt::If(Box::new(IfStmt {
                if_pos: x.if_pos,
                init: self.opt_stmt(&x.init),
                cond: self.expr(&x.cond),
                body: self.block(&x.body),
                els: self.opt_stmt(&x.els),
            })),
            past::Stmt::Case(x) => Stmt::Case(Box::new(CaseClause {
                case: x.case,
                list: x.list.as_ref().map(|l| self.exprs(l)).unwrap_or_default(),
                colon: x.colon,
                body: self.stmts(&x.body),
            })),
            past::Stmt::Switch(x) => Stmt::Switch(Box::new(SwitchStmt {
                switch: x.switch,
                init: self.opt_stmt(&x.init),
                tag: self.opt_expr(&x.tag),
                body: self.block(&x.body),
            })),
            past::Stmt::TypeSwitch(x) => Stmt::TypeSwitch(Box::new(TypeSwitchStmt {
                switch: x.switch,
                init: self.opt_stmt(&x.init),
                assign: self.stmt(&x.assign),
                body: self.block(&x.body),
            })),
            past::Stmt::Comm(x) => Stmt::Comm(Box::new(CommClause {
                case: x.case,
                comm: self.opt_stmt(&x.comm),
                colon: x.colon,
                body: self.stmts(&x.body),
            })),
            past::Stmt::Select(x) => {
                Stmt::Select(Box::new(SelectStmt { select: x.select, body: self.block(&x.body) }))
            }
            past::Stmt::For(x) => {
                // A clause that is left out is an empty statement, or an empty place, at the
                // keyword.
                let empty = || {
                    Stmt::Empty(Box::new(EmptyStmt { semi: x.for_pos, implicit: true }))
                };
                Stmt::For(Box::new(ForStmt {
                    for_pos: x.for_pos,
                    init: self.opt_stmt(&x.init).unwrap_or_else(empty),
                    cond: self.opt_expr(&x.cond).unwrap_or_else(|| bad_expr(x.for_pos, x.for_pos)),
                    post: self.opt_stmt(&x.post).unwrap_or_else(empty),
                    body: self.block(&x.body),
                }))
            }
            past::Stmt::Range(x) => Stmt::Range(Box::new(RangeStmt {
                for_pos: x.for_pos,
                key: self.opt_expr(&x.key),
                val: self.opt_expr(&x.val),
                token_pos: x.token_pos,
                token: token(&x.token),
                expr: self.expr(&x.expr),
                body: self.block(&x.body),
            })),
        }
    }

    fn import_spec(&self, s: &past::ImportSpec) -> ImportSpec {
        ImportSpec {
            name: s.name.map(|n| self.ident(n)),
            path: Box::new(self.basic_lit(&s.path)),
            end_pos: s.end_pos,
        }
    }

    fn spec(&self, s: &past::Spec) -> Spec {
        match s {
            past::Spec::Import(x) => Spec::Import(Box::new(self.import_spec(x))),
            past::Spec::Value(x) => Spec::Value(Box::new(ValueSpec {
                names: x.names.iter().map(|n| self.ident(*n)).collect(),
                typ: self.opt_expr(&x.typ),
                values: self.exprs(&x.values),
            })),
            past::Spec::Type(x) => Spec::Type(Box::new(TypeSpec {
                name: self.ident(x.name),
                assign: x.assign,
                typ: self.expr(&x.typ),
            })),
        }
    }

    fn decl(&self, d: &past::Decl) -> Decl {
        match d {
            past::Decl::Bad(x) => Decl::Bad(Box::new(BadDecl { from: x.from, to: x.to })),
            past::Decl::Gen(x) => Decl::Gen(Box::new(GenDecl {
                token_pos: x.token_pos,
                token: token(&x.token),
                l_paran: x.l_paran,
                specs: x.specs.iter().map(|k| self.spec(&self.objs.specs[*k])).collect(),
                r_paren: x.r_paren,
            })),
            past::Decl::Func(k) => {
                let x = &self.objs.fdecls[*k];
                Decl::Func(Box::new(FuncDecl {
                    recv: x.recv.as_ref().map(|r| self.field_list(r)),
                    name: self.ident(x.name),
                    typ: self.func_type(&self.objs.ftypes[x.typ]),
                    body: x.body.as_ref().map(|b| self.block(b)),
                }))
            }
        }
    }

    fn file(&self, f: &past::File) -> File {
        File {
            package: f.package,
            name: self.ident(f.name),
            decls: f.decls.iter().map(|d| self.decl(d)).collect(),
            scope: None,
            imports: f
                .imports
                .iter()
                .filter_map(|k| match &self.objs.specs[*k] {
                    past::Spec::Import(s) => Some(self.import_spec(s)),
                    _ => None,
                })
                .collect(),
            unresolved: f.unresolved.iter().map(|k| self.ident(*k)).collect(),
        }
    }
}

/// Every node of a tree that the parser made is in source order, and
/// starts no later than it ends.
fn check_exprs(list: &[Expr], a: &AstObjects) {
    for e in list {
        check_expr(e, a);
    }
}

fn check_opt_expr(e: &Option<Expr>, a: &AstObjects) {
    if let Some(e) = e {
        check_expr(e, a);
    }
}

fn check_stmts(list: &[Stmt], a: &AstObjects) {
    for s in list {
        check_stmt(s, a);
    }
}

fn check_opt_stmt(s: &Option<Stmt>, a: &AstObjects) {
    if let Some(s) = s {
        check_stmt(s, a);
    }
}

fn check_block(b: &BlockStmt, a: &AstObjects) {
    assert!(b.l_brace <= b.r_brace);
    check_stmts(&b.list, a);
}

fn check_field_list(l: &FieldList, a: &AstObjects) {
    assert!(l.is_in_order(a));
    assert!(l.pos(a) <= l.end(a));
    for f in l.list.iter() {
        assert!(f.is_in_order(a));
        assert!(f.pos(a) <= f.end(a));
        check_exprs(&f.names, a);
        check_expr(&f.typ, a);
        check_opt_expr(&f.tag, a);
    }
}

fn check_func_type(t: &FuncType, a: &AstObjects) {
    assert!(t.is_in_order(a));
    assert!(t.pos(a) <= t.end(a));
    check_field_list(&t.params, a);
    if let Some(r) = &t.results {
        check_field_list(r, a);
    }
}

fn check_expr(e: &Expr, a: &AstObjects) {
    // A part that the source leaves out has a stand-in without extent.
    if let Expr::Bad(_) = e {
        return;
    }
    assert!(e.is_in_order(a));
    assert!(e.pos(a) <= e.end(a));
    match e {
        Expr::Bad(_) | Expr::Ident(_) | Expr::BasicLit(_) => {}
        Expr::Ellipsis(x) => check_opt_expr(&x.elt, a),
        Expr::FuncLit(x) => {
            check_func_type(&x.typ, a);
            check_block(&x.body, a);
        }
        Expr::CompositeLit(x) => {
            check_opt_expr(&x.typ, a);
            check_exprs(&x.elts, a);
        }
        Expr::Paren(x) => check_expr(&x.expr, a),
        Expr::Selector(x) => check_expr(&x.expr, a),
        Expr::Index(x) => {
            check_expr(&x.expr, a);
            check_expr(&x.index, a);
        }
        Expr::Slice(x) => {
            check_expr(&x.expr, a);
            check_opt_expr(&x.low, a);
            check_opt_expr(&x.high, a);
            check_opt_expr(&x.max, a);
        }
        Expr::TypeAssert(x) => {
            check_expr(&x.expr, a);
            check_expr(&x.typ, a);
        }
        Expr::Call(x) => {
            check_expr(&x.func, a);
            check_exprs(&x.args, a);
        }
        Expr::Star(x) => check_expr(&x.expr, a),
        Expr::Unary(x) => check_expr(&x.expr, a),
        Expr::Binary(x) => {
            check_expr(&x.expr_a, a);
            check_expr(&x.expr_b, a);
        }
        Expr::KeyValue(x) => {
            check_expr(&x.key, a);
            check_expr(&x.val, a);
        }
        Expr::Array(x) => {
            check_expr(&x.len, a);
            check_expr(&x.elt, a);
        }
        Expr::Struct(x) => check_field_list(&x.fields, a),
        Expr::Func(x) => check_func_type(x, a),
        Expr::Interface(x) => check_field_list(&x.methods, a),
        Expr::MapType(x) => {
            check_expr(&x.key, a);
            check_expr(&x.val, a);
        }
        Expr::Chan(x) => check_expr(&x.val, a),
    }
}

fn check_stmt(s: &Stmt, a: &AstObjects) {
    assert!(s.is_in_order(a));
    assert!(s.pos(a) <= s.end(a));
    match s {
        Stmt::Bad(_) | Stmt::Empty(_) | Stmt::Branch(_) => {}
        Stmt::Decl(d) => check_decl(d, a),
        Stmt::Labeled(x) => check_stmt(&x.stmt, a),
        Stmt::Expr(e) => check_expr(e, a),
        Stmt::Send(x) => {
            check_expr(&x.chan, a);
            check_expr(&x.val, a);
        }
        Stmt::IncDec(x) => check_expr(&x.expr, a),
        Stmt::Assign(x) => {
            check_exprs(&x.lhs, a);
            check_exprs(&x.rhs, a);
        }
        Stmt::Go(x) => check_expr(&x.call, a),
        Stmt::Defer(x) => check_expr(&x.call, a),
        Stmt::Return(x) => check_exprs(&x.results, a),
        Stmt::Block(x) => check_block(x, a),
        Stmt::If(x) => {
            check_opt_stmt(&x.init, a);
            check_expr(&x.cond, a);
            check_block(&x.body, a);
            check_opt_stmt(&x.els, a);
        }
        Stmt::Case(x) => {
            check_exprs(&x.list, a);
            check_stmts(&x.body, a);
        }
        Stmt::Switch(x) => {
            check_opt_stmt(&x.init, a);
            check_opt_expr(&x.tag, a);
            check_block(&x.body, a);
        }
        Stmt::TypeSwitch(x) => {
            check_opt_stmt(&x.init, a);
            check_stmt(&x.assign, a);
            check_block(&x.body, a);
        }
        Stmt::Comm(x) => {
            check_opt_stmt(&x.comm, a);
            check_stmts(&x.body, a);
        }
        Stmt::Select(x) => check_block(&x.body, a),
        Stmt::For(x) => {
            check_stmt(&x.init, a);
            check_expr(&x.cond, a);
            check_stmt(&x.post, a);
            check_block(&x.body, a);
        }
        Stmt::Range(x) => {
            check_opt_expr(&x.key, a);
            check_opt_expr(&x.val, a);
            check_expr(&x.expr, a);
            check_block(&x.body, a);
        }
    }
}

fn check_spec(s: &Spec, a: &AstObjects) {
    assert!(s.is_in_order(a));
    assert!(s.pos(a) <= s.end(a));
    match s {
        Spec::Import(_) => {}
        Spec::Value(x) => {
            check_opt_expr(&x.typ, a);
            check_exprs(&x.values, a);
        }
        Spec::Type(x) => check_expr(&x.typ, a),
    }
}

fn check_decl(d: &Decl, a: &AstObjects) {
    assert!(d.is_in_order(a));
    assert!(d.pos(a) <= d.end(a));
    match d {
        Decl::Bad(_) => {}
        Decl::Gen(x) => {
            for s in x.specs.iter() {
                check_spec(s, a);
            }
        }
        Decl::Func(x) => {
            if let Some(r) = &x.recv {
                check_field_list(r, a);
            }
            check_func_type(&x.typ, a);
            if let Some(b) = &x.body {
                check_block(b, a);
            }
        }
    }
}

fn check_file(f: &File, a: &AstObjects) {
    assert!(f.is_wf(a));
    assert!(f.is_in_order(a));
    assert!(f.pos() <= f.end(a));
    for d in f.decls.iter() {
        check_decl(d, a);
    }
}

/// What a program declares, as far as the tests look at it.
struct Outcome {
    errors: usize,
    checker: Checker,
    imports_asked: usize,
}

impl Outcome {
    fn package_level(&self, name: &str) -> Option<&LangObj> {
        let scope = self.checker.tc_objs.pkgs[self.checker.pkg.0].scope;
        self.checker.tc_objs.lookup(scope, name).map(|k| &self.checker.tc_objs.lobjs[k.0])
    }

    fn file_level(&self, name: &str) -> Option<&LangObj> {
        let scope = self.checker.result.scopes[0].1;
        self.checker.tc_objs.lookup(scope, name).map(|k| &self.checker.tc_objs.lobjs[k.0])
    }

    fn constant(&self, name: &str) -> Option<usize> {
        match self.package_level(name)?.kind {
            EntityType::Const { val } => Some(val),
            _ => None,
        }
    }
}

/// A package with the exported constants `exported` and one constant of its
/// own, `internal`.
fn library(objs: &mut TCObjects, path: &str, exported: &[&str]) -> PackageKey {
    let name = path.rsplit('/').next().unwrap().to_string();
    let pkg = objs.new_package(path.to_string(), name, false);
    let scope = objs.pkgs[pkg.0].scope;
    let add = |objs: &mut TCObjects, name: &str| -> ObjKey {
        let o = objs.add_obj(LangObj::new_const(0, Some(pkg), name.to_string(), 0));
        assert_eq!(objs.insert(scope, o), None);
        o
    };
    for name in exported {
        add(objs, name);
    }
    add(objs, "internal");
    pkg
}

/// Parses the program `src`, which stands in the file `path`, and collects
/// its declarations. The packages `fmt` and `math` can be imported.
fn collect(path: &str, src: &str) -> Outcome {
    let mut fset = FileSet::new();
    let mut pobjs = Objects::new();
    let syntax_errors = ErrorList::new();
    let (parser, parsed) =
        goscript_parser::parse_file(&mut pobjs, &mut fset, &syntax_errors, path, src, false);
    drop(parser);
    let parsed = parsed.expect("a syntax tree");
    let converter = Converter::new(&pobjs);
    let files = vec![converter.file(&parsed)];
    let arena = converter.arena;
    check_file(&files[0], &arena);

    let mut objs = TCObjects::new();
    let name = arena.idents[files[0].name.0].name.clone();
    let pkg = objs.new_package("main".to_string(), name, false);
    let mut checker = Checker::new(objs, pkg);
    let mut fctx = FilesContext::new(&files);
    let mut imports_asked = 0;
    loop {
        assert!(checker.ready(&fctx));
        match checker.collect_objects(&mut fctx, &arena, &fset) {
            Progress::Done => break,
            Progress::NeedImport { key, pos } => {
                imports_asked += 1;
                let outcome = match key.path.as_str() {
                    "fmt" => Ok(library(&mut checker.tc_objs, "fmt", &["Println", "Sprintf"])),
                    "math" => Ok(library(&mut checker.tc_objs, "math", &["Pi", "MaxInt32"])),
                    _ => Err(()),
                };
                checker.import_package(pos, key, outcome);
            }
        }
    }
    assert!(checker.ready(&fctx));
    // The scope of the file spans the source file.
    let file_scope = &checker.tc_objs.scopes[checker.result.scopes[0].1 .0];
    assert_eq!((file_scope.pos, file_scope.end), (0, src.chars().count()));
    assert_eq!(file_scope.comment, path);
    Outcome { errors: syntax_errors.len() + checker.errors.len(), checker, imports_asked }
}

fn load_parse_gen(path: &str, src: &str) -> usize {
    collect(path, src).errors
}

const CASE1: &str = r#"package main

const (
    Zero = iota
    One
    Two
)

var total = One + Two

func add(a int, b int) int {
    sum := a + b
    if sum < 3 {
        sum += 1
    }
    return sum
}

func main() {
    add(1, total)
}
"#;

const CLOSURE1: &str = r#"package main

func main() {
    a := 44
    b := func() int {
        return a + 10
    }
    c := b()
    assert(c == 54)
}
"#;

const CLOSURE2: &str = r#"package main

func counter() func() int {
    n := 0
    return func() int {
        n += 1
        return n
    }
}

func main() {
    next := counter()
    next()
    assert(next() == 2)
}
"#;

const CLOSURE3: &str = r#"package main

func apply(f func(int, int) int, a int, b int) int {
    return f(a, b)
}

func main() {
    base := 100
    r := apply(func(x int, y int) int {
        return base + x*y
    }, 3, 4)
    assert(r == 112)
}
"#;

const CLOSURE4: &str = r#"package main

func main() {
    a := 1
    f := func() func() int {
        b := 2
        return func() int {
            a = a + b
            return a
        }
    }
    g := f()
    g()
    assert(g() == 5)
}
"#;

const FUNC1: &str = r#"package main

func swap(a int, b int) (int, int) {
    return b, a
}

func sum(nums ...int) int {
    total := 0
    for _, n := range nums {
        total += n
    }
    return total
}

func main() {
    x, y := swap(1, 2)
    assert(x == 2)
    assert(sum(x, y, 3) == 6)
}
"#;

const BLANKID: &str = r#"package main

const _ = 1

const (
    _ = iota
    First
    _
    Third
)

func pair() (int, int) {
    return 1, 2
}

func main() {
    _, b := pair()
    _ = b
    for _, v := range []int{1, 2} {
        _ = v
    }
}
"#;

const DECLARE: &str = r#"package main

const Pi float64 = 3
const Size, Name = 10, "ten"

const (
    KB int = 1 << (10 * (iota + 1))
    MB
    GB
)

var counter int
var a, b = 1, 2

type Celsius float64

func main() {
    var local = Size
    var x, y int = 1, 2
    z := local + x + y
    _ = z
}
"#;

const SLICE1: &str = r#"package main

func main() {
    s := []int{1, 2, 3, 4, 5}
    t := s[1:3]
    u := s[:2]
    v := s[2:]
    w := s[1:3:4]
    t = append(t, u[0], v[0], w[0])
    assert(len(t) == 5)
    s[0] = t[1]
}
"#;

const MAP1: &str = r#"package main

func main() {
    m := map[string]int{"one": 1, "two": 2}
    m["three"] = 3
    v, ok := m["one"]
    if ok {
        m["one"] = v + 1
    }
    n := map[int][]string{}
    n[1] = []string{"a"}
    assert(len(m) == 3)
}
"#;

const PKG: &str = r#"package main

import "fmt"

import (
    m "math"
    . "math"
)

const Limit = 10

func main() {
    fmt.Println(m.Pi, MaxInt32, Limit)
}
"#;

const TYPE: &str = r#"package main

type Point struct {
    X int
    Y int
}

type Shape interface {
    Area() int
    Name() string
}

type Pair struct {
    first, second *Point
    tag string
}

type Op func(int, int) int

type Grid [3][3]int

type Names map[string][]Point

func (p Point) Area() int {
    return p.X * p.Y
}

func main() {
    p := Point{X: 2, Y: 3}
    var s Shape
    _ = s
    assert(p.Area() == 6)
}
"#;

const POINTER: &str = r#"package main

type Node struct {
    val int
    next *Node
}

func bump(p *int) {
    *p = *p + 1
}

func main() {
    a := 1
    bump(&a)
    n := &Node{val: a}
    n.next = &Node{val: 2, next: nil}
    pp := &n
    (*pp).val = 3
    assert(n.val == 3)
}
"#;

const OPERATIONS: &str = r#"package main

const Mask = 0xff

func main() {
    a := 7
    b := 3
    c := a + b*2 - a/b + a%b
    d := a<<2 | b>>1 ^ a&b &^ 1
    e := a == b || a != b && !(a < b) && a >= b
    c++
    d--
    c += d
    c -= 1
    c *= 2
    c /= 3
    c <<= 1
    f := -a + +b
    _, _, _ = e, f, ^c & Mask
}
"#;

const IF: &str = r#"package main

func sign(n int) int {
    if n < 0 {
        return -1
    } else if n == 0 {
        return 0
    } else {
        return 1
    }
}

func main() {
    if v := sign(-5); v < 0 {
        assert(v == -1)
    }
    switch sign(3) {
    case -1, 0:
        assert(false)
    case 1:
        assert(true)
    default:
    }
}
"#;

const FOR: &str = r#"package main

func main() {
    total := 0
    for i := 0; i < 10; i++ {
        if i == 3 {
            continue
        }
        if i == 8 {
            break
        }
        total += i
    }
    for total > 0 {
        total -= 5
    }
    for {
        break
    }
    for i, v := range []int{1, 2, 3} {
        total += i * v
    }
outer:
    for i := 0; i < 2; i++ {
        for j := 0; j < 2; j++ {
            if j == 1 {
                continue outer
            }
        }
    }
}
"#;

const LEETCODE5: &str = r#"package main

func longestPalindrome(s string) string {
    if len(s) <= 1 {
        return s
    }
    table := make([][]bool, len(s))
    for i := 0; i < len(table); i++ {
        table[i] = make([]bool, len(s))
    }
    b := 0
    e := 1
    for l := 0; l < len(s); l++ {
        for i := 0; i < len(s)-l; i++ {
            j := i + l
            if l == 0 {
                table[i][j] = true
            } else if l == 1 {
                table[i][j] = s[i] == s[j]
            } else {
                table[i][j] = table[i+1][j-1] && (s[i] == s[j])
            }
            if table[i][j] {
                b, e = i, j
            }
        }
    }
    return s[b : e+1]
}

func main() {
    s := longestPalindrome("babad")
    assert(s == "bab" || s == "aba")
}
"#;

#[test]
fn test_bcase1() {
    let err_cnt = load_parse_gen("./tests/data/case1.gos", CASE1);
    assert!(err_cnt == 0);
}

#[test]
fn test_closure1() {
    let err_cnt = load_parse_gen("./tests/data/closure1.gos", CLOSURE1);
    assert!(err_cnt == 0);
}

#[test]
fn test_closure2() {
    let err_cnt = load_parse_gen("./tests/data/closure2.gos", CLOSURE2);
    assert!(err_cnt == 0);
}

#[test]
fn test_closure3() {
    let err_cnt = load_parse_gen("./tests/data/closure3.gos", CLOSURE3);
    assert!(err_cnt == 0);
}

#[test]
fn test_closure4() {
    let err_cnt = load_parse_gen("./tests/data/closure4.gos", CLOSURE4);
    assert!(err_cnt == 0);
}

#[test]
fn test_func1() {
    let err_cnt = load_parse_gen("./tests/data/func1.gos", FUNC1);
    assert!(err_cnt == 0);
}

#[test]
fn test_blankid() {
    let err_cnt = load_parse_gen("./tests/data/blankid.gos", BLANKID);
    assert!(err_cnt == 0);
}

#[test]
fn test_declare() {
    let err_cnt = load_parse_gen("./tests/data/declare.gos", DECLARE);
    assert!(err_cnt == 0);
}

#[test]
fn test_slice1() {
    let err_cnt = load_parse_gen("./tests/data/slice1.gos", SLICE1);
    assert!(err_cnt == 0);
}

#[test]
fn test_map1() {
    let err_cnt = load_parse_gen("./tests/data/map1.gos", MAP1);
    assert!(err_cnt == 0);
}

#[test]
fn test_pkg() {
    let err_cnt = load_parse_gen("./tests/data/pkg.gos", PKG);
    assert!(err_cnt == 0);
}

#[test]
fn test_type() {
    let err_cnt = load_parse_gen("./tests/data/type.gos", TYPE);
    assert!(err_cnt == 0);
}

#[test]
fn test_pointer() {
    let err_cnt = load_parse_gen("./tests/data/pointer.gos", POINTER);
    assert!(err_cnt == 0);
}

#[test]
fn test_operations() {
    let err_cnt = load_parse_gen("./tests/data/operations.gos", OPERATIONS);
    assert!(err_cnt == 0);
}

#[test]
fn test_if() {
    let err_cnt = load_parse_gen("./tests/data/if.gos", IF);
    assert!(err_cnt == 0);
}

#[test]
fn test_for() {
    let err_cnt = load_parse_gen("./tests/data/for.gos", FOR);
    assert!(err_cnt == 0);
}

#[test]
fn test_leetcode5() {
    let err_cnt = load_parse_gen("./tests/data/leetcode5.gos", LEETCODE5);
    assert!(err_cnt == 0);
}

#[test]
fn constants_of_a_program_get_the_index_of_their_spec() {
    let out = collect("./tests/data/case1.gos", CASE1);
    assert_eq!(out.errors, 0);
    assert_eq!(out.constant("Zero"), Some(0));
    assert_eq!(out.constant("One"), Some(1));
    assert_eq!(out.constant("Two"), Some(2));
    // Variables and functions are left to a later pass.
    assert!(out.package_level("total").is_none());
    assert!(out.package_level("add").is_none());
    assert!(out.package_level("main").is_none());
}

#[test]
fn declarations_of_a_program_are_numbered_in_source_order() {
    let out = collect("./tests/data/declare.gos", DECLARE);
    assert_eq!(out.errors, 0);
    let order: Vec<usize> = ["Pi", "Size", "Name", "KB", "MB", "GB"]
        .iter()
        .map(|n| out.package_level(n).unwrap().order)
        .collect();
    assert_eq!(order, vec![1, 2, 3, 4, 5, 6]);
    assert_eq!(out.constant("Size"), Some(0));
    assert_eq!(out.constant("Name"), Some(0));
    assert_eq!(out.constant("MB"), Some(1));
    assert_eq!(out.constant("GB"), Some(2));
}

#[test]
fn blank_constants_of_a_program_are_bound_nowhere() {
    let out = collect("./tests/data/blankid.gos", BLANKID);
    assert_eq!(out.errors, 0);
    assert!(out.package_level("_").is_none());
    assert_eq!(out.constant("First"), Some(1));
    assert_eq!(out.constant("Third"), Some(3));
    // The blank constants are declared all the same.
    assert_eq!(out.checker.obj_map.len(), 5);
}

#[test]
fn imports_of_a_program_are_resolved_once_each() {
    let out = collect("./tests/data/pkg.gos", PKG);
    assert_eq!(out.errors, 0);
    // "math" is imported twice and asked for once.
    assert_eq!(out.imports_asked, 2);
    let fmt = out.file_level("fmt").unwrap();
    let m = out.file_level("m").unwrap();
    let (fmt_pkg, math_pkg) = match (fmt.kind, m.kind) {
        (EntityType::PkgName { imported: a }, EntityType::PkgName { imported: b }) => (a, b),
        other => panic!("{:?}", other),
    };
    assert_eq!(out.checker.tc_objs.pkgs[fmt_pkg.0].path, "fmt");
    assert_eq!(out.checker.tc_objs.pkgs[math_pkg.0].path, "math");
    // The dot import brings in what "math" exports, and nothing else.
    assert!(out.file_level("Pi").is_some());
    assert!(out.file_level("MaxInt32").is_some());
    assert!(out.file_level("internal").is_none());
    assert!(out.file_level("math").is_none());
    assert!(out.file_level("Println").is_none());
    assert_eq!(out.checker.tc_objs.pkgs[out.checker.pkg.0].imports, vec![fmt_pkg, math_pkg]);
    assert_eq!(out.constant("Limit"), Some(0));
}

#[test]
fn program_with_errors() {
    let src = r#"package main

import "nowhere/lib"

const X, Y = 1
const init = 2
const main = 3
"#;
    let out = collect("./broken.gos", src);
    assert_eq!(out.errors, 4);
    let lib = out.file_level("lib").unwrap();
    match lib.kind {
        EntityType::PkgName { imported } => assert!(out.checker.tc_objs.pkgs[imported.0].fake),
        other => panic!("{:?}", other),
    }
    assert!(out.package_level("X").is_some());
    assert!(out.package_level("Y").is_some());
    assert!(out.package_level("init").is_none());
    assert!(out.package_level("main").is_none());
}
