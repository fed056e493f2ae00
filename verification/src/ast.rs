//! The syntax tree and the span of each of its nodes.
//!
//! A node owns its children by value. Identifiers live in an arena of the
//! compilation session ([`AstObjects`]) and are named by handle, because the
//! object an identifier resolves to is shared between scopes.
//!
//! Every node has a start (`pos`) and an end (`end`), computed from its own
//! tokens and from its children, without any state.

use vstd::prelude::*;
use crate::objects::{IdentKey, ObjKey, ScopeKey};
use crate::position::Pos;
use crate::token::Token;

verus! {

/// The arena of the identifiers that a syntax tree names by handle.
pub struct AstObjects {
    pub idents: Vec<Ident>,
}

/// An expression, or a type written as one.
pub enum Expr {
    Bad(Box<BadExpr>),
    Ident(IdentKey),
    Ellipsis(Box<Ellipsis>),
    BasicLit(Box<BasicLit>),
    FuncLit(Box<FuncLit>),
    CompositeLit(Box<CompositeLit>),
    Paren(Box<ParenExpr>),
    Selector(Box<SelectorExpr>),
    Index(Box<IndexExpr>),
    Slice(Box<SliceExpr>),
    TypeAssert(Box<TypeAssertExpr>),
    Call(Box<CallExpr>),
    Star(Box<StarExpr>),
    Unary(Box<UnaryExpr>),
    Binary(Box<BinaryExpr>),
    KeyValue(Box<KeyValueExpr>),
    Array(Box<ArrayType>),
    Struct(Box<StructType>),
    Func(Box<FuncType>),
    Interface(Box<InterfaceType>),
    MapType(Box<MapType>),
    Chan(Box<ChanType>),
}

/// A statement.
pub enum Stmt {
    Bad(Box<BadStmt>),
    Decl(Decl),
    Empty(Box<EmptyStmt>),
    Labeled(Box<LabeledStmt>),
    Expr(Expr),
    Send(Box<SendStmt>),
    IncDec(Box<IncDecStmt>),
    Assign(Box<AssignStmt>),
    Go(Box<GoStmt>),
    Defer(Box<DeferStmt>),
    Return(Box<ReturnStmt>),
    Branch(Box<BranchStmt>),
    Block(Box<BlockStmt>),
    If(Box<IfStmt>),
    Case(Box<CaseClause>),
    Switch(Box<SwitchStmt>),
    TypeSwitch(Box<TypeSwitchStmt>),
    Comm(Box<CommClause>),
    Select(Box<SelectStmt>),
    For(Box<ForStmt>),
    Range(Box<RangeStmt>),
}

/// One entry of an import, const, type or var declaration.
pub enum Spec {
    Import(Box<ImportSpec>),
    Value(Box<ValueSpec>),
    Type(Box<TypeSpec>),
}

/// A declaration at the top of a file, or in a statement.
pub enum Decl {
    Bad(Box<BadDecl>),
    Gen(Box<GenDecl>),
    Func(Box<FuncDecl>),
}

/// A source file: its declarations, its file scope, its import specs and
/// the identifiers that parsing left unresolved.
pub struct File {
    pub package: Pos,
    pub name: IdentKey,
    pub decls: Vec<Decl>,
    pub scope: Option<ScopeKey>,
    pub imports: Vec<ImportSpec>,
    pub unresolved: Vec<IdentKey>,
}

/// A set of source files that make up one package.
pub struct Package {
    pub name: String,
    pub scope: Option<ScopeKey>,
    pub imports: Vec<(String, ObjKey)>,
    pub files: Vec<(String, File)>,
}

/// A placeholder for an expression with syntax errors.
pub struct BadExpr {
    pub from: Pos,
    pub to: Pos,
}

/// An identifier.
pub struct Ident {
    pub pos: Pos,
    pub name: String,
    pub obj: Option<ObjKey>,
}

/// The "..." type in a parameter list or the "..." length in an array type.
pub struct Ellipsis {
    pub pos: Pos,
    pub elt: Option<Expr>,
}

/// A literal of basic type.
pub struct BasicLit {
    pub pos: Pos,
    pub kind: Token,
    pub value: String,
}

/// A function literal.
pub struct FuncLit {
    pub typ: Box<FuncType>,
    pub body: Box<BlockStmt>,
}

/// A composite literal.
pub struct CompositeLit {
    pub typ: Option<Expr>,
    pub l_brace: Pos,
    pub elts: Vec<Expr>,
    pub r_brace: Pos,
    pub incomplete: bool,
}

/// A parenthesized expression.
pub struct ParenExpr {
    pub l_paren: Pos,
    pub expr: Expr,
    pub r_paren: Pos,
}

/// An expression followed by a selector.
pub struct SelectorExpr {
    pub expr: Expr,
    pub sel: IdentKey,
}

/// An expression followed by an index.
pub struct IndexExpr {
    pub expr: Expr,
    pub l_brack: Pos,
    pub index: Expr,
    pub r_brack: Pos,
}

/// An expression followed by slice indices.
pub struct SliceExpr {
    pub expr: Expr,
    pub l_brack: Pos,
    pub low: Option<Expr>,
    pub high: Option<Expr>,
    pub max: Option<Expr>,
    pub slice3: bool,
    pub r_brack: Pos,
}

/// An expression followed by a type assertion.
pub struct TypeAssertExpr {
    pub expr: Expr,
    pub l_paren: Pos,
    pub typ: Expr,
    pub r_paren: Pos,
}

/// An expression followed by an argument list.
pub struct CallExpr {
    pub func: Expr,
    pub l_paren: Pos,
    pub args: Vec<Expr>,
    pub ellipsis: Pos,
    pub r_paren: Pos,
}

/// An expression of the form "*" Expression: a unary "*" expression or a
/// pointer type.
pub struct StarExpr {
    pub star: Expr,
    pub expr: Expr,
}

/// A unary expression other than "*".
pub struct UnaryExpr {
    pub op_pos: Pos,
    pub op: Token,
    pub expr: Expr,
}

/// A binary expression.
pub struct BinaryExpr {
    pub expr_a: Expr,
    pub op_pos: Pos,
    pub op: Token,
    pub expr_b: Expr,
}

/// A (key : value) pair in a composite literal.
pub struct KeyValueExpr {
    pub key: Expr,
    pub colon: Pos,
    pub val: Expr,
}

/// An array or slice type.
pub struct ArrayType {
    pub l_brack: Pos,
    pub len: Expr,
    pub elt: Expr,
}

/// A struct type.
pub struct StructType {
    pub struct_pos: Pos,
    pub fields: Box<FieldList>,
    pub incomplete: bool,
}

/// A function type.
pub struct FuncType {
    pub func: Option<Pos>,
    pub params: Box<FieldList>,
    pub results: Option<Box<FieldList>>,
}

/// An interface type.
pub struct InterfaceType {
    pub interface: Pos,
    pub methods: Box<FieldList>,
    pub incomplete: bool,
}

/// A map type.
pub struct MapType {
    pub map: Pos,
    pub key: Expr,
    pub val: Expr,
}

/// The direction of a channel type.
#[derive(Clone, Copy, Debug, PartialEq, Eq, Structural)]
pub enum ChanDir {
    SendTo,
    RecvFrom,
}

/// A channel type.
pub struct ChanType {
    pub begin: Pos,
    pub arrow: Pos,
    pub dir: ChanDir,
    pub val: Expr,
}

/// A single package import.
pub struct ImportSpec {
    pub name: Option<IdentKey>,
    pub path: Box<BasicLit>,
    pub end_pos: Option<Pos>,
}

/// A constant or variable declaration.
pub struct ValueSpec {
    pub names: Vec<IdentKey>,
    pub typ: Option<Expr>,
    pub values: Vec<Expr>,
}

/// A type declaration.
pub struct TypeSpec {
    pub name: IdentKey,
    pub assign: Pos,
    pub typ: Expr,
}

/// A placeholder for a declaration with syntax errors.
pub struct BadDecl {
    pub from: Pos,
    pub to: Pos,
}

/// An import, constant, type or variable declaration. `token` is one of
/// IMPORT, CONST, TYPE and VAR and says what the specs are.
pub struct GenDecl {
    pub token_pos: Pos,
    pub token: Token,
    pub l_paran: Option<Pos>,
    pub specs: Vec<Spec>,
    pub r_paren: Option<Pos>,
}

/// A function declaration.
pub struct FuncDecl {
    pub recv: Option<Box<FieldList>>,
    pub name: IdentKey,
    pub typ: Box<FuncType>,
    pub body: Option<Box<BlockStmt>>,
}

/// A placeholder for a statement with syntax errors.
pub struct BadStmt {
    pub from: Pos,
    pub to: Pos,
}

/// An empty statement; `implicit` says that the semicolon is not in the
/// source.
pub struct EmptyStmt {
    pub semi: Pos,
    pub implicit: bool,
}

/// A labeled statement.
pub struct LabeledStmt {
    pub label: IdentKey,
    pub colon: Pos,
    pub stmt: Stmt,
}

/// A send statement.
pub struct SendStmt {
    pub chan: Expr,
    pub arrow: Pos,
    pub val: Expr,
}

/// An increment or decrement statement.
pub struct IncDecStmt {
    pub expr: Expr,
    pub token_pos: Pos,
    pub token: Token,
}

/// An assignment or a short variable declaration.
pub struct AssignStmt {
    pub lhs: Vec<Expr>,
    pub token_pos: Pos,
    pub token: Token,
    pub rhs: Vec<Expr>,
}

/// A go statement.
pub struct GoStmt {
    pub go: Pos,
    pub call: Expr,
}

/// A defer statement.
pub struct DeferStmt {
    pub defer: Pos,
    pub call: Expr,
}

/// A return statement.
pub struct ReturnStmt {
    pub ret: Pos,
    pub results: Vec<Expr>,
}

/// A break, continue, goto or fallthrough statement.
pub struct BranchStmt {
    pub token_pos: Pos,
    pub token: Token,
    pub label: Option<IdentKey>,
}

/// A list of statements in braces.
pub struct BlockStmt {
    pub l_brace: Pos,
    pub list: Vec<Stmt>,
    pub r_brace: Pos,
}

/// An if statement.
pub struct IfStmt {
    pub if_pos: Pos,
    pub init: Option<Stmt>,
    pub cond: Expr,
    pub body: Box<BlockStmt>,
    pub els: Option<Stmt>,
}

/// A case of an expression or type switch statement.
pub struct CaseClause {
    pub case: Pos,
    pub list: Vec<Expr>,
    pub colon: Pos,
    pub body: Vec<Stmt>,
}

/// An expression switch statement.
pub struct SwitchStmt {
    pub switch: Pos,
    pub init: Option<Stmt>,
    pub tag: Option<Expr>,
    pub body: Box<BlockStmt>,
}

/// A type switch statement.
pub struct TypeSwitchStmt {
    pub switch: Pos,
    pub init: Option<Stmt>,
    pub assign: Stmt,
    pub body: Box<BlockStmt>,
}

/// A case of a select statement.
pub struct CommClause {
    pub case: Pos,
    pub comm: Option<Stmt>,
    pub colon: Pos,
    pub body: Vec<Stmt>,
}

/// A select statement.
pub struct SelectStmt {
    pub select: Pos,
    pub body: Box<BlockStmt>,
}

/// A for statement.
pub struct ForStmt {
    pub for_pos: Pos,
    pub init: Stmt,
    pub cond: Expr,
    pub post: Stmt,
    pub body: Box<BlockStmt>,
}

/// A for statement with a range clause.
pub struct RangeStmt {
    pub for_pos: Pos,
    pub key: Option<Expr>,
    pub val: Option<Expr>,
    pub token_pos: Pos,
    pub token: Token,
    pub expr: Expr,
    pub body: Box<BlockStmt>,
}

/// A field of a struct type, a method of an interface type, or a parameter
/// or result of a function type.
pub struct Field {
    pub names: Vec<Expr>,
    pub typ: Box<Expr>,
    pub tag: Option<Expr>,
}

/// A list of fields, with its brackets where it has them.
pub struct FieldList {
    pub openning: Option<Pos>,
    pub list: Vec<Box<Field>>,
    pub closing: Option<Pos>,
}

} // verus!
