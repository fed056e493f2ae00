//! The lexical tokens of the language.

use vstd::prelude::*;

verus! {

/// A lexical token. Literal tokens carry no text here: a literal's text is
/// kept by the syntax node that holds it.
#[allow(non_camel_case_types)]
#[derive(Clone, Copy, Debug, PartialEq, Eq, Structural)]
pub enum Token {
    // Special tokens
    NONE,
    ILLEGAL,
    EOF,
    COMMENT,
    // Identifiers and basic type literals
    IDENT,
    INT,
    FLOAT,
    IMAG,
    CHAR,
    STRING,
    // Operators
    ADD,
    SUB,
    MUL,
    QUO,
    REM,
    AND,
    OR,
    XOR,
    SHL,
    SHR,
    AND_NOT,
    ADD_ASSIGN,
    SUB_ASSIGN,
    MUL_ASSIGN,
    QUO_ASSIGN,
    REM_ASSIGN,
    AND_ASSIGN,
    OR_ASSIGN,
    XOR_ASSIGN,
    SHL_ASSIGN,
    SHR_ASSIGN,
    AND_NOT_ASSIGN,
    LAND,
    LOR,
    ARROW,
    INC,
    DEC,
    EQL,
    LSS,
    GTR,
    ASSIGN,
    NOT,
    NEQ,
    LEQ,
    GEQ,
    DEFINE,
    ELLIPSIS,
    LPAREN,
    LBRACK,
    LBRACE,
    COMMA,
    PERIOD,
    RPAREN,
    RBRACK,
    RBRACE,
    SEMICOLON,
    COLON,
    // Keywords
    BREAK,
    CASE,
    CHAN,
    CONST,
    CONTINUE,
    DEFAULT,
    DEFER,
    ELSE,
    FALLTHROUGH,
    FOR,
    FUNC,
    GO,
    GOTO,
    IF,
    IMPORT,
    INTERFACE,
    MAP,
    PACKAGE,
    RANGE,
    RETURN,
    SELECT,
    STRUCT,
    SWITCH,
    TYPE,
    VAR,
}

impl Token {
    /// The text of the token as it is written in source, or the token's name
    /// for tokens without a fixed text.
    pub open spec fn spec_text(self) -> Seq<char> {
        match self {
            Token::NONE => "NONE"@,
            Token::ILLEGAL => "ILLEGAL"@,
            Token::EOF => "EOF"@,
            Token::COMMENT => "COMMENT"@,
            Token::IDENT => "IDENT"@,
            Token::INT => "INT"@,
            Token::FLOAT => "FLOAT"@,
            Token::IMAG => "IMAG"@,
            Token::CHAR => "CHAR"@,
            Token::STRING => "STRING"@,
            Token::ADD => "+"@,
            Token::SUB => "-"@,
            Token::MUL => "*"@,
            Token::QUO => "/"@,
            Token::REM => "%"@,
            Token::AND => "&"@,
            Token::OR => "|"@,
            Token::XOR => "^"@,
            Token::SHL => "<<"@,
            Token::SHR => ">>"@,
            Token::AND_NOT => "&^"@,
            Token::ADD_ASSIGN => "+="@,
            Token::SUB_ASSIGN => "-="@,
            Token::MUL_ASSIGN => "*="@,
            Token::QUO_ASSIGN => "/="@,
            Token::REM_ASSIGN => "%="@,
            Token::AND_ASSIGN => "&="@,
            Token::OR_ASSIGN => "|="@,
            Token::XOR_ASSIGN => "^="@,
            Token::SHL_ASSIGN => "<<="@,
            Token::SHR_ASSIGN => ">>="@,
            Token::AND_NOT_ASSIGN => "&^="@,
            Token::LAND => "&&"@,
            Token::LOR => "||"@,
            Token::ARROW => "<-"@,
            Token::INC => "++"@,
            Token::DEC => "--"@,
            Token::EQL => "=="@,
            Token::LSS => "<"@,
            Token::GTR => ">"@,
            Token::ASSIGN => "="@,
            Token::NOT => "!"@,
            Token::NEQ => "!="@,
            Token::LEQ => "<="@,
            Token::GEQ => ">="@,
            Token::DEFINE => ":="@,
            Token::ELLIPSIS => "..."@,
            Token::LPAREN => "("@,
            Token::LBRACK => "["@,
            Token::LBRACE => "{"@,
            Token::COMMA => ","@,
            Token::PERIOD => "."@,
            Token::RPAREN => ")"@,
            Token::RBRACK => "]"@,
            Token::RBRACE => "}"@,
            Token::SEMICOLON => ";"@,
            Token::COLON => ":"@,
            Token::BREAK => "break"@,
            Token::CASE => "case"@,
            Token::CHAN => "chan"@,
            Token::CONST => "const"@,
            Token::CONTINUE => "continue"@,
            Token::DEFAULT => "default"@,
            Token::DEFER => "defer"@,
            Token::ELSE => "else"@,
            Token::FALLTHROUGH => "fallthrough"@,
            Token::FOR => "for"@,
            Token::FUNC => "func"@,
            Token::GO => "go"@,
            Token::GOTO => "goto"@,
            Token::IF => "if"@,
            Token::IMPORT => "import"@,
            Token::INTERFACE => "interface"@,
            Token::MAP => "map"@,
            Token::PACKAGE => "package"@,
            Token::RANGE => "range"@,
            Token::RETURN => "return"@,
            Token::SELECT => "select"@,
            Token::STRUCT => "struct"@,
            Token::SWITCH => "switch"@,
            Token::TYPE => "type"@,
            Token::VAR => "var"@,
        }
    }

    /// The text of the token.
    pub fn token_text(&self) -> (text: &'static str)
        ensures
            text@ == self.spec_text(),
    {
        match self {
            Token::NONE => "NONE",
            Token::ILLEGAL => "ILLEGAL",
            Token::EOF => "EOF",
            Token::COMMENT => "COMMENT",
            Token::IDENT => "IDENT",
            Token::INT => "INT",
            Token::FLOAT => "FLOAT",
            Token::IMAG => "IMAG",
            Token::CHAR => "CHAR",
            Token::STRING => "STRING",
            Token::ADD => "+",
            Token::SUB => "-",
            Token::MUL => "*",
            Token::QUO => "/",
            Token::REM => "%",
            Token::AND => "&",
            Token::OR => "|",
            Token::XOR => "^",
            Token::SHL => "<<",
            Token::SHR => ">>",
            Token::AND_NOT => "&^",
            Token::ADD_ASSIGN => "+=",
            Token::SUB_ASSIGN => "-=",
            Token::MUL_ASSIGN => "*=",
            Token::QUO_ASSIGN => "/=",
            Token::REM_ASSIGN => "%=",
            Token::AND_ASSIGN => "&=",
            Token::OR_ASSIGN => "|=",
            Token::XOR_ASSIGN => "^=",
            Token::SHL_ASSIGN => "<<=",
            Token::SHR_ASSIGN => ">>=",
            Token::AND_NOT_ASSIGN => "&^=",
            Token::LAND => "&&",
            Token::LOR => "||",
            Token::ARROW => "<-",
            Token::INC => "++",
            Token::DEC => "--",
            Token::EQL => "==",
            Token::LSS => "<",
            Token::GTR => ">",
            Token::ASSIGN => "=",
            Token::NOT => "!",
            Token::NEQ => "!=",
            Token::LEQ => "<=",
            Token::GEQ => ">=",
            Token::DEFINE => ":=",
            Token::ELLIPSIS => "...",
            Token::LPAREN => "(",
            Token::LBRACK => "[",
            Token::LBRACE => "{",
            Token::COMMA => ",",
            Token::PERIOD => ".",
            Token::RPAREN => ")",
            Token::RBRACK => "]",
            Token::RBRACE => "}",
            Token::SEMICOLON => ";",
            Token::COLON => ":",
            Token::BREAK => "break",
            Token::CASE => "case",
            Token::CHAN => "chan",
            Token::CONST => "const",
            Token::CONTINUE => "continue",
            Token::DEFAULT => "default",
            Token::DEFER => "defer",
            Token::ELSE => "else",
            Token::FALLTHROUGH => "fallthrough",
            Token::FOR => "for",
            Token::FUNC => "func",
            Token::GO => "go",
            Token::GOTO => "goto",
            Token::IF => "if",
            Token::IMPORT => "import",
            Token::INTERFACE => "interface",
            Token::MAP => "map",
            Token::PACKAGE => "package",
            Token::RANGE => "range",
            Token::RETURN => "return",
            Token::SELECT => "select",
            Token::STRUCT => "struct",
            Token::SWITCH => "switch",
            Token::TYPE => "type",
            Token::VAR => "var",
        }
    }
}

} // verus!
