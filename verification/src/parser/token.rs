//! Tokens as the lexer hands them to the parser.

use vstd::prelude::*;

verus! {

/// A byte range of the source text.
#[derive(Clone, Copy, Debug, PartialEq, Eq, Structural)]
pub struct Span {
    pub start: usize,
    pub end: usize,
}

#[allow(non_camel_case_types)]
#[derive(Clone, Copy, Debug, PartialEq, Eq, Structural)]
pub enum TokenKind {
    // end of input and preprocessor leftovers
    Eof,
    Directive,
    // names and literals
    Identifier,
    SystemIdentifier,
    IntegerLiteral,
    RealLiteral,
    StringLiteral,
    // punctuation
    Semicolon,
    Colon,
    DoubleColon,
    Comma,
    Dot,
    LParen,
    RParen,
    LBracket,
    RBracket,
    LBrace,
    RBrace,
    At,
    Hash,
    Question,
    Apostrophe,
    // operators
    Assign,
    PlusAssign,
    MinusAssign,
    StarAssign,
    SlashAssign,
    PercentAssign,
    AndAssign,
    OrAssign,
    XorAssign,
    ShiftLeftAssign,
    ShiftRightAssign,
    Arrow,
    DoubleArrow,
    Plus,
    Minus,
    Star,
    Slash,
    Percent,
    PlusPlus,
    MinusMinus,
    Eq,
    Neq,
    Lt,
    Leq,
    Gt,
    Geq,
    LogAnd,
    LogOr,
    Bang,
    Tilde,
    Amp,
    Pipe,
    Caret,
    ShiftLeft,
    ShiftRight,
    // statement keywords
    KwBegin,
    KwEnd,
    KwFork,
    KwJoin,
    KwJoin_any,
    KwJoin_none,
    KwIf,
    KwElse,
    KwUnique,
    KwUnique0,
    KwPriority,
    KwCase,
    KwCasex,
    KwCasez,
    KwEndcase,
    KwDefault,
    KwInside,
    KwFor,
    KwForeach,
    KwWhile,
    KwDo,
    KwRepeat,
    KwForever,
    KwReturn,
    KwBreak,
    KwContinue,
    KwWait,
    KwStatic,
    KwAutomatic,
    KwLocal,
    KwTypedef,
    KwDisable,
    KwAssert,
    KwAssume,
    KwCover,
    KwProperty,
    KwAssign,
    KwForce,
    KwDeassign,
    KwRelease,
    KwCoverpoint,
    KwCross,
    KwEvent,
    KwInput,
    KwOutput,
    KwInout,
    KwRef,
    KwPosedge,
    KwNegedge,
    KwEdge,
    KwIff,
    KwOr,
    // data type keywords
    KwLogic,
    KwReg,
    KwWire,
    KwBit,
    KwByte,
    KwShortint,
    KwInt,
    KwLongint,
    KwInteger,
    KwTime,
    KwReal,
    KwShortreal,
    KwRealtime,
    KwString,
    KwChandle,
    KwVoid,
    KwSigned,
    KwUnsigned,
}

/// A token: its kind, its text and where it stands.
pub struct Token {
    pub kind: TokenKind,
    pub text: String,
    pub span: Span,
}

impl Token {
    pub fn new(kind: TokenKind, text: String, span: Span) -> (t: Token)
        ensures
            t.kind == kind,
            t.text@ == text@,
            t.span == span,
    {
        Token { kind, text, span }
    }

    /// A copy of the token.
    pub fn duplicate(&self) -> (t: Token)
        ensures
            t == *self,
    {
        Token { kind: self.kind, text: self.text.clone(), span: self.span }
    }
}

/// Keywords that begin a built-in data type.
pub open spec fn is_data_type_kind(k: TokenKind) -> bool {
    match k {
        TokenKind::KwLogic | TokenKind::KwReg | TokenKind::KwBit
        | TokenKind::KwByte | TokenKind::KwShortint | TokenKind::KwInt | TokenKind::KwLongint
        | TokenKind::KwInteger | TokenKind::KwTime | TokenKind::KwReal | TokenKind::KwShortreal
        | TokenKind::KwRealtime | TokenKind::KwString | TokenKind::KwChandle | TokenKind::KwVoid
        | TokenKind::KwEvent => true,
        _ => false,
    }
}

pub fn data_type_kind(k: TokenKind) -> (r: bool)
    ensures
        r == is_data_type_kind(k),
{
    match k {
        TokenKind::KwLogic | TokenKind::KwReg | TokenKind::KwBit
        | TokenKind::KwByte | TokenKind::KwShortint | TokenKind::KwInt | TokenKind::KwLongint
        | TokenKind::KwInteger | TokenKind::KwTime | TokenKind::KwReal | TokenKind::KwShortreal
        | TokenKind::KwRealtime | TokenKind::KwString | TokenKind::KwChandle | TokenKind::KwVoid
        | TokenKind::KwEvent => true,
        _ => false,
    }
}

} // verus!
