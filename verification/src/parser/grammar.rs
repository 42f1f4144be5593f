//! What parsing gives, as functions from the tokens and a parser state to a
//! syntax-tree model and the state after it. The parsing functions are
//! proved to compute exactly these.
//!
//! Positions only move forward; where a definition needs that fact to be
//! well founded it tests it; the module `progress` proves that the test always holds
//! (`expression_moves_forward`), so the other branch is never taken.

use vstd::prelude::*;

use crate::parser::ast::{BinaryOp, Signing, UnaryOp};
use crate::parser::cursor::SyntaxError;
use crate::parser::expr::{binary_op_of, unary_op_of};
use crate::parser::model::{
    DataTypeM, DimM, ExprKindM, ExprM, HierM, IdentM, PState,
};
use crate::parser::token::{is_data_type_kind, Span, Token, TokenKind};

verus! {

/// The kind of token `i`, `Eof` past the end.
pub open spec fn kind_in(t: Seq<Token>, i: int) -> TokenKind {
    if 0 <= i < t.len() {
        t[i].kind
    } else {
        TokenKind::Eof
    }
}

pub open spec fn cur_of(t: Seq<Token>, s: PState) -> TokenKind {
    kind_in(t, s.pos)
}

/// Where the current token begins.
pub open spec fn start_of(t: Seq<Token>, s: PState) -> usize {
    t[s.pos].span.start
}

/// Past the current token, never past the last one.
pub open spec fn bumped(t: Seq<Token>, s: PState) -> PState {
    PState {
        pos: if s.pos + 1 < t.len() {
            s.pos + 1
        } else {
            s.pos
        },
        errs: s.errs,
    }
}

/// Past the current token when it is of kind `k`.
pub open spec fn eaten(t: Seq<Token>, s: PState, k: TokenKind) -> PState {
    if cur_of(t, s) == k {
        bumped(t, s)
    } else {
        s
    }
}

/// Past the current token when it is of kind `k`; else an error is recorded.
pub open spec fn expected(t: Seq<Token>, s: PState, k: TokenKind) -> PState {
    if cur_of(t, s) == k {
        bumped(t, s)
    } else {
        PState {
            errs: s.errs.push(SyntaxError { expected: k, found: cur_of(t, s), span: t[s.pos].span }),
            ..s
        }
    }
}

/// From `start` to the end of the last token passed.
pub open spec fn span_upto(t: Seq<Token>, start: usize, s: PState) -> Span {
    Span {
        start,
        end: if s.pos > 0 {
            t[s.pos - 1].span.end
        } else {
            start
        },
    }
}

/// `s1` is not behind `s` and is a valid position.
pub open spec fn within(t: Seq<Token>, s: PState, s1: PState) -> bool {
    s.pos <= s1.pos < t.len()
}

/// `s1` is past `s` and is a valid position.
pub open spec fn advanced(t: Seq<Token>, s: PState, s1: PState) -> bool {
    s.pos < s1.pos < t.len()
}

pub open spec fn error_expr() -> ExprM {
    ExprM { kind: ExprKindM::Error, span: Span { start: 0, end: 0 } }
}

/// An identifier, or an empty name and an error.
pub open spec fn sp_ident(t: Seq<Token>, s: PState) -> (IdentM, PState) {
    if cur_of(t, s) == TokenKind::Identifier {
        (IdentM { name: t[s.pos].text@, span: t[s.pos].span }, bumped(t, s))
    } else {
        (IdentM { name: seq![], span: t[s.pos].span }, expected(t, s, TokenKind::Identifier))
    }
}

/// Further `.name` or `::name` segments after `path`.
pub open spec fn sp_hier_tail(t: Seq<Token>, path: Seq<IdentM>, s: PState) -> (
    Seq<IdentM>,
    PState,
)
    decreases t.len() - s.pos,
{
    if (cur_of(t, s) == TokenKind::Dot || cur_of(t, s) == TokenKind::DoubleColon) && kind_in(
        t,
        s.pos + 1,
    ) == TokenKind::Identifier {
        let (seg, s2) = sp_ident(t, bumped(t, s));
        if advanced(t, s, s2) {
            sp_hier_tail(t, path.push(seg), s2)
        } else {
            (path, s2)
        }
    } else {
        (path, s)
    }
}

pub open spec fn sp_hier(t: Seq<Token>, s: PState) -> (HierM, PState) {
    let (first, s1) = sp_ident(t, s);
    let (path, s2) = sp_hier_tail(t, seq![first], s1);
    (HierM { path, span: span_upto(t, start_of(t, s), s2) }, s2)
}

pub open spec fn sp_hier_expr(t: Seq<Token>, s: PState) -> (ExprM, PState) {
    let (h, s1) = sp_hier(t, s);
    (ExprM { kind: ExprKindM::Ident(h), span: span_upto(t, start_of(t, s), s1) }, s1)
}

/// An optional `: label`.
pub open spec fn sp_end_label(t: Seq<Token>, s: PState) -> (Option<IdentM>, PState) {
    if cur_of(t, s) == TokenKind::Colon {
        let (id, s1) = sp_ident(t, bumped(t, s));
        (Some(id), s1)
    } else {
        (None, s)
    }
}

/// A full expression.
pub open spec fn sp_expression(t: Seq<Token>, s: PState) -> (ExprM, PState)
    decreases t.len() - s.pos, 5nat,
{
    sp_conditional(t, s, true)
}

/// Expressions separated by commas.
pub open spec fn sp_expr_list(t: Seq<Token>, s: PState) -> (Seq<ExprM>, PState)
    decreases t.len() - s.pos, 6nat,
{
    let (e, s1) = sp_expression(t, s);
    if within(t, s, s1) && cur_of(t, s1) == TokenKind::Comma {
        let s2 = bumped(t, s1);
        if advanced(t, s, s2) {
            let (rest, s3) = sp_expr_list(t, s2);
            (seq![e] + rest, s3)
        } else {
            (seq![e], s2)
        }
    } else {
        (seq![e], s1)
    }
}

pub open spec fn sp_conditional(t: Seq<Token>, s: PState, allow_leq: bool) -> (ExprM, PState)
    decreases t.len() - s.pos, 4nat,
{
    let start = start_of(t, s);
    let (c, s1) = sp_binary(t, s, 1, allow_leq);
    if within(t, s, s1) && cur_of(t, s1) == TokenKind::Question {
        let s2 = bumped(t, s1);
        if advanced(t, s, s2) {
            let (th, s3) = sp_expression(t, s2);
            if within(t, s2, s3) {
                let s4 = expected(t, s3, TokenKind::Colon);
                let (el, s5) = sp_conditional(t, s4, allow_leq);
                (
                    ExprM {
                        kind: ExprKindM::Conditional {
                            condition: Box::new(c),
                            then_expr: Box::new(th),
                            else_expr: Box::new(el),
                        },
                        span: span_upto(t, start, s5),
                    },
                    s5,
                )
            } else {
                (error_expr(), s3)
            }
        } else {
            (error_expr(), s2)
        }
    } else {
        (c, s1)
    }
}

pub open spec fn sp_binary(t: Seq<Token>, s: PState, min_prec: u8, allow_leq: bool) -> (
    ExprM,
    PState,
)
    decreases t.len() - s.pos, 3nat,
{
    let (left, s1) = sp_unary(t, s);
    if within(t, s, s1) {
        sp_binary_tail(t, start_of(t, s), min_prec, allow_leq, left, s1)
    } else {
        (left, s1)
    }
}

/// Binary operators of precedence at least `min_prec` after `left`,
/// grouped to the left.
pub open spec fn sp_binary_tail(
    t: Seq<Token>,
    start: usize,
    min_prec: u8,
    allow_leq: bool,
    left: ExprM,
    s: PState,
) -> (ExprM, PState)
    decreases t.len() - s.pos, 2nat,
{
    match binary_op_of(cur_of(t, s), allow_leq) {
        Some((op, prec)) => if prec < min_prec {
            (left, s)
        } else {
            let s1 = bumped(t, s);
            if advanced(t, s, s1) {
                let (right, s2) = sp_binary(t, s1, (prec + 1) as u8, allow_leq);
                if within(t, s1, s2) {
                    sp_binary_tail(
                        t,
                        start,
                        min_prec,
                        allow_leq,
                        ExprM {
                            kind: ExprKindM::Binary {
                                op,
                                left: Box::new(left),
                                right: Box::new(right),
                            },
                            span: span_upto(t, start, s2),
                        },
                        s2,
                    )
                } else {
                    (left, s2)
                }
            } else {
                (left, s1)
            }
        },
        None => (left, s),
    }
}

pub open spec fn sp_unary(t: Seq<Token>, s: PState) -> (ExprM, PState)
    decreases t.len() - s.pos, 2nat,
{
    match unary_op_of(cur_of(t, s)) {
        Some(op) => {
            let s1 = bumped(t, s);
            if advanced(t, s, s1) {
                let (operand, s2) = sp_unary(t, s1);
                (
                    ExprM {
                        kind: ExprKindM::Unary { op, operand: Box::new(operand) },
                        span: span_upto(t, start_of(t, s), s2),
                    },
                    s2,
                )
            } else {
                (error_expr(), s1)
            }
        },
        None => sp_postfix(t, s),
    }
}

pub open spec fn sp_postfix(t: Seq<Token>, s: PState) -> (ExprM, PState)
    decreases t.len() - s.pos, 1nat,
{
    let (e, s1) = sp_primary(t, s);
    if within(t, s, s1) {
        sp_postfix_tail(t, start_of(t, s), e, s1)
    } else {
        (e, s1)
    }
}

/// Selects `[i]`, `[a:b]`, calls `(args)` of a name, and `++`/`--` after `e`.
pub open spec fn sp_postfix_tail(t: Seq<Token>, start: usize, e: ExprM, s: PState) -> (
    ExprM,
    PState,
)
    decreases t.len() - s.pos, 0nat,
{
    let k = cur_of(t, s);
    if k == TokenKind::LBracket {
        let s1 = bumped(t, s);
        if advanced(t, s, s1) {
            let (index, s2) = sp_expression(t, s1);
            if within(t, s1, s2) {
                if cur_of(t, s2) == TokenKind::Colon {
                    let (x, s3) = sp_expression(t, bumped(t, s2));
                    if within(t, s2, s3) {
                        let s4 = expected(t, s3, TokenKind::RBracket);
                        sp_postfix_tail(
                            t,
                            start,
                            ExprM {
                                kind: ExprKindM::Index {
                                    base: Box::new(e),
                                    index: Box::new(index),
                                    end: Some(Box::new(x)),
                                },
                                span: span_upto(t, start, s4),
                            },
                            s4,
                        )
                    } else {
                        (e, s3)
                    }
                } else {
                    let s4 = expected(t, s2, TokenKind::RBracket);
                    sp_postfix_tail(
                        t,
                        start,
                        ExprM {
                            kind: ExprKindM::Index {
                                base: Box::new(e),
                                index: Box::new(index),
                                end: None,
                            },
                            span: span_upto(t, start, s4),
                        },
                        s4,
                    )
                }
            } else {
                (e, s2)
            }
        } else {
            (e, s1)
        }
    } else if k == TokenKind::LParen && e.kind is Ident {
        let s1 = bumped(t, s);
        if advanced(t, s, s1) {
            let (args, s2) = if cur_of(t, s1) == TokenKind::RParen {
                (Seq::<ExprM>::empty(), s1)
            } else {
                sp_expr_list(t, s1)
            };
            if within(t, s1, s2) {
                let s3 = expected(t, s2, TokenKind::RParen);
                sp_postfix_tail(
                    t,
                    start,
                    ExprM {
                        kind: ExprKindM::Call { callee: Box::new(e), args },
                        span: span_upto(t, start, s3),
                    },
                    s3,
                )
            } else {
                (e, s2)
            }
        } else {
            (e, s1)
        }
    } else if k == TokenKind::PlusPlus || k == TokenKind::MinusMinus {
        let op = if k == TokenKind::PlusPlus {
            UnaryOp::PostIncrement
        } else {
            UnaryOp::PostDecrement
        };
        let s1 = bumped(t, s);
        if advanced(t, s, s1) {
            sp_postfix_tail(
                t,
                start,
                ExprM {
                    kind: ExprKindM::Unary { op, operand: Box::new(e) },
                    span: span_upto(t, start, s1),
                },
                s1,
            )
        } else {
            (e, s1)
        }
    } else {
        (e, s)
    }
}

pub open spec fn sp_primary(t: Seq<Token>, s: PState) -> (ExprM, PState)
    decreases t.len() - s.pos, 0nat,
{
    let start = start_of(t, s);
    let k = cur_of(t, s);
    if k == TokenKind::Identifier {
        sp_hier_expr(t, s)
    } else if k == TokenKind::SystemIdentifier || k == TokenKind::IntegerLiteral || k
        == TokenKind::RealLiteral || k == TokenKind::StringLiteral {
        let tok = t[s.pos];
        if k == TokenKind::SystemIdentifier {
            (
                ExprM {
                    kind: ExprKindM::Ident(
                        HierM {
                            path: seq![IdentM { name: tok.text@, span: tok.span }],
                            span: tok.span,
                        },
                    ),
                    span: tok.span,
                },
                bumped(t, s),
            )
        } else {
            (ExprM { kind: ExprKindM::Literal(tok.text@), span: tok.span }, bumped(t, s))
        }
    } else if k == TokenKind::LParen {
        let s1 = bumped(t, s);
        if advanced(t, s, s1) {
            let (inner, s2) = sp_expression(t, s1);
            let s3 = expected(t, s2, TokenKind::RParen);
            (ExprM { kind: inner.kind, span: span_upto(t, start, s3) }, s3)
        } else {
            (error_expr(), s1)
        }
    } else if k == TokenKind::LBrace {
        let s1 = bumped(t, s);
        if advanced(t, s, s1) {
            let (items, s2) = if cur_of(t, s1) == TokenKind::RBrace {
                (Seq::<ExprM>::empty(), s1)
            } else {
                sp_expr_list(t, s1)
            };
            let s3 = expected(t, s2, TokenKind::RBrace);
            (ExprM { kind: ExprKindM::Concat(items), span: span_upto(t, start, s3) }, s3)
        } else {
            (error_expr(), s1)
        }
    } else {
        let span = t[s.pos].span;
        let s1 = PState {
            errs: s.errs.push(SyntaxError { expected: TokenKind::Identifier, found: k, span }),
            ..s
        };
        (
            ExprM { kind: ExprKindM::Error, span },
            if k != TokenKind::Eof {
                bumped(t, s1)
            } else {
                s1
            },
        )
    }
}

/// Zero or more `[msb:lsb]`, `[size]` or `[]`.
pub open spec fn sp_dims(t: Seq<Token>, s: PState) -> (Seq<DimM>, PState)
    decreases t.len() - s.pos,
{
    if cur_of(t, s) == TokenKind::LBracket {
        let start = start_of(t, s);
        let s1 = bumped(t, s);
        if advanced(t, s, s1) {
            if cur_of(t, s1) == TokenKind::RBracket {
                let s2 = bumped(t, s1);
                let d = DimM { msb: None, lsb: None, span: span_upto(t, start, s2) };
                let (rest, s3) = sp_dims(t, s2);
                (seq![d] + rest, s3)
            } else {
                let (msb, s2) = sp_expression(t, s1);
                if within(t, s1, s2) {
                    let (lsb, s3) = if cur_of(t, s2) == TokenKind::Colon {
                        let (x, s3) = sp_expression(t, bumped(t, s2));
                        (Some(x), s3)
                    } else {
                        (None, s2)
                    };
                    if within(t, s2, s3) {
                        let s4 = expected(t, s3, TokenKind::RBracket);
                        let d = DimM { msb: Some(msb), lsb, span: span_upto(t, start, s4) };
                        let (rest, s5) = sp_dims(t, s4);
                        (seq![d] + rest, s5)
                    } else {
                        (seq![], s3)
                    }
                } else {
                    (seq![], s2)
                }
            }
        } else {
            (seq![], s1)
        }
    } else {
        (seq![], s)
    }
}

/// An optional `signed` or `unsigned`.
pub open spec fn sp_signing(t: Seq<Token>, s: PState) -> (Option<Signing>, PState) {
    if cur_of(t, s) == TokenKind::KwSigned {
        (Some(Signing::Signed), bumped(t, s))
    } else if cur_of(t, s) == TokenKind::KwUnsigned {
        (Some(Signing::Unsigned), bumped(t, s))
    } else {
        (None, s)
    }
}

/// Tokens passed inside `depth` open parentheses, up to the one that closes
/// them (or `Eof`).
pub open spec fn sp_skip_from(t: Seq<Token>, depth: nat, s: PState) -> PState
    decreases t.len() - s.pos,
{
    if depth > 0 && cur_of(t, s) != TokenKind::Eof {
        let d = if cur_of(t, s) == TokenKind::LParen {
            depth + 1
        } else if cur_of(t, s) == TokenKind::RParen {
            (depth - 1) as nat
        } else {
            depth
        };
        let s1 = bumped(t, s);
        if advanced(t, s, s1) {
            sp_skip_from(t, d, s1)
        } else {
            s1
        }
    } else {
        s
    }
}

/// A balanced `( ... )`, passed over.
pub open spec fn sp_skip_parens(t: Seq<Token>, s: PState) -> PState {
    sp_skip_from(t, 1, bumped(t, s))
}

/// A data type: a built-in keyword with optional signing and packed
/// dimensions, a (scoped, possibly parameterized) type name, or neither.
pub open spec fn sp_data_type(t: Seq<Token>, s: PState) -> (DataTypeM, PState) {
    let start = start_of(t, s);
    if is_data_type_kind(cur_of(t, s)) {
        let (signing, s2) = sp_signing(t, bumped(t, s));
        let (dims, s3) = sp_dims(t, s2);
        (
            DataTypeM::Builtin {
                keyword: cur_of(t, s),
                signing,
                dimensions: dims,
                span: span_upto(t, start, s3),
            },
            s3,
        )
    } else if cur_of(t, s) == TokenKind::Identifier {
        let (name, s1) = sp_hier(t, s);
        let s2 = if cur_of(t, s1) == TokenKind::Hash && kind_in(t, s1.pos + 1) == TokenKind::LParen {
            sp_skip_parens(t, bumped(t, s1))
        } else {
            s1
        };
        let (dims, s3) = sp_dims(t, s2);
        (DataTypeM::Named { name, dimensions: dims, span: span_upto(t, start, s3) }, s3)
    } else {
        let (signing, s1) = sp_signing(t, s);
        let (dims, s2) = sp_dims(t, s1);
        (DataTypeM::Implicit { signing, dimensions: dims, span: span_upto(t, start, s2) }, s2)
    }
}

/// The tokens of a typedef up to its semicolon; gives the last identifier.
pub open spec fn sp_typedef_tail(t: Seq<Token>, last: Option<IdentM>, s: PState) -> (
    Option<IdentM>,
    PState,
)
    decreases t.len() - s.pos,
{
    if cur_of(t, s) != TokenKind::Semicolon && cur_of(t, s) != TokenKind::Eof {
        let l2 = if cur_of(t, s) == TokenKind::Identifier {
            Some(IdentM { name: t[s.pos].text@, span: t[s.pos].span })
        } else {
            last
        };
        let s1 = bumped(t, s);
        if advanced(t, s, s1) {
            sp_typedef_tail(t, l2, s1)
        } else {
            (l2, s1)
        }
    } else {
        (last, s)
    }
}

pub open spec fn sp_typedef(t: Seq<Token>, s: PState) -> (Option<IdentM>, PState) {
    let (last, s1) = sp_typedef_tail(t, None, bumped(t, s));
    (last, expected(t, s1, TokenKind::Semicolon))
}

/// An expression that may be assigned to: `<=` ends it.
pub open spec fn sp_lvalue(t: Seq<Token>, s: PState) -> (ExprM, PState) {
    sp_conditional(t, s, false)
}

} // verus!
