//! What statement parsing gives, as functions from the tokens and a parser
//! state to a statement model and the state after it.
//!
//! As for expressions, a definition tests that positions moved forward where
//! it needs that to be well founded; the module
//! `statement_progress` proves that the
//! test always holds (`statement_moves_forward`), so the other branch is
//! never taken.

use vstd::prelude::*;

use crate::parser::ast::{
    AssertionKind, BinaryOp, CaseKind, Edge, JoinType, Lifetime, UniquePriority,
};
use crate::parser::grammar::{
    advanced, bumped, cur_of, eaten, expected, kind_in, sp_data_type, sp_dims, sp_end_label,
    sp_expr_list, sp_expression, sp_hier, sp_hier_expr, sp_ident, sp_lvalue, sp_typedef,
    span_upto, start_of, within,
};
use crate::parser::model::{
    AssertionM, CaseItemM, DataTypeM, DeclM, EventControlM, EventExprM, ExprKindM, ExprM,
    ForInitM, IdentM, PState, ProcContM, StmtKindM, StmtM, TimingControlM,
};
use crate::parser::statements::case_kind_of;
use crate::parser::token::{is_data_type_kind, Span, Token, TokenKind};

verus! {

pub open spec fn null_stmt() -> StmtM {
    StmtM { kind: StmtKindM::Null, span: Span { start: 0, end: 0 } }
}

/// An optional `unique`, `unique0` or `priority`.
pub open spec fn sp_unique_priority(t: Seq<Token>, s: PState) -> (Option<UniquePriority>, PState) {
    let k = cur_of(t, s);
    if k == TokenKind::KwUnique {
        (Some(UniquePriority::Unique), bumped(t, s))
    } else if k == TokenKind::KwUnique0 {
        (Some(UniquePriority::Unique0), bumped(t, s))
    } else if k == TokenKind::KwPriority {
        (Some(UniquePriority::Priority), bumped(t, s))
    } else {
        (None, s)
    }
}

/// The operator of a compound assignment token.
pub open spec fn compound_op_of(k: TokenKind) -> Option<BinaryOp> {
    match k {
        TokenKind::PlusAssign => Some(BinaryOp::Add),
        TokenKind::MinusAssign => Some(BinaryOp::Sub),
        TokenKind::StarAssign => Some(BinaryOp::Mul),
        TokenKind::SlashAssign => Some(BinaryOp::Div),
        TokenKind::PercentAssign => Some(BinaryOp::Mod),
        TokenKind::AndAssign => Some(BinaryOp::BitAnd),
        TokenKind::OrAssign => Some(BinaryOp::BitOr),
        TokenKind::XorAssign => Some(BinaryOp::BitXor),
        TokenKind::ShiftLeftAssign => Some(BinaryOp::ShiftLeft),
        TokenKind::ShiftRightAssign => Some(BinaryOp::ShiftRight),
        _ => None,
    }
}

/// The token after the current one is a lone `'`.
pub open spec fn next_is_tick(t: Seq<Token>, s: PState) -> bool {
    0 <= s.pos < t.len() - 1 && t[s.pos + 1].text@ == seq!['\'']
}

/// The current identifier is a scope prefix of an expression.
pub open spec fn class_scope_ahead(t: Seq<Token>, s: PState) -> bool {
    kind_in(t, s.pos + 1) == TokenKind::DoubleColon && kind_in(t, s.pos + 2)
        == TokenKind::Identifier && kind_in(t, s.pos + 3) != TokenKind::Identifier
}

/// `name [dims] [= init]`, separated by commas.
pub open spec fn sp_declarators(t: Seq<Token>, s: PState) -> (Seq<DeclM>, PState)
    decreases t.len() - s.pos,
{
    let (name, s1) = sp_ident(t, s);
    let (dims, s2) = sp_dims(t, s1);
    let (init, s3) = if cur_of(t, s2) == TokenKind::Assign {
        let (x, s3) = sp_expression(t, bumped(t, s2));
        (Some(x), s3)
    } else {
        (None, s2)
    };
    let d = DeclM { name, dimensions: dims, init, span: span_upto(t, start_of(t, s), s3) };
    if cur_of(t, s3) == TokenKind::Comma {
        let s4 = bumped(t, s3);
        if advanced(t, s, s4) {
            let (rest, s5) = sp_declarators(t, s4);
            (seq![d] + rest, s5)
        } else {
            (seq![d], s4)
        }
    } else {
        (seq![d], s3)
    }
}

/// Identifiers separated by commas.
pub open spec fn sp_ident_list(t: Seq<Token>, s: PState) -> (Seq<IdentM>, PState)
    decreases t.len() - s.pos,
{
    let (i, s1) = sp_ident(t, s);
    if cur_of(t, s1) == TokenKind::Comma {
        let s2 = bumped(t, s1);
        if advanced(t, s, s2) {
            let (rest, s3) = sp_ident_list(t, s2);
            (seq![i] + rest, s3)
        } else {
            (seq![i], s2)
        }
    } else {
        (seq![i], s1)
    }
}

/// Tokens passed up to a semicolon or `Eof`.
pub open spec fn sp_skip_to_semi(t: Seq<Token>, s: PState) -> PState
    decreases t.len() - s.pos,
{
    if cur_of(t, s) != TokenKind::Semicolon && cur_of(t, s) != TokenKind::Eof {
        let s1 = bumped(t, s);
        if advanced(t, s, s1) {
            sp_skip_to_semi(t, s1)
        } else {
            s1
        }
    } else {
        s
    }
}

/// The steps of a `for`: expressions or `lhs = rhs`, separated by commas.
pub open spec fn sp_for_steps(t: Seq<Token>, s: PState) -> (Seq<ExprM>, PState)
    decreases t.len() - s.pos,
{
    let (e, s1) = sp_expression(t, s);
    let (item, s2) = if cur_of(t, s1) == TokenKind::Assign {
        let (rhs, s2) = sp_expression(t, bumped(t, s1));
        (
            ExprM {
                kind: ExprKindM::Binary {
                    op: BinaryOp::Assign,
                    left: Box::new(e),
                    right: Box::new(rhs),
                },
                span: Span { start: 0, end: 0 },
            },
            s2,
        )
    } else {
        (e, s1)
    };
    if cur_of(t, s2) == TokenKind::Comma {
        let s3 = bumped(t, s2);
        if advanced(t, s, s3) {
            let (rest, s4) = sp_for_steps(t, s3);
            (seq![item] + rest, s4)
        } else {
            (seq![item], s3)
        }
    } else {
        (seq![item], s2)
    }
}

/// The loop variables of a `foreach`, some of them left out.
pub open spec fn sp_foreach_vars(t: Seq<Token>, s: PState) -> (Seq<Option<IdentM>>, PState)
    decreases t.len() - s.pos,
{
    if cur_of(t, s) == TokenKind::RBracket {
        (seq![], s)
    } else {
        let (v, s1) = if cur_of(t, s) == TokenKind::Comma {
            (None, s)
        } else {
            let (i, s1) = sp_ident(t, s);
            (Some(i), s1)
        };
        if cur_of(t, s1) == TokenKind::Comma {
            let s2 = bumped(t, s1);
            if advanced(t, s, s2) {
                let (rest, s3) = sp_foreach_vars(t, s2);
                (seq![v] + rest, s3)
            } else {
                (seq![v], s2)
            }
        } else {
            (seq![v], s1)
        }
    }
}

/// Events `[edge] expr [iff expr]` separated by `or` or commas.
pub open spec fn sp_events(t: Seq<Token>, s: PState) -> (Seq<EventExprM>, PState)
    decreases t.len() - s.pos,
{
    let k = cur_of(t, s);
    let (edge, s1) = if k == TokenKind::KwPosedge {
        (Some(Edge::Posedge), bumped(t, s))
    } else if k == TokenKind::KwNegedge {
        (Some(Edge::Negedge), bumped(t, s))
    } else if k == TokenKind::KwEdge {
        (Some(Edge::Edge), bumped(t, s))
    } else {
        (None, s)
    };
    let (e, s2) = sp_expression(t, s1);
    let (iff, s3) = if cur_of(t, s2) == TokenKind::KwIff {
        let (x, s3) = sp_expression(t, bumped(t, s2));
        (Some(x), s3)
    } else {
        (None, s2)
    };
    let ev = EventExprM { edge, expr: e, iff, span: span_upto(t, start_of(t, s), s3) };
    if cur_of(t, s3) == TokenKind::KwOr || cur_of(t, s3) == TokenKind::Comma {
        let s4 = bumped(t, s3);
        if advanced(t, s, s4) {
            let (rest, s5) = sp_events(t, s4);
            (seq![ev] + rest, s5)
        } else {
            (seq![ev], s4)
        }
    } else {
        (seq![ev], s3)
    }
}

/// `@*`, `@(*)`, `@(events)` or `@name`.
pub open spec fn sp_event_control(t: Seq<Token>, s: PState) -> (EventControlM, PState) {
    let s1 = expected(t, s, TokenKind::At);
    if cur_of(t, s1) == TokenKind::Star {
        (EventControlM::Star, bumped(t, s1))
    } else if cur_of(t, s1) == TokenKind::LParen {
        let s2 = bumped(t, s1);
        if cur_of(t, s2) == TokenKind::Star {
            (EventControlM::ParenStar, expected(t, bumped(t, s2), TokenKind::RParen))
        } else {
            let (evs, s3) = sp_events(t, s2);
            (EventControlM::EventExpr(evs), expected(t, s3, TokenKind::RParen))
        }
    } else {
        let (e, s2) = sp_hier_expr(t, s1);
        (EventControlM::HierIdentifier(e), s2)
    }
}

/// An assignment (`=`, a compound `op=`, or `<=`) or an expression, ended
/// by a semicolon; `lhs op= rhs` becomes `lhs = lhs op rhs`.
pub open spec fn sp_assign_or_expr(t: Seq<Token>, s: PState, start: usize) -> (StmtM, PState) {
    let (lhs, s1) = sp_lvalue(t, s);
    let k = cur_of(t, s1);
    if k == TokenKind::Assign || compound_op_of(k) is Some {
        let (rhs, s3) = sp_expression(t, bumped(t, s1));
        let s4 = expected(t, s3, TokenKind::Semicolon);
        let rvalue = match compound_op_of(k) {
            Some(op) => ExprM {
                kind: ExprKindM::Binary { op, left: Box::new(lhs), right: Box::new(rhs) },
                span: span_upto(t, start, s4),
            },
            None => rhs,
        };
        (
            StmtM {
                kind: StmtKindM::BlockingAssign { lvalue: lhs, rvalue },
                span: span_upto(t, start, s4),
            },
            s4,
        )
    } else if k == TokenKind::Leq {
        let (rvalue, s3) = sp_expression(t, bumped(t, s1));
        let s4 = expected(t, s3, TokenKind::Semicolon);
        (
            StmtM {
                kind: StmtKindM::NonblockingAssign { lvalue: lhs, delay: None, rvalue },
                span: span_upto(t, start, s4),
            },
            s4,
        )
    } else {
        let s2 = expected(t, s1, TokenKind::Semicolon);
        (StmtM { kind: StmtKindM::Expr(lhs), span: span_upto(t, start, s2) }, s2)
    }
}

/// A variable declaration from its data type on: declarators and `;`.
pub open spec fn var_decl_rest(
    t: Seq<Token>,
    start: usize,
    data_type: DataTypeM,
    lifetime: Option<Lifetime>,
    s: PState,
) -> (StmtM, PState) {
    let (decls, s1) = sp_declarators(t, s);
    let s2 = expected(t, s1, TokenKind::Semicolon);
    (
        StmtM {
            kind: StmtKindM::VarDecl { data_type, lifetime, declarators: decls },
            span: span_upto(t, start, s2),
        },
        s2,
    )
}

/// A statement whose model is `kind`, spanning from `start` to `s`.
pub open spec fn stmt_at(t: Seq<Token>, start: usize, kind: StmtKindM, s: PState) -> (StmtM, PState) {
    (StmtM { kind, span: span_upto(t, start, s) }, s)
}

/// The name that an event trigger gives to its target.
pub open spec fn trigger_name(target: ExprM, span: Span) -> IdentM {
    match target.kind {
        ExprKindM::Ident(h) => if h.path.len() > 0 {
            h.path.last()
        } else {
            IdentM { name: seq!['e', 'v', 'e', 'n', 't'], span }
        },
        _ => IdentM { name: seq!['e', 'v', 'e', 'n', 't'], span },
    }
}

/// One statement.
pub open spec fn sp_stmt(t: Seq<Token>, s: PState) -> (StmtM, PState)
    decreases t.len() - s.pos, 2nat,
{
    let start = start_of(t, s);
    let k = cur_of(t, s);
    let s1 = bumped(t, s);
    match k {
        TokenKind::Directive => if advanced(t, s, s1) {
            sp_stmt(t, s1)
        } else {
            (null_stmt(), s1)
        },
        TokenKind::KwBegin => sp_seq_block(t, s),
        TokenKind::KwFork => sp_par_block(t, s),
        TokenKind::KwIf | TokenKind::KwUnique | TokenKind::KwUnique0 | TokenKind::KwPriority => {
            sp_if_or_case(t, s)
        },
        TokenKind::KwCase | TokenKind::KwCasex | TokenKind::KwCasez => sp_case(t, s, None),
        TokenKind::KwFor => sp_for(t, s),
        TokenKind::KwForeach => sp_foreach(t, s),
        TokenKind::KwWhile => sp_while(t, s),
        TokenKind::KwDo => sp_do_while(t, s),
        TokenKind::KwRepeat => sp_repeat(t, s),
        TokenKind::KwForever => if advanced(t, s, s1) {
            let (body, s2) = sp_stmt(t, s1);
            stmt_at(t, start, StmtKindM::Forever { body: Box::new(body) }, s2)
        } else {
            (null_stmt(), s1)
        },
        TokenKind::KwReturn => {
            let (e, s2) = if cur_of(t, s1) != TokenKind::Semicolon {
                let (x, s2) = sp_expression(t, s1);
                (Some(x), s2)
            } else {
                (None, s1)
            };
            stmt_at(t, start, StmtKindM::Return(e), expected(t, s2, TokenKind::Semicolon))
        },
        TokenKind::KwBreak => stmt_at(
            t,
            start,
            StmtKindM::Break,
            expected(t, s1, TokenKind::Semicolon),
        ),
        TokenKind::KwContinue => stmt_at(
            t,
            start,
            StmtKindM::Continue,
            expected(t, s1, TokenKind::Semicolon),
        ),
        TokenKind::KwWait => if cur_of(t, s1) == TokenKind::KwFork {
            stmt_at(
                t,
                start,
                StmtKindM::WaitFork,
                expected(t, bumped(t, s1), TokenKind::Semicolon),
            )
        } else {
            let (cond, s3) = sp_expression(t, expected(t, s1, TokenKind::LParen));
            let s4 = expected(t, s3, TokenKind::RParen);
            if advanced(t, s, s4) {
                let (st, s5) = sp_stmt(t, s4);
                stmt_at(t, start, StmtKindM::Wait { condition: cond, stmt: Box::new(st) }, s5)
            } else {
                (null_stmt(), s4)
            }
        },
        TokenKind::KwStatic | TokenKind::KwAutomatic | TokenKind::KwLocal => {
            let lt = if k == TokenKind::KwStatic {
                Some(Lifetime::Static)
            } else if k == TokenKind::KwAutomatic {
                Some(Lifetime::Automatic)
            } else {
                None
            };
            let (lt2, s2) = if lt is None && cur_of(t, s1) == TokenKind::KwStatic {
                (Some(Lifetime::Static), bumped(t, s1))
            } else if lt is None && cur_of(t, s1) == TokenKind::KwAutomatic {
                (Some(Lifetime::Automatic), bumped(t, s1))
            } else {
                (lt, s1)
            };
            let (dt, s3) = if is_data_type_kind(cur_of(t, s2)) || cur_of(t, s2)
                == TokenKind::Identifier {
                sp_data_type(t, s2)
            } else {
                (
                    DataTypeM::Implicit {
                        signing: None,
                        dimensions: seq![],
                        span: span_upto(t, start, s2),
                    },
                    s2,
                )
            };
            var_decl_rest(t, start, dt, lt2, s3)
        },
        TokenKind::KwTypedef => stmt_at(t, start, StmtKindM::Null, sp_typedef(t, s).1),
        TokenKind::KwDisable => if cur_of(t, s1) == TokenKind::KwFork {
            stmt_at(t, start, StmtKindM::Null, expected(t, bumped(t, s1), TokenKind::Semicolon))
        } else {
            let (name, s2) = sp_ident(t, s1);
            stmt_at(t, start, StmtKindM::Disable(name), expected(t, s2, TokenKind::Semicolon))
        },
        TokenKind::KwAssert | TokenKind::KwAssume | TokenKind::KwCover => {
            let (a, s2) = sp_assertion(t, s);
            stmt_at(t, start, StmtKindM::Assertion(a), s2)
        },
        TokenKind::KwAssign | TokenKind::KwForce => {
            let (lv, s2) = sp_expression(t, s1);
            let (rv, s3) = sp_expression(t, expected(t, s2, TokenKind::Assign));
            let p = if k == TokenKind::KwAssign {
                ProcContM::Assign { lvalue: lv, rvalue: rv }
            } else {
                ProcContM::Force { lvalue: lv, rvalue: rv }
            };
            stmt_at(
                t,
                start,
                StmtKindM::ProceduralContinuous(p),
                expected(t, s3, TokenKind::Semicolon),
            )
        },
        TokenKind::KwDeassign | TokenKind::KwRelease => {
            let (lv, s2) = sp_expression(t, s1);
            let p = if k == TokenKind::KwDeassign {
                ProcContM::Deassign(lv)
            } else {
                ProcContM::Release(lv)
            };
            stmt_at(
                t,
                start,
                StmtKindM::ProceduralContinuous(p),
                expected(t, s2, TokenKind::Semicolon),
            )
        },
        TokenKind::KwCoverpoint => {
            let (e, s2) = sp_expression(t, s1);
            let s3 = expected(t, s2, TokenKind::Semicolon);
            stmt_at(
                t,
                start,
                StmtKindM::Coverpoint { name: None, expr: e, span: span_upto(t, start, s3) },
                s3,
            )
        },
        TokenKind::KwCross => {
            let (items, s2) = sp_expr_list(t, s1);
            let s3 = expected(t, s2, TokenKind::Semicolon);
            stmt_at(
                t,
                start,
                StmtKindM::Cross { name: None, items, span: span_upto(t, start, s3) },
                s3,
            )
        },
        TokenKind::At => {
            let (ctrl, s2) = sp_event_control(t, s);
            if advanced(t, s, s2) {
                let (st, s3) = sp_stmt(t, s2);
                stmt_at(
                    t,
                    start,
                    StmtKindM::TimingControl {
                        control: TimingControlM::Event(ctrl),
                        stmt: Box::new(st),
                    },
                    s3,
                )
            } else {
                (null_stmt(), s2)
            }
        },
        TokenKind::Arrow | TokenKind::DoubleArrow => {
            let (target, s2) = sp_expression(t, s1);
            let s3 = expected(t, s2, TokenKind::Semicolon);
            stmt_at(
                t,
                start,
                StmtKindM::EventTrigger {
                    nonblocking: k == TokenKind::DoubleArrow,
                    name: trigger_name(target, span_upto(t, start, s3)),
                    span: span_upto(t, start, s3),
                },
                s3,
            )
        },
        TokenKind::Hash => {
            let (delay, s2) = sp_expression(t, s1);
            if advanced(t, s, s2) {
                let (st, s3) = sp_stmt(t, s2);
                stmt_at(
                    t,
                    start,
                    StmtKindM::TimingControl {
                        control: TimingControlM::Delay(delay),
                        stmt: Box::new(st),
                    },
                    s3,
                )
            } else {
                (null_stmt(), s2)
            }
        },
        TokenKind::KwInput | TokenKind::KwOutput | TokenKind::KwInout | TokenKind::KwRef => {
            stmt_at(
                t,
                start,
                StmtKindM::Null,
                expected(t, sp_skip_to_semi(t, s1), TokenKind::Semicolon),
            )
        },
        TokenKind::Semicolon => stmt_at(t, start, StmtKindM::Null, s1),
        TokenKind::KwEvent => {
            let (names, s2) = sp_ident_list(t, s1);
            stmt_at(t, start, StmtKindM::Null, expected(t, s2, TokenKind::Semicolon))
        },
        _ => if is_data_type_kind(k) && !(kind_in(t, s.pos + 1) == TokenKind::IntegerLiteral
            && next_is_tick(t, s)) {
            let (dt, s2) = sp_data_type(t, s);
            var_decl_rest(t, start, dt, None, s2)
        } else if k == TokenKind::Identifier && !class_scope_ahead(t, s) && (kind_in(t, s.pos + 1)
            == TokenKind::Identifier || kind_in(t, s.pos + 1) == TokenKind::Hash || kind_in(
            t,
            s.pos + 1,
        ) == TokenKind::DoubleColon) {
            let (dt, s2) = sp_data_type(t, s);
            var_decl_rest(t, start, dt, None, s2)
        } else {
            sp_assign_or_expr(t, s, start)
        },
    }
}

/// Statements up to `end` (or `Eof`).
pub open spec fn sp_block_stmts(t: Seq<Token>, s: PState) -> (Seq<StmtM>, PState)
    decreases t.len() - s.pos, 3nat,
{
    if cur_of(t, s) != TokenKind::KwEnd && cur_of(t, s) != TokenKind::Eof {
        let (st, s1) = sp_stmt(t, s);
        if advanced(t, s, s1) {
            let (rest, s2) = sp_block_stmts(t, s1);
            (seq![st] + rest, s2)
        } else {
            (seq![st], s1)
        }
    } else {
        (seq![], s)
    }
}

/// A block name after `begin` or `fork`.
pub open spec fn sp_block_name(t: Seq<Token>, s: PState) -> (Option<IdentM>, PState) {
    if cur_of(t, s) == TokenKind::Colon {
        let (i, s1) = sp_ident(t, bumped(t, s));
        (Some(i), s1)
    } else {
        (None, s)
    }
}

pub open spec fn sp_seq_block(t: Seq<Token>, s: PState) -> (StmtM, PState)
    decreases t.len() - s.pos, 1nat,
{
    let (name, s2) = sp_block_name(t, expected(t, s, TokenKind::KwBegin));
    if advanced(t, s, s2) {
        let (stmts, s3) = sp_block_stmts(t, s2);
        let s5 = sp_end_label(t, expected(t, s3, TokenKind::KwEnd)).1;
        stmt_at(t, start_of(t, s), StmtKindM::SeqBlock { name, stmts }, s5)
    } else {
        (null_stmt(), s2)
    }
}

/// A token that ends the statements of a `fork`.
pub open spec fn is_join_kind(k: TokenKind) -> bool {
    k == TokenKind::KwJoin || k == TokenKind::KwJoin_any || k == TokenKind::KwJoin_none || k
        == TokenKind::Eof
}

/// Statements up to a `join` keyword (or `Eof`).
pub open spec fn sp_par_stmts(t: Seq<Token>, s: PState) -> (Seq<StmtM>, PState)
    decreases t.len() - s.pos, 3nat,
{
    if !is_join_kind(cur_of(t, s)) {
        let (st, s1) = sp_stmt(t, s);
        if advanced(t, s, s1) {
            let (rest, s2) = sp_par_stmts(t, s1);
            (seq![st] + rest, s2)
        } else {
            (seq![st], s1)
        }
    } else {
        (seq![], s)
    }
}

pub open spec fn sp_par_block(t: Seq<Token>, s: PState) -> (StmtM, PState)
    decreases t.len() - s.pos, 1nat,
{
    let (name, s2) = sp_block_name(t, expected(t, s, TokenKind::KwFork));
    if advanced(t, s, s2) {
        let (stmts, s3) = sp_par_stmts(t, s2);
        let k = cur_of(t, s3);
        let (join_type, s4) = if k == TokenKind::KwJoin_any {
            (JoinType::JoinAny, bumped(t, s3))
        } else if k == TokenKind::KwJoin_none {
            (JoinType::JoinNone, bumped(t, s3))
        } else {
            (JoinType::Join, expected(t, s3, TokenKind::KwJoin))
        };
        let s5 = sp_end_label(t, s4).1;
        stmt_at(t, start_of(t, s), StmtKindM::ParBlock { name, join_type, stmts }, s5)
    } else {
        (null_stmt(), s2)
    }
}

pub open spec fn sp_if_or_case(t: Seq<Token>, s: PState) -> (StmtM, PState)
    decreases t.len() - s.pos, 1nat,
{
    let (up, s1) = sp_unique_priority(t, s);
    let k = cur_of(t, s1);
    if (k == TokenKind::KwCase || k == TokenKind::KwCasex || k == TokenKind::KwCasez) {
        if within(t, s, s1) {
            sp_case(t, s1, up)
        } else {
            (null_stmt(), s1)
        }
    } else {
        sp_if(t, s1, up, s.pos)
    }
}

/// `if (cond) stmt [else stmt]`; `entry` is where the statement began
/// (before a `unique`/`priority` prefix).
pub open spec fn sp_if(t: Seq<Token>, s: PState, up: Option<UniquePriority>, entry: int) -> (
    StmtM,
    PState,
)
    decreases t.len() - entry, 0nat,
{
    let s2 = expected(t, expected(t, s, TokenKind::KwIf), TokenKind::LParen);
    let (cond, s3) = sp_expression(t, s2);
    let s4 = expected(t, s3, TokenKind::RParen);
    if entry < s4.pos < t.len() {
        let (th, s5) = sp_stmt(t, s4);
        if cur_of(t, s5) == TokenKind::KwElse {
            let s6 = bumped(t, s5);
            if entry < s6.pos < t.len() {
                let (el, s7) = sp_stmt(t, s6);
                stmt_at(
                    t,
                    start_of(t, s),
                    StmtKindM::If {
                        condition: cond,
                        then_stmt: Box::new(th),
                        else_stmt: Some(Box::new(el)),
                        unique_priority: up,
                    },
                    s7,
                )
            } else {
                (null_stmt(), s6)
            }
        } else {
            stmt_at(
                t,
                start_of(t, s),
                StmtKindM::If {
                    condition: cond,
                    then_stmt: Box::new(th),
                    else_stmt: None,
                    unique_priority: up,
                },
                s5,
            )
        }
    } else {
        (null_stmt(), s4)
    }
}

/// Case items up to `endcase` (or `Eof`).
pub open spec fn sp_case_items(t: Seq<Token>, s: PState) -> (Seq<CaseItemM>, PState)
    decreases t.len() - s.pos, 3nat,
{
    if cur_of(t, s) != TokenKind::KwEndcase && cur_of(t, s) != TokenKind::Eof {
        let istart = start_of(t, s);
        let (patterns, is_default, s2) = if cur_of(t, s) == TokenKind::KwDefault {
            (Seq::<ExprM>::empty(), true, eaten(t, bumped(t, s), TokenKind::Colon))
        } else {
            let (ps, s1) = sp_expr_list(t, s);
            (ps, false, expected(t, s1, TokenKind::Colon))
        };
        if within(t, s, s2) {
            let (st, s3) = sp_stmt(t, s2);
            let item = CaseItemM { patterns, is_default, stmt: st, span: span_upto(t, istart, s3) };
            if advanced(t, s, s3) {
                let (rest, s4) = sp_case_items(t, s3);
                (seq![item] + rest, s4)
            } else {
                (seq![item], s3)
            }
        } else {
            (seq![], s2)
        }
    } else {
        (seq![], s)
    }
}

pub open spec fn sp_case(t: Seq<Token>, s: PState, up: Option<UniquePriority>) -> (StmtM, PState)
    decreases t.len() - s.pos, 0nat,
{
    let kind0 = case_kind_of(cur_of(t, s));
    let s2 = expected(t, bumped(t, s), TokenKind::LParen);
    let (e, s3) = sp_expression(t, s2);
    let s4 = expected(t, s3, TokenKind::RParen);
    let (kind, s5) = if kind0 == CaseKind::Case && cur_of(t, s4) == TokenKind::KwInside {
        (CaseKind::CaseInside, bumped(t, s4))
    } else {
        (kind0, s4)
    };
    if advanced(t, s, s5) {
        let (items, s6) = sp_case_items(t, s5);
        stmt_at(
            t,
            start_of(t, s),
            StmtKindM::Case { unique_priority: up, kind, expr: e, items },
            expected(t, s6, TokenKind::KwEndcase),
        )
    } else {
        (null_stmt(), s5)
    }
}

/// The initialization of a `for`.
pub open spec fn sp_for_init(t: Seq<Token>, s: PState) -> (Seq<ForInitM>, PState) {
    if cur_of(t, s) != TokenKind::Semicolon {
        if is_data_type_kind(cur_of(t, s)) || (cur_of(t, s) == TokenKind::Identifier && kind_in(
            t,
            s.pos + 1,
        ) == TokenKind::Identifier) {
            let (dt, a1) = sp_data_type(t, s);
            let (name, a2) = sp_ident(t, a1);
            let (val, a4) = sp_expression(t, expected(t, a2, TokenKind::Assign));
            (seq![ForInitM::VarDecl { data_type: dt, name, init: val }], a4)
        } else {
            let (lv, a1) = sp_expression(t, s);
            let (rv, a3) = sp_expression(t, expected(t, a1, TokenKind::Assign));
            (seq![ForInitM::Assign { lvalue: lv, rvalue: rv }], a3)
        }
    } else {
        (seq![], s)
    }
}

pub open spec fn sp_for(t: Seq<Token>, s: PState) -> (StmtM, PState)
    decreases t.len() - s.pos, 1nat,
{
    let s2 = expected(t, expected(t, s, TokenKind::KwFor), TokenKind::LParen);
    let (init, s3) = sp_for_init(t, s2);
    let s4 = expected(t, s3, TokenKind::Semicolon);
    let (cond, s5) = if cur_of(t, s4) != TokenKind::Semicolon {
        let (x, s5) = sp_expression(t, s4);
        (Some(x), s5)
    } else {
        (None, s4)
    };
    let s6 = expected(t, s5, TokenKind::Semicolon);
    let (step, s7) = if cur_of(t, s6) != TokenKind::RParen {
        sp_for_steps(t, s6)
    } else {
        (seq![], s6)
    };
    let s8 = expected(t, s7, TokenKind::RParen);
    if advanced(t, s, s8) {
        let (body, s9) = sp_stmt(t, s8);
        stmt_at(
            t,
            start_of(t, s),
            StmtKindM::For { init, condition: cond, step, body: Box::new(body) },
            s9,
        )
    } else {
        (null_stmt(), s8)
    }
}

pub open spec fn sp_foreach(t: Seq<Token>, s: PState) -> (StmtM, PState)
    decreases t.len() - s.pos, 1nat,
{
    let start = start_of(t, s);
    let s2 = expected(t, expected(t, s, TokenKind::KwForeach), TokenKind::LParen);
    let (h, s3) = sp_hier(t, s2);
    let array = ExprM { kind: ExprKindM::Ident(h), span: span_upto(t, start, s3) };
    let (vars, s5) = sp_foreach_vars(t, expected(t, s3, TokenKind::LBracket));
    let s7 = expected(t, expected(t, s5, TokenKind::RBracket), TokenKind::RParen);
    if advanced(t, s, s7) {
        let (body, s8) = sp_stmt(t, s7);
        stmt_at(t, start, StmtKindM::Foreach { array, vars, body: Box::new(body) }, s8)
    } else {
        (null_stmt(), s7)
    }
}

/// `kw (expr) body`, as `while` and `repeat` are written.
pub open spec fn sp_head_expr(t: Seq<Token>, s: PState, kw: TokenKind) -> (ExprM, PState) {
    let (e, s3) = sp_expression(t, expected(t, expected(t, s, kw), TokenKind::LParen));
    (e, expected(t, s3, TokenKind::RParen))
}

pub open spec fn sp_while(t: Seq<Token>, s: PState) -> (StmtM, PState)
    decreases t.len() - s.pos, 1nat,
{
    let (cond, s4) = sp_head_expr(t, s, TokenKind::KwWhile);
    if advanced(t, s, s4) {
        let (body, s5) = sp_stmt(t, s4);
        stmt_at(t, start_of(t, s), StmtKindM::While { condition: cond, body: Box::new(body) }, s5)
    } else {
        (null_stmt(), s4)
    }
}

pub open spec fn sp_repeat(t: Seq<Token>, s: PState) -> (StmtM, PState)
    decreases t.len() - s.pos, 1nat,
{
    let (count, s4) = sp_head_expr(t, s, TokenKind::KwRepeat);
    if advanced(t, s, s4) {
        let (body, s5) = sp_stmt(t, s4);
        stmt_at(t, start_of(t, s), StmtKindM::Repeat { count, body: Box::new(body) }, s5)
    } else {
        (null_stmt(), s4)
    }
}

pub open spec fn sp_do_while(t: Seq<Token>, s: PState) -> (StmtM, PState)
    decreases t.len() - s.pos, 1nat,
{
    let s1 = expected(t, s, TokenKind::KwDo);
    if advanced(t, s, s1) {
        let (body, s2) = sp_stmt(t, s1);
        let (cond, s5) = sp_head_expr(t, s2, TokenKind::KwWhile);
        stmt_at(
            t,
            start_of(t, s),
            StmtKindM::DoWhile { body: Box::new(body), condition: cond },
            expected(t, s5, TokenKind::Semicolon),
        )
    } else {
        (null_stmt(), s1)
    }
}

/// `assert|assume|cover [property] (expr) [action] [else action]`.
pub open spec fn sp_assertion(t: Seq<Token>, s: PState) -> (AssertionM, PState)
    decreases t.len() - s.pos, 1nat,
{
    let k = cur_of(t, s);
    let kind = if k == TokenKind::KwAssume {
        AssertionKind::Assume
    } else if k == TokenKind::KwCover {
        AssertionKind::Cover
    } else {
        AssertionKind::Assert
    };
    let s3 = expected(t, eaten(t, bumped(t, s), TokenKind::KwProperty), TokenKind::LParen);
    let (e, s4) = sp_expression(t, s3);
    let s5 = expected(t, s4, TokenKind::RParen);
    let empty = AssertionM {
        kind,
        expr: e,
        action: None,
        else_action: None,
        span: span_upto(t, start_of(t, s), s5),
    };
    if advanced(t, s, s5) {
        let (action, s6) = if cur_of(t, s5) != TokenKind::Semicolon && cur_of(t, s5)
            != TokenKind::KwElse {
            let (st, s6) = sp_stmt(t, s5);
            (Some(Box::new(st)), s6)
        } else {
            (
                None,
                if cur_of(t, s5) == TokenKind::Semicolon {
                    bumped(t, s5)
                } else {
                    s5
                },
            )
        };
        if cur_of(t, s6) == TokenKind::KwElse {
            let s6b = bumped(t, s6);
            if advanced(t, s, s6b) {
                let (st, s7) = sp_stmt(t, s6b);
                (
                    AssertionM {
                        kind,
                        expr: e,
                        action,
                        else_action: Some(Box::new(st)),
                        span: span_upto(t, start_of(t, s), s7),
                    },
                    s7,
                )
            } else {
                (empty, s6b)
            }
        } else {
            (
                AssertionM {
                    kind,
                    expr: e,
                    action,
                    else_action: None,
                    span: span_upto(t, start_of(t, s), s6),
                },
                s6,
            )
        }
    } else {
        (empty, s5)
    }
}

} // verus!
