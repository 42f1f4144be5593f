//! Expressions: precedence climbing over the binary operators, with unary
//! prefixes, postfix selects, calls and increments, and the conditional
//! operator. A token that cannot start an expression is recorded as an error
//! and passed over.

use vstd::prelude::*;

use crate::parser::ast::{BinaryOp, Expression, ExprKind, UnaryOp};
use crate::parser::cursor::{moved_on, progressed, Parser, SyntaxError};
use crate::parser::grammar::{
    cur_of, sp_binary, sp_binary_tail, sp_conditional, sp_expr_list, sp_expression, sp_lvalue, sp_postfix,
    sp_postfix_tail, sp_primary, sp_unary, start_of,
};
use crate::parser::model::{expr_m, exprs_m, hier_m, lemma_exprs_m_push, ExprM, IdentM};
use crate::parser::token::TokenKind;

verus! {

/// The binary operator of a token and its precedence (higher binds
/// tighter); `<=` counts only where `allow_leq` holds.
pub open spec fn binary_op_of(k: TokenKind, allow_leq: bool) -> Option<(BinaryOp, u8)> {
    match k {
        TokenKind::LogOr => Some((BinaryOp::LogOr, 1u8)),
        TokenKind::LogAnd => Some((BinaryOp::LogAnd, 2u8)),
        TokenKind::Pipe => Some((BinaryOp::BitOr, 3u8)),
        TokenKind::Caret => Some((BinaryOp::BitXor, 4u8)),
        TokenKind::Amp => Some((BinaryOp::BitAnd, 5u8)),
        TokenKind::Eq => Some((BinaryOp::Eq, 6u8)),
        TokenKind::Neq => Some((BinaryOp::Neq, 6u8)),
        TokenKind::Lt => Some((BinaryOp::Lt, 7u8)),
        TokenKind::Leq => if allow_leq {
            Some((BinaryOp::Leq, 7u8))
        } else {
            None
        },
        TokenKind::Gt => Some((BinaryOp::Gt, 7u8)),
        TokenKind::Geq => Some((BinaryOp::Geq, 7u8)),
        TokenKind::ShiftLeft => Some((BinaryOp::ShiftLeft, 8u8)),
        TokenKind::ShiftRight => Some((BinaryOp::ShiftRight, 8u8)),
        TokenKind::Plus => Some((BinaryOp::Add, 9u8)),
        TokenKind::Minus => Some((BinaryOp::Sub, 9u8)),
        TokenKind::Star => Some((BinaryOp::Mul, 10u8)),
        TokenKind::Slash => Some((BinaryOp::Div, 10u8)),
        TokenKind::Percent => Some((BinaryOp::Mod, 10u8)),
        _ => None,
    }
}

fn binary_op(k: TokenKind, allow_leq: bool) -> (r: Option<(BinaryOp, u8)>)
    ensures
        r == binary_op_of(k, allow_leq),
{
    match k {
        TokenKind::LogOr => Some((BinaryOp::LogOr, 1u8)),
        TokenKind::LogAnd => Some((BinaryOp::LogAnd, 2u8)),
        TokenKind::Pipe => Some((BinaryOp::BitOr, 3u8)),
        TokenKind::Caret => Some((BinaryOp::BitXor, 4u8)),
        TokenKind::Amp => Some((BinaryOp::BitAnd, 5u8)),
        TokenKind::Eq => Some((BinaryOp::Eq, 6u8)),
        TokenKind::Neq => Some((BinaryOp::Neq, 6u8)),
        TokenKind::Lt => Some((BinaryOp::Lt, 7u8)),
        TokenKind::Leq => if allow_leq {
            Some((BinaryOp::Leq, 7u8))
        } else {
            None
        },
        TokenKind::Gt => Some((BinaryOp::Gt, 7u8)),
        TokenKind::Geq => Some((BinaryOp::Geq, 7u8)),
        TokenKind::ShiftLeft => Some((BinaryOp::ShiftLeft, 8u8)),
        TokenKind::ShiftRight => Some((BinaryOp::ShiftRight, 8u8)),
        TokenKind::Plus => Some((BinaryOp::Add, 9u8)),
        TokenKind::Minus => Some((BinaryOp::Sub, 9u8)),
        TokenKind::Star => Some((BinaryOp::Mul, 10u8)),
        TokenKind::Slash => Some((BinaryOp::Div, 10u8)),
        TokenKind::Percent => Some((BinaryOp::Mod, 10u8)),
        _ => None,
    }
}

/// The prefix operator of a token.
pub open spec fn unary_op_of(k: TokenKind) -> Option<UnaryOp> {
    match k {
        TokenKind::Plus => Some(UnaryOp::Plus),
        TokenKind::Minus => Some(UnaryOp::Minus),
        TokenKind::Bang => Some(UnaryOp::Not),
        TokenKind::Tilde => Some(UnaryOp::BitNot),
        TokenKind::Amp => Some(UnaryOp::ReduceAnd),
        TokenKind::Pipe => Some(UnaryOp::ReduceOr),
        TokenKind::Caret => Some(UnaryOp::ReduceXor),
        _ => None,
    }
}

fn unary_op(k: TokenKind) -> (r: Option<UnaryOp>)
    ensures
        r == unary_op_of(k),
{
    match k {
        TokenKind::Plus => Some(UnaryOp::Plus),
        TokenKind::Minus => Some(UnaryOp::Minus),
        TokenKind::Bang => Some(UnaryOp::Not),
        TokenKind::Tilde => Some(UnaryOp::BitNot),
        TokenKind::Amp => Some(UnaryOp::ReduceAnd),
        TokenKind::Pipe => Some(UnaryOp::ReduceOr),
        TokenKind::Caret => Some(UnaryOp::ReduceXor),
        _ => None,
    }
}

impl Parser {
    /// A full expression.
    pub fn parse_expression(&mut self) -> (e: Expression)
        requires
            old(self).wf(),
        ensures
            progressed(*old(self), *final(self)),
            (expr_m(e), final(self).st()) == sp_expression(old(self).tokens@, old(self).st()),
        decreases old(self).tokens@.len() - old(self).pos, 5nat,
    {
        self.parse_conditional(true)
    }

    /// Expressions separated by commas.
    pub fn parse_expr_list(&mut self) -> (v: Vec<Expression>)
        requires
            old(self).wf(),
        ensures
            progressed(*old(self), *final(self)),
            (exprs_m(v@), final(self).st()) == sp_expr_list(old(self).tokens@, old(self).st()),
        decreases old(self).tokens@.len() - old(self).pos, 6nat,
    {
        let ghost t = self.tokens@;
        let ghost s0 = self.st();
        let ghost p0 = *old(self);
        let mut v: Vec<Expression> = Vec::new();
        loop
            invariant_except_break
                sp_expr_list(t, s0) == (exprs_m(v@) + sp_expr_list(t, self.st()).0, sp_expr_list(
                    t,
                    self.st(),
                ).1),
            invariant
                moved_on(p0, *self),
                t == self.tokens@,
                p0 == *old(self),
                s0 == p0.st(),
                v@.len() > 0 ==> p0.pos < self.pos || p0.cur() == TokenKind::Eof,
            ensures
                sp_expr_list(t, s0) == (exprs_m(v@), self.st()),
                progressed(p0, *self),
            decreases self.tokens@.len() - self.pos,
        {
            let ghost si = self.st();
            let ghost before = v@;
            let e = self.parse_expression();
            let ghost sa = self.st();
            v.push(e);
            proof {
                lemma_exprs_m_push(before, e);
            }
            if self.eat(TokenKind::Comma).is_none() {
                assert(exprs_m(before) + seq![expr_m(e)] =~= exprs_m(v@));
                break;
            }
            assert(exprs_m(before) + (seq![expr_m(e)] + sp_expr_list(t, self.st()).0) =~= exprs_m(
                v@,
            ) + sp_expr_list(t, self.st()).0);
        }
        v
    }

    /// An expression that may be the target of an assignment: `<=` ends it,
    /// so that `a <= b` reads as a nonblocking assignment.
    pub fn parse_lvalue_or_expr(&mut self) -> (e: Expression)
        requires
            old(self).wf(),
        ensures
            progressed(*old(self), *final(self)),
            (expr_m(e), final(self).st()) == sp_lvalue(old(self).tokens@, old(self).st()),
    {
        self.parse_conditional(false)
    }

    fn parse_conditional(&mut self, allow_leq: bool) -> (e: Expression)
        requires
            old(self).wf(),
        ensures
            progressed(*old(self), *final(self)),
            (expr_m(e), final(self).st()) == sp_conditional(
                old(self).tokens@,
                old(self).st(),
                allow_leq,
            ),
        decreases old(self).tokens@.len() - old(self).pos, 4nat,
    {
        let start = self.tokens[self.pos].span.start;
        let condition = self.parse_binary(1, allow_leq);
        if self.eat(TokenKind::Question).is_some() {
            let then_expr = self.parse_expression();
            self.expect(TokenKind::Colon);
            let else_expr = self.parse_conditional(allow_leq);
            let span = self.span_from(start);
            Expression::new(
                ExprKind::Conditional {
                    condition: Box::new(condition),
                    then_expr: Box::new(then_expr),
                    else_expr: Box::new(else_expr),
                },
                span,
            )
        } else {
            condition
        }
    }

    fn parse_binary(&mut self, min_prec: u8, allow_leq: bool) -> (e: Expression)
        requires
            old(self).wf(),
        ensures
            progressed(*old(self), *final(self)),
            (expr_m(e), final(self).st()) == sp_binary(
                old(self).tokens@,
                old(self).st(),
                min_prec,
                allow_leq,
            ),
        decreases old(self).tokens@.len() - old(self).pos, 3nat,
    {
        let ghost t = self.tokens@;
        let start = self.tokens[self.pos].span.start;
        let ghost p0 = *old(self);
        let mut left = self.parse_unary();
        loop
            invariant
                progressed(p0, *self),
                p0 == *old(self),
                t == self.tokens@,
                start == start_of(t, p0.st()),
                sp_binary_tail(t, start, min_prec, allow_leq, expr_m(left), self.st()) == sp_binary(
                    t,
                    p0.st(),
                    min_prec,
                    allow_leq,
                ),
            ensures
                progressed(p0, *self),
                (expr_m(left), self.st()) == sp_binary(t, p0.st(), min_prec, allow_leq),
            decreases self.tokens@.len() - self.pos,
        {
            let op = binary_op(self.tokens[self.pos].kind, allow_leq);
            match op {
                Some((op, prec)) => {
                    if prec < min_prec {
                        assert(binary_op_of(cur_of(t, self.st()), allow_leq) == Some((op, prec)));
                        break;
                    }
                    self.bump();
                    let right = self.parse_binary(prec + 1, allow_leq);
                    let span = self.span_from(start);
                    left = Expression::new(
                        ExprKind::Binary { op, left: Box::new(left), right: Box::new(right) },
                        span,
                    );
                },
                None => {
                    assert(binary_op_of(cur_of(t, self.st()), allow_leq) is None);
                    break;
                },
            }
        }
        left
    }

    fn parse_unary(&mut self) -> (e: Expression)
        requires
            old(self).wf(),
        ensures
            progressed(*old(self), *final(self)),
            (expr_m(e), final(self).st()) == sp_unary(old(self).tokens@, old(self).st()),
        decreases old(self).tokens@.len() - old(self).pos, 2nat,
    {
        let start = self.tokens[self.pos].span.start;
        match unary_op(self.tokens[self.pos].kind) {
            Some(op) => {
                self.bump();
                let operand = self.parse_unary();
                let span = self.span_from(start);
                Expression::new(ExprKind::Unary { op, operand: Box::new(operand) }, span)
            },
            None => self.parse_postfix(),
        }
    }

    fn parse_postfix(&mut self) -> (e: Expression)
        requires
            old(self).wf(),
        ensures
            progressed(*old(self), *final(self)),
            (expr_m(e), final(self).st()) == sp_postfix(old(self).tokens@, old(self).st()),
        decreases old(self).tokens@.len() - old(self).pos, 1nat,
    {
        let ghost t = self.tokens@;
        let start = self.tokens[self.pos].span.start;
        let ghost p0 = *old(self);
        let mut e = self.parse_primary();
        loop
            invariant
                progressed(p0, *self),
                p0 == *old(self),
                t == self.tokens@,
                start == start_of(t, p0.st()),
                sp_postfix_tail(t, start, expr_m(e), self.st()) == sp_postfix(t, p0.st()),
            ensures
                progressed(p0, *self),
                (expr_m(e), self.st()) == sp_postfix(t, p0.st()),
            decreases self.tokens@.len() - self.pos,
        {
            if self.at(TokenKind::LBracket) {
                self.bump();
                let index = self.parse_expression();
                let end = if self.eat(TokenKind::Colon).is_some() {
                    Some(Box::new(self.parse_expression()))
                } else {
                    None
                };
                self.expect(TokenKind::RBracket);
                let span = self.span_from(start);
                e = Expression::new(
                    ExprKind::Index { base: Box::new(e), index: Box::new(index), end },
                    span,
                );
            } else if self.at(TokenKind::LParen) && matches!(e.kind, ExprKind::Ident(_)) {
                self.bump();
                let args = if !self.at(TokenKind::RParen) {
                    self.parse_expr_list()
                } else {
                    let v: Vec<Expression> = Vec::new();
                    assert(exprs_m(v@) =~= Seq::<ExprM>::empty());
                    v
                };
                self.expect(TokenKind::RParen);
                let span = self.span_from(start);
                e = Expression::new(ExprKind::Call { callee: Box::new(e), args }, span);
            } else if self.at(TokenKind::PlusPlus) || self.at(TokenKind::MinusMinus) {
                let op = if self.at(TokenKind::PlusPlus) {
                    UnaryOp::PostIncrement
                } else {
                    UnaryOp::PostDecrement
                };
                self.bump();
                let span = self.span_from(start);
                e = Expression::new(ExprKind::Unary { op, operand: Box::new(e) }, span);
            } else {
                break;
            }
        }
        e
    }

    fn parse_primary(&mut self) -> (e: Expression)
        requires
            old(self).wf(),
        ensures
            progressed(*old(self), *final(self)),
            (expr_m(e), final(self).st()) == sp_primary(old(self).tokens@, old(self).st()),
        decreases old(self).tokens@.len() - old(self).pos, 0nat,
    {
        let start = self.tokens[self.pos].span.start;
        let k = self.tokens[self.pos].kind;
        if k == TokenKind::Identifier {
            self.parse_hierarchical_identifier_expr()
        } else if k == TokenKind::SystemIdentifier || k == TokenKind::IntegerLiteral || k
            == TokenKind::RealLiteral || k == TokenKind::StringLiteral {
            let t = self.bump();
            if k == TokenKind::SystemIdentifier {
                let mut path = Vec::new();
                path.push(crate::parser::ast::Identifier { name: t.text, span: t.span });
                let h = crate::parser::ast::HierarchicalIdentifier { path, span: t.span };
                assert(hier_m(h).path =~= seq![IdentM { name: t.text@, span: t.span }]);
                Expression::new(ExprKind::Ident(h), t.span)
            } else {
                Expression::new(ExprKind::Literal(t.text), t.span)
            }
        } else if k == TokenKind::LParen {
            self.bump();
            let inner = self.parse_expression();
            self.expect(TokenKind::RParen);
            let span = self.span_from(start);
            Expression::new(inner.kind, span)
        } else if k == TokenKind::LBrace {
            self.bump();
            let items = if !self.at(TokenKind::RBrace) {
                self.parse_expr_list()
            } else {
                let v: Vec<Expression> = Vec::new();
                assert(exprs_m(v@) =~= Seq::<ExprM>::empty());
                v
            };
            self.expect(TokenKind::RBrace);
            let span = self.span_from(start);
            Expression::new(ExprKind::Concat(items), span)
        } else {
            let span = self.tokens[self.pos].span;
            self.errors.push(SyntaxError { expected: TokenKind::Identifier, found: k, span });
            if k != TokenKind::Eof {
                self.bump();
            }
            Expression::new(ExprKind::Error, span)
        }
    }
}

} // verus!
