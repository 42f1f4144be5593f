//! Parsing moves forward: over a token sequence that ends with `Eof`, every
//! grammar function gives a state at or after the one it starts from, and
//! past it where a whole expression or statement is read from a token other
//! than `Eof`. So wherever a definition of the grammar tests that positions
//! moved forward, the test holds, and its other branch is never taken.

use vstd::prelude::*;

use crate::parser::expr::{binary_op_of, unary_op_of};
use crate::parser::grammar::{
    advanced, bumped, cur_of, eaten, expected, kind_in, sp_binary, sp_binary_tail,
    sp_conditional, sp_data_type, sp_dims, sp_end_label, sp_expr_list, sp_expression, sp_hier,
    sp_hier_expr, sp_hier_tail, sp_ident, sp_lvalue, sp_postfix, sp_postfix_tail, sp_primary,
    sp_signing, sp_skip_from, sp_skip_parens, sp_typedef, sp_typedef_tail, sp_unary, within,
};
use crate::parser::model::{ExprM, IdentM, PState};
use crate::parser::token::{is_data_type_kind, Token, TokenKind};

verus! {

/// The tokens end with `Eof` and `s` stands within them.
pub open spec fn at_valid(t: Seq<Token>, s: PState) -> bool {
    &&& t.len() > 0
    &&& t[t.len() - 1].kind == TokenKind::Eof
    &&& 0 <= s.pos < t.len()
}

/// `s1` is not behind `s`, and is past it when `s` is not at `Eof`.
pub open spec fn steps_on(t: Seq<Token>, s: PState, s1: PState) -> bool {
    &&& within(t, s, s1)
    &&& (cur_of(t, s) != TokenKind::Eof ==> s.pos < s1.pos)
}

pub proof fn lemma_bumped(t: Seq<Token>, s: PState)
    requires
        at_valid(t, s),
    ensures
        within(t, s, bumped(t, s)),
        cur_of(t, s) != TokenKind::Eof ==> bumped(t, s).pos == s.pos + 1,
        within(t, s, expected(t, s, cur_of(t, s))),
        forall|k: TokenKind| within(t, s, #[trigger] expected(t, s, k)),
        forall|k: TokenKind| within(t, s, #[trigger] eaten(t, s, k)),
{
}

proof fn lemma_ident(t: Seq<Token>, s: PState)
    requires
        at_valid(t, s),
    ensures
        within(t, s, sp_ident(t, s).1),
        cur_of(t, s) == TokenKind::Identifier ==> s.pos < sp_ident(t, s).1.pos,
{
    lemma_bumped(t, s);
}

proof fn lemma_hier_tail(t: Seq<Token>, path: Seq<IdentM>, s: PState)
    requires
        at_valid(t, s),
    ensures
        within(t, s, sp_hier_tail(t, path, s).1),
    decreases t.len() - s.pos,
{
    lemma_bumped(t, s);
    if (cur_of(t, s) == TokenKind::Dot || cur_of(t, s) == TokenKind::DoubleColon) && kind_in(
        t,
        s.pos + 1,
    ) == TokenKind::Identifier {
        let s1 = bumped(t, s);
        lemma_ident(t, s1);
        let (seg, s2) = sp_ident(t, s1);
        lemma_bumped(t, s1);
        assert(advanced(t, s, s2));
        lemma_hier_tail(t, path.push(seg), s2);
    }
}

pub proof fn lemma_hier(t: Seq<Token>, s: PState)
    requires
        at_valid(t, s),
    ensures
        within(t, s, sp_hier(t, s).1),
        within(t, s, sp_hier_expr(t, s).1),
        cur_of(t, s) == TokenKind::Identifier ==> s.pos < sp_hier(t, s).1.pos && s.pos
            < sp_hier_expr(t, s).1.pos,
{
    lemma_ident(t, s);
    let (first, s1) = sp_ident(t, s);
    lemma_hier_tail(t, seq![first], s1);
}

pub proof fn lemma_end_label(t: Seq<Token>, s: PState)
    requires
        at_valid(t, s),
    ensures
        within(t, s, sp_end_label(t, s).1),
{
    lemma_bumped(t, s);
    if cur_of(t, s) == TokenKind::Colon {
        lemma_ident(t, bumped(t, s));
    }
}

/// A full expression read from a token other than `Eof` ends past it.
pub proof fn expression_moves_forward(t: Seq<Token>, s: PState)
    requires
        at_valid(t, s),
    ensures
        steps_on(t, s, sp_expression(t, s).1),
    decreases t.len() - s.pos, 5nat,
{
    lemma_conditional(t, s, true);
}

pub proof fn lemma_lvalue(t: Seq<Token>, s: PState)
    requires
        at_valid(t, s),
    ensures
        steps_on(t, s, sp_lvalue(t, s).1),
{
    lemma_conditional(t, s, false);
}

pub proof fn lemma_expr_list(t: Seq<Token>, s: PState)
    requires
        at_valid(t, s),
    ensures
        steps_on(t, s, sp_expr_list(t, s).1),
    decreases t.len() - s.pos, 6nat,
{
    expression_moves_forward(t, s);
    let (e, s1) = sp_expression(t, s);
    if cur_of(t, s1) == TokenKind::Comma {
        lemma_bumped(t, s1);
        let s2 = bumped(t, s1);
        assert(advanced(t, s, s2));
        lemma_expr_list(t, s2);
    }
}

proof fn lemma_conditional(t: Seq<Token>, s: PState, allow_leq: bool)
    requires
        at_valid(t, s),
    ensures
        steps_on(t, s, sp_conditional(t, s, allow_leq).1),
    decreases t.len() - s.pos, 4nat,
{
    lemma_binary(t, s, 1, allow_leq);
    let (c, s1) = sp_binary(t, s, 1, allow_leq);
    if cur_of(t, s1) == TokenKind::Question {
        lemma_bumped(t, s1);
        let s2 = bumped(t, s1);
        assert(advanced(t, s, s2));
        expression_moves_forward(t, s2);
        let s3 = sp_expression(t, s2).1;
        lemma_bumped(t, s3);
        let s4 = expected(t, s3, TokenKind::Colon);
        lemma_conditional(t, s4, allow_leq);
    }
}

proof fn lemma_binary(t: Seq<Token>, s: PState, min_prec: u8, allow_leq: bool)
    requires
        at_valid(t, s),
    ensures
        steps_on(t, s, sp_binary(t, s, min_prec, allow_leq).1),
    decreases t.len() - s.pos, 3nat,
{
    lemma_unary(t, s);
    let (left, s1) = sp_unary(t, s);
    lemma_binary_tail(t, t[s.pos].span.start, min_prec, allow_leq, left, s1);
}

proof fn lemma_binary_tail(
    t: Seq<Token>,
    start: usize,
    min_prec: u8,
    allow_leq: bool,
    left: ExprM,
    s: PState,
)
    requires
        at_valid(t, s),
    ensures
        within(t, s, sp_binary_tail(t, start, min_prec, allow_leq, left, s).1),
    decreases t.len() - s.pos, 2nat,
{
    match binary_op_of(cur_of(t, s), allow_leq) {
        Some((op, prec)) => if prec >= min_prec {
            lemma_bumped(t, s);
            let s1 = bumped(t, s);
            lemma_binary(t, s1, (prec + 1) as u8, allow_leq);
            let (right, s2) = sp_binary(t, s1, (prec + 1) as u8, allow_leq);
            let e = ExprM {
                kind: crate::parser::model::ExprKindM::Binary {
                    op,
                    left: Box::new(left),
                    right: Box::new(right),
                },
                span: crate::parser::grammar::span_upto(t, start, s2),
            };
            lemma_binary_tail(t, start, min_prec, allow_leq, e, s2);
        },
        None => {},
    }
}

proof fn lemma_unary(t: Seq<Token>, s: PState)
    requires
        at_valid(t, s),
    ensures
        steps_on(t, s, sp_unary(t, s).1),
    decreases t.len() - s.pos, 2nat,
{
    match unary_op_of(cur_of(t, s)) {
        Some(op) => {
            lemma_bumped(t, s);
            lemma_unary(t, bumped(t, s));
        },
        None => {
            lemma_postfix(t, s);
        },
    }
}

proof fn lemma_postfix(t: Seq<Token>, s: PState)
    requires
        at_valid(t, s),
    ensures
        steps_on(t, s, sp_postfix(t, s).1),
    decreases t.len() - s.pos, 1nat,
{
    lemma_primary(t, s);
    let (e, s1) = sp_primary(t, s);
    lemma_postfix_tail(t, t[s.pos].span.start, e, s1);
}

proof fn lemma_postfix_tail(t: Seq<Token>, start: usize, e: ExprM, s: PState)
    requires
        at_valid(t, s),
    ensures
        within(t, s, sp_postfix_tail(t, start, e, s).1),
    decreases t.len() - s.pos, 0nat,
{
    let k = cur_of(t, s);
    lemma_bumped(t, s);
    let s1 = bumped(t, s);
    if k == TokenKind::LBracket {
        expression_moves_forward(t, s1);
        let (index, s2) = sp_expression(t, s1);
        lemma_bumped(t, s2);
        if cur_of(t, s2) == TokenKind::Colon {
            expression_moves_forward(t, bumped(t, s2));
            let (x, s3) = sp_expression(t, bumped(t, s2));
            lemma_bumped(t, s3);
            let s4 = expected(t, s3, TokenKind::RBracket);
            let e2 = ExprM {
                kind: crate::parser::model::ExprKindM::Index {
                    base: Box::new(e),
                    index: Box::new(index),
                    end: Some(Box::new(x)),
                },
                span: crate::parser::grammar::span_upto(t, start, s4),
            };
            lemma_postfix_tail(t, start, e2, s4);
        } else {
            let s4 = expected(t, s2, TokenKind::RBracket);
            let e2 = ExprM {
                kind: crate::parser::model::ExprKindM::Index {
                    base: Box::new(e),
                    index: Box::new(index),
                    end: None,
                },
                span: crate::parser::grammar::span_upto(t, start, s4),
            };
            lemma_postfix_tail(t, start, e2, s4);
        }
    } else if k == TokenKind::LParen && e.kind is Ident {
        lemma_bumped(t, s1);
        let (args, s2) = if cur_of(t, s1) == TokenKind::RParen {
            (Seq::<ExprM>::empty(), s1)
        } else {
            lemma_expr_list(t, s1);
            sp_expr_list(t, s1)
        };
        lemma_bumped(t, s2);
        let s3 = expected(t, s2, TokenKind::RParen);
        let e2 = ExprM {
            kind: crate::parser::model::ExprKindM::Call { callee: Box::new(e), args },
            span: crate::parser::grammar::span_upto(t, start, s3),
        };
        lemma_postfix_tail(t, start, e2, s3);
    } else if k == TokenKind::PlusPlus || k == TokenKind::MinusMinus {
        let op = if k == TokenKind::PlusPlus {
            crate::parser::ast::UnaryOp::PostIncrement
        } else {
            crate::parser::ast::UnaryOp::PostDecrement
        };
        let e2 = ExprM {
            kind: crate::parser::model::ExprKindM::Unary { op, operand: Box::new(e) },
            span: crate::parser::grammar::span_upto(t, start, s1),
        };
        lemma_postfix_tail(t, start, e2, s1);
    }
}

proof fn lemma_primary(t: Seq<Token>, s: PState)
    requires
        at_valid(t, s),
    ensures
        steps_on(t, s, sp_primary(t, s).1),
    decreases t.len() - s.pos, 0nat,
{
    let k = cur_of(t, s);
    lemma_bumped(t, s);
    let s1 = bumped(t, s);
    if k == TokenKind::Identifier {
        lemma_hier(t, s);
    } else if k == TokenKind::LParen {
        expression_moves_forward(t, s1);
        lemma_bumped(t, sp_expression(t, s1).1);
    } else if k == TokenKind::LBrace {
        if cur_of(t, s1) != TokenKind::RBrace {
            lemma_expr_list(t, s1);
            lemma_bumped(t, sp_expr_list(t, s1).1);
        } else {
            lemma_bumped(t, s1);
        }
    }
}


pub proof fn lemma_dims(t: Seq<Token>, s: PState)
    requires
        at_valid(t, s),
    ensures
        within(t, s, sp_dims(t, s).1),
    decreases t.len() - s.pos,
{
    if cur_of(t, s) == TokenKind::LBracket {
        lemma_bumped(t, s);
        let s1 = bumped(t, s);
        lemma_bumped(t, s1);
        if cur_of(t, s1) == TokenKind::RBracket {
            lemma_dims(t, bumped(t, s1));
        } else {
            expression_moves_forward(t, s1);
            let s2 = sp_expression(t, s1).1;
            lemma_bumped(t, s2);
            let s3 = if cur_of(t, s2) == TokenKind::Colon {
                expression_moves_forward(t, bumped(t, s2));
                sp_expression(t, bumped(t, s2)).1
            } else {
                s2
            };
            lemma_bumped(t, s3);
            lemma_dims(t, expected(t, s3, TokenKind::RBracket));
        }
    }
}

proof fn lemma_skip_from(t: Seq<Token>, depth: nat, s: PState)
    requires
        at_valid(t, s),
    ensures
        within(t, s, sp_skip_from(t, depth, s)),
    decreases t.len() - s.pos,
{
    if depth > 0 && cur_of(t, s) != TokenKind::Eof {
        lemma_bumped(t, s);
        let d = if cur_of(t, s) == TokenKind::LParen {
            depth + 1
        } else if cur_of(t, s) == TokenKind::RParen {
            (depth - 1) as nat
        } else {
            depth
        };
        lemma_skip_from(t, d, bumped(t, s));
    }
}

/// A data type read from a type keyword or a name ends past it.
pub proof fn lemma_data_type(t: Seq<Token>, s: PState)
    requires
        at_valid(t, s),
    ensures
        within(t, s, sp_data_type(t, s).1),
        is_data_type_kind(cur_of(t, s)) || cur_of(t, s) == TokenKind::Identifier ==> s.pos
            < sp_data_type(t, s).1.pos,
{
    lemma_bumped(t, s);
    if is_data_type_kind(cur_of(t, s)) {
        let s1 = bumped(t, s);
        lemma_bumped(t, s1);
        lemma_dims(t, sp_signing(t, s1).1);
    } else if cur_of(t, s) == TokenKind::Identifier {
        lemma_hier(t, s);
        let s1 = sp_hier(t, s).1;
        lemma_bumped(t, s1);
        let s2 = if cur_of(t, s1) == TokenKind::Hash && kind_in(t, s1.pos + 1) == TokenKind::LParen {
            let s1b = bumped(t, s1);
            lemma_bumped(t, s1b);
            lemma_skip_from(t, 1, bumped(t, s1b));
            sp_skip_parens(t, s1b)
        } else {
            s1
        };
        lemma_dims(t, s2);
    } else {
        lemma_dims(t, sp_signing(t, s).1);
    }
}

proof fn lemma_typedef_tail(t: Seq<Token>, last: Option<IdentM>, s: PState)
    requires
        at_valid(t, s),
    ensures
        within(t, s, sp_typedef_tail(t, last, s).1),
    decreases t.len() - s.pos,
{
    if cur_of(t, s) != TokenKind::Semicolon && cur_of(t, s) != TokenKind::Eof {
        lemma_bumped(t, s);
        let l2 = if cur_of(t, s) == TokenKind::Identifier {
            Some(IdentM { name: t[s.pos].text@, span: t[s.pos].span })
        } else {
            last
        };
        lemma_typedef_tail(t, l2, bumped(t, s));
    }
}

pub proof fn lemma_typedef(t: Seq<Token>, s: PState)
    requires
        at_valid(t, s),
    ensures
        steps_on(t, s, sp_typedef(t, s).1),
{
    lemma_bumped(t, s);
    lemma_typedef_tail(t, None, bumped(t, s));
    lemma_bumped(t, sp_typedef_tail(t, None, bumped(t, s)).1);
}

} // verus!
