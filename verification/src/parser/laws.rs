//! What statements mean, stated over the tokens they are read from:
//! compound assignments apply the operator they name, blocks keep their
//! statements in source order, and a `for` initialization assigns its right
//! side to its left side.

use vstd::prelude::*;

use crate::parser::expr::binary_op_of;
use crate::parser::grammar::{
    bumped, cur_of, expected, kind_in, sp_expression, sp_lvalue, within,
};
use crate::parser::model::{ExprKindM, ExprM, ForInitM, PState, StmtKindM};
use crate::parser::progress::{at_valid, expression_moves_forward};
use crate::parser::statement_grammar::{
    is_join_kind, sp_assign_or_expr, sp_block_name, sp_block_stmts, sp_for_init, sp_par_block,
    sp_par_stmts, sp_seq_block, sp_stmt,
};
use crate::parser::statement_progress::{lemma_block_name, statement_moves_forward};
use crate::parser::token::{is_data_type_kind, Token, TokenKind};
use crate::parser::progress::lemma_bumped;

verus! {

/// The operator token that a compound assignment token names: `-=` names
/// `-`, `<<=` names `<<`, and so on.
pub open spec fn assigned_operator(k: TokenKind) -> Option<TokenKind> {
    match k {
        TokenKind::PlusAssign => Some(TokenKind::Plus),
        TokenKind::MinusAssign => Some(TokenKind::Minus),
        TokenKind::StarAssign => Some(TokenKind::Star),
        TokenKind::SlashAssign => Some(TokenKind::Slash),
        TokenKind::PercentAssign => Some(TokenKind::Percent),
        TokenKind::AndAssign => Some(TokenKind::Amp),
        TokenKind::OrAssign => Some(TokenKind::Pipe),
        TokenKind::XorAssign => Some(TokenKind::Caret),
        TokenKind::ShiftLeftAssign => Some(TokenKind::ShiftLeft),
        TokenKind::ShiftRightAssign => Some(TokenKind::ShiftRight),
        _ => None,
    }
}

/// `lhs op= rhs` is `lhs = lhs op rhs`: the statement assigns to the left
/// side the binary expression whose operator is the one that `op` gives in
/// an expression (`-` subtracts, `<<` shifts, ...), whose left operand is the
/// left side and whose right operand is the expression after `op=`.
pub proof fn compound_assignment_applies_its_operator(t: Seq<Token>, s: PState, start: usize)
    requires
        assigned_operator(cur_of(t, sp_lvalue(t, s).1)) is Some,
    ensures
        ({
            let (lhs, s1) = sp_lvalue(t, s);
            let rhs = sp_expression(t, bumped(t, s1)).0;
            let plain = assigned_operator(cur_of(t, s1))->0;
            &&& binary_op_of(plain, true) is Some
            &&& sp_assign_or_expr(t, s, start).0.kind matches StmtKindM::BlockingAssign {
                lvalue,
                rvalue,
            } && lvalue == lhs && rvalue.kind == ExprKindM::Binary {
                op: (binary_op_of(plain, true)->0).0,
                left: Box::new(lhs),
                right: Box::new(rhs),
            }
        }),
{
}

/// The statements of a `begin ... end` block are in source order: the first
/// is the statement read where the block's statements begin, and the others
/// are those read from where it ends.
pub proof fn block_statements_in_order(t: Seq<Token>, s: PState)
    requires
        at_valid(t, s),
        cur_of(t, s) != TokenKind::KwEnd,
        cur_of(t, s) != TokenKind::Eof,
    ensures
        sp_block_stmts(t, s).0 == seq![sp_stmt(t, s).0] + sp_block_stmts(t, sp_stmt(t, s).1).0,
        sp_block_stmts(t, s).0[0] == sp_stmt(t, s).0,
{
    statement_moves_forward(t, s);
}

/// The statements of a `fork ... join` block are in source order, as those
/// of a `begin ... end` block are.
pub proof fn par_statements_in_order(t: Seq<Token>, s: PState)
    requires
        at_valid(t, s),
        !is_join_kind(cur_of(t, s)),
    ensures
        sp_par_stmts(t, s).0 == seq![sp_stmt(t, s).0] + sp_par_stmts(t, sp_stmt(t, s).1).0,
        sp_par_stmts(t, s).0[0] == sp_stmt(t, s).0,
{
    statement_moves_forward(t, s);
}

/// A `begin ... end` block holds the statements read after `begin` and its
/// label, in source order; the first of them is the statement read there.
pub proof fn seq_block_first_statement(t: Seq<Token>, s: PState)
    requires
        at_valid(t, s),
        cur_of(t, s) == TokenKind::KwBegin,
    ensures
        ({
            let s2 = sp_block_name(t, expected(t, s, TokenKind::KwBegin)).1;
            &&& sp_seq_block(t, s).0.kind matches StmtKindM::SeqBlock { stmts, .. } && stmts
                == sp_block_stmts(t, s2).0
            &&& cur_of(t, s2) != TokenKind::KwEnd && cur_of(t, s2) != TokenKind::Eof
                ==> (sp_seq_block(t, s).0.kind matches StmtKindM::SeqBlock { stmts, .. }
                && stmts.len() >= 1 && stmts[0] == sp_stmt(t, s2).0)
        }),
{
    lemma_bumped(t, s);
    let s1 = expected(t, s, TokenKind::KwBegin);
    lemma_block_name(t, s1);
    let s2 = sp_block_name(t, s1).1;
    if cur_of(t, s2) != TokenKind::KwEnd && cur_of(t, s2) != TokenKind::Eof {
        block_statements_in_order(t, s2);
    }
}

/// In `for (lhs = rhs; ...)`, the initialization assigns the expression
/// after `=` to the expression before it.
pub proof fn for_init_assigns_right_to_left(t: Seq<Token>, s: PState)
    requires
        cur_of(t, s) != TokenKind::Semicolon,
        !is_data_type_kind(cur_of(t, s)),
        !(cur_of(t, s) == TokenKind::Identifier && kind_in(t, s.pos + 1) == TokenKind::Identifier),
    ensures
        ({
            let (before, a1) = sp_expression(t, s);
            let after = sp_expression(t, expected(t, a1, TokenKind::Assign)).0;
            sp_for_init(t, s).0 == seq![ForInitM::Assign { lvalue: before, rvalue: after }]
        }),
{
}

} // verus!
