//! Statement parsing moves forward: over a token sequence that ends with
//! `Eof`, a statement read from a token other than `Eof` ends past it, so the
//! tests in the statement grammar that positions moved forward always hold.

use vstd::prelude::*;

use crate::parser::grammar::{
    advanced, bumped, cur_of, eaten, expected, kind_in, sp_data_type, sp_end_label, sp_expr_list,
    sp_expression, sp_hier, sp_ident, sp_lvalue, sp_typedef, start_of, within,
};
use crate::parser::model::{DataTypeM, PState};
use crate::parser::progress::{
    at_valid, lemma_bumped, lemma_data_type, lemma_expr_list, expression_moves_forward, lemma_lvalue,
    steps_on,
};
use crate::parser::statement_grammar::{
    is_join_kind, sp_assertion, sp_assign_or_expr, sp_block_name, sp_block_stmts, sp_case,
    sp_case_items, sp_declarators, sp_do_while, sp_event_control, sp_events, sp_for, sp_for_init,
    sp_for_steps, sp_foreach, sp_foreach_vars, sp_head_expr, sp_ident_list, sp_if,
    sp_if_or_case, sp_par_block, sp_par_stmts, sp_repeat, sp_seq_block, sp_skip_to_semi, sp_stmt,
    sp_unique_priority, sp_while, var_decl_rest,
};
use crate::parser::ast::{Lifetime, UniquePriority};
use crate::parser::token::{is_data_type_kind, Token, TokenKind};

verus! {

proof fn lemma_ident_at(t: Seq<Token>, s: PState)
    requires
        at_valid(t, s),
    ensures
        within(t, s, sp_ident(t, s).1),
{
    lemma_bumped(t, s);
}

proof fn lemma_declarators(t: Seq<Token>, s: PState)
    requires
        at_valid(t, s),
    ensures
        within(t, s, sp_declarators(t, s).1),
    decreases t.len() - s.pos,
{
    lemma_ident_at(t, s);
    let s1 = sp_ident(t, s).1;
    crate::parser::progress::lemma_dims(t, s1);
    let s2 = crate::parser::grammar::sp_dims(t, s1).1;
    lemma_bumped(t, s2);
    let s3 = if cur_of(t, s2) == TokenKind::Assign {
        expression_moves_forward(t, bumped(t, s2));
        sp_expression(t, bumped(t, s2)).1
    } else {
        s2
    };
    lemma_bumped(t, s3);
    if cur_of(t, s3) == TokenKind::Comma {
        lemma_declarators(t, bumped(t, s3));
    }
}

proof fn lemma_ident_list(t: Seq<Token>, s: PState)
    requires
        at_valid(t, s),
    ensures
        within(t, s, sp_ident_list(t, s).1),
    decreases t.len() - s.pos,
{
    lemma_ident_at(t, s);
    let s1 = sp_ident(t, s).1;
    lemma_bumped(t, s1);
    if cur_of(t, s1) == TokenKind::Comma {
        lemma_ident_list(t, bumped(t, s1));
    }
}

proof fn lemma_skip_to_semi(t: Seq<Token>, s: PState)
    requires
        at_valid(t, s),
    ensures
        within(t, s, sp_skip_to_semi(t, s)),
    decreases t.len() - s.pos,
{
    if cur_of(t, s) != TokenKind::Semicolon && cur_of(t, s) != TokenKind::Eof {
        lemma_bumped(t, s);
        lemma_skip_to_semi(t, bumped(t, s));
    }
}

proof fn lemma_for_steps(t: Seq<Token>, s: PState)
    requires
        at_valid(t, s),
    ensures
        within(t, s, sp_for_steps(t, s).1),
    decreases t.len() - s.pos,
{
    expression_moves_forward(t, s);
    let s1 = sp_expression(t, s).1;
    lemma_bumped(t, s1);
    let s2 = if cur_of(t, s1) == TokenKind::Assign {
        expression_moves_forward(t, bumped(t, s1));
        sp_expression(t, bumped(t, s1)).1
    } else {
        s1
    };
    lemma_bumped(t, s2);
    if cur_of(t, s2) == TokenKind::Comma {
        lemma_for_steps(t, bumped(t, s2));
    }
}

proof fn lemma_foreach_vars(t: Seq<Token>, s: PState)
    requires
        at_valid(t, s),
    ensures
        within(t, s, sp_foreach_vars(t, s).1),
    decreases t.len() - s.pos,
{
    if cur_of(t, s) != TokenKind::RBracket {
        lemma_ident_at(t, s);
        let s1 = if cur_of(t, s) == TokenKind::Comma {
            s
        } else {
            sp_ident(t, s).1
        };
        lemma_bumped(t, s1);
        if cur_of(t, s1) == TokenKind::Comma {
            lemma_foreach_vars(t, bumped(t, s1));
        }
    }
}

proof fn lemma_events(t: Seq<Token>, s: PState)
    requires
        at_valid(t, s),
    ensures
        within(t, s, sp_events(t, s).1),
    decreases t.len() - s.pos,
{
    let k = cur_of(t, s);
    lemma_bumped(t, s);
    let s1 = if k == TokenKind::KwPosedge || k == TokenKind::KwNegedge || k == TokenKind::KwEdge {
        bumped(t, s)
    } else {
        s
    };
    expression_moves_forward(t, s1);
    let s2 = sp_expression(t, s1).1;
    lemma_bumped(t, s2);
    let s3 = if cur_of(t, s2) == TokenKind::KwIff {
        expression_moves_forward(t, bumped(t, s2));
        sp_expression(t, bumped(t, s2)).1
    } else {
        s2
    };
    lemma_bumped(t, s3);
    if cur_of(t, s3) == TokenKind::KwOr || cur_of(t, s3) == TokenKind::Comma {
        lemma_events(t, bumped(t, s3));
    }
}

proof fn lemma_event_control(t: Seq<Token>, s: PState)
    requires
        at_valid(t, s),
    ensures
        within(t, s, sp_event_control(t, s).1),
        cur_of(t, s) == TokenKind::At ==> s.pos < sp_event_control(t, s).1.pos,
{
    lemma_bumped(t, s);
    let s1 = expected(t, s, TokenKind::At);
    lemma_bumped(t, s1);
    if cur_of(t, s1) == TokenKind::LParen {
        let s2 = bumped(t, s1);
        lemma_bumped(t, s2);
        if cur_of(t, s2) == TokenKind::Star {
            lemma_bumped(t, bumped(t, s2));
        } else {
            lemma_events(t, s2);
            lemma_bumped(t, sp_events(t, s2).1);
        }
    } else if cur_of(t, s1) != TokenKind::Star {
        crate::parser::progress::lemma_hier(t, s1);
    }
}

proof fn lemma_assign_or_expr(t: Seq<Token>, s: PState, start: usize)
    requires
        at_valid(t, s),
    ensures
        steps_on(t, s, sp_assign_or_expr(t, s, start).1),
{
    lemma_lvalue(t, s);
    let s1 = sp_lvalue(t, s).1;
    lemma_bumped(t, s1);
    expression_moves_forward(t, bumped(t, s1));
    lemma_bumped(t, sp_expression(t, bumped(t, s1)).1);
}

proof fn lemma_var_decl_rest(
    t: Seq<Token>,
    start: usize,
    dt: DataTypeM,
    lt: Option<Lifetime>,
    s: PState,
)
    requires
        at_valid(t, s),
    ensures
        within(t, s, var_decl_rest(t, start, dt, lt, s).1),
{
    lemma_declarators(t, s);
    lemma_bumped(t, sp_declarators(t, s).1);
}

proof fn lemma_head_expr(t: Seq<Token>, s: PState, kw: TokenKind)
    requires
        at_valid(t, s),
    ensures
        within(t, s, sp_head_expr(t, s, kw).1),
        cur_of(t, s) == kw && kw != TokenKind::Eof ==> s.pos < sp_head_expr(t, s, kw).1.pos,
{
    lemma_bumped(t, s);
    let s1 = expected(t, s, kw);
    lemma_bumped(t, s1);
    let s2 = expected(t, s1, TokenKind::LParen);
    expression_moves_forward(t, s2);
    lemma_bumped(t, sp_expression(t, s2).1);
}

pub(crate) proof fn lemma_block_name(t: Seq<Token>, s: PState)
    requires
        at_valid(t, s),
    ensures
        within(t, s, sp_block_name(t, s).1),
{
    lemma_bumped(t, s);
    if cur_of(t, s) == TokenKind::Colon {
        lemma_ident_at(t, bumped(t, s));
    }
}

/// A statement read from a token other than `Eof` ends past it.
pub proof fn statement_moves_forward(t: Seq<Token>, s: PState)
    requires
        at_valid(t, s),
    ensures
        steps_on(t, s, sp_stmt(t, s).1),
    decreases t.len() - s.pos, 2nat,
{
    let start = start_of(t, s);
    let k = cur_of(t, s);
    lemma_bumped(t, s);
    let s1 = bumped(t, s);
    lemma_bumped(t, s1);
    match k {
        TokenKind::Directive => {
            statement_moves_forward(t, s1);
        },
        TokenKind::KwBegin => {
            lemma_seq_block(t, s);
        },
        TokenKind::KwFork => {
            lemma_par_block(t, s);
        },
        TokenKind::KwIf | TokenKind::KwUnique | TokenKind::KwUnique0 | TokenKind::KwPriority => {
            lemma_if_or_case(t, s);
        },
        TokenKind::KwCase | TokenKind::KwCasex | TokenKind::KwCasez => {
            lemma_case(t, s, None);
        },
        TokenKind::KwFor => {
            lemma_for(t, s);
        },
        TokenKind::KwForeach => {
            lemma_foreach(t, s);
        },
        TokenKind::KwWhile => {
            lemma_while(t, s);
        },
        TokenKind::KwDo => {
            lemma_do_while(t, s);
        },
        TokenKind::KwRepeat => {
            lemma_repeat(t, s);
        },
        TokenKind::KwForever => {
            statement_moves_forward(t, s1);
        },
        TokenKind::KwReturn => {
            if cur_of(t, s1) != TokenKind::Semicolon {
                expression_moves_forward(t, s1);
                lemma_bumped(t, sp_expression(t, s1).1);
            }
        },
        TokenKind::KwBreak | TokenKind::KwContinue => {},
        TokenKind::KwWait => {
            if cur_of(t, s1) == TokenKind::KwFork {
                lemma_bumped(t, bumped(t, s1));
            } else {
                let s2 = expected(t, s1, TokenKind::LParen);
                expression_moves_forward(t, s2);
                let s3 = sp_expression(t, s2).1;
                lemma_bumped(t, s3);
                let s4 = expected(t, s3, TokenKind::RParen);
                assert(advanced(t, s, s4));
                statement_moves_forward(t, s4);
            }
        },
        TokenKind::KwStatic | TokenKind::KwAutomatic | TokenKind::KwLocal => {
            let lt = if k == TokenKind::KwStatic {
                Some(Lifetime::Static)
            } else if k == TokenKind::KwAutomatic {
                Some(Lifetime::Automatic)
            } else {
                None
            };
            let (lt2, s2) = if lt is None && cur_of(t, s1) == TokenKind::KwStatic {
                (Some(Lifetime::Static), bumped(t, s1))
            } else if lt is None && cur_of(t, s1) == TokenKind::KwAutomatic {
                (Some(Lifetime::Automatic), bumped(t, s1))
            } else {
                (lt, s1)
            };
            lemma_data_type(t, s2);
            let (dt, s3) = if is_data_type_kind(cur_of(t, s2)) || cur_of(t, s2)
                == TokenKind::Identifier {
                sp_data_type(t, s2)
            } else {
                (
                    DataTypeM::Implicit {
                        signing: None,
                        dimensions: seq![],
                        span: crate::parser::grammar::span_upto(t, start, s2),
                    },
                    s2,
                )
            };
            lemma_var_decl_rest(t, start, dt, lt2, s3);
        },
        TokenKind::KwTypedef => {
            crate::parser::progress::lemma_typedef(t, s);
        },
        TokenKind::KwDisable => {
            if cur_of(t, s1) == TokenKind::KwFork {
                lemma_bumped(t, bumped(t, s1));
            } else {
                lemma_ident_at(t, s1);
                lemma_bumped(t, sp_ident(t, s1).1);
            }
        },
        TokenKind::KwAssert | TokenKind::KwAssume | TokenKind::KwCover => {
            lemma_assertion(t, s);
        },
        TokenKind::KwAssign | TokenKind::KwForce => {
            expression_moves_forward(t, s1);
            let s2 = sp_expression(t, s1).1;
            lemma_bumped(t, s2);
            let s2b = expected(t, s2, TokenKind::Assign);
            expression_moves_forward(t, s2b);
            lemma_bumped(t, sp_expression(t, s2b).1);
        },
        TokenKind::KwDeassign | TokenKind::KwRelease | TokenKind::KwCoverpoint => {
            expression_moves_forward(t, s1);
            lemma_bumped(t, sp_expression(t, s1).1);
        },
        TokenKind::KwCross => {
            lemma_expr_list(t, s1);
            lemma_bumped(t, sp_expr_list(t, s1).1);
        },
        TokenKind::At => {
            lemma_event_control(t, s);
            statement_moves_forward(t, sp_event_control(t, s).1);
        },
        TokenKind::Arrow | TokenKind::DoubleArrow => {
            expression_moves_forward(t, s1);
            lemma_bumped(t, sp_expression(t, s1).1);
        },
        TokenKind::Hash => {
            expression_moves_forward(t, s1);
            statement_moves_forward(t, sp_expression(t, s1).1);
        },
        TokenKind::KwInput | TokenKind::KwOutput | TokenKind::KwInout | TokenKind::KwRef => {
            lemma_skip_to_semi(t, s1);
            lemma_bumped(t, sp_skip_to_semi(t, s1));
        },
        TokenKind::Semicolon => {},
        TokenKind::KwEvent => {
            lemma_ident_list(t, s1);
            lemma_bumped(t, sp_ident_list(t, s1).1);
        },
        _ => {
            lemma_data_type(t, s);
            let s2 = sp_data_type(t, s).1;
            lemma_var_decl_rest(t, start, sp_data_type(t, s).0, None, s2);
            lemma_assign_or_expr(t, s, start);
        },
    }
}

proof fn lemma_block_stmts(t: Seq<Token>, s: PState)
    requires
        at_valid(t, s),
    ensures
        within(t, s, sp_block_stmts(t, s).1),
    decreases t.len() - s.pos, 3nat,
{
    if cur_of(t, s) != TokenKind::KwEnd && cur_of(t, s) != TokenKind::Eof {
        statement_moves_forward(t, s);
        lemma_block_stmts(t, sp_stmt(t, s).1);
    }
}

proof fn lemma_par_stmts(t: Seq<Token>, s: PState)
    requires
        at_valid(t, s),
    ensures
        within(t, s, sp_par_stmts(t, s).1),
    decreases t.len() - s.pos, 3nat,
{
    if !is_join_kind(cur_of(t, s)) {
        statement_moves_forward(t, s);
        lemma_par_stmts(t, sp_stmt(t, s).1);
    }
}

proof fn lemma_seq_block(t: Seq<Token>, s: PState)
    requires
        at_valid(t, s),
        cur_of(t, s) == TokenKind::KwBegin,
    ensures
        steps_on(t, s, sp_seq_block(t, s).1),
    decreases t.len() - s.pos, 1nat,
{
    lemma_bumped(t, s);
    let s1 = expected(t, s, TokenKind::KwBegin);
    lemma_block_name(t, s1);
    let s2 = sp_block_name(t, s1).1;
    lemma_block_stmts(t, s2);
    let s3 = sp_block_stmts(t, s2).1;
    lemma_bumped(t, s3);
    crate::parser::progress::lemma_end_label(t, expected(t, s3, TokenKind::KwEnd));
}

proof fn lemma_par_block(t: Seq<Token>, s: PState)
    requires
        at_valid(t, s),
        cur_of(t, s) == TokenKind::KwFork,
    ensures
        steps_on(t, s, sp_par_block(t, s).1),
    decreases t.len() - s.pos, 1nat,
{
    lemma_bumped(t, s);
    let s1 = expected(t, s, TokenKind::KwFork);
    lemma_block_name(t, s1);
    let s2 = sp_block_name(t, s1).1;
    lemma_par_stmts(t, s2);
    let s3 = sp_par_stmts(t, s2).1;
    lemma_bumped(t, s3);
    let k = cur_of(t, s3);
    let s4 = if k == TokenKind::KwJoin_any || k == TokenKind::KwJoin_none {
        bumped(t, s3)
    } else {
        expected(t, s3, TokenKind::KwJoin)
    };
    crate::parser::progress::lemma_end_label(t, s4);
}

proof fn lemma_if_or_case(t: Seq<Token>, s: PState)
    requires
        at_valid(t, s),
        cur_of(t, s) == TokenKind::KwIf || cur_of(t, s) == TokenKind::KwUnique || cur_of(t, s)
            == TokenKind::KwUnique0 || cur_of(t, s) == TokenKind::KwPriority,
    ensures
        steps_on(t, s, sp_if_or_case(t, s).1),
    decreases t.len() - s.pos, 1nat,
{
    lemma_bumped(t, s);
    let (up, s1) = sp_unique_priority(t, s);
    let k = cur_of(t, s1);
    if k == TokenKind::KwCase || k == TokenKind::KwCasex || k == TokenKind::KwCasez {
        lemma_case(t, s1, up);
    } else {
        lemma_if(t, s1, up, s.pos);
    }
}

proof fn lemma_if(t: Seq<Token>, s: PState, up: Option<UniquePriority>, entry: int)
    requires
        at_valid(t, s),
        entry <= s.pos,
        entry < s.pos || cur_of(t, s) == TokenKind::KwIf,
    ensures
        within(t, s, sp_if(t, s, up, entry).1),
        entry < sp_if(t, s, up, entry).1.pos,
    decreases t.len() - entry, 0nat,
{
    lemma_bumped(t, s);
    let s1 = expected(t, s, TokenKind::KwIf);
    lemma_bumped(t, s1);
    let s2 = expected(t, s1, TokenKind::LParen);
    expression_moves_forward(t, s2);
    let s3 = sp_expression(t, s2).1;
    lemma_bumped(t, s3);
    let s4 = expected(t, s3, TokenKind::RParen);
    statement_moves_forward(t, s4);
    let s5 = sp_stmt(t, s4).1;
    lemma_bumped(t, s5);
    if cur_of(t, s5) == TokenKind::KwElse {
        statement_moves_forward(t, bumped(t, s5));
    }
}

proof fn lemma_case_items(t: Seq<Token>, s: PState)
    requires
        at_valid(t, s),
    ensures
        within(t, s, sp_case_items(t, s).1),
    decreases t.len() - s.pos, 3nat,
{
    if cur_of(t, s) != TokenKind::KwEndcase && cur_of(t, s) != TokenKind::Eof {
        lemma_bumped(t, s);
        let s2 = if cur_of(t, s) == TokenKind::KwDefault {
            let s1 = bumped(t, s);
            lemma_bumped(t, s1);
            eaten(t, s1, TokenKind::Colon)
        } else {
            lemma_expr_list(t, s);
            let s1 = sp_expr_list(t, s).1;
            lemma_bumped(t, s1);
            expected(t, s1, TokenKind::Colon)
        };
        statement_moves_forward(t, s2);
        lemma_case_items(t, sp_stmt(t, s2).1);
    }
}

proof fn lemma_case(t: Seq<Token>, s: PState, up: Option<UniquePriority>)
    requires
        at_valid(t, s),
        cur_of(t, s) != TokenKind::Eof,
    ensures
        within(t, s, sp_case(t, s, up).1),
        s.pos < sp_case(t, s, up).1.pos,
    decreases t.len() - s.pos, 0nat,
{
    lemma_bumped(t, s);
    let s1 = bumped(t, s);
    lemma_bumped(t, s1);
    let s2 = expected(t, s1, TokenKind::LParen);
    expression_moves_forward(t, s2);
    let s3 = sp_expression(t, s2).1;
    lemma_bumped(t, s3);
    let s4 = expected(t, s3, TokenKind::RParen);
    lemma_bumped(t, s4);
    let s5 = if crate::parser::statements::case_kind_of(cur_of(t, s))
        == crate::parser::ast::CaseKind::Case && cur_of(t, s4) == TokenKind::KwInside {
        bumped(t, s4)
    } else {
        s4
    };
    lemma_case_items(t, s5);
    lemma_bumped(t, sp_case_items(t, s5).1);
}

proof fn lemma_for_init(t: Seq<Token>, s: PState)
    requires
        at_valid(t, s),
    ensures
        within(t, s, sp_for_init(t, s).1),
{
    lemma_data_type(t, s);
    let a1 = sp_data_type(t, s).1;
    lemma_ident_at(t, a1);
    let a2 = sp_ident(t, a1).1;
    lemma_bumped(t, a2);
    expression_moves_forward(t, expected(t, a2, TokenKind::Assign));
    expression_moves_forward(t, s);
    let b1 = sp_expression(t, s).1;
    lemma_bumped(t, b1);
    expression_moves_forward(t, expected(t, b1, TokenKind::Assign));
}

proof fn lemma_for(t: Seq<Token>, s: PState)
    requires
        at_valid(t, s),
        cur_of(t, s) == TokenKind::KwFor,
    ensures
        steps_on(t, s, sp_for(t, s).1),
    decreases t.len() - s.pos, 1nat,
{
    lemma_bumped(t, s);
    let s1 = expected(t, s, TokenKind::KwFor);
    lemma_bumped(t, s1);
    let s2 = expected(t, s1, TokenKind::LParen);
    lemma_for_init(t, s2);
    let s3 = sp_for_init(t, s2).1;
    lemma_bumped(t, s3);
    let s4 = expected(t, s3, TokenKind::Semicolon);
    let s5 = if cur_of(t, s4) != TokenKind::Semicolon {
        expression_moves_forward(t, s4);
        sp_expression(t, s4).1
    } else {
        s4
    };
    lemma_bumped(t, s5);
    let s6 = expected(t, s5, TokenKind::Semicolon);
    let s7 = if cur_of(t, s6) != TokenKind::RParen {
        lemma_for_steps(t, s6);
        sp_for_steps(t, s6).1
    } else {
        s6
    };
    lemma_bumped(t, s7);
    statement_moves_forward(t, expected(t, s7, TokenKind::RParen));
}

proof fn lemma_foreach(t: Seq<Token>, s: PState)
    requires
        at_valid(t, s),
        cur_of(t, s) == TokenKind::KwForeach,
    ensures
        steps_on(t, s, sp_foreach(t, s).1),
    decreases t.len() - s.pos, 1nat,
{
    lemma_bumped(t, s);
    let s1 = expected(t, s, TokenKind::KwForeach);
    lemma_bumped(t, s1);
    let s2 = expected(t, s1, TokenKind::LParen);
    crate::parser::progress::lemma_hier(t, s2);
    let s3 = sp_hier(t, s2).1;
    lemma_bumped(t, s3);
    let s4 = expected(t, s3, TokenKind::LBracket);
    lemma_foreach_vars(t, s4);
    let s5 = sp_foreach_vars(t, s4).1;
    lemma_bumped(t, s5);
    let s6 = expected(t, s5, TokenKind::RBracket);
    lemma_bumped(t, s6);
    statement_moves_forward(t, expected(t, s6, TokenKind::RParen));
}

proof fn lemma_while(t: Seq<Token>, s: PState)
    requires
        at_valid(t, s),
        cur_of(t, s) == TokenKind::KwWhile,
    ensures
        steps_on(t, s, sp_while(t, s).1),
    decreases t.len() - s.pos, 1nat,
{
    lemma_head_expr(t, s, TokenKind::KwWhile);
    statement_moves_forward(t, sp_head_expr(t, s, TokenKind::KwWhile).1);
}

proof fn lemma_repeat(t: Seq<Token>, s: PState)
    requires
        at_valid(t, s),
        cur_of(t, s) == TokenKind::KwRepeat,
    ensures
        steps_on(t, s, sp_repeat(t, s).1),
    decreases t.len() - s.pos, 1nat,
{
    lemma_head_expr(t, s, TokenKind::KwRepeat);
    statement_moves_forward(t, sp_head_expr(t, s, TokenKind::KwRepeat).1);
}

proof fn lemma_do_while(t: Seq<Token>, s: PState)
    requires
        at_valid(t, s),
        cur_of(t, s) == TokenKind::KwDo,
    ensures
        steps_on(t, s, sp_do_while(t, s).1),
    decreases t.len() - s.pos, 1nat,
{
    lemma_bumped(t, s);
    let s1 = expected(t, s, TokenKind::KwDo);
    statement_moves_forward(t, s1);
    let s2 = sp_stmt(t, s1).1;
    lemma_head_expr(t, s2, TokenKind::KwWhile);
    lemma_bumped(t, sp_head_expr(t, s2, TokenKind::KwWhile).1);
}

proof fn lemma_assertion(t: Seq<Token>, s: PState)
    requires
        at_valid(t, s),
        cur_of(t, s) != TokenKind::Eof,
    ensures
        steps_on(t, s, sp_assertion(t, s).1),
    decreases t.len() - s.pos, 1nat,
{
    lemma_bumped(t, s);
    let s1 = bumped(t, s);
    lemma_bumped(t, s1);
    let s2 = eaten(t, s1, TokenKind::KwProperty);
    lemma_bumped(t, s2);
    let s3 = expected(t, s2, TokenKind::LParen);
    expression_moves_forward(t, s3);
    let s4 = sp_expression(t, s3).1;
    lemma_bumped(t, s4);
    let s5 = expected(t, s4, TokenKind::RParen);
    lemma_bumped(t, s5);
    let s6 = if cur_of(t, s5) != TokenKind::Semicolon && cur_of(t, s5) != TokenKind::KwElse {
        statement_moves_forward(t, s5);
        sp_stmt(t, s5).1
    } else if cur_of(t, s5) == TokenKind::Semicolon {
        bumped(t, s5)
    } else {
        s5
    };
    lemma_bumped(t, s6);
    if cur_of(t, s6) == TokenKind::KwElse {
        statement_moves_forward(t, bumped(t, s6));
    }
}

} // verus!
