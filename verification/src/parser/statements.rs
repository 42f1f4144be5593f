//! Statement parsing (IEEE 1800-2017 §A.6)

use vstd::prelude::*;

use crate::parser::ast::{
    AssertionKind, AssertionStatement, BinaryOp, CaseItem, CaseKind, DataType, Dimension, Edge,
    EventControl, EventExpr, ExprKind, Expression, ForInit, Identifier, JoinType, Lifetime,
    ProceduralContinuous, Statement, StatementKind, TimingControl, UniquePriority, VarDeclarator,
};
use crate::parser::cursor::{moved_on, progressed, Parser};
use crate::parser::grammar::{span_upto, start_of};
use crate::parser::model::{
    assertion_m, case_item_m, case_items_m, data_type_m, decl_m, decls_m, dims_m, event_control_m,
    event_expr_m, expr_m, exprs_m, for_init_m, ident_m, idents_m, lemma_case_items_m_push,
    lemma_exprs_m_push, lemma_stmts_m_push, opt_ident_m, stmt_m, stmts_m, CaseItemM, DeclM, DimM,
    EventExprM, ExprM, IdentM, StmtM,
};
use crate::parser::statement_grammar::{
    compound_op_of, is_join_kind, next_is_tick, sp_assertion, sp_assign_or_expr, sp_block_name,
    sp_block_stmts, sp_case, sp_case_items, sp_declarators, sp_event_control, sp_events, sp_for,
    sp_for_init, sp_for_steps, sp_foreach, sp_foreach_vars, sp_ident_list, sp_if, sp_if_or_case,
    sp_par_block, sp_par_stmts, sp_repeat, sp_seq_block, sp_skip_to_semi, sp_stmt,
    sp_unique_priority, sp_while, sp_do_while, trigger_name, var_decl_rest,
};
use crate::parser::token::{is_data_type_kind, TokenKind};
use crate::macros::str_to_chars;

verus! {

/// The kind of statement that a statement's first token begins (after a
/// leftover directive token, whatever follows).
pub open spec fn begins(lead: TokenKind, st: StatementKind) -> bool {
    match lead {
        TokenKind::Directive => true,
        TokenKind::KwBegin => st is SeqBlock,
        TokenKind::KwFork => st is ParBlock,
        TokenKind::KwIf => st is If,
        TokenKind::KwUnique | TokenKind::KwUnique0 | TokenKind::KwPriority => st is If || st is Case,
        TokenKind::KwCase | TokenKind::KwCasex | TokenKind::KwCasez => st is Case,
        TokenKind::KwFor => st is For,
        TokenKind::KwForeach => st is Foreach,
        TokenKind::KwWhile => st is While,
        TokenKind::KwDo => st is DoWhile,
        TokenKind::KwRepeat => st is Repeat,
        TokenKind::KwForever => st is Forever,
        TokenKind::KwReturn => st is Return,
        TokenKind::KwBreak => st is Break,
        TokenKind::KwContinue => st is Continue,
        TokenKind::KwWait => st is WaitFork || st is Wait,
        TokenKind::KwStatic | TokenKind::KwAutomatic | TokenKind::KwLocal => st is VarDecl,
        TokenKind::KwTypedef => st is Null,
        TokenKind::KwDisable => st is Null || st is Disable,
        TokenKind::KwAssert | TokenKind::KwAssume | TokenKind::KwCover => st is Assertion,
        TokenKind::KwAssign => st matches StatementKind::ProceduralContinuous(
            ProceduralContinuous::Assign { .. },
        ),
        TokenKind::KwForce => st matches StatementKind::ProceduralContinuous(
            ProceduralContinuous::Force { .. },
        ),
        TokenKind::KwDeassign => st matches StatementKind::ProceduralContinuous(
            ProceduralContinuous::Deassign(_),
        ),
        TokenKind::KwRelease => st matches StatementKind::ProceduralContinuous(
            ProceduralContinuous::Release(_),
        ),
        TokenKind::KwCoverpoint => st is Coverpoint,
        TokenKind::KwCross => st is Cross,
        TokenKind::At => st matches StatementKind::TimingControl {
            control: TimingControl::Event(_),
            ..
        },
        TokenKind::Hash => st matches StatementKind::TimingControl {
            control: TimingControl::Delay(_),
            ..
        },
        TokenKind::Arrow => st matches StatementKind::EventTrigger { nonblocking: false, .. },
        TokenKind::DoubleArrow => st matches StatementKind::EventTrigger { nonblocking: true, .. },
        TokenKind::KwInput | TokenKind::KwOutput | TokenKind::KwInout | TokenKind::KwRef
        | TokenKind::Semicolon | TokenKind::KwEvent => st is Null,
        _ => st is VarDecl || st is BlockingAssign || st is NonblockingAssign || st is Expr,
    }
}

/// A statement whose span starts at its first token.
pub open spec fn starts_at_lead(lead: TokenKind) -> bool {
    match lead {
        TokenKind::Directive | TokenKind::KwUnique | TokenKind::KwUnique0
        | TokenKind::KwPriority => false,
        _ => true,
    }
}

/// The case kind that a case keyword gives, before `inside` is looked at.
pub open spec fn case_kind_of(k: TokenKind) -> CaseKind {
    match k {
        TokenKind::KwCasex => CaseKind::Casex,
        TokenKind::KwCasez => CaseKind::Casez,
        _ => CaseKind::Case,
    }
}

pub open spec fn is_case_kw(k: TokenKind) -> bool {
    k == TokenKind::KwCase || k == TokenKind::KwCasex || k == TokenKind::KwCasez
}

impl Parser {
    /// The token after the current one is a lone `'` (a cast such as `int'(x)`).
    fn next_is_tick(&self) -> (r: bool)
        requires
            self.wf(),
        ensures
            r == next_is_tick(self.tokens@, self.st()),
    {
        if self.pos < self.tokens.len() - 1 {
            let text = str_to_chars(self.tokens[self.pos + 1].text.as_str());
            let r = text.len() == 1 && text[0] == '\'';
            proof {
                if r {
                    assert(text@ =~= seq!['\'']);
                }
            }
            r
        } else {
            false
        }
    }

    /// `name [dims] [= init]`, separated by commas.
    fn parse_declarators(&mut self) -> (ds: Vec<VarDeclarator>)
        requires
            old(self).wf(),
        ensures
            moved_on(*old(self), *final(self)),
            (decls_m(ds@), final(self).st()) == sp_declarators(old(self).tokens@, old(self).st()),
    {
        let ghost t = self.tokens@;
        let ghost s0 = self.st();
        let ghost p0 = *old(self);
        let mut declarators: Vec<VarDeclarator> = Vec::new();
        assert(decls_m(declarators@) =~= Seq::<DeclM>::empty());
        loop
            invariant_except_break
                sp_declarators(t, s0) == (decls_m(declarators@) + sp_declarators(t, self.st()).0,
                sp_declarators(t, self.st()).1),
            invariant
                moved_on(p0, *self),
                t == self.tokens@,
                s0 == p0.st(),
            ensures
                sp_declarators(t, s0) == (decls_m(declarators@), self.st()),
            decreases self.tokens@.len() - self.pos,
        {
            let ghost before = decls_m(declarators@);
            let ds = self.tokens[self.pos].span.start;
            let name = self.parse_identifier();
            let dimensions = self.parse_unpacked_dimensions();
            let init = if self.eat(TokenKind::Assign).is_some() {
                Some(self.parse_expression())
            } else {
                None
            };
            let span = self.span_from(ds);
            let d = VarDeclarator { name, dimensions, init, span };
            let ghost dm = decl_m(d);
            declarators.push(d);
            assert(decls_m(declarators@) =~= before.push(dm));
            if self.eat(TokenKind::Comma).is_none() {
                assert(before + seq![dm] =~= decls_m(declarators@));
                break;
            }
            assert(before + (seq![dm] + sp_declarators(t, self.st()).0) =~= decls_m(declarators@)
                + sp_declarators(t, self.st()).0);
        }
        declarators
    }

    /// Identifiers separated by commas.
    fn parse_identifier_list(&mut self) -> (names: Vec<Identifier>)
        requires
            old(self).wf(),
        ensures
            moved_on(*old(self), *final(self)),
            (idents_m(names@), final(self).st()) == sp_ident_list(old(self).tokens@, old(self).st()),
    {
        let ghost t = self.tokens@;
        let ghost s0 = self.st();
        let ghost p0 = *old(self);
        let mut names: Vec<Identifier> = Vec::new();
        assert(idents_m(names@) =~= Seq::<IdentM>::empty());
        loop
            invariant_except_break
                sp_ident_list(t, s0) == (idents_m(names@) + sp_ident_list(t, self.st()).0,
                sp_ident_list(t, self.st()).1),
            invariant
                moved_on(p0, *self),
                t == self.tokens@,
                s0 == p0.st(),
            ensures
                sp_ident_list(t, s0) == (idents_m(names@), self.st()),
            decreases self.tokens@.len() - self.pos,
        {
            let ghost before = idents_m(names@);
            let n = self.parse_identifier();
            let ghost nm = ident_m(n);
            names.push(n);
            assert(idents_m(names@) =~= before.push(nm));
            if self.eat(TokenKind::Comma).is_none() {
                assert(before + seq![nm] =~= idents_m(names@));
                break;
            }
            assert(before + (seq![nm] + sp_ident_list(t, self.st()).0) =~= idents_m(names@)
                + sp_ident_list(t, self.st()).0);
        }
        names
    }

    /// One statement.
    #[verifier::rlimit(60)]
    pub fn parse_statement(&mut self) -> (s: Statement)
        requires
            old(self).wf(),
        ensures
            progressed(*old(self), *final(self)),
            begins(old(self).cur(), s.kind),
            starts_at_lead(old(self).cur()) ==> s.span.start == old(self).tokens@[old(
                self,
            ).pos as int].span.start,
            (stmt_m(s), final(self).st()) == sp_stmt(old(self).tokens@, old(self).st()),
        decreases old(self).tokens@.len() - old(self).pos, 2nat,
    {
        let ghost t = self.tokens@;
        let ghost s0 = self.st();
        let start = self.tokens[self.pos].span.start;
        let k = self.current_kind();
        match k {
            TokenKind::Directive => {
                self.bump();
                self.parse_statement()
            },
            TokenKind::KwBegin => self.parse_seq_block(),
            TokenKind::KwFork => self.parse_par_block(),
            TokenKind::KwIf | TokenKind::KwUnique | TokenKind::KwUnique0 | TokenKind::KwPriority => {
                self.parse_if_or_case()
            },
            TokenKind::KwCase | TokenKind::KwCasex | TokenKind::KwCasez => self.parse_case_statement(),
            TokenKind::KwFor => self.parse_for_statement(),
            TokenKind::KwForeach => self.parse_foreach_statement(),
            TokenKind::KwWhile => self.parse_while_statement(),
            TokenKind::KwDo => self.parse_do_while_statement(),
            TokenKind::KwRepeat => self.parse_repeat_statement(),
            TokenKind::KwForever => {
                self.bump();
                let body = self.parse_statement();
                Statement::new(StatementKind::Forever { body: Box::new(body) }, self.span_from(start))
            },
            TokenKind::KwReturn => {
                self.bump();
                let expr = if !self.at(TokenKind::Semicolon) {
                    Some(self.parse_expression())
                } else {
                    None
                };
                self.expect(TokenKind::Semicolon);
                Statement::new(StatementKind::Return(expr), self.span_from(start))
            },
            TokenKind::KwBreak => {
                self.bump();
                self.expect(TokenKind::Semicolon);
                Statement::new(StatementKind::Break, self.span_from(start))
            },
            TokenKind::KwContinue => {
                self.bump();
                self.expect(TokenKind::Semicolon);
                Statement::new(StatementKind::Continue, self.span_from(start))
            },
            TokenKind::KwWait => {
                self.bump();
                if self.eat(TokenKind::KwFork).is_some() {
                    self.expect(TokenKind::Semicolon);
                    Statement::new(StatementKind::WaitFork, self.span_from(start))
                } else {
                    self.expect(TokenKind::LParen);
                    let cond = self.parse_expression();
                    self.expect(TokenKind::RParen);
                    let stmt = self.parse_statement();
                    Statement::new(
                        StatementKind::Wait { condition: cond, stmt: Box::new(stmt) },
                        self.span_from(start),
                    )
                }
            },
            TokenKind::KwStatic | TokenKind::KwAutomatic | TokenKind::KwLocal => {
                self.parse_lifetime_declaration(start)
            },
            TokenKind::KwTypedef => {
                let _ = self.parse_typedef_declaration();
                Statement::new(StatementKind::Null, self.span_from(start))
            },
            TokenKind::KwDisable => {
                self.bump();
                if self.eat(TokenKind::KwFork).is_some() {
                    self.expect(TokenKind::Semicolon);
                    Statement::new(StatementKind::Null, self.span_from(start))
                } else {
                    let name = self.parse_identifier();
                    self.expect(TokenKind::Semicolon);
                    Statement::new(StatementKind::Disable(name), self.span_from(start))
                }
            },
            TokenKind::KwAssert | TokenKind::KwAssume | TokenKind::KwCover => {
                let a = self.parse_assertion_statement();
                Statement::new(StatementKind::Assertion(a), self.span_from(start))
            },
            TokenKind::KwAssign => {
                self.bump();
                let lv = self.parse_expression();
                self.expect(TokenKind::Assign);
                let rv = self.parse_expression();
                self.expect(TokenKind::Semicolon);
                Statement::new(
                    StatementKind::ProceduralContinuous(
                        ProceduralContinuous::Assign { lvalue: lv, rvalue: rv },
                    ),
                    self.span_from(start),
                )
            },
            TokenKind::KwForce => {
                self.bump();
                let lv = self.parse_expression();
                self.expect(TokenKind::Assign);
                let rv = self.parse_expression();
                self.expect(TokenKind::Semicolon);
                Statement::new(
                    StatementKind::ProceduralContinuous(
                        ProceduralContinuous::Force { lvalue: lv, rvalue: rv },
                    ),
                    self.span_from(start),
                )
            },
            TokenKind::KwDeassign => {
                self.bump();
                let lv = self.parse_expression();
                self.expect(TokenKind::Semicolon);
                Statement::new(
                    StatementKind::ProceduralContinuous(ProceduralContinuous::Deassign(lv)),
                    self.span_from(start),
                )
            },
            TokenKind::KwCoverpoint => {
                self.bump();
                let expr = self.parse_expression();
                self.expect(TokenKind::Semicolon);
                Statement::new(
                    StatementKind::Coverpoint { name: None, expr, span: self.span_from(start) },
                    self.span_from(start),
                )
            },
            TokenKind::KwCross => {
                self.bump();
                let items = self.parse_expr_list();
                self.expect(TokenKind::Semicolon);
                Statement::new(
                    StatementKind::Cross { name: None, items, span: self.span_from(start) },
                    self.span_from(start),
                )
            },
            TokenKind::KwRelease => {
                self.bump();
                let lv = self.parse_expression();
                self.expect(TokenKind::Semicolon);
                Statement::new(
                    StatementKind::ProceduralContinuous(ProceduralContinuous::Release(lv)),
                    self.span_from(start),
                )
            },
            // Timing control: @
            TokenKind::At => {
                let ctrl = self.parse_event_control();
                let stmt = self.parse_statement();
                Statement::new(
                    StatementKind::TimingControl {
                        control: TimingControl::Event(ctrl),
                        stmt: Box::new(stmt),
                    },
                    self.span_from(start),
                )
            },
            // Event trigger: ->, ->>
            TokenKind::Arrow | TokenKind::DoubleArrow => self.parse_event_trigger(start),
            // Delay control: #
            TokenKind::Hash => {
                self.bump();
                let delay = self.parse_expression();
                let stmt = self.parse_statement();
                Statement::new(
                    StatementKind::TimingControl {
                        control: TimingControl::Delay(delay),
                        stmt: Box::new(stmt),
                    },
                    self.span_from(start),
                )
            },
            TokenKind::KwInput | TokenKind::KwOutput | TokenKind::KwInout | TokenKind::KwRef => {
                let start = self.tokens[self.pos].span.start;
                self.bump();
                let ghost s1 = self.st();
                let ghost p1 = *self;
                while !self.at(TokenKind::Semicolon) && !self.at(TokenKind::Eof)
                    invariant
                        moved_on(p1, *self),
                        t == self.tokens@,
                        sp_skip_to_semi(t, self.st()) == sp_skip_to_semi(t, s1),
                    decreases self.tokens@.len() - self.pos,
                {
                    self.bump();
                }
                self.expect(TokenKind::Semicolon);
                Statement::new(StatementKind::Null, self.span_from(start))
            },
            // Null statement
            TokenKind::Semicolon => {
                self.bump();
                Statement::new(StatementKind::Null, self.span_from(start))
            },
            // Event declaration
            TokenKind::KwEvent => {
                self.bump();
                let _ = self.parse_identifier_list();
                self.expect(TokenKind::Semicolon);
                Statement::new(StatementKind::Null, self.span_from(start))
            },
            _ => {
                if self.is_data_type_keyword() && !(self.peek_kind() == TokenKind::IntegerLiteral
                    && self.next_is_tick()) {
                    // Variable declaration (data type keywords)
                    let data_type = self.parse_data_type();
                    self.parse_var_decl_rest(start, data_type, None)
                } else if k == TokenKind::Identifier && !self.peek_is_class_scope() && (
                self.peek_kind() == TokenKind::Identifier || self.peek_kind() == TokenKind::Hash
                    || self.peek_kind() == TokenKind::DoubleColon) {
                    // User-defined type variable declaration: TypeName var [= expr];
                    let data_type = self.parse_data_type();
                    self.parse_var_decl_rest(start, data_type, None)
                } else {
                    self.parse_assignment_or_expr(start)
                }
            },
        }
    }

    /// `static`, `automatic` or `local` (at most one of the first two after
    /// `local`), then a data type and declarators.
    fn parse_lifetime_declaration(&mut self, start: usize) -> (s: Statement)
        requires
            old(self).wf(),
            old(self).cur() == TokenKind::KwStatic || old(self).cur() == TokenKind::KwAutomatic
                || old(self).cur() == TokenKind::KwLocal,
            start == start_of(old(self).tokens@, old(self).st()),
        ensures
            progressed(*old(self), *final(self)),
            s.kind is VarDecl,
            s.span.start == start,
            (stmt_m(s), final(self).st()) == sp_stmt(old(self).tokens@, old(self).st()),
    {
        let mut lifetime = None;
        if self.at(TokenKind::KwStatic) {
            lifetime = Some(Lifetime::Static);
            self.bump();
        } else if self.at(TokenKind::KwAutomatic) {
            lifetime = Some(Lifetime::Automatic);
            self.bump();
        } else if self.at(TokenKind::KwLocal) {
            self.bump();
        }
        if lifetime.is_none() {
            if self.at(TokenKind::KwStatic) {
                lifetime = Some(Lifetime::Static);
                self.bump();
            } else if self.at(TokenKind::KwAutomatic) {
                lifetime = Some(Lifetime::Automatic);
                self.bump();
            }
        }
        let data_type = if self.is_data_type_keyword() || self.at(TokenKind::Identifier) {
            self.parse_data_type()
        } else {
            let dimensions: Vec<Dimension> = Vec::new();
            assert(dims_m(dimensions@) =~= Seq::<DimM>::empty());
            DataType::Implicit { signing: None, dimensions, span: self.span_from(start) }
        };
        self.parse_var_decl_rest(start, data_type, lifetime)
    }

    /// Declarators and the closing `;` of a variable declaration.
    fn parse_var_decl_rest(&mut self, start: usize, data_type: DataType, lifetime: Option<
        Lifetime,
    >) -> (s: Statement)
        requires
            old(self).wf(),
        ensures
            moved_on(*old(self), *final(self)),
            s.kind is VarDecl,
            s.span.start == start,
            (stmt_m(s), final(self).st()) == var_decl_rest(
                old(self).tokens@,
                start,
                data_type_m(data_type),
                lifetime,
                old(self).st(),
            ),
    {
        let declarators = self.parse_declarators();
        self.expect(TokenKind::Semicolon);
        Statement::new(
            StatementKind::VarDecl { data_type, lifetime, declarators },
            self.span_from(start),
        )
    }

    /// `-> name;` or `->> name;`.
    fn parse_event_trigger(&mut self, start: usize) -> (s: Statement)
        requires
            old(self).wf(),
            old(self).cur() == TokenKind::Arrow || old(self).cur() == TokenKind::DoubleArrow,
            start == start_of(old(self).tokens@, old(self).st()),
        ensures
            progressed(*old(self), *final(self)),
            begins(old(self).cur(), s.kind),
            s.span.start == start,
            (stmt_m(s), final(self).st()) == sp_stmt(old(self).tokens@, old(self).st()),
    {
        let nonblocking = self.bump().kind == TokenKind::DoubleArrow;
        let target = self.parse_expression();
        self.expect(TokenKind::Semicolon);
        let ghost tm = expr_m(target);
        let name = match target.kind {
            ExprKind::Ident(hier) => {
                let n = hier.path.len();
                if n > 0 {
                    hier.path[n - 1].duplicate()
                } else {
                    Identifier { name: event_name(), span: self.span_from(start) }
                }
            },
            _ => Identifier { name: event_name(), span: self.span_from(start) },
        };
        assert(ident_m(name) == trigger_name(tm, span_upto(self.tokens@, start, self.st())));
        Statement::new(
            StatementKind::EventTrigger { nonblocking, name, span: self.span_from(start) },
            self.span_from(start),
        )
    }

    /// Expression statement (assignment, call, inc/dec). Compound
    /// assignments `lhs op= rhs` become `lhs = lhs op rhs`.
    fn parse_assignment_or_expr(&mut self, start: usize) -> (s: Statement)
        requires
            old(self).wf(),
        ensures
            progressed(*old(self), *final(self)),
            s.kind is BlockingAssign || s.kind is NonblockingAssign || s.kind is Expr,
            s.span.start == start,
            (stmt_m(s), final(self).st()) == sp_assign_or_expr(
                old(self).tokens@,
                old(self).st(),
                start,
            ),
    {
        // Parse LHS expression, but stop at <= to allow nonblocking assignment
        let expr = self.parse_lvalue_or_expr();
        let op_kind = self.current_kind();
        let op = match op_kind {
            TokenKind::PlusAssign => Some(BinaryOp::Add),
            TokenKind::MinusAssign => Some(BinaryOp::Sub),
            TokenKind::StarAssign => Some(BinaryOp::Mul),
            TokenKind::SlashAssign => Some(BinaryOp::Div),
            TokenKind::PercentAssign => Some(BinaryOp::Mod),
            TokenKind::AndAssign => Some(BinaryOp::BitAnd),
            TokenKind::OrAssign => Some(BinaryOp::BitOr),
            TokenKind::XorAssign => Some(BinaryOp::BitXor),
            TokenKind::ShiftLeftAssign => Some(BinaryOp::ShiftLeft),
            TokenKind::ShiftRightAssign => Some(BinaryOp::ShiftRight),
            _ => None,
        };
        assert(op == compound_op_of(op_kind));
        if op_kind == TokenKind::Assign || op.is_some() {
            self.bump();
            let rhs = self.parse_expression();
            self.expect(TokenKind::Semicolon);
            let rvalue = match op {
                Some(op) => Expression::new(
                    ExprKind::Binary { op, left: Box::new(expr.duplicate()), right: Box::new(rhs) },
                    self.span_from(start),
                ),
                None => rhs,
            };
            Statement::new(StatementKind::BlockingAssign { lvalue: expr, rvalue }, self.span_from(start))
        } else if self.at(TokenKind::Leq) {
            // Nonblocking assignment: lvalue <= rvalue
            self.bump();
            let rvalue = self.parse_expression();
            self.expect(TokenKind::Semicolon);
            Statement::new(
                StatementKind::NonblockingAssign { lvalue: expr, delay: None, rvalue },
                self.span_from(start),
            )
        } else {
            self.expect(TokenKind::Semicolon);
            Statement::new(StatementKind::Expr(expr), self.span_from(start))
        }
    }

    /// An optional block name after `begin` or `fork`.
    fn parse_block_name(&mut self) -> (n: Option<Identifier>)
        requires
            old(self).wf(),
        ensures
            moved_on(*old(self), *final(self)),
            (opt_ident_m(n), final(self).st()) == sp_block_name(old(self).tokens@, old(self).st()),
    {
        if self.eat(TokenKind::Colon).is_some() {
            Some(self.parse_identifier())
        } else {
            None
        }
    }

    fn parse_seq_block(&mut self) -> (s: Statement)
        requires
            old(self).wf(),
            old(self).cur() == TokenKind::KwBegin,
        ensures
            progressed(*old(self), *final(self)),
            s.kind is SeqBlock,
            s.span.start == old(self).tokens@[old(self).pos as int].span.start,
            (stmt_m(s), final(self).st()) == sp_seq_block(old(self).tokens@, old(self).st()),
        decreases old(self).tokens@.len() - old(self).pos, 1nat,
    {
        let ghost t = self.tokens@;
        let start = self.tokens[self.pos].span.start;
        self.expect(TokenKind::KwBegin);
        let name = self.parse_block_name();
        let ghost p1 = *self;
        let ghost s2 = self.st();
        let mut stmts: Vec<Statement> = Vec::new();
        assert(stmts_m(stmts@) =~= Seq::<StmtM>::empty());
        while !self.at(TokenKind::KwEnd) && !self.at(TokenKind::Eof)
            invariant
                moved_on(p1, *self),
                old(self).pos < p1.pos,
                p1.tokens@ == old(self).tokens@,
                t == self.tokens@,
                s2 == p1.st(),
                sp_block_stmts(t, s2) == (stmts_m(stmts@) + sp_block_stmts(t, self.st()).0,
                sp_block_stmts(t, self.st()).1),
            decreases self.tokens@.len() - self.pos,
        {
            let ghost before = stmts_m(stmts@);
            let ghost bv = stmts@;
            let st = self.parse_statement();
            stmts.push(st);
            proof {
                lemma_stmts_m_push(bv, st);
            }
            assert(before + (seq![stmt_m(st)] + sp_block_stmts(t, self.st()).0) =~= stmts_m(
                stmts@,
            ) + sp_block_stmts(t, self.st()).0);
        }
        assert(stmts_m(stmts@) + Seq::<StmtM>::empty() =~= stmts_m(stmts@));
        self.expect(TokenKind::KwEnd);
        let _ = self.parse_end_label();
        Statement::new(StatementKind::SeqBlock { name, stmts }, self.span_from(start))
    }

    fn parse_par_block(&mut self) -> (s: Statement)
        requires
            old(self).wf(),
            old(self).cur() == TokenKind::KwFork,
        ensures
            progressed(*old(self), *final(self)),
            s.kind is ParBlock,
            s.span.start == old(self).tokens@[old(self).pos as int].span.start,
            (stmt_m(s), final(self).st()) == sp_par_block(old(self).tokens@, old(self).st()),
        decreases old(self).tokens@.len() - old(self).pos, 1nat,
    {
        let ghost t = self.tokens@;
        let start = self.tokens[self.pos].span.start;
        self.expect(TokenKind::KwFork);
        let name = self.parse_block_name();
        let ghost p1 = *self;
        let ghost s2 = self.st();
        let mut stmts: Vec<Statement> = Vec::new();
        assert(stmts_m(stmts@) =~= Seq::<StmtM>::empty());
        let ends = [TokenKind::KwJoin, TokenKind::KwJoin_any, TokenKind::KwJoin_none, TokenKind::Eof];
        while !self.at_any(&ends)
            invariant
                moved_on(p1, *self),
                old(self).pos < p1.pos,
                p1.tokens@ == old(self).tokens@,
                t == self.tokens@,
                s2 == p1.st(),
                ends@ == seq![TokenKind::KwJoin, TokenKind::KwJoin_any, TokenKind::KwJoin_none, TokenKind::Eof],
                sp_par_stmts(t, s2) == (stmts_m(stmts@) + sp_par_stmts(t, self.st()).0,
                sp_par_stmts(t, self.st()).1),
            decreases self.tokens@.len() - self.pos,
        {
            assert(ends@[3] == TokenKind::Eof);
            assert(!is_join_kind(self.cur())) by {
                assert(ends@[0] == TokenKind::KwJoin);
                assert(ends@[1] == TokenKind::KwJoin_any);
                assert(ends@[2] == TokenKind::KwJoin_none);
            }
            let ghost before = stmts_m(stmts@);
            let ghost bv = stmts@;
            let st = self.parse_statement();
            stmts.push(st);
            proof {
                lemma_stmts_m_push(bv, st);
            }
            assert(before + (seq![stmt_m(st)] + sp_par_stmts(t, self.st()).0) =~= stmts_m(
                stmts@,
            ) + sp_par_stmts(t, self.st()).0);
        }
        assert(is_join_kind(self.cur())) by {
            assert(ends@[0] == TokenKind::KwJoin);
            assert(ends@[1] == TokenKind::KwJoin_any);
            assert(ends@[2] == TokenKind::KwJoin_none);
            assert(ends@[3] == TokenKind::Eof);
        }
        assert(stmts_m(stmts@) + Seq::<StmtM>::empty() =~= stmts_m(stmts@));
        let join_type = match self.current_kind() {
            TokenKind::KwJoin_any => {
                self.bump();
                JoinType::JoinAny
            },
            TokenKind::KwJoin_none => {
                self.bump();
                JoinType::JoinNone
            },
            _ => {
                self.expect(TokenKind::KwJoin);
                JoinType::Join
            },
        };
        let _ = self.parse_end_label();
        Statement::new(StatementKind::ParBlock { name, join_type, stmts }, self.span_from(start))
    }

    fn parse_if_or_case(&mut self) -> (s: Statement)
        requires
            old(self).wf(),
            old(self).cur() == TokenKind::KwIf || old(self).cur() == TokenKind::KwUnique
                || old(self).cur() == TokenKind::KwUnique0 || old(self).cur() == TokenKind::KwPriority,
        ensures
            progressed(*old(self), *final(self)),
            s.kind is If || s.kind is Case,
            old(self).cur() == TokenKind::KwIf ==> s.kind is If && s.span.start == old(
                self,
            ).tokens@[old(self).pos as int].span.start,
            (stmt_m(s), final(self).st()) == sp_if_or_case(old(self).tokens@, old(self).st()),
        decreases old(self).tokens@.len() - old(self).pos, 1nat,
    {
        let ghost entry = self.pos as int;
        let up = self.parse_unique_priority();
        if self.at(TokenKind::KwIf) {
            self.parse_if_with_priority(up, Ghost(entry))
        } else if self.at(TokenKind::KwCase) || self.at(TokenKind::KwCasex) || self.at(
            TokenKind::KwCasez,
        ) {
            self.parse_case_with_priority(up)
        } else {
            self.parse_if_with_priority(up, Ghost(entry))
        }
    }

    fn parse_unique_priority(&mut self) -> (up: Option<UniquePriority>)
        requires
            old(self).wf(),
        ensures
            moved_on(*old(self), *final(self)),
            old(self).cur() == TokenKind::KwUnique ==> up == Some(UniquePriority::Unique),
            old(self).cur() == TokenKind::KwUnique0 ==> up == Some(UniquePriority::Unique0),
            old(self).cur() == TokenKind::KwPriority ==> up == Some(UniquePriority::Priority),
            old(self).cur() != TokenKind::KwUnique && old(self).cur() != TokenKind::KwUnique0
                && old(self).cur() != TokenKind::KwPriority ==> up is None,
            up is Some ==> final(self).pos == old(self).pos + 1,
            up is None ==> final(self).pos == old(self).pos,
            (up, final(self).st()) == sp_unique_priority(old(self).tokens@, old(self).st()),
    {
        match self.current_kind() {
            TokenKind::KwUnique => {
                self.bump();
                Some(UniquePriority::Unique)
            },
            TokenKind::KwUnique0 => {
                self.bump();
                Some(UniquePriority::Unique0)
            },
            TokenKind::KwPriority => {
                self.bump();
                Some(UniquePriority::Priority)
            },
            _ => None,
        }
    }

    /// `if (cond) stmt [else stmt]`; `entry` is where the statement began
    /// (before a `unique`/`priority` prefix).
    fn parse_if_with_priority(&mut self, up: Option<UniquePriority>, Ghost(entry): Ghost<int>) -> (s:
        Statement)
        requires
            old(self).wf(),
            entry <= old(self).pos,
            entry < old(self).pos || old(self).cur() == TokenKind::KwIf,
        ensures
            moved_on(*old(self), *final(self)),
            entry < final(self).pos,
            s.kind matches StatementKind::If { unique_priority, .. } && unique_priority == up,
            s.span.start == old(self).tokens@[old(self).pos as int].span.start,
            (stmt_m(s), final(self).st()) == sp_if(old(self).tokens@, old(self).st(), up, entry),
        decreases old(self).tokens@.len() - entry, 0nat,
    {
        let start = self.tokens[self.pos].span.start;
        self.expect(TokenKind::KwIf);
        self.expect(TokenKind::LParen);
        let condition = self.parse_expression();
        self.expect(TokenKind::RParen);
        let then_stmt = self.parse_statement();
        let else_stmt = if self.eat(TokenKind::KwElse).is_some() {
            Some(Box::new(self.parse_statement()))
        } else {
            None
        };
        Statement::new(
            StatementKind::If {
                condition,
                then_stmt: Box::new(then_stmt),
                else_stmt,
                unique_priority: up,
            },
            self.span_from(start),
        )
    }

    fn parse_case_statement(&mut self) -> (s: Statement)
        requires
            old(self).wf(),
            is_case_kw(old(self).cur()),
        ensures
            progressed(*old(self), *final(self)),
            s.kind matches StatementKind::Case { unique_priority, .. } && unique_priority is None,
            s.span.start == old(self).tokens@[old(self).pos as int].span.start,
            (stmt_m(s), final(self).st()) == sp_case(old(self).tokens@, old(self).st(), None),
        decreases old(self).tokens@.len() - old(self).pos, 1nat,
    {
        self.parse_case_with_priority(None)
    }

    fn parse_case_with_priority(&mut self, up: Option<UniquePriority>) -> (s: Statement)
        requires
            old(self).wf(),
            is_case_kw(old(self).cur()),
        ensures
            progressed(*old(self), *final(self)),
            s.kind matches StatementKind::Case { unique_priority, kind, .. } && unique_priority == up
                && (kind == case_kind_of(old(self).cur()) || (old(self).cur() == TokenKind::KwCase
                && kind == CaseKind::CaseInside)),
            s.span.start == old(self).tokens@[old(self).pos as int].span.start,
            (stmt_m(s), final(self).st()) == sp_case(old(self).tokens@, old(self).st(), up),
        decreases old(self).tokens@.len() - old(self).pos, 0nat,
    {
        let ghost t = self.tokens@;
        let start = self.tokens[self.pos].span.start;
        let kind = match self.bump().kind {
            TokenKind::KwCasex => CaseKind::Casex,
            TokenKind::KwCasez => CaseKind::Casez,
            _ => CaseKind::Case,
        };
        self.expect(TokenKind::LParen);
        let expr = self.parse_expression();
        self.expect(TokenKind::RParen);
        // Check for "inside" keyword
        let kind = if kind == CaseKind::Case && self.eat(TokenKind::KwInside).is_some() {
            CaseKind::CaseInside
        } else {
            kind
        };
        let ghost p1 = *self;
        let ghost s5 = self.st();
        let mut items: Vec<CaseItem> = Vec::new();
        assert(case_items_m(items@) =~= Seq::<CaseItemM>::empty());
        while !self.at(TokenKind::KwEndcase) && !self.at(TokenKind::Eof)
            invariant
                moved_on(p1, *self),
                old(self).pos < p1.pos,
                p1.tokens@ == old(self).tokens@,
                t == self.tokens@,
                s5 == p1.st(),
                sp_case_items(t, s5) == (case_items_m(items@) + sp_case_items(t, self.st()).0,
                sp_case_items(t, self.st()).1),
            decreases self.tokens@.len() - self.pos,
        {
            let ghost before = case_items_m(items@);
            let ghost bv = items@;
            let istart = self.tokens[self.pos].span.start;
            let item = if self.eat(TokenKind::KwDefault).is_some() {
                self.eat(TokenKind::Colon);
                let stmt = self.parse_statement();
                let span = self.span_from(istart);
                let patterns: Vec<Expression> = Vec::new();
                assert(exprs_m(patterns@) =~= Seq::<ExprM>::empty());
                CaseItem { patterns, is_default: true, stmt, span }
            } else {
                let patterns = self.parse_expr_list();
                self.expect(TokenKind::Colon);
                let stmt = self.parse_statement();
                let span = self.span_from(istart);
                CaseItem { patterns, is_default: false, stmt, span }
            };
            items.push(item);
            proof {
                lemma_case_items_m_push(bv, item);
            }
            assert(before + (seq![case_item_m(item)] + sp_case_items(t, self.st()).0)
                =~= case_items_m(items@) + sp_case_items(t, self.st()).0);
        }
        assert(case_items_m(items@) + Seq::<CaseItemM>::empty() =~= case_items_m(items@));
        self.expect(TokenKind::KwEndcase);
        Statement::new(
            StatementKind::Case { unique_priority: up, kind, expr, items },
            self.span_from(start),
        )
    }

    /// The initialization of a `for`: a declaration with its value, an
    /// assignment, or nothing.
    fn parse_for_init(&mut self) -> (init: Vec<ForInit>)
        requires
            old(self).wf(),
        ensures
            moved_on(*old(self), *final(self)),
            (init@.map_values(|i: ForInit| for_init_m(i)), final(self).st()) == sp_for_init(
                old(self).tokens@,
                old(self).st(),
            ),
    {
        let mut init: Vec<ForInit> = Vec::new();
        if !self.at(TokenKind::Semicolon) {
            if self.is_data_type_keyword() || (self.at(TokenKind::Identifier) && self.peek_kind()
                == TokenKind::Identifier) {
                let dt = self.parse_data_type();
                let name = self.parse_identifier();
                self.expect(TokenKind::Assign);
                let val = self.parse_expression();
                init.push(ForInit::VarDecl { data_type: dt, name, init: val });
            } else {
                let lv = self.parse_expression();
                self.expect(TokenKind::Assign);
                let rv = self.parse_expression();
                init.push(ForInit::Assign { lvalue: lv, rvalue: rv });
            }
        }
        assert(init@.map_values(|i: ForInit| for_init_m(i)) =~= sp_for_init(
            old(self).tokens@,
            old(self).st(),
        ).0);
        init
    }

    /// The steps of a `for`: expressions or `lhs = rhs`, separated by commas.
    fn parse_for_steps(&mut self) -> (step: Vec<Expression>)
        requires
            old(self).wf(),
        ensures
            moved_on(*old(self), *final(self)),
            (exprs_m(step@), final(self).st()) == sp_for_steps(old(self).tokens@, old(self).st()),
    {
        let ghost t = self.tokens@;
        let ghost s0 = self.st();
        let ghost p0 = *old(self);
        let mut step: Vec<Expression> = Vec::new();
        assert(exprs_m(step@) =~= Seq::<ExprM>::empty());
        loop
            invariant_except_break
                sp_for_steps(t, s0) == (exprs_m(step@) + sp_for_steps(t, self.st()).0, sp_for_steps(
                    t,
                    self.st(),
                ).1),
            invariant
                moved_on(p0, *self),
                t == self.tokens@,
                s0 == p0.st(),
            ensures
                sp_for_steps(t, s0) == (exprs_m(step@), self.st()),
            decreases self.tokens@.len() - self.pos,
        {
            let ghost bv = step@;
            let ghost before = exprs_m(step@);
            // Step can be assignment (i = i + 1) or expression (i++)
            let expr = self.parse_expression();
            let item = if self.eat(TokenKind::Assign).is_some() {
                let rhs = self.parse_expression();
                // Wrap as AssignOp expression (lhs = rhs)
                Expression::new(
                    ExprKind::Binary {
                        op: BinaryOp::Assign,
                        left: Box::new(expr),
                        right: Box::new(rhs),
                    },
                    crate::parser::token::Span { start: 0, end: 0 },
                )
            } else {
                expr
            };
            step.push(item);
            proof {
                lemma_exprs_m_push(bv, item);
            }
            if !self.eat(TokenKind::Comma).is_some() {
                assert(before + seq![expr_m(item)] =~= exprs_m(step@));
                break;
            }
            assert(before + (seq![expr_m(item)] + sp_for_steps(t, self.st()).0) =~= exprs_m(step@)
                + sp_for_steps(t, self.st()).0);
        }
        step
    }

    fn parse_for_statement(&mut self) -> (s: Statement)
        requires
            old(self).wf(),
            old(self).cur() == TokenKind::KwFor,
        ensures
            progressed(*old(self), *final(self)),
            s.kind is For,
            s.span.start == old(self).tokens@[old(self).pos as int].span.start,
            (stmt_m(s), final(self).st()) == sp_for(old(self).tokens@, old(self).st()),
        decreases old(self).tokens@.len() - old(self).pos, 1nat,
    {
        let start = self.tokens[self.pos].span.start;
        self.expect(TokenKind::KwFor);
        self.expect(TokenKind::LParen);
        let init = self.parse_for_init();
        self.expect(TokenKind::Semicolon);
        let condition = if !self.at(TokenKind::Semicolon) {
            Some(self.parse_expression())
        } else {
            None
        };
        self.expect(TokenKind::Semicolon);
        let step = if !self.at(TokenKind::RParen) {
            self.parse_for_steps()
        } else {
            let v: Vec<Expression> = Vec::new();
            assert(exprs_m(v@) =~= Seq::<ExprM>::empty());
            v
        };
        self.expect(TokenKind::RParen);
        let body = self.parse_statement();
        Statement::new(
            StatementKind::For { init, condition, step, body: Box::new(body) },
            self.span_from(start),
        )
    }

    /// The loop variables of a `foreach`.
    fn parse_foreach_vars(&mut self) -> (vars: Vec<Option<Identifier>>)
        requires
            old(self).wf(),
        ensures
            moved_on(*old(self), *final(self)),
            (vars@.map_values(|v: Option<Identifier>| opt_ident_m(v)), final(self).st())
                == sp_foreach_vars(old(self).tokens@, old(self).st()),
    {
        let ghost t = self.tokens@;
        let ghost s0 = self.st();
        let ghost p0 = *old(self);
        let mut vars: Vec<Option<Identifier>> = Vec::new();
        assert(vars@.map_values(|v: Option<Identifier>| opt_ident_m(v)) =~= Seq::<
            Option<IdentM>,
        >::empty());
        loop
            invariant_except_break
                sp_foreach_vars(t, s0) == (vars@.map_values(|v: Option<Identifier>| opt_ident_m(v))
                    + sp_foreach_vars(t, self.st()).0, sp_foreach_vars(t, self.st()).1),
            invariant
                moved_on(p0, *self),
                t == self.tokens@,
                s0 == p0.st(),
            ensures
                sp_foreach_vars(t, s0) == (vars@.map_values(|v: Option<Identifier>| opt_ident_m(v)),
                self.st()),
            decreases self.tokens@.len() - self.pos,
        {
            let ghost before = vars@.map_values(|v: Option<Identifier>| opt_ident_m(v));
            if self.at(TokenKind::RBracket) {
                assert(before + Seq::<Option<IdentM>>::empty() =~= before);
                break;
            }
            let v = if self.at(TokenKind::Comma) {
                None
            } else {
                Some(self.parse_identifier())
            };
            let ghost vm = opt_ident_m(v);
            vars.push(v);
            assert(vars@.map_values(|v: Option<Identifier>| opt_ident_m(v)) =~= before.push(vm));
            if self.eat(TokenKind::Comma).is_none() {
                assert(before + seq![vm] =~= vars@.map_values(
                    |v: Option<Identifier>| opt_ident_m(v),
                ));
                break;
            }
            assert(before + (seq![vm] + sp_foreach_vars(t, self.st()).0) =~= vars@.map_values(
                |v: Option<Identifier>| opt_ident_m(v),
            ) + sp_foreach_vars(t, self.st()).0);
        }
        vars
    }

    fn parse_foreach_statement(&mut self) -> (s: Statement)
        requires
            old(self).wf(),
            old(self).cur() == TokenKind::KwForeach,
        ensures
            progressed(*old(self), *final(self)),
            s.kind is Foreach,
            s.span.start == old(self).tokens@[old(self).pos as int].span.start,
            (stmt_m(s), final(self).st()) == sp_foreach(old(self).tokens@, old(self).st()),
        decreases old(self).tokens@.len() - old(self).pos, 1nat,
    {
        let start = self.tokens[self.pos].span.start;
        self.expect(TokenKind::KwForeach);
        self.expect(TokenKind::LParen);
        // Array name: can be hierarchical, but no indices yet.
        let array_hier = self.parse_hierarchical_identifier();
        let array_expr = Expression::new(ExprKind::Ident(array_hier), self.span_from(start));
        self.expect(TokenKind::LBracket);
        let vars = self.parse_foreach_vars();
        self.expect(TokenKind::RBracket);
        self.expect(TokenKind::RParen);
        let body = self.parse_statement();
        Statement::new(
            StatementKind::Foreach { array: array_expr, vars, body: Box::new(body) },
            self.span_from(start),
        )
    }

    fn parse_while_statement(&mut self) -> (s: Statement)
        requires
            old(self).wf(),
            old(self).cur() == TokenKind::KwWhile,
        ensures
            progressed(*old(self), *final(self)),
            s.kind is While,
            s.span.start == old(self).tokens@[old(self).pos as int].span.start,
            (stmt_m(s), final(self).st()) == sp_while(old(self).tokens@, old(self).st()),
        decreases old(self).tokens@.len() - old(self).pos, 1nat,
    {
        let start = self.tokens[self.pos].span.start;
        self.expect(TokenKind::KwWhile);
        self.expect(TokenKind::LParen);
        let condition = self.parse_expression();
        self.expect(TokenKind::RParen);
        let body = self.parse_statement();
        Statement::new(StatementKind::While { condition, body: Box::new(body) }, self.span_from(start))
    }

    fn parse_do_while_statement(&mut self) -> (s: Statement)
        requires
            old(self).wf(),
            old(self).cur() == TokenKind::KwDo,
        ensures
            progressed(*old(self), *final(self)),
            s.kind is DoWhile,
            s.span.start == old(self).tokens@[old(self).pos as int].span.start,
            (stmt_m(s), final(self).st()) == sp_do_while(old(self).tokens@, old(self).st()),
        decreases old(self).tokens@.len() - old(self).pos, 1nat,
    {
        let start = self.tokens[self.pos].span.start;
        self.expect(TokenKind::KwDo);
        let body = self.parse_statement();
        self.expect(TokenKind::KwWhile);
        self.expect(TokenKind::LParen);
        let condition = self.parse_expression();
        self.expect(TokenKind::RParen);
        self.expect(TokenKind::Semicolon);
        Statement::new(StatementKind::DoWhile { body: Box::new(body), condition }, self.span_from(start))
    }

    fn parse_repeat_statement(&mut self) -> (s: Statement)
        requires
            old(self).wf(),
            old(self).cur() == TokenKind::KwRepeat,
        ensures
            progressed(*old(self), *final(self)),
            s.kind is Repeat,
            s.span.start == old(self).tokens@[old(self).pos as int].span.start,
            (stmt_m(s), final(self).st()) == sp_repeat(old(self).tokens@, old(self).st()),
        decreases old(self).tokens@.len() - old(self).pos, 1nat,
    {
        let start = self.tokens[self.pos].span.start;
        self.expect(TokenKind::KwRepeat);
        self.expect(TokenKind::LParen);
        let count = self.parse_expression();
        self.expect(TokenKind::RParen);
        let body = self.parse_statement();
        Statement::new(StatementKind::Repeat { count, body: Box::new(body) }, self.span_from(start))
    }

    /// Events `[edge] expr [iff expr]` separated by `or` or commas.
    fn parse_events(&mut self) -> (events: Vec<EventExpr>)
        requires
            old(self).wf(),
        ensures
            moved_on(*old(self), *final(self)),
            (events@.map_values(|e: EventExpr| event_expr_m(e)), final(self).st()) == sp_events(
                old(self).tokens@,
                old(self).st(),
            ),
    {
        let ghost t = self.tokens@;
        let ghost s0 = self.st();
        let ghost p0 = *old(self);
        let mut events: Vec<EventExpr> = Vec::new();
        assert(events@.map_values(|e: EventExpr| event_expr_m(e)) =~= Seq::<EventExprM>::empty());
        loop
            invariant_except_break
                sp_events(t, s0) == (events@.map_values(|e: EventExpr| event_expr_m(e)) + sp_events(
                    t,
                    self.st(),
                ).0, sp_events(t, self.st()).1),
            invariant
                moved_on(p0, *self),
                t == self.tokens@,
                s0 == p0.st(),
            ensures
                sp_events(t, s0) == (events@.map_values(|e: EventExpr| event_expr_m(e)), self.st()),
            decreases self.tokens@.len() - self.pos,
        {
            let ghost before = events@.map_values(|e: EventExpr| event_expr_m(e));
            let estart = self.tokens[self.pos].span.start;
            let edge = match self.current_kind() {
                TokenKind::KwPosedge => {
                    self.bump();
                    Some(Edge::Posedge)
                },
                TokenKind::KwNegedge => {
                    self.bump();
                    Some(Edge::Negedge)
                },
                TokenKind::KwEdge => {
                    self.bump();
                    Some(Edge::Edge)
                },
                _ => None,
            };
            let expr = self.parse_expression();
            let iff = if self.eat(TokenKind::KwIff).is_some() {
                Some(self.parse_expression())
            } else {
                None
            };
            let span = self.span_from(estart);
            let ev = EventExpr { edge, expr, iff, span };
            let ghost em = event_expr_m(ev);
            events.push(ev);
            assert(events@.map_values(|e: EventExpr| event_expr_m(e)) =~= before.push(em));
            if self.eat(TokenKind::KwOr).is_some() || self.eat(TokenKind::Comma).is_some() {
                assert(before + (seq![em] + sp_events(t, self.st()).0) =~= events@.map_values(
                    |e: EventExpr| event_expr_m(e),
                ) + sp_events(t, self.st()).0);
                continue;
            }
            assert(before + seq![em] =~= events@.map_values(|e: EventExpr| event_expr_m(e)));
            break;
        }
        events
    }

    /// `@*`, `@(*)`, `@(ev or posedge clk iff en, ...)` or `@name`.
    pub fn parse_event_control(&mut self) -> (c: EventControl)
        requires
            old(self).wf(),
        ensures
            moved_on(*old(self), *final(self)),
            old(self).cur() == TokenKind::At ==> old(self).pos < final(self).pos,
            (event_control_m(c), final(self).st()) == sp_event_control(
                old(self).tokens@,
                old(self).st(),
            ),
    {
        self.expect(TokenKind::At);
        if self.eat(TokenKind::Star).is_some() {
            return EventControl::Star;
        }
        if self.eat(TokenKind::LParen).is_some() {
            if self.eat(TokenKind::Star).is_some() {
                self.expect(TokenKind::RParen);
                return EventControl::ParenStar;
            }
            let events = self.parse_events();
            self.expect(TokenKind::RParen);
            EventControl::EventExpr(events)
        } else {
            let expr = self.parse_hierarchical_identifier_expr();
            EventControl::HierIdentifier(expr)
        }
    }

    /// `assert|assume|cover [property] (expr) [action] [else action]`.
    pub fn parse_assertion_statement(&mut self) -> (a: AssertionStatement)
        requires
            old(self).wf(),
            old(self).cur() == TokenKind::KwAssert || old(self).cur() == TokenKind::KwAssume
                || old(self).cur() == TokenKind::KwCover,
        ensures
            progressed(*old(self), *final(self)),
            old(self).cur() == TokenKind::KwAssert ==> a.kind == AssertionKind::Assert,
            old(self).cur() == TokenKind::KwAssume ==> a.kind == AssertionKind::Assume,
            old(self).cur() == TokenKind::KwCover ==> a.kind == AssertionKind::Cover,
            (assertion_m(a), final(self).st()) == sp_assertion(old(self).tokens@, old(self).st()),
        decreases old(self).tokens@.len() - old(self).pos, 1nat,
    {
        let start = self.tokens[self.pos].span.start;
        let kind = match self.bump().kind {
            TokenKind::KwAssume => AssertionKind::Assume,
            TokenKind::KwCover => AssertionKind::Cover,
            _ => AssertionKind::Assert,
        };
        self.eat(TokenKind::KwProperty);  // Optional "property" keyword
        self.expect(TokenKind::LParen);
        let expr = self.parse_expression();
        self.expect(TokenKind::RParen);
        let action = if !self.at(TokenKind::Semicolon) && !self.at(TokenKind::KwElse) {
            Some(Box::new(self.parse_statement()))
        } else {
            if self.at(TokenKind::Semicolon) {
                self.bump();
            }
            None
        };
        let else_action = if self.eat(TokenKind::KwElse).is_some() {
            Some(Box::new(self.parse_statement()))
        } else {
            None
        };
        AssertionStatement { kind, expr, action, else_action, span: self.span_from(start) }
    }
}

/// The name given to an event trigger whose target is not an identifier.
fn event_name() -> (s: String)
    ensures
        s@ == seq!['e', 'v', 'e', 'n', 't'],
{
    let mut s = String::new();
    s.push('e');
    s.push('v');
    s.push('e');
    s.push('n');
    s.push('t');
    assert(s@ =~= seq!['e', 'v', 'e', 'n', 't']);
    s
}

} // verus!
