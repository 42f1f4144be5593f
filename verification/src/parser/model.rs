//! Models of syntax trees over mathematical sequences, and of the parser's
//! state: the position and the errors recorded so far.

use vstd::prelude::*;

use crate::parser::ast::{
    AssertionKind, AssertionStatement, BinaryOp, CaseItem, CaseKind, DataType, Dimension, Edge,
    EventControl, EventExpr, Expression, ExprKind, ForInit, HierarchicalIdentifier, Identifier,
    JoinType, Lifetime, ProceduralContinuous, Signing, Statement, StatementKind, TimingControl,
    UnaryOp, UniquePriority, VarDeclarator,
};
use crate::parser::cursor::SyntaxError;
use crate::parser::token::{Span, TokenKind};

verus! {

/// Where a parser stands in its tokens and the errors it has recorded.
pub struct PState {
    pub pos: int,
    pub errs: Seq<SyntaxError>,
}

pub struct IdentM {
    pub name: Seq<char>,
    pub span: Span,
}

pub struct HierM {
    pub path: Seq<IdentM>,
    pub span: Span,
}

pub enum ExprKindM {
    Ident(HierM),
    Literal(Seq<char>),
    Unary { op: UnaryOp, operand: Box<ExprM> },
    Binary { op: BinaryOp, left: Box<ExprM>, right: Box<ExprM> },
    Conditional { condition: Box<ExprM>, then_expr: Box<ExprM>, else_expr: Box<ExprM> },
    Index { base: Box<ExprM>, index: Box<ExprM>, end: Option<Box<ExprM>> },
    Call { callee: Box<ExprM>, args: Seq<ExprM> },
    Concat(Seq<ExprM>),
    Error,
}

pub struct ExprM {
    pub kind: ExprKindM,
    pub span: Span,
}

pub struct DimM {
    pub msb: Option<ExprM>,
    pub lsb: Option<ExprM>,
    pub span: Span,
}

pub enum DataTypeM {
    Builtin { keyword: TokenKind, signing: Option<Signing>, dimensions: Seq<DimM>, span: Span },
    Named { name: HierM, dimensions: Seq<DimM>, span: Span },
    Implicit { signing: Option<Signing>, dimensions: Seq<DimM>, span: Span },
}

pub struct DeclM {
    pub name: IdentM,
    pub dimensions: Seq<DimM>,
    pub init: Option<ExprM>,
    pub span: Span,
}

pub enum ForInitM {
    VarDecl { data_type: DataTypeM, name: IdentM, init: ExprM },
    Assign { lvalue: ExprM, rvalue: ExprM },
}

pub struct EventExprM {
    pub edge: Option<Edge>,
    pub expr: ExprM,
    pub iff: Option<ExprM>,
    pub span: Span,
}

pub enum EventControlM {
    Star,
    ParenStar,
    EventExpr(Seq<EventExprM>),
    HierIdentifier(ExprM),
}

pub enum TimingControlM {
    Event(EventControlM),
    Delay(ExprM),
}

pub enum ProcContM {
    Assign { lvalue: ExprM, rvalue: ExprM },
    Force { lvalue: ExprM, rvalue: ExprM },
    Deassign(ExprM),
    Release(ExprM),
}

pub struct AssertionM {
    pub kind: AssertionKind,
    pub expr: ExprM,
    pub action: Option<Box<StmtM>>,
    pub else_action: Option<Box<StmtM>>,
    pub span: Span,
}

pub struct CaseItemM {
    pub patterns: Seq<ExprM>,
    pub is_default: bool,
    pub stmt: StmtM,
    pub span: Span,
}

pub enum StmtKindM {
    Null,
    SeqBlock { name: Option<IdentM>, stmts: Seq<StmtM> },
    ParBlock { name: Option<IdentM>, join_type: JoinType, stmts: Seq<StmtM> },
    If {
        condition: ExprM,
        then_stmt: Box<StmtM>,
        else_stmt: Option<Box<StmtM>>,
        unique_priority: Option<UniquePriority>,
    },
    Case { unique_priority: Option<UniquePriority>, kind: CaseKind, expr: ExprM, items: Seq<CaseItemM> },
    For { init: Seq<ForInitM>, condition: Option<ExprM>, step: Seq<ExprM>, body: Box<StmtM> },
    Foreach { array: ExprM, vars: Seq<Option<IdentM>>, body: Box<StmtM> },
    While { condition: ExprM, body: Box<StmtM> },
    DoWhile { body: Box<StmtM>, condition: ExprM },
    Repeat { count: ExprM, body: Box<StmtM> },
    Forever { body: Box<StmtM> },
    Return(Option<ExprM>),
    Break,
    Continue,
    WaitFork,
    Wait { condition: ExprM, stmt: Box<StmtM> },
    VarDecl { data_type: DataTypeM, lifetime: Option<Lifetime>, declarators: Seq<DeclM> },
    Disable(IdentM),
    Assertion(AssertionM),
    ProceduralContinuous(ProcContM),
    Coverpoint { name: Option<IdentM>, expr: ExprM, span: Span },
    Cross { name: Option<IdentM>, items: Seq<ExprM>, span: Span },
    TimingControl { control: TimingControlM, stmt: Box<StmtM> },
    EventTrigger { nonblocking: bool, name: IdentM, span: Span },
    BlockingAssign { lvalue: ExprM, rvalue: ExprM },
    NonblockingAssign { lvalue: ExprM, delay: Option<ExprM>, rvalue: ExprM },
    Expr(ExprM),
}

pub struct StmtM {
    pub kind: StmtKindM,
    pub span: Span,
}

pub open spec fn ident_m(i: Identifier) -> IdentM {
    IdentM { name: i.name@, span: i.span }
}

pub open spec fn idents_m(v: Seq<Identifier>) -> Seq<IdentM> {
    v.map_values(|i: Identifier| ident_m(i))
}

pub open spec fn hier_m(h: HierarchicalIdentifier) -> HierM {
    HierM { path: idents_m(h.path@), span: h.span }
}

pub open spec fn expr_m(e: Expression) -> ExprM
    decreases e,
{
    ExprM {
        kind: match e.kind {
            ExprKind::Ident(h) => ExprKindM::Ident(hier_m(h)),
            ExprKind::Literal(t) => ExprKindM::Literal(t@),
            ExprKind::Unary { op, operand } => ExprKindM::Unary {
                op,
                operand: Box::new(expr_m(*operand)),
            },
            ExprKind::Binary { op, left, right } => ExprKindM::Binary {
                op,
                left: Box::new(expr_m(*left)),
                right: Box::new(expr_m(*right)),
            },
            ExprKind::Conditional { condition, then_expr, else_expr } => ExprKindM::Conditional {
                condition: Box::new(expr_m(*condition)),
                then_expr: Box::new(expr_m(*then_expr)),
                else_expr: Box::new(expr_m(*else_expr)),
            },
            ExprKind::Index { base, index, end } => ExprKindM::Index {
                base: Box::new(expr_m(*base)),
                index: Box::new(expr_m(*index)),
                end: match end {
                    Some(x) => Some(Box::new(expr_m(*x))),
                    None => None,
                },
            },
            ExprKind::Call { callee, args } => ExprKindM::Call {
                callee: Box::new(expr_m(*callee)),
                args: exprs_m(args@),
            },
            ExprKind::Concat(items) => ExprKindM::Concat(exprs_m(items@)),
            ExprKind::Error => ExprKindM::Error,
        },
        span: e.span,
    }
}

pub open spec fn exprs_m(s: Seq<Expression>) -> Seq<ExprM>
    decreases s,
{
    if s.len() == 0 {
        seq![]
    } else {
        seq![expr_m(s[0])] + exprs_m(s.subrange(1, s.len() as int))
    }
}

pub open spec fn opt_expr_m(e: Option<Expression>) -> Option<ExprM> {
    match e {
        Some(x) => Some(expr_m(x)),
        None => None,
    }
}

pub open spec fn dim_m(d: Dimension) -> DimM {
    DimM { msb: opt_expr_m(d.msb), lsb: opt_expr_m(d.lsb), span: d.span }
}

pub open spec fn dims_m(v: Seq<Dimension>) -> Seq<DimM> {
    v.map_values(|d: Dimension| dim_m(d))
}

pub open spec fn data_type_m(d: DataType) -> DataTypeM {
    match d {
        DataType::Builtin { keyword, signing, dimensions, span } => DataTypeM::Builtin {
            keyword,
            signing,
            dimensions: dims_m(dimensions@),
            span,
        },
        DataType::Named { name, dimensions, span } => DataTypeM::Named {
            name: hier_m(name),
            dimensions: dims_m(dimensions@),
            span,
        },
        DataType::Implicit { signing, dimensions, span } => DataTypeM::Implicit {
            signing,
            dimensions: dims_m(dimensions@),
            span,
        },
    }
}

pub open spec fn opt_ident_m(i: Option<Identifier>) -> Option<IdentM> {
    match i {
        Some(x) => Some(ident_m(x)),
        None => None,
    }
}

pub open spec fn decl_m(d: VarDeclarator) -> DeclM {
    DeclM {
        name: ident_m(d.name),
        dimensions: dims_m(d.dimensions@),
        init: opt_expr_m(d.init),
        span: d.span,
    }
}

pub open spec fn decls_m(v: Seq<VarDeclarator>) -> Seq<DeclM> {
    v.map_values(|d: VarDeclarator| decl_m(d))
}

pub open spec fn for_init_m(i: ForInit) -> ForInitM {
    match i {
        ForInit::VarDecl { data_type, name, init } => ForInitM::VarDecl {
            data_type: data_type_m(data_type),
            name: ident_m(name),
            init: expr_m(init),
        },
        ForInit::Assign { lvalue, rvalue } => ForInitM::Assign {
            lvalue: expr_m(lvalue),
            rvalue: expr_m(rvalue),
        },
    }
}

pub open spec fn event_expr_m(e: EventExpr) -> EventExprM {
    EventExprM { edge: e.edge, expr: expr_m(e.expr), iff: opt_expr_m(e.iff), span: e.span }
}

pub open spec fn event_control_m(c: EventControl) -> EventControlM {
    match c {
        EventControl::Star => EventControlM::Star,
        EventControl::ParenStar => EventControlM::ParenStar,
        EventControl::EventExpr(v) => EventControlM::EventExpr(
            v@.map_values(|e: EventExpr| event_expr_m(e)),
        ),
        EventControl::HierIdentifier(e) => EventControlM::HierIdentifier(expr_m(e)),
    }
}

pub open spec fn timing_m(c: TimingControl) -> TimingControlM {
    match c {
        TimingControl::Event(e) => TimingControlM::Event(event_control_m(e)),
        TimingControl::Delay(d) => TimingControlM::Delay(expr_m(d)),
    }
}

pub open spec fn proc_m(p: ProceduralContinuous) -> ProcContM {
    match p {
        ProceduralContinuous::Assign { lvalue, rvalue } => ProcContM::Assign {
            lvalue: expr_m(lvalue),
            rvalue: expr_m(rvalue),
        },
        ProceduralContinuous::Force { lvalue, rvalue } => ProcContM::Force {
            lvalue: expr_m(lvalue),
            rvalue: expr_m(rvalue),
        },
        ProceduralContinuous::Deassign(e) => ProcContM::Deassign(expr_m(e)),
        ProceduralContinuous::Release(e) => ProcContM::Release(expr_m(e)),
    }
}

pub open spec fn stmt_m(s: Statement) -> StmtM
    decreases s,
{
    StmtM {
        kind: match s.kind {
            StatementKind::Null => StmtKindM::Null,
            StatementKind::SeqBlock { name, stmts } => StmtKindM::SeqBlock {
                name: opt_ident_m(name),
                stmts: stmts_m(stmts@),
            },
            StatementKind::ParBlock { name, join_type, stmts } => StmtKindM::ParBlock {
                name: opt_ident_m(name),
                join_type,
                stmts: stmts_m(stmts@),
            },
            StatementKind::If { condition, then_stmt, else_stmt, unique_priority } => StmtKindM::If {
                condition: expr_m(condition),
                then_stmt: Box::new(stmt_m(*then_stmt)),
                else_stmt: match else_stmt {
                    Some(e) => Some(Box::new(stmt_m(*e))),
                    None => None,
                },
                unique_priority,
            },
            StatementKind::Case { unique_priority, kind, expr, items } => StmtKindM::Case {
                unique_priority,
                kind,
                expr: expr_m(expr),
                items: case_items_m(items@),
            },
            StatementKind::For { init, condition, step, body } => StmtKindM::For {
                init: init@.map_values(|i: ForInit| for_init_m(i)),
                condition: opt_expr_m(condition),
                step: exprs_m(step@),
                body: Box::new(stmt_m(*body)),
            },
            StatementKind::Foreach { array, vars, body } => StmtKindM::Foreach {
                array: expr_m(array),
                vars: vars@.map_values(|v: Option<Identifier>| opt_ident_m(v)),
                body: Box::new(stmt_m(*body)),
            },
            StatementKind::While { condition, body } => StmtKindM::While {
                condition: expr_m(condition),
                body: Box::new(stmt_m(*body)),
            },
            StatementKind::DoWhile { body, condition } => StmtKindM::DoWhile {
                body: Box::new(stmt_m(*body)),
                condition: expr_m(condition),
            },
            StatementKind::Repeat { count, body } => StmtKindM::Repeat {
                count: expr_m(count),
                body: Box::new(stmt_m(*body)),
            },
            StatementKind::Forever { body } => StmtKindM::Forever { body: Box::new(stmt_m(*body)) },
            StatementKind::Return(e) => StmtKindM::Return(opt_expr_m(e)),
            StatementKind::Break => StmtKindM::Break,
            StatementKind::Continue => StmtKindM::Continue,
            StatementKind::WaitFork => StmtKindM::WaitFork,
            StatementKind::Wait { condition, stmt } => StmtKindM::Wait {
                condition: expr_m(condition),
                stmt: Box::new(stmt_m(*stmt)),
            },
            StatementKind::VarDecl { data_type, lifetime, declarators } => StmtKindM::VarDecl {
                data_type: data_type_m(data_type),
                lifetime,
                declarators: decls_m(declarators@),
            },
            StatementKind::Disable(i) => StmtKindM::Disable(ident_m(i)),
            StatementKind::Assertion(a) => StmtKindM::Assertion(assertion_m(a)),
            StatementKind::ProceduralContinuous(p) => StmtKindM::ProceduralContinuous(proc_m(p)),
            StatementKind::Coverpoint { name, expr, span } => StmtKindM::Coverpoint {
                name: opt_ident_m(name),
                expr: expr_m(expr),
                span,
            },
            StatementKind::Cross { name, items, span } => StmtKindM::Cross {
                name: opt_ident_m(name),
                items: exprs_m(items@),
                span,
            },
            StatementKind::TimingControl { control, stmt } => StmtKindM::TimingControl {
                control: timing_m(control),
                stmt: Box::new(stmt_m(*stmt)),
            },
            StatementKind::EventTrigger { nonblocking, name, span } => StmtKindM::EventTrigger {
                nonblocking,
                name: ident_m(name),
                span,
            },
            StatementKind::BlockingAssign { lvalue, rvalue } => StmtKindM::BlockingAssign {
                lvalue: expr_m(lvalue),
                rvalue: expr_m(rvalue),
            },
            StatementKind::NonblockingAssign { lvalue, delay, rvalue } => StmtKindM::NonblockingAssign {
                lvalue: expr_m(lvalue),
                delay: opt_expr_m(delay),
                rvalue: expr_m(rvalue),
            },
            StatementKind::Expr(e) => StmtKindM::Expr(expr_m(e)),
        },
        span: s.span,
    }
}

pub open spec fn stmts_m(v: Seq<Statement>) -> Seq<StmtM>
    decreases v,
{
    if v.len() == 0 {
        seq![]
    } else {
        seq![stmt_m(v[0])] + stmts_m(v.subrange(1, v.len() as int))
    }
}

pub open spec fn case_item_m(c: CaseItem) -> CaseItemM
    decreases c,
{
    CaseItemM {
        patterns: exprs_m(c.patterns@),
        is_default: c.is_default,
        stmt: stmt_m(c.stmt),
        span: c.span,
    }
}

pub open spec fn case_items_m(v: Seq<CaseItem>) -> Seq<CaseItemM>
    decreases v,
{
    if v.len() == 0 {
        seq![]
    } else {
        seq![case_item_m(v[0])] + case_items_m(v.subrange(1, v.len() as int))
    }
}

pub open spec fn assertion_m(a: AssertionStatement) -> AssertionM
    decreases a,
{
    AssertionM {
        kind: a.kind,
        expr: expr_m(a.expr),
        action: match a.action {
            Some(x) => Some(Box::new(stmt_m(*x))),
            None => None,
        },
        else_action: match a.else_action {
            Some(x) => Some(Box::new(stmt_m(*x))),
            None => None,
        },
        span: a.span,
    }
}

/// `exprs_m` models each expression in turn.
pub proof fn lemma_exprs_m(s: Seq<Expression>)
    ensures
        exprs_m(s).len() == s.len(),
        forall|i: int| 0 <= i < s.len() ==> #[trigger] exprs_m(s)[i] == expr_m(s[i]),
    decreases s.len(),
{
    if s.len() > 0 {
        let rest = s.subrange(1, s.len() as int);
        lemma_exprs_m(rest);
        assert forall|i: int| 0 <= i < s.len() implies #[trigger] exprs_m(s)[i] == expr_m(s[i]) by {
            if i > 0 {
                assert(exprs_m(s)[i] == exprs_m(rest)[i - 1]);
                assert(rest[i - 1] == s[i]);
            }
        }
    }
}

/// Appending an expression appends its model.
pub proof fn lemma_exprs_m_push(s: Seq<Expression>, e: Expression)
    ensures
        exprs_m(s.push(e)) == exprs_m(s).push(expr_m(e)),
{
    lemma_exprs_m(s);
    lemma_exprs_m(s.push(e));
    assert(exprs_m(s.push(e)) =~= exprs_m(s).push(expr_m(e))) by {
        assert forall|i: int| 0 <= i < s.len() + 1 implies exprs_m(s.push(e))[i] == exprs_m(s).push(
            expr_m(e),
        )[i] by {
            if i < s.len() {
                assert(s.push(e)[i] == s[i]);
            }
        }
    }
}

/// `stmts_m` models each statement in turn.
pub proof fn lemma_stmts_m(s: Seq<Statement>)
    ensures
        stmts_m(s).len() == s.len(),
        forall|i: int| 0 <= i < s.len() ==> #[trigger] stmts_m(s)[i] == stmt_m(s[i]),
    decreases s.len(),
{
    if s.len() > 0 {
        let rest = s.subrange(1, s.len() as int);
        lemma_stmts_m(rest);
        assert forall|i: int| 0 <= i < s.len() implies #[trigger] stmts_m(s)[i] == stmt_m(s[i]) by {
            if i > 0 {
                assert(stmts_m(s)[i] == stmts_m(rest)[i - 1]);
                assert(rest[i - 1] == s[i]);
            }
        }
    }
}

/// Appending a statement appends its model.
pub proof fn lemma_stmts_m_push(s: Seq<Statement>, e: Statement)
    ensures
        stmts_m(s.push(e)) == stmts_m(s).push(stmt_m(e)),
{
    lemma_stmts_m(s);
    lemma_stmts_m(s.push(e));
    assert(stmts_m(s.push(e)) =~= stmts_m(s).push(stmt_m(e))) by {
        assert forall|i: int| 0 <= i < s.len() + 1 implies stmts_m(s.push(e))[i] == stmts_m(s).push(
            stmt_m(e),
        )[i] by {
            if i < s.len() {
                assert(s.push(e)[i] == s[i]);
            }
        }
    }
}

/// `case_items_m` models each item in turn.
pub proof fn lemma_case_items_m(s: Seq<CaseItem>)
    ensures
        case_items_m(s).len() == s.len(),
        forall|i: int| 0 <= i < s.len() ==> #[trigger] case_items_m(s)[i] == case_item_m(s[i]),
    decreases s.len(),
{
    if s.len() > 0 {
        let rest = s.subrange(1, s.len() as int);
        lemma_case_items_m(rest);
        assert forall|i: int| 0 <= i < s.len() implies #[trigger] case_items_m(s)[i] == case_item_m(
            s[i],
        ) by {
            if i > 0 {
                assert(case_items_m(s)[i] == case_items_m(rest)[i - 1]);
                assert(rest[i - 1] == s[i]);
            }
        }
    }
}

/// Appending a case item appends its model.
pub proof fn lemma_case_items_m_push(s: Seq<CaseItem>, e: CaseItem)
    ensures
        case_items_m(s.push(e)) == case_items_m(s).push(case_item_m(e)),
{
    lemma_case_items_m(s);
    lemma_case_items_m(s.push(e));
    assert(case_items_m(s.push(e)) =~= case_items_m(s).push(case_item_m(e))) by {
        assert forall|i: int| 0 <= i < s.len() + 1 implies case_items_m(s.push(e))[i]
            == case_items_m(s).push(case_item_m(e))[i] by {
            if i < s.len() {
                assert(s.push(e)[i] == s[i]);
            }
        }
    }
}

} // verus!
