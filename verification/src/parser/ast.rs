//! Syntax trees for expressions, data types and statements.

use vstd::prelude::*;

use crate::parser::model::{expr_m, exprs_m, lemma_exprs_m, lemma_exprs_m_push};
use crate::parser::token::{Span, TokenKind};

verus! {

#[derive(Debug)]
pub struct Identifier {
    pub name: String,
    pub span: Span,
}

/// `a.b.c` or `pkg::name`: the segments in order.
#[derive(Debug)]
pub struct HierarchicalIdentifier {
    pub path: Vec<Identifier>,
    pub span: Span,
}

#[derive(Debug, Clone, Copy, PartialEq, Eq, Structural)]
pub enum UnaryOp {
    Plus,
    Minus,
    Not,
    BitNot,
    ReduceAnd,
    ReduceOr,
    ReduceXor,
    PostIncrement,
    PostDecrement,
}

#[derive(Debug, Clone, Copy, PartialEq, Eq, Structural)]
pub enum BinaryOp {
    Add,
    Sub,
    Mul,
    Div,
    Mod,
    Eq,
    Neq,
    Lt,
    Leq,
    Gt,
    Geq,
    LogAnd,
    LogOr,
    BitAnd,
    BitOr,
    BitXor,
    ShiftLeft,
    ShiftRight,
    Assign,
}

#[derive(Debug)]
pub enum ExprKind {
    Ident(HierarchicalIdentifier),
    Literal(String),
    Unary { op: UnaryOp, operand: Box<Expression> },
    Binary { op: BinaryOp, left: Box<Expression>, right: Box<Expression> },
    Conditional { condition: Box<Expression>, then_expr: Box<Expression>, else_expr: Box<Expression> },
    /// `base[index]` or the part select `base[index:end]`.
    Index { base: Box<Expression>, index: Box<Expression>, end: Option<Box<Expression>> },
    Call { callee: Box<Expression>, args: Vec<Expression> },
    Concat(Vec<Expression>),
    /// Where an expression was expected but none could be read.
    Error,
}

#[derive(Debug)]
pub struct Expression {
    pub kind: ExprKind,
    pub span: Span,
}

impl Identifier {
    pub fn duplicate(&self) -> (r: Identifier)
        ensures
            r == *self,
    {
        Identifier { name: self.name.clone(), span: self.span }
    }
}

impl HierarchicalIdentifier {
    pub fn duplicate(&self) -> (r: HierarchicalIdentifier)
        ensures
            r.path@ == self.path@,
            r.span == self.span,
    {
        let mut path: Vec<Identifier> = Vec::new();
        let mut i: usize = 0;
        while i < self.path.len()
            invariant
                0 <= i <= self.path@.len(),
                path@ == self.path@.take(i as int),
            decreases self.path@.len() - i,
        {
            path.push(self.path[i].duplicate());
            i = i + 1;
            assert(path@ =~= self.path@.take(i as int));
        }
        assert(self.path@.take(self.path@.len() as int) =~= self.path@);
        HierarchicalIdentifier { path, span: self.span }
    }
}

fn duplicate_all(v: &Vec<Expression>) -> (r: Vec<Expression>)
    ensures
        exprs_m(r@) == exprs_m(v@),
    decreases v, 1nat,
{
    let mut r: Vec<Expression> = Vec::new();
    let mut i: usize = 0;
    proof {
        lemma_exprs_m(v@);
    }
    while i < v.len()
        invariant
            0 <= i <= v@.len(),
            exprs_m(r@) == exprs_m(v@.take(i as int)),
            exprs_m(v@).len() == v@.len(),
            forall|j: int| 0 <= j < v@.len() ==> #[trigger] exprs_m(v@)[j] == expr_m(v@[j]),
        decreases v@.len() - i,
    {
        proof {
            assert(decreases_to!(v => v[i as int]));
        }
        let d = v[i].duplicate();
        let ghost before = r@;
        r.push(d);
        proof {
            lemma_exprs_m_push(before, d);
            lemma_exprs_m_push(v@.take(i as int), v@[i as int]);
            assert(v@.take(i + 1) =~= v@.take(i as int).push(v@[i as int]));
        }
        i = i + 1;
    }
    proof {
        assert(v@.take(v@.len() as int) =~= v@);
    }
    r
}

impl Expression {
    /// A copy of the expression.
    pub fn duplicate(&self) -> (r: Expression)
        ensures
            r.span == self.span,
            expr_m(r) == expr_m(*self),
        decreases self, 0nat,
    {
        let kind = match &self.kind {
            ExprKind::Ident(h) => ExprKind::Ident(h.duplicate()),
            ExprKind::Literal(t) => ExprKind::Literal(t.clone()),
            ExprKind::Unary { op, operand } => ExprKind::Unary {
                op: *op,
                operand: Box::new(operand.duplicate()),
            },
            ExprKind::Binary { op, left, right } => ExprKind::Binary {
                op: *op,
                left: Box::new(left.duplicate()),
                right: Box::new(right.duplicate()),
            },
            ExprKind::Conditional { condition, then_expr, else_expr } => ExprKind::Conditional {
                condition: Box::new(condition.duplicate()),
                then_expr: Box::new(then_expr.duplicate()),
                else_expr: Box::new(else_expr.duplicate()),
            },
            ExprKind::Index { base, index, end } => ExprKind::Index {
                base: Box::new(base.duplicate()),
                index: Box::new(index.duplicate()),
                end: match end {
                    Some(e) => Some(Box::new(e.duplicate())),
                    None => None,
                },
            },
            ExprKind::Call { callee, args } => ExprKind::Call {
                callee: Box::new(callee.duplicate()),
                args: duplicate_all(args),
            },
            ExprKind::Concat(items) => ExprKind::Concat(duplicate_all(items)),
            ExprKind::Error => ExprKind::Error,
        };
        Expression { kind, span: self.span }
    }

    pub fn new(kind: ExprKind, span: Span) -> (e: Expression)
        ensures
            e.kind == kind,
            e.span == span,
    {
        Expression { kind, span }
    }
}

#[derive(Debug, Clone, Copy, PartialEq, Eq, Structural)]
pub enum Signing {
    Signed,
    Unsigned,
}

/// `[msb:lsb]`, `[size]` (no `lsb`) or `[]` (neither).
#[derive(Debug)]
pub struct Dimension {
    pub msb: Option<Expression>,
    pub lsb: Option<Expression>,
    pub span: Span,
}

#[derive(Debug)]
pub enum DataType {
    Builtin { keyword: TokenKind, signing: Option<Signing>, dimensions: Vec<Dimension>, span: Span },
    Named { name: HierarchicalIdentifier, dimensions: Vec<Dimension>, span: Span },
    Implicit { signing: Option<Signing>, dimensions: Vec<Dimension>, span: Span },
}

#[derive(Debug, Clone, Copy, PartialEq, Eq, Structural)]
pub enum Lifetime {
    Static,
    Automatic,
}

#[derive(Debug)]
pub struct VarDeclarator {
    pub name: Identifier,
    pub dimensions: Vec<Dimension>,
    pub init: Option<Expression>,
    pub span: Span,
}

#[derive(Debug, Clone, Copy, PartialEq, Eq, Structural)]
pub enum UniquePriority {
    Unique,
    Unique0,
    Priority,
}

#[derive(Debug, Clone, Copy, PartialEq, Eq, Structural)]
pub enum CaseKind {
    Case,
    Casex,
    Casez,
    CaseInside,
}

#[derive(Debug)]
pub struct CaseItem {
    pub patterns: Vec<Expression>,
    pub is_default: bool,
    pub stmt: Statement,
    pub span: Span,
}

#[derive(Debug)]
pub enum ForInit {
    VarDecl { data_type: DataType, name: Identifier, init: Expression },
    Assign { lvalue: Expression, rvalue: Expression },
}

#[derive(Debug, Clone, Copy, PartialEq, Eq, Structural)]
pub enum JoinType {
    Join,
    JoinAny,
    JoinNone,
}

#[derive(Debug, Clone, Copy, PartialEq, Eq, Structural)]
pub enum Edge {
    Posedge,
    Negedge,
    Edge,
}

#[derive(Debug)]
pub struct EventExpr {
    pub edge: Option<Edge>,
    pub expr: Expression,
    pub iff: Option<Expression>,
    pub span: Span,
}

#[derive(Debug)]
pub enum EventControl {
    /// `@*`
    Star,
    /// `@(*)`
    ParenStar,
    /// `@(a or posedge b, c)`
    EventExpr(Vec<EventExpr>),
    /// `@name`
    HierIdentifier(Expression),
}

#[derive(Debug)]
pub enum TimingControl {
    Event(EventControl),
    Delay(Expression),
}

#[derive(Debug, Clone, Copy, PartialEq, Eq, Structural)]
pub enum AssertionKind {
    Assert,
    Assume,
    Cover,
}

#[derive(Debug)]
pub struct AssertionStatement {
    pub kind: AssertionKind,
    pub expr: Expression,
    pub action: Option<Box<Statement>>,
    pub else_action: Option<Box<Statement>>,
    pub span: Span,
}

#[derive(Debug)]
pub enum ProceduralContinuous {
    Assign { lvalue: Expression, rvalue: Expression },
    Force { lvalue: Expression, rvalue: Expression },
    Deassign(Expression),
    Release(Expression),
}

#[derive(Debug)]
pub enum StatementKind {
    Null,
    SeqBlock { name: Option<Identifier>, stmts: Vec<Statement> },
    ParBlock { name: Option<Identifier>, join_type: JoinType, stmts: Vec<Statement> },
    If {
        condition: Expression,
        then_stmt: Box<Statement>,
        else_stmt: Option<Box<Statement>>,
        unique_priority: Option<UniquePriority>,
    },
    Case {
        unique_priority: Option<UniquePriority>,
        kind: CaseKind,
        expr: Expression,
        items: Vec<CaseItem>,
    },
    For {
        init: Vec<ForInit>,
        condition: Option<Expression>,
        step: Vec<Expression>,
        body: Box<Statement>,
    },
    Foreach { array: Expression, vars: Vec<Option<Identifier>>, body: Box<Statement> },
    While { condition: Expression, body: Box<Statement> },
    DoWhile { body: Box<Statement>, condition: Expression },
    Repeat { count: Expression, body: Box<Statement> },
    Forever { body: Box<Statement> },
    Return(Option<Expression>),
    Break,
    Continue,
    WaitFork,
    Wait { condition: Expression, stmt: Box<Statement> },
    VarDecl {
        data_type: DataType,
        lifetime: Option<Lifetime>,
        declarators: Vec<VarDeclarator>,
    },
    Disable(Identifier),
    Assertion(AssertionStatement),
    ProceduralContinuous(ProceduralContinuous),
    Coverpoint { name: Option<Identifier>, expr: Expression, span: Span },
    Cross { name: Option<Identifier>, items: Vec<Expression>, span: Span },
    TimingControl { control: TimingControl, stmt: Box<Statement> },
    EventTrigger { nonblocking: bool, name: Identifier, span: Span },
    BlockingAssign { lvalue: Expression, rvalue: Expression },
    NonblockingAssign { lvalue: Expression, delay: Option<Expression>, rvalue: Expression },
    Expr(Expression),
}

#[derive(Debug)]
pub struct Statement {
    pub kind: StatementKind,
    pub span: Span,
}

impl Statement {
    pub fn new(kind: StatementKind, span: Span) -> (s: Statement)
        ensures
            s.kind == kind,
            s.span == span,
    {
        Statement { kind, span }
    }
}

} // verus!
