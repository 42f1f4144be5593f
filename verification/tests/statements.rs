use sv_frontend::parser::ast::{
    AssertionKind, BinaryOp, CaseKind, DataType, Edge, EventControl, ExprKind, ForInit, JoinType,
    Lifetime, ProceduralContinuous, Statement, StatementKind, TimingControl, UnaryOp,
    UniquePriority,
};
use sv_frontend::parser::token::{Span, Token, TokenKind};
use sv_frontend::parser::token::TokenKind::{
    Arrow, Assign, At, Colon, Comma, Directive, Dot, DoubleArrow, DoubleColon, Eof,
    Identifier, IntegerLiteral, KwAssert, KwAssign, KwAssume, KwAutomatic, KwBegin, KwBreak,
    KwCase, KwCasex, KwCasez, KwContinue, KwCover, KwCoverpoint, KwCross, KwDeassign, KwDefault,
    KwDisable, KwDo, KwElse, KwEnd, KwEndcase, KwEvent, KwFor, KwForce, KwForeach, KwForever,
    KwFork, KwIf, KwIff, KwInput, KwInside, KwInt, KwJoin, KwJoin_any, KwJoin_none, KwLocal,
    KwLogic, KwNegedge, KwOr, KwPosedge, KwPriority, KwProperty, KwRelease, KwRepeat, KwReturn,
    KwStatic, KwTypedef, KwUnique, KwWait, KwWhile, LBrace, LBracket, LParen, Leq, Lt, Plus,
    PlusAssign, PlusPlus, Question, RBrace, RBracket, RParen, Semicolon, ShiftLeft,
    ShiftLeftAssign, Star,
};
use sv_frontend::Parser;

fn parser(ts: &[(TokenKind, &str)]) -> Parser {
    let tokens = ts
        .iter()
        .enumerate()
        .map(|(i, (k, t))| Token::new(*k, t.to_string(), Span { start: i * 10, end: i * 10 + t.len() }))
        .collect();
    Parser::new(tokens)
}

fn parse(ts: &[(TokenKind, &str)]) -> (Statement, Parser) {
    let mut p = parser(ts);
    let s = p.parse_statement();
    (s, p)
}

fn ident_name(e: &sv_frontend::parser::ast::Expression) -> String {
    match &e.kind {
        ExprKind::Ident(h) => h.path.iter().map(|s| s.name.clone()).collect::<Vec<_>>().join("."),
        _ => String::new(),
    }
}

#[test]
fn blocking_assignment() {
    let (s, p) = parse(&[(Identifier, "x"), (Assign, "="), (Identifier, "y"), (Plus, "+"), (IntegerLiteral, "1"), (Semicolon, ";")]);
    match s.kind {
        StatementKind::BlockingAssign { lvalue, rvalue } => {
            assert_eq!(ident_name(&lvalue), "x");
            assert!(matches!(rvalue.kind, ExprKind::Binary { op: BinaryOp::Add, .. }));
        }
        _ => panic!("expected a blocking assignment"),
    }
    assert!(p.errors.is_empty());
    assert_eq!(p.current_kind(), Eof);
    assert_eq!(s.span, Span { start: 0, end: 51 });
}

#[test]
fn compound_assignment_expands() {
    let (s, _) = parse(&[(Identifier, "x"), (PlusAssign, "+="), (IntegerLiteral, "2"), (Semicolon, ";")]);
    match s.kind {
        StatementKind::BlockingAssign { lvalue, rvalue } => {
            assert_eq!(ident_name(&lvalue), "x");
            match rvalue.kind {
                ExprKind::Binary { op: BinaryOp::Add, left, right } => {
                    assert_eq!(ident_name(&left), "x");
                    assert!(matches!(right.kind, ExprKind::Literal(ref t) if t == "2"));
                }
                _ => panic!("expected x + 2"),
            }
        }
        _ => panic!("expected a blocking assignment"),
    }
}

#[test]
fn shift_compound_assignment() {
    let (s, _) = parse(&[(Identifier, "x"), (ShiftLeftAssign, "<<="), (IntegerLiteral, "1"), (Semicolon, ";")]);
    assert!(matches!(s.kind, StatementKind::BlockingAssign { rvalue: sv_frontend::parser::ast::Expression { kind: ExprKind::Binary { op: BinaryOp::ShiftLeft, .. }, .. }, .. }));
}

#[test]
fn nonblocking_assignment() {
    let (s, p) = parse(&[(Identifier, "q"), (Leq, "<="), (Identifier, "d"), (Semicolon, ";")]);
    assert!(matches!(s.kind, StatementKind::NonblockingAssign { delay: None, .. }));
    assert!(p.errors.is_empty());
}

#[test]
fn expression_statement_call() {
    let (s, _) = parse(&[(Identifier, "f"), (LParen, "("), (Identifier, "a"), (Comma, ","), (Identifier, "b"), (RParen, ")"), (Semicolon, ";")]);
    match s.kind {
        StatementKind::Expr(e) => match e.kind {
            ExprKind::Call { args, .. } => assert_eq!(args.len(), 2),
            _ => panic!("expected a call"),
        },
        _ => panic!("expected an expression statement"),
    }
}

#[test]
fn precedence_and_conditional() {
    let (s, _) = parse(&[(Identifier, "x"), (Assign, "="), (Identifier, "a"), (Plus, "+"), (Identifier, "b"), (Star, "*"), (Identifier, "c"), (Semicolon, ";")]);
    match s.kind {
        StatementKind::BlockingAssign { rvalue, .. } => match rvalue.kind {
            ExprKind::Binary { op: BinaryOp::Add, right, .. } => {
                assert!(matches!(right.kind, ExprKind::Binary { op: BinaryOp::Mul, .. }))
            }
            _ => panic!("expected a + (b * c)"),
        },
        _ => panic!(),
    }
    let (s, _) = parse(&[(Identifier, "x"), (Assign, "="), (Identifier, "c"), (Question, "?"), (Identifier, "a"), (Colon, ":"), (Identifier, "b"), (Semicolon, ";")]);
    assert!(matches!(s.kind, StatementKind::BlockingAssign { rvalue: sv_frontend::parser::ast::Expression { kind: ExprKind::Conditional { .. }, .. }, .. }));
}

#[test]
fn concat_and_part_select() {
    let (s, p) = parse(&[(Identifier, "x"), (Assign, "="), (LBrace, "{"), (Identifier, "a"), (Comma, ","), (Identifier, "b"), (RBrace, "}"), (Semicolon, ";")]);
    match s.kind {
        StatementKind::BlockingAssign { rvalue, .. } => match rvalue.kind {
            ExprKind::Concat(items) => assert_eq!(items.len(), 2),
            _ => panic!("expected a concatenation"),
        },
        _ => panic!(),
    }
    assert!(p.errors.is_empty());
    let (s, _) = parse(&[(Identifier, "x"), (Assign, "="), (Identifier, "a"), (LBracket, "["), (IntegerLiteral, "3"), (Colon, ":"), (IntegerLiteral, "0"), (RBracket, "]"), (Semicolon, ";")]);
    assert!(matches!(s.kind, StatementKind::BlockingAssign { rvalue: sv_frontend::parser::ast::Expression { kind: ExprKind::Index { end: Some(_), .. }, .. }, .. }));
}

#[test]
fn seq_block_with_label() {
    let (s, p) = parse(&[(KwBegin, "begin"), (Colon, ":"), (Identifier, "blk"), (Identifier, "a"), (Assign, "="), (IntegerLiteral, "1"), (Semicolon, ";"), (Identifier, "b"), (Assign, "="), (IntegerLiteral, "2"), (Semicolon, ";"), (KwEnd, "end"), (Colon, ":"), (Identifier, "blk")]);
    match s.kind {
        StatementKind::SeqBlock { name, stmts } => {
            assert_eq!(name.unwrap().name, "blk");
            assert_eq!(stmts.len(), 2);
        }
        _ => panic!("expected a block"),
    }
    assert!(p.errors.is_empty());
    assert_eq!(p.current_kind(), Eof);
}

#[test]
fn unterminated_block_stops_at_end_of_input() {
    let (s, p) = parse(&[(KwBegin, "begin"), (Semicolon, ";")]);
    match s.kind {
        StatementKind::SeqBlock { stmts, .. } => assert_eq!(stmts.len(), 1),
        _ => panic!(),
    }
    assert_eq!(p.errors.len(), 1);
    assert_eq!(p.errors[0].expected, KwEnd);
}

#[test]
fn par_block_join_kinds() {
    let (s, _) = parse(&[(KwFork, "fork"), (Semicolon, ";"), (KwJoin_any, "join_any")]);
    assert!(matches!(s.kind, StatementKind::ParBlock { join_type: JoinType::JoinAny, .. }));
    let (s, _) = parse(&[(KwFork, "fork"), (KwJoin_none, "join_none")]);
    assert!(matches!(s.kind, StatementKind::ParBlock { join_type: JoinType::JoinNone, .. }));
    let (s, p) = parse(&[(KwFork, "fork"), (KwJoin, "join")]);
    assert!(matches!(s.kind, StatementKind::ParBlock { join_type: JoinType::Join, .. }));
    assert!(p.errors.is_empty());
}

#[test]
fn if_else() {
    let (s, p) = parse(&[(KwIf, "if"), (LParen, "("), (Identifier, "c"), (RParen, ")"), (Semicolon, ";"), (KwElse, "else"), (Identifier, "b"), (Assign, "="), (IntegerLiteral, "2"), (Semicolon, ";")]);
    match s.kind {
        StatementKind::If { else_stmt, unique_priority, .. } => {
            assert!(unique_priority.is_none());
            assert!(matches!(else_stmt.unwrap().kind, StatementKind::BlockingAssign { .. }));
        }
        _ => panic!("expected an if"),
    }
    assert!(p.errors.is_empty());
}

#[test]
fn priority_if() {
    let (s, _) = parse(&[(KwPriority, "priority"), (KwIf, "if"), (LParen, "("), (Identifier, "c"), (RParen, ")"), (Semicolon, ";")]);
    assert!(matches!(s.kind, StatementKind::If { unique_priority: Some(UniquePriority::Priority), else_stmt: None, .. }));
    assert_eq!(s.span.start, 10);
}

#[test]
fn unique_case_with_default() {
    let (s, p) = parse(&[(KwUnique, "unique"), (KwCase, "case"), (LParen, "("), (Identifier, "s"), (RParen, ")"), (IntegerLiteral, "0"), (Colon, ":"), (Semicolon, ";"), (KwDefault, "default"), (Colon, ":"), (Semicolon, ";"), (KwEndcase, "endcase")]);
    match s.kind {
        StatementKind::Case { unique_priority, kind, items, .. } => {
            assert_eq!(unique_priority, Some(UniquePriority::Unique));
            assert_eq!(kind, CaseKind::Case);
            assert_eq!(items.len(), 2);
            assert!(!items[0].is_default && items[1].is_default);
        }
        _ => panic!("expected a case"),
    }
    assert!(p.errors.is_empty());
}

#[test]
fn case_inside_and_casez() {
    let (s, _) = parse(&[(KwCase, "case"), (LParen, "("), (Identifier, "s"), (RParen, ")"), (KwInside, "inside"), (IntegerLiteral, "1"), (Comma, ","), (IntegerLiteral, "2"), (Colon, ":"), (Semicolon, ";"), (KwEndcase, "endcase")]);
    match s.kind {
        StatementKind::Case { kind, items, .. } => {
            assert_eq!(kind, CaseKind::CaseInside);
            assert_eq!(items[0].patterns.len(), 2);
        }
        _ => panic!(),
    }
    let (s, _) = parse(&[(KwCasez, "casez"), (LParen, "("), (Identifier, "s"), (RParen, ")"), (KwEndcase, "endcase")]);
    assert!(matches!(s.kind, StatementKind::Case { kind: CaseKind::Casez, .. }));
    let (s, _) = parse(&[(KwCasex, "casex"), (LParen, "("), (Identifier, "s"), (RParen, ")"), (KwEndcase, "endcase")]);
    assert!(matches!(s.kind, StatementKind::Case { kind: CaseKind::Casex, .. }));
}

#[test]
fn for_loop_with_declaration() {
    let (s, p) = parse(&[(KwFor, "for"), (LParen, "("), (KwInt, "int"), (Identifier, "i"), (Assign, "="), (IntegerLiteral, "0"), (Semicolon, ";"), (Identifier, "i"), (Lt, "<"), (IntegerLiteral, "4"), (Semicolon, ";"), (Identifier, "i"), (PlusPlus, "++"), (RParen, ")"), (Semicolon, ";")]);
    match s.kind {
        StatementKind::For { init, condition, step, .. } => {
            assert!(matches!(init[0], ForInit::VarDecl { .. }));
            assert!(condition.is_some());
            assert!(matches!(step[0].kind, ExprKind::Unary { op: UnaryOp::PostIncrement, .. }));
        }
        _ => panic!("expected a for loop"),
    }
    assert!(p.errors.is_empty());
}

#[test]
fn for_loop_with_assignments() {
    let (s, p) = parse(&[(KwFor, "for"), (LParen, "("), (Identifier, "i"), (Assign, "="), (IntegerLiteral, "0"), (Semicolon, ";"), (Semicolon, ";"), (Identifier, "i"), (Assign, "="), (Identifier, "i"), (Plus, "+"), (IntegerLiteral, "1"), (RParen, ")"), (Semicolon, ";")]);
    match s.kind {
        StatementKind::For { init, condition, step, .. } => {
            assert!(matches!(init[0], ForInit::Assign { .. }));
            assert!(condition.is_none());
            assert!(matches!(step[0].kind, ExprKind::Binary { op: BinaryOp::Assign, .. }));
            assert_eq!(step[0].span, Span { start: 0, end: 0 });
        }
        _ => panic!(),
    }
    assert!(p.errors.is_empty());
}

#[test]
fn foreach_with_skipped_index() {
    let (s, p) = parse(&[(KwForeach, "foreach"), (LParen, "("), (Identifier, "arr"), (LBracket, "["), (Identifier, "i"), (Comma, ","), (Comma, ","), (Identifier, "k"), (RBracket, "]"), (RParen, ")"), (Semicolon, ";")]);
    match s.kind {
        StatementKind::Foreach { vars, .. } => {
            assert_eq!(vars.len(), 3);
            assert!(vars[0].is_some() && vars[1].is_none() && vars[2].is_some());
        }
        _ => panic!(),
    }
    assert!(p.errors.is_empty());
}

#[test]
fn loops() {
    let (s, _) = parse(&[(KwWhile, "while"), (LParen, "("), (Identifier, "c"), (RParen, ")"), (Semicolon, ";")]);
    assert!(matches!(s.kind, StatementKind::While { .. }));
    let (s, p) = parse(&[(KwDo, "do"), (Semicolon, ";"), (KwWhile, "while"), (LParen, "("), (Identifier, "c"), (RParen, ")"), (Semicolon, ";")]);
    assert!(matches!(s.kind, StatementKind::DoWhile { .. }));
    assert!(p.errors.is_empty());
    let (s, _) = parse(&[(KwRepeat, "repeat"), (LParen, "("), (IntegerLiteral, "3"), (RParen, ")"), (Semicolon, ";")]);
    assert!(matches!(s.kind, StatementKind::Repeat { .. }));
    let (s, _) = parse(&[(KwForever, "forever"), (Semicolon, ";")]);
    assert!(matches!(s.kind, StatementKind::Forever { .. }));
}

#[test]
fn jumps() {
    let (s, _) = parse(&[(KwReturn, "return"), (Semicolon, ";")]);
    assert!(matches!(s.kind, StatementKind::Return(None)));
    let (s, _) = parse(&[(KwReturn, "return"), (Identifier, "x"), (Semicolon, ";")]);
    assert!(matches!(s.kind, StatementKind::Return(Some(_))));
    let (s, _) = parse(&[(KwBreak, "break"), (Semicolon, ";")]);
    assert!(matches!(s.kind, StatementKind::Break));
    let (s, _) = parse(&[(KwContinue, "continue"), (Semicolon, ";")]);
    assert!(matches!(s.kind, StatementKind::Continue));
}

#[test]
fn wait_statements() {
    let (s, _) = parse(&[(KwWait, "wait"), (KwFork, "fork"), (Semicolon, ";")]);
    assert!(matches!(s.kind, StatementKind::WaitFork));
    let (s, _) = parse(&[(KwWait, "wait"), (LParen, "("), (Identifier, "c"), (RParen, ")"), (Semicolon, ";")]);
    assert!(matches!(s.kind, StatementKind::Wait { .. }));
}

#[test]
fn lifetime_declarations() {
    let (s, p) = parse(&[(KwAutomatic, "automatic"), (KwInt, "int"), (Identifier, "x"), (Assign, "="), (IntegerLiteral, "1"), (Comma, ","), (Identifier, "y"), (Semicolon, ";")]);
    match s.kind {
        StatementKind::VarDecl { lifetime, declarators, data_type } => {
            assert_eq!(lifetime, Some(Lifetime::Automatic));
            assert_eq!(declarators.len(), 2);
            assert!(declarators[0].init.is_some() && declarators[1].init.is_none());
            assert!(matches!(data_type, DataType::Builtin { keyword: KwInt, .. }));
        }
        _ => panic!(),
    }
    assert!(p.errors.is_empty());
    let (s, _) = parse(&[(KwLocal, "local"), (KwStatic, "static"), (KwInt, "int"), (Identifier, "x"), (Semicolon, ";")]);
    assert!(matches!(s.kind, StatementKind::VarDecl { lifetime: Some(Lifetime::Static), .. }));
    let (s, _) = parse(&[(KwStatic, "static"), (Identifier, "x"), (Semicolon, ";")]);
    assert!(matches!(s.kind, StatementKind::VarDecl { data_type: DataType::Named { .. }, .. }));
}

#[test]
fn builtin_type_declaration_with_dimensions() {
    let (s, p) = parse(&[(KwLogic, "logic"), (LBracket, "["), (IntegerLiteral, "7"), (Colon, ":"), (IntegerLiteral, "0"), (RBracket, "]"), (Identifier, "v"), (LBracket, "["), (IntegerLiteral, "4"), (RBracket, "]"), (Semicolon, ";")]);
    match s.kind {
        StatementKind::VarDecl { data_type: DataType::Builtin { dimensions, .. }, declarators, lifetime } => {
            assert_eq!(dimensions.len(), 1);
            assert_eq!(declarators[0].dimensions.len(), 1);
            assert!(lifetime.is_none());
        }
        _ => panic!(),
    }
    assert!(p.errors.is_empty());
}

#[test]
fn cast_is_not_a_declaration() {
    let (s, _) = parse(&[(KwInt, "int"), (IntegerLiteral, "'"), (LParen, "("), (Identifier, "x"), (RParen, ")"), (Semicolon, ";")]);
    assert!(!matches!(s.kind, StatementKind::VarDecl { .. }));
}

#[test]
fn user_type_declarations() {
    let (s, _) = parse(&[(Identifier, "my_t"), (Identifier, "v"), (Semicolon, ";")]);
    assert!(matches!(s.kind, StatementKind::VarDecl { data_type: DataType::Named { .. }, .. }));
    let (s, p) = parse(&[(Identifier, "pkg"), (DoubleColon, "::"), (Identifier, "t"), (Identifier, "v"), (Semicolon, ";")]);
    assert!(matches!(s.kind, StatementKind::VarDecl { .. }));
    assert!(p.errors.is_empty());
    let (s, p) = parse(&[(Identifier, "pkg"), (DoubleColon, "::"), (Identifier, "f"), (LParen, "("), (RParen, ")"), (Semicolon, ";")]);
    assert!(matches!(s.kind, StatementKind::Expr(_)));
    assert!(p.errors.is_empty());
    let (s, p) = parse(&[(Identifier, "cls"), (TokenKind::Hash, "#"), (LParen, "("), (IntegerLiteral, "8"), (RParen, ")"), (Identifier, "obj"), (Semicolon, ";")]);
    assert!(matches!(s.kind, StatementKind::VarDecl { .. }));
    assert!(p.errors.is_empty());
}

#[test]
fn typedef_and_disable() {
    let (s, p) = parse(&[(KwTypedef, "typedef"), (KwInt, "int"), (Identifier, "word_t"), (Semicolon, ";")]);
    assert!(matches!(s.kind, StatementKind::Null));
    assert_eq!(p.current_kind(), Eof);
    let (s, _) = parse(&[(KwDisable, "disable"), (KwFork, "fork"), (Semicolon, ";")]);
    assert!(matches!(s.kind, StatementKind::Null));
    let (s, _) = parse(&[(KwDisable, "disable"), (Identifier, "blk"), (Semicolon, ";")]);
    match s.kind {
        StatementKind::Disable(id) => assert_eq!(id.name, "blk"),
        _ => panic!(),
    }
}

#[test]
fn assertions() {
    let (s, p) = parse(&[(KwAssert, "assert"), (LParen, "("), (Identifier, "c"), (RParen, ")"), (KwElse, "else"), (Identifier, "x"), (Assign, "="), (IntegerLiteral, "1"), (Semicolon, ";")]);
    match s.kind {
        StatementKind::Assertion(a) => {
            assert_eq!(a.kind, AssertionKind::Assert);
            assert!(a.action.is_none() && a.else_action.is_some());
        }
        _ => panic!(),
    }
    assert!(p.errors.is_empty());
    let (s, p) = parse(&[(KwCover, "cover"), (KwProperty, "property"), (LParen, "("), (Identifier, "c"), (RParen, ")"), (Semicolon, ";")]);
    match s.kind {
        StatementKind::Assertion(a) => {
            assert_eq!(a.kind, AssertionKind::Cover);
            assert!(a.action.is_none() && a.else_action.is_none());
        }
        _ => panic!(),
    }
    assert_eq!(p.current_kind(), Eof);
    let (s, _) = parse(&[(KwAssume, "assume"), (LParen, "("), (Identifier, "c"), (RParen, ")"), (Identifier, "x"), (Assign, "="), (IntegerLiteral, "1"), (Semicolon, ";")]);
    match s.kind {
        StatementKind::Assertion(a) => {
            assert_eq!(a.kind, AssertionKind::Assume);
            assert!(a.action.is_some());
        }
        _ => panic!(),
    }
}

#[test]
fn procedural_continuous_assignments() {
    let (s, _) = parse(&[(KwAssign, "assign"), (Identifier, "a"), (Assign, "="), (Identifier, "b"), (Semicolon, ";")]);
    assert!(matches!(s.kind, StatementKind::ProceduralContinuous(ProceduralContinuous::Assign { .. })));
    let (s, _) = parse(&[(KwForce, "force"), (Identifier, "a"), (Assign, "="), (Identifier, "b"), (Semicolon, ";")]);
    assert!(matches!(s.kind, StatementKind::ProceduralContinuous(ProceduralContinuous::Force { .. })));
    let (s, _) = parse(&[(KwDeassign, "deassign"), (Identifier, "a"), (Semicolon, ";")]);
    assert!(matches!(s.kind, StatementKind::ProceduralContinuous(ProceduralContinuous::Deassign(_))));
    let (s, _) = parse(&[(KwRelease, "release"), (Identifier, "a"), (Semicolon, ";")]);
    assert!(matches!(s.kind, StatementKind::ProceduralContinuous(ProceduralContinuous::Release(_))));
}

#[test]
fn coverage_statements() {
    let (s, _) = parse(&[(KwCoverpoint, "coverpoint"), (Identifier, "x"), (Semicolon, ";")]);
    assert!(matches!(s.kind, StatementKind::Coverpoint { name: None, .. }));
    let (s, _) = parse(&[(KwCross, "cross"), (Identifier, "a"), (Comma, ","), (Identifier, "b"), (Semicolon, ";")]);
    match s.kind {
        StatementKind::Cross { items, .. } => assert_eq!(items.len(), 2),
        _ => panic!(),
    }
}

#[test]
fn event_controls() {
    let (s, p) = parse(&[(At, "@"), (LParen, "("), (KwPosedge, "posedge"), (Identifier, "clk"), (KwOr, "or"), (KwNegedge, "negedge"), (Identifier, "rst"), (RParen, ")"), (Identifier, "x"), (Assign, "="), (IntegerLiteral, "1"), (Semicolon, ";")]);
    match s.kind {
        StatementKind::TimingControl { control: TimingControl::Event(EventControl::EventExpr(evs)), .. } => {
            assert_eq!(evs.len(), 2);
            assert_eq!(evs[0].edge, Some(Edge::Posedge));
            assert_eq!(evs[1].edge, Some(Edge::Negedge));
        }
        _ => panic!(),
    }
    assert!(p.errors.is_empty());
    let (s, _) = parse(&[(At, "@"), (Star, "*"), (Semicolon, ";")]);
    assert!(matches!(s.kind, StatementKind::TimingControl { control: TimingControl::Event(EventControl::Star), .. }));
    let (s, _) = parse(&[(At, "@"), (LParen, "("), (Star, "*"), (RParen, ")"), (Semicolon, ";")]);
    assert!(matches!(s.kind, StatementKind::TimingControl { control: TimingControl::Event(EventControl::ParenStar), .. }));
    let (s, _) = parse(&[(At, "@"), (Identifier, "ev"), (Semicolon, ";")]);
    assert!(matches!(s.kind, StatementKind::TimingControl { control: TimingControl::Event(EventControl::HierIdentifier(_)), .. }));
    let (s, _) = parse(&[(At, "@"), (LParen, "("), (Identifier, "a"), (KwIff, "iff"), (Identifier, "en"), (Comma, ","), (Identifier, "b"), (RParen, ")"), (Semicolon, ";")]);
    match s.kind {
        StatementKind::TimingControl { control: TimingControl::Event(EventControl::EventExpr(evs)), .. } => {
            assert_eq!(evs.len(), 2);
            assert!(evs[0].iff.is_some() && evs[0].edge.is_none());
        }
        _ => panic!(),
    }
}

#[test]
fn event_triggers() {
    let (s, _) = parse(&[(Arrow, "->"), (Identifier, "top"), (Dot, "."), (Identifier, "ev"), (Semicolon, ";")]);
    match s.kind {
        StatementKind::EventTrigger { nonblocking, name, .. } => {
            assert!(!nonblocking);
            assert_eq!(name.name, "ev");
        }
        _ => panic!(),
    }
    let (s, _) = parse(&[(DoubleArrow, "->>"), (IntegerLiteral, "3"), (Semicolon, ";")]);
    match s.kind {
        StatementKind::EventTrigger { nonblocking, name, .. } => {
            assert!(nonblocking);
            assert_eq!(name.name, "event");
        }
        _ => panic!(),
    }
}

#[test]
fn delay_control() {
    let (s, _) = parse(&[(TokenKind::Hash, "#"), (IntegerLiteral, "5"), (Identifier, "x"), (Assign, "="), (IntegerLiteral, "1"), (Semicolon, ";")]);
    assert!(matches!(s.kind, StatementKind::TimingControl { control: TimingControl::Delay(_), .. }));
}

#[test]
fn port_like_and_null_statements() {
    let (s, p) = parse(&[(KwInput, "input"), (KwLogic, "logic"), (Identifier, "a"), (Semicolon, ";")]);
    assert!(matches!(s.kind, StatementKind::Null));
    assert_eq!(p.current_kind(), Eof);
    let (s, _) = parse(&[(Semicolon, ";")]);
    assert!(matches!(s.kind, StatementKind::Null));
    let (s, p) = parse(&[(KwEvent, "event"), (Identifier, "e1"), (Comma, ","), (Identifier, "e2"), (Semicolon, ";")]);
    assert!(matches!(s.kind, StatementKind::Null));
    assert!(p.errors.is_empty());
}

#[test]
fn directive_token_is_skipped() {
    let (s, _) = parse(&[(Directive, "`resetall"), (Identifier, "x"), (Assign, "="), (IntegerLiteral, "1"), (Semicolon, ";")]);
    assert!(matches!(s.kind, StatementKind::BlockingAssign { .. }));
    assert_eq!(s.span.start, 10);
}

#[test]
fn missing_semicolon_is_reported() {
    let (s, p) = parse(&[(Identifier, "x"), (Assign, "="), (IntegerLiteral, "1")]);
    assert!(matches!(s.kind, StatementKind::BlockingAssign { .. }));
    assert_eq!(p.errors.len(), 1);
    assert_eq!(p.errors[0].expected, Semicolon);
    assert_eq!(p.errors[0].found, Eof);
}

#[test]
fn end_of_input_gives_error_expression() {
    let mut p = Parser::new(Vec::new());
    let s = p.parse_statement();
    assert!(matches!(s.kind, StatementKind::Expr(sv_frontend::parser::ast::Expression { kind: ExprKind::Error, .. })));
    assert_eq!(p.pos, 0);
}

#[test]
fn unexpected_token_is_passed_over() {
    let mut p = parser(&[(RParen, ")"), (Semicolon, ";"), (KwEnd, "end")]);
    let s = p.parse_statement();
    assert!(matches!(s.kind, StatementKind::Expr(_)));
    assert_eq!(p.current_kind(), KwEnd);
    assert_eq!(p.errors.len(), 1);
}

#[test]
fn earlier_errors_are_kept() {
    let mut p = parser(&[(KwBreak, "break"), (KwContinue, "continue"), (Identifier, "x"), (Semicolon, ";")]);
    let first = p.parse_statement();
    assert!(matches!(first.kind, StatementKind::Break));
    assert_eq!(p.errors.len(), 1);
    assert_eq!(p.errors[0].found, KwContinue);
    assert_eq!(p.errors[0].span.start, 10);
    let second = p.parse_statement();
    assert!(matches!(second.kind, StatementKind::Continue));
    assert_eq!(p.errors.len(), 2);
    assert_eq!(p.errors[0].found, KwContinue);
    assert_eq!(p.errors[0].span.start, 10);
    assert_eq!(p.errors[1].found, Identifier);
    assert_eq!(p.errors[1].expected, Semicolon);
}
