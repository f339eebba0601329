use superc::ast::{BinOp, DataType, ExecTarget, Expr, FnDef, Param, Program, ReduceOp, Stmt, UnaryOp};
use superc::grammar::{ParseError, ParseErrorKind};
use superc::parser::Parser;
use superc::token::{Token, TokenKind, TokenTag};

fn parse(source: &str) -> Result<Program, ParseError> {
    Parser::from_source(source).parse()
}

fn expr(source: &str) -> Expr {
    Parser::from_source(source).parse_expr().unwrap()
}

fn stmts(source: &str) -> Vec<Stmt> {
    parse(source).unwrap().statements
}

fn error(source: &str) -> ParseError {
    parse(source).unwrap_err()
}

fn lit(n: i64) -> Box<Expr> {
    Box::new(Expr::IntLit(n))
}

fn name(s: &str) -> Expr {
    Expr::Ident(s.to_string())
}

#[test]
fn multiplication_binds_tighter_than_addition() {
    assert_eq!(
        expr("1 + 2 * 3"),
        Expr::BinOp(
            lit(1),
            BinOp::Add,
            Box::new(Expr::BinOp(lit(2), BinOp::Mul, lit(3)))
        )
    );
}

#[test]
fn operators_of_one_level_group_from_the_left() {
    assert_eq!(
        expr("1 - 2 - 3"),
        Expr::BinOp(
            Box::new(Expr::BinOp(lit(1), BinOp::Sub, lit(2))),
            BinOp::Sub,
            lit(3)
        )
    );
    assert_eq!(
        expr("8 / 4 % 3 * 2"),
        Expr::BinOp(
            Box::new(Expr::BinOp(
                Box::new(Expr::BinOp(lit(8), BinOp::Div, lit(4))),
                BinOp::Mod,
                lit(3)
            )),
            BinOp::Mul,
            lit(2)
        )
    );
}

#[test]
fn the_levels_from_loosest_to_tightest() {
    // a || b && c == d < e + f * -g
    let g = Box::new(Expr::UnaryOp(UnaryOp::Neg, Box::new(name("g"))));
    let mul = Box::new(Expr::BinOp(Box::new(name("f")), BinOp::Mul, g));
    let add = Box::new(Expr::BinOp(Box::new(name("e")), BinOp::Add, mul));
    let lt = Box::new(Expr::BinOp(Box::new(name("d")), BinOp::Lt, add));
    let eq = Box::new(Expr::BinOp(Box::new(name("c")), BinOp::Eq, lt));
    let and = Box::new(Expr::BinOp(Box::new(name("b")), BinOp::And, eq));
    let or = Expr::BinOp(Box::new(name("a")), BinOp::Or, and);
    assert_eq!(expr("a || b && c == d < e + f * -g"), or);
}

#[test]
fn every_binary_operator() {
    for (text, op) in [
        ("+", BinOp::Add),
        ("-", BinOp::Sub),
        ("*", BinOp::Mul),
        ("/", BinOp::Div),
        ("%", BinOp::Mod),
        ("==", BinOp::Eq),
        ("!=", BinOp::NotEq),
        ("<", BinOp::Lt),
        (">", BinOp::Gt),
        ("<=", BinOp::LtEq),
        (">=", BinOp::GtEq),
        ("&&", BinOp::And),
        ("||", BinOp::Or),
    ] {
        assert_eq!(
            expr(&format!("1 {} 2", text)),
            Expr::BinOp(lit(1), op, lit(2))
        );
    }
}

#[test]
fn parentheses_group() {
    assert_eq!(
        expr("(1 + 2) * 3"),
        Expr::BinOp(
            Box::new(Expr::BinOp(lit(1), BinOp::Add, lit(2))),
            BinOp::Mul,
            lit(3)
        )
    );
}

#[test]
fn unary_operators_nest() {
    assert_eq!(
        expr("-!x"),
        Expr::UnaryOp(
            UnaryOp::Neg,
            Box::new(Expr::UnaryOp(UnaryOp::Not, Box::new(name("x"))))
        )
    );
}

#[test]
fn literals() {
    assert_eq!(expr("42"), Expr::IntLit(42));
    assert_eq!(expr("4.25"), Expr::FloatLit("4.25".to_string()));
    assert_eq!(expr("true"), Expr::BoolLit(true));
    assert_eq!(expr("false"), Expr::BoolLit(false));
    assert_eq!(expr("\"hi\""), Expr::StringLit("hi".to_string()));
}

#[test]
fn names_calls_and_indexed_access() {
    assert_eq!(expr("x"), name("x"));
    assert_eq!(
        expr("f(1, y)"),
        Expr::Call("f".to_string(), vec![Expr::IntLit(1), name("y")])
    );
    assert_eq!(expr("f()"), Expr::Call("f".to_string(), vec![]));
    assert_eq!(
        expr("f(1 2)"),
        Expr::Call("f".to_string(), vec![Expr::IntLit(1), Expr::IntLit(2)])
    );
    assert_eq!(
        expr("a[i + 1]"),
        Expr::Index(
            Box::new(name("a")),
            Box::new(Expr::BinOp(Box::new(name("i")), BinOp::Add, lit(1)))
        )
    );
}

#[test]
fn reductions() {
    for (text, op) in [
        ("+", ReduceOp::Sum),
        ("*", ReduceOp::Prod),
        ("max", ReduceOp::Max),
        ("min", ReduceOp::Min),
    ] {
        assert_eq!(
            expr(&format!("reduce({}, arr)", text)),
            Expr::Reduce(op, Box::new(name("arr")))
        );
    }
}

#[test]
fn line_breaks_inside_an_expression_separate_nothing() {
    assert_eq!(
        expr("1 +\n\n 2"),
        Expr::BinOp(lit(1), BinOp::Add, lit(2))
    );
}

#[test]
fn data_declarations() {
    assert_eq!(
        stmts("data x: f32[100]\ndata n: i64\ndata b: bool\ndata d: f64[0]\ndata k: i32"),
        vec![
            Stmt::DataDecl {
                name: "x".to_string(),
                dtype: DataType::Array(Box::new(DataType::F32), 100)
            },
            Stmt::DataDecl { name: "n".to_string(), dtype: DataType::I64 },
            Stmt::DataDecl { name: "b".to_string(), dtype: DataType::Bool },
            Stmt::DataDecl {
                name: "d".to_string(),
                dtype: DataType::Array(Box::new(DataType::F64), 0)
            },
            Stmt::DataDecl { name: "k".to_string(), dtype: DataType::I32 },
        ]
    );
}

#[test]
fn assignments() {
    assert_eq!(
        stmts("x = 1\na[2] = 3"),
        vec![
            Stmt::Assign { target: "x".to_string(), index: None, value: Expr::IntLit(1) },
            Stmt::Assign {
                target: "a".to_string(),
                index: Some(Expr::IntLit(2)),
                value: Expr::IntLit(3)
            },
        ]
    );
}

#[test]
fn a_name_without_assignment_is_an_expression_statement() {
    assert_eq!(
        stmts("print(x)\ny\nz[1]"),
        vec![
            Stmt::ExprStmt(Expr::Call("print".to_string(), vec![name("x")])),
            Stmt::ExprStmt(name("y")),
            Stmt::ExprStmt(name("z")),
        ]
    );
}

#[test]
fn tagged_blocks() {
    for (text, target) in [
        ("parallel", ExecTarget::Parallel),
        ("seq", ExecTarget::Sequential),
        ("gpu", ExecTarget::Gpu),
        ("asm", ExecTarget::Asm),
    ] {
        assert_eq!(
            stmts(&format!("{} {{\n x = 1\n y = 2\n}}", text)),
            vec![Stmt::ExecBlock {
                target,
                body: vec![
                    Stmt::Assign { target: "x".to_string(), index: None, value: Expr::IntLit(1) },
                    Stmt::Assign { target: "y".to_string(), index: None, value: Expr::IntLit(2) },
                ]
            }]
        );
    }
}

#[test]
fn conditionals() {
    assert_eq!(
        stmts("if x < 1 { y = 1 }"),
        vec![Stmt::If {
            cond: Expr::BinOp(Box::new(name("x")), BinOp::Lt, lit(1)),
            then_body: vec![Stmt::Assign {
                target: "y".to_string(),
                index: None,
                value: Expr::IntLit(1)
            }],
            else_body: None,
        }]
    );
    assert_eq!(
        stmts("if x { } else { y = 2 }"),
        vec![Stmt::If {
            cond: name("x"),
            then_body: vec![],
            else_body: Some(vec![Stmt::Assign {
                target: "y".to_string(),
                index: None,
                value: Expr::IntLit(2)
            }]),
        }]
    );
}

#[test]
fn loops() {
    assert_eq!(
        stmts("for i = 0 : n + 1 {\n a[i] = i\n}"),
        vec![Stmt::For {
            var: "i".to_string(),
            start: Expr::IntLit(0),
            end: Expr::BinOp(Box::new(name("n")), BinOp::Add, lit(1)),
            body: vec![Stmt::Assign {
                target: "a".to_string(),
                index: Some(name("i")),
                value: name("i")
            }],
        }]
    );
}

#[test]
fn return_statements() {
    assert_eq!(stmts("return"), vec![Stmt::Return(None)]);
    assert_eq!(stmts("return x"), vec![Stmt::Return(Some(name("x")))]);
    assert_eq!(
        stmts("parallel { return }"),
        vec![Stmt::ExecBlock { target: ExecTarget::Parallel, body: vec![Stmt::Return(None)] }]
    );
}

#[test]
fn a_line_break_after_return_ends_it() {
    assert_eq!(
        stmts("return\nx = 1"),
        vec![
            Stmt::Return(None),
            Stmt::Assign { target: "x".to_string(), index: None, value: Expr::IntLit(1) },
        ]
    );
}

#[test]
fn functions_and_statements_are_siblings() {
    let program = parse("x = 1\nfn f(a: i32, b: f32[4]) -> f64 {\n return a\n}\nfn g() { }\ny = 2").unwrap();
    assert_eq!(
        program.functions,
        vec![
            FnDef {
                name: "f".to_string(),
                params: vec![
                    Param { name: "a".to_string(), dtype: DataType::I32 },
                    Param {
                        name: "b".to_string(),
                        dtype: DataType::Array(Box::new(DataType::F32), 4)
                    },
                ],
                ret_type: DataType::F64,
                body: vec![Stmt::Return(Some(name("a")))],
            },
            FnDef { name: "g".to_string(), params: vec![], ret_type: DataType::Void, body: vec![] },
        ]
    );
    assert_eq!(
        program.statements,
        vec![
            Stmt::Assign { target: "x".to_string(), index: None, value: Expr::IntLit(1) },
            Stmt::Assign { target: "y".to_string(), index: None, value: Expr::IntLit(2) },
        ]
    );
}

#[test]
fn an_empty_source_is_an_empty_program() {
    assert_eq!(parse("").unwrap(), Program::new());
    assert_eq!(parse("\n\n  // nothing\n").unwrap(), Program::new());
    assert_eq!(Program::default(), Program::new());
}

#[test]
fn parsing_twice_gives_equal_trees() {
    let source = "data x: f32[8]\nfn f(a: i32) -> i32 { return a * 2 }\nfor i = 0 : 8 {\n if i % 2 == 0 { x[i] = sqrt(i) } else { x[i] = -1.5 }\n}\nprint(reduce(max, x))\n";
    let first = parse(source).unwrap();
    let second = parse(source).unwrap();
    assert_eq!(first, second);
    assert_eq!(parse("x = = 1"), parse("x = = 1"));
}

#[test]
fn a_parser_can_start_from_tokens() {
    let tokens = vec![
        Token { kind: TokenKind::Ident("x".to_string()), line: 1, col: 1 },
        Token { kind: TokenKind::Eq, line: 1, col: 3 },
        Token { kind: TokenKind::IntLit(5), line: 1, col: 5 },
    ];
    let program = Parser::new(tokens).parse().unwrap();
    assert_eq!(
        program.statements,
        vec![Stmt::Assign { target: "x".to_string(), index: None, value: Expr::IntLit(5) }]
    );
}

#[test]
fn expected_a_token() {
    assert_eq!(
        error("data x f32"),
        ParseError {
            kind: ParseErrorKind::Expected(TokenTag::Colon),
            found: TokenTag::F32,
            line: 1,
            col: 8
        }
    );
    assert_eq!(error("data x f32").message(), "Expected Colon, got F32");
    assert_eq!(error("x = (1 + 2").kind, ParseErrorKind::Expected(TokenTag::RParen));
    assert_eq!(error("a[1 = 2").kind, ParseErrorKind::Expected(TokenTag::RBracket));
    assert_eq!(error("parallel x = 1").kind, ParseErrorKind::Expected(TokenTag::LBrace));
    assert_eq!(error("parallel { x = 1").kind, ParseErrorKind::Expected(TokenTag::RBrace));
    assert_eq!(error("for i 0 : 1 { }").kind, ParseErrorKind::Expected(TokenTag::Eq));
    assert_eq!(error("for i = 0 1 { }").kind, ParseErrorKind::Expected(TokenTag::Colon));
    assert_eq!(error("x = reduce + , a)").kind, ParseErrorKind::Expected(TokenTag::LParen));
    assert_eq!(error("x = reduce(+ a)").kind, ParseErrorKind::Expected(TokenTag::Comma));
    assert_eq!(error("fn f { }").kind, ParseErrorKind::Expected(TokenTag::LParen));
}

#[test]
fn an_error_past_the_end_is_at_eof() {
    let e = error("data x");
    assert_eq!(e.kind, ParseErrorKind::Expected(TokenTag::Colon));
    assert_eq!(e.found, TokenTag::Eof);
    assert_eq!((e.line, e.col), (1, 7));
    assert_eq!(e.message(), "Expected Colon, got Eof");
}

#[test]
fn the_other_complaints() {
    assert_eq!(error("fn (a: i32) { }").kind, ParseErrorKind::ExpectedFunctionName);
    assert_eq!(error("fn (a: i32) { }").message(), "Expected function name");
    assert_eq!(error("fn f(1: i32) { }").kind, ParseErrorKind::ExpectedParameterName);
    assert_eq!(error("fn f(1: i32) { }").message(), "Expected parameter name");
    assert_eq!(error("data x: y").kind, ParseErrorKind::ExpectedType);
    assert_eq!(error("data x: y").message(), "Expected type, got Ident");
    assert_eq!(error("data x: f32[n]").kind, ParseErrorKind::ExpectedArraySize);
    assert_eq!(error("data x: f32[n]").message(), "Expected array size");
    assert_eq!(error("data 1: f32").kind, ParseErrorKind::ExpectedVariableName);
    assert_eq!(error("data 1: f32").message(), "Expected variable name");
    assert_eq!(error("for 1 = 0 : 1 { }").kind, ParseErrorKind::ExpectedLoopVariable);
    assert_eq!(error("for 1 = 0 : 1 { }").message(), "Expected loop variable");
    assert_eq!(error("x = reduce(-, a)").kind, ParseErrorKind::ExpectedReduceOperation);
    assert_eq!(error("x = reduce(-, a)").message(), "Expected reduce operation");
    assert_eq!(error("x = reduce(sum, a)").kind, ParseErrorKind::ExpectedReduceOperation);
    assert_eq!(error("1 + 2").kind, ParseErrorKind::UnexpectedToken);
    assert_eq!(error("1 + 2").message(), "Unexpected token: IntLit");
    assert_eq!(error("}").kind, ParseErrorKind::UnexpectedToken);
    assert_eq!(error("x = *").kind, ParseErrorKind::UnexpectedTokenInExpression);
    assert_eq!(error("x = *").message(), "Unexpected token in expression: Star");
    assert_eq!(error("x = ").kind, ParseErrorKind::UnexpectedTokenInExpression);
    assert_eq!(error("f(1,").kind, ParseErrorKind::UnexpectedTokenInExpression);
}

#[test]
fn a_negative_array_size_is_invalid() {
    let tokens = vec![
        Token { kind: TokenKind::Data, line: 1, col: 1 },
        Token { kind: TokenKind::Ident("x".to_string()), line: 1, col: 6 },
        Token { kind: TokenKind::Colon, line: 1, col: 7 },
        Token { kind: TokenKind::F32, line: 1, col: 9 },
        Token { kind: TokenKind::LBracket, line: 1, col: 12 },
        Token { kind: TokenKind::IntLit(-1), line: 1, col: 13 },
        Token { kind: TokenKind::RBracket, line: 1, col: 15 },
        Token { kind: TokenKind::Eof, line: 1, col: 16 },
    ];
    let e = Parser::new(tokens).parse().unwrap_err();
    assert_eq!(e.kind, ParseErrorKind::InvalidArraySize);
    assert_eq!(e.message(), "Invalid array size");
    assert_eq!((e.line, e.col), (1, 13));
}

#[test]
fn an_identifier_is_expected_where_a_statement_starts_with_a_name() {
    let tokens = vec![Token { kind: TokenKind::IntLit(1), line: 1, col: 1 }];
    let e = Parser::new(tokens).parse_assign_or_expr().unwrap_err();
    assert_eq!(e.kind, ParseErrorKind::ExpectedIdentifier);
    assert_eq!(e.message(), "Expected identifier");
}

#[test]
fn the_first_error_ends_the_parse() {
    let e = error("x = 1\ny = )\nz = ]");
    assert_eq!(e.kind, ParseErrorKind::UnexpectedTokenInExpression);
    assert_eq!(e.found, TokenTag::RParen);
    assert_eq!((e.line, e.col), (2, 5));
}

#[test]
fn types_copy() {
    let t = DataType::Array(Box::new(DataType::I64), 3);
    assert_eq!(t.clone(), t);
    assert_eq!(t.duplicate(), t);
}
