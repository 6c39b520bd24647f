use minilang::ast::{Binop, Expr, Expr_, Program, Stmt};
use minilang::error::Error;
use minilang::parser::Parser;
use minilang::pos::Pos;
use minilang::scanner::scan;
use minilang::token::{Token, TokenType};
use minilang::types::Type;

fn parse(src: &str) -> Result<Program, Error> {
    let tokens = scan(src).expect("scanning failed");
    let mut parser = Parser::new(tokens);
    parser.parse_program()
}

fn int_value(e: &Expr) -> i64 {
    match &e.expr {
        Expr_::Int(i) => i.value,
        other => panic!("expected an integer literal, got {:?}", other),
    }
}

#[test]
fn parse_declarations_and_statements() {
    let program = parse("var x : int; x = 3; print x;").unwrap();
    assert_eq!(program.decls.len(), 1);
    assert_eq!(program.decls[0].id, "x".to_string());
    assert_eq!(program.decls[0].ty, Type::Int);
    assert_eq!(program.decls[0].pos, Pos { line: 1, col: 1 });
    assert_eq!(program.stmts.len(), 2);
    match &program.stmts[0] {
        Stmt::Assign(a) => {
            assert_eq!(a.id, "x".to_string());
            assert_eq!(int_value(&a.expr), 3);
        },
        other => panic!("expected an assignment, got {:?}", other),
    }
    match &program.stmts[1] {
        Stmt::Print(p) => match &p.expr.expr {
            Expr_::Id(i) => assert_eq!(i.id, "x".to_string()),
            other => panic!("expected an identifier, got {:?}", other),
        },
        other => panic!("expected a print statement, got {:?}", other),
    }
}

#[test]
fn parse_all_declared_types() {
    let program = parse("var a : int; var b : float; var c : string;").unwrap();
    assert_eq!(program.decls[0].ty, Type::Int);
    assert_eq!(program.decls[1].ty, Type::Float);
    assert_eq!(program.decls[2].ty, Type::String);
}

#[test]
fn parse_if_without_else_yields_empty_else_branch() {
    let program = parse("if 1 then print 1; end").unwrap();
    assert_eq!(program.stmts.len(), 1);
    match &program.stmts[0] {
        Stmt::If(s) => {
            assert_eq!(int_value(&s.expr), 1);
            assert_eq!(s.then_stmts.len(), 1);
            assert!(s.else_stmts.is_empty());
        },
        other => panic!("expected an if statement, got {:?}", other),
    }
}

#[test]
fn parse_if_with_else() {
    let program = parse("if 1 then print 1; else print 2; print 3; end").unwrap();
    match &program.stmts[0] {
        Stmt::If(s) => {
            assert_eq!(s.then_stmts.len(), 1);
            assert_eq!(s.else_stmts.len(), 2);
        },
        other => panic!("expected an if statement, got {:?}", other),
    }
}

#[test]
fn parse_while_loop() {
    let program = parse("while 1 do read x; done").unwrap();
    match &program.stmts[0] {
        Stmt::While(s) => {
            assert_eq!(int_value(&s.expr), 1);
            assert_eq!(s.stmts.len(), 1);
        },
        other => panic!("expected a while statement, got {:?}", other),
    }
}

#[test]
fn parse_multiplication_binds_tighter_than_addition() {
    let program = parse("x = 1 + 2 * 3;").unwrap();
    match &program.stmts[0] {
        Stmt::Assign(a) => match &a.expr.expr {
            Expr_::Binop(add) => {
                assert_eq!(add.op, Binop::Add);
                assert_eq!(int_value(&add.expr1), 1);
                match &add.expr2.expr {
                    Expr_::Binop(mul) => {
                        assert_eq!(mul.op, Binop::Mul);
                        assert_eq!(int_value(&mul.expr1), 2);
                        assert_eq!(int_value(&mul.expr2), 3);
                    },
                    other => panic!("expected a multiplication, got {:?}", other),
                }
            },
            other => panic!("expected an addition, got {:?}", other),
        },
        other => panic!("expected an assignment, got {:?}", other),
    }
}

#[test]
fn parse_addition_is_left_associative() {
    let program = parse("x = 1 - 2 - 3;").unwrap();
    match &program.stmts[0] {
        Stmt::Assign(a) => match &a.expr.expr {
            Expr_::Binop(outer) => {
                assert_eq!(outer.op, Binop::Sub);
                assert_eq!(int_value(&outer.expr2), 3);
                match &outer.expr1.expr {
                    Expr_::Binop(inner) => {
                        assert_eq!(inner.op, Binop::Sub);
                        assert_eq!(int_value(&inner.expr1), 1);
                        assert_eq!(int_value(&inner.expr2), 2);
                    },
                    other => panic!("expected a subtraction, got {:?}", other),
                }
            },
            other => panic!("expected a subtraction, got {:?}", other),
        },
        other => panic!("expected an assignment, got {:?}", other),
    }
}

#[test]
fn parse_unary_minus_applies_to_full_expression() {
    // `-1+2` parses as Negate(Add(1, 2)), not Add(Negate(1), 2).
    let program = parse("x = -1 + 2;").unwrap();
    match &program.stmts[0] {
        Stmt::Assign(a) => match &a.expr.expr {
            Expr_::Negate(n) => match &n.expr.expr {
                Expr_::Binop(add) => {
                    assert_eq!(add.op, Binop::Add);
                    assert_eq!(int_value(&add.expr1), 1);
                    assert_eq!(int_value(&add.expr2), 2);
                },
                other => panic!("expected an addition under the negation, got {:?}", other),
            },
            other => panic!("expected a negation, got {:?}", other),
        },
        other => panic!("expected an assignment, got {:?}", other),
    }
}

#[test]
fn parse_parentheses_override_precedence() {
    let program = parse("x = (1 + 2) * 3;").unwrap();
    match &program.stmts[0] {
        Stmt::Assign(a) => match &a.expr.expr {
            Expr_::Binop(mul) => {
                assert_eq!(mul.op, Binop::Mul);
                match &mul.expr1.expr {
                    Expr_::Binop(add) => assert_eq!(add.op, Binop::Add),
                    other => panic!("expected an addition, got {:?}", other),
                }
                assert_eq!(int_value(&mul.expr2), 3);
            },
            other => panic!("expected a multiplication, got {:?}", other),
        },
        other => panic!("expected an assignment, got {:?}", other),
    }
}

#[test]
fn parse_node_ids_follow_construction_order() {
    let program = parse("x = 1 + 2 * 3;").unwrap();
    match &program.stmts[0] {
        Stmt::Assign(a) => match &a.expr.expr {
            Expr_::Binop(add) => {
                assert_eq!(a.expr.node_id, 4);
                assert_eq!(add.expr1.node_id, 0);
                match &add.expr2.expr {
                    Expr_::Binop(mul) => {
                        assert_eq!(add.expr2.node_id, 3);
                        assert_eq!(mul.expr1.node_id, 1);
                        assert_eq!(mul.expr2.node_id, 2);
                    },
                    other => panic!("expected a multiplication, got {:?}", other),
                }
            },
            other => panic!("expected an addition, got {:?}", other),
        },
        other => panic!("expected an assignment, got {:?}", other),
    }
}

#[test]
fn parse_error_expected_colon() {
    let err = parse("var x int;").unwrap_err();
    assert_eq!(
        err,
        Error::UnexpectedToken(
            Token { typ: TokenType::TypeInt, lexeme: None, pos: Pos { line: 1, col: 7 } },
            vec![TokenType::Colon],
        )
    );
}

#[test]
fn parse_error_missing_semicolon_reports_eof() {
    let err = parse("x = 1").unwrap_err();
    assert_eq!(
        err,
        Error::UnexpectedToken(
            Token { typ: TokenType::Eof, lexeme: None, pos: Pos { line: 1, col: 6 } },
            vec![TokenType::Semicolon],
        )
    );
}

#[test]
fn parse_error_trailing_token_expects_eof() {
    let err = parse("var x : int; )").unwrap_err();
    assert_eq!(
        err,
        Error::UnexpectedToken(
            Token { typ: TokenType::RParen, lexeme: None, pos: Pos { line: 1, col: 14 } },
            vec![TokenType::Eof],
        )
    );
}

#[test]
fn parse_error_factor_lists_expected_kinds() {
    let err = parse("x = ;").unwrap_err();
    assert_eq!(
        err,
        Error::UnexpectedToken(
            Token { typ: TokenType::Semicolon, lexeme: None, pos: Pos { line: 1, col: 5 } },
            vec![
                TokenType::Int,
                TokenType::Float,
                TokenType::String,
                TokenType::Id,
                TokenType::Minus,
                TokenType::LParen,
            ],
        )
    );
}

#[test]
fn parse_int_literal_at_i64_max() {
    let program = parse("x = 9223372036854775807;").unwrap();
    match &program.stmts[0] {
        Stmt::Assign(a) => assert_eq!(int_value(&a.expr), i64::MAX),
        other => panic!("expected an assignment, got {:?}", other),
    }
}

#[test]
fn parse_int_literal_overflow_is_invalid() {
    let err = parse("x = 9223372036854775808;").unwrap_err();
    assert_eq!(
        err,
        Error::InvalidIntLiteral(Pos { line: 1, col: 5 }, "9223372036854775808".to_string())
    );
}

#[test]
fn parse_float_keeps_validated_lexeme() {
    let program = parse("x = 3.25;").unwrap();
    match &program.stmts[0] {
        Stmt::Assign(a) => match &a.expr.expr {
            Expr_::Float(f) => assert_eq!(f.value, "3.25".to_string()),
            other => panic!("expected a float literal, got {:?}", other),
        },
        other => panic!("expected an assignment, got {:?}", other),
    }
}

#[test]
fn parse_invalid_float_lexeme_in_hand_built_tokens() {
    // The scanner never produces such a lexeme; a hand-built token
    // sequence exercises the literal check.
    let p = |col: usize| Pos { line: 1, col };
    let tokens = vec![
        Token { typ: TokenType::Id, lexeme: Some("x".to_string()), pos: p(1) },
        Token { typ: TokenType::Equal, lexeme: None, pos: p(3) },
        Token { typ: TokenType::Float, lexeme: Some("1e5".to_string()), pos: p(5) },
        Token { typ: TokenType::Semicolon, lexeme: None, pos: p(8) },
        Token { typ: TokenType::Eof, lexeme: None, pos: p(9) },
    ];
    let mut parser = Parser::new(tokens);
    let err = parser.parse_program().unwrap_err();
    assert_eq!(err, Error::InvalidFloatLiteral(p(5), "1e5".to_string()));
}

#[test]
fn parse_twice_yields_identical_programs() {
    let src = "var x : int; if x then x = x * (2 + x); else read x; end while x do print x; done";
    let first = parse(src).unwrap();
    let second = parse(src).unwrap();
    assert_eq!(first, second);
}
