use minilang::ast::{Binop, Program};
use minilang::error::Error;
use minilang::parser::Parser;
use minilang::pos::Pos;
use minilang::scanner::scan;
use minilang::token::{Token, TokenType};
use minilang::typecheck::TypeChecker;
use minilang::types::Type;

fn parse(src: &str) -> Program {
    let tokens = scan(src).expect("scanning failed");
    let mut parser = Parser::new(tokens);
    parser.parse_program().expect("parsing failed")
}

fn typecheck(src: &str) -> (Result<(), Error>, TypeChecker) {
    let program = parse(src);
    let mut tc = TypeChecker::new();
    let r = tc.tc_program(&program);
    (r, tc)
}

#[test]
fn scenario_declared_assign_print() {
    let (r, tc) = typecheck("var x : int; x = 3; print x;");
    assert_eq!(r, Ok(()));
    assert_eq!(tc.symtable.get(&"x".to_string()), Some(Type::Int));
    assert_eq!(tc.symtable.entries.len(), 1);
    // Two expression nodes: the literal 3 and the identifier x.
    assert_eq!(tc.expr_table.len(), 2);
    assert_eq!(tc.expr_table.get(&0), Some(&Type::Int));
    assert_eq!(tc.expr_table.get(&1), Some(&Type::Int));
}

#[test]
fn scenario_narrowing_assignment_rejected() {
    let (r, _) = typecheck("var x : int; x = 1.5;");
    assert_eq!(
        r,
        Err(Error::UnexpectedType {
            pos: Pos { line: 1, col: 14 },
            expected: Type::Int,
            actual: Type::Float,
        })
    );
}

#[test]
fn scenario_undeclared_variable_in_assignment() {
    let (r, _) = typecheck("y = 1;");
    assert_eq!(
        r,
        Err(Error::UndeclaredVariable(Pos { line: 1, col: 1 }, "y".to_string()))
    );
}

#[test]
fn scenario_duplicate_variable_declaration() {
    let (r, tc) = typecheck("var x : int; var x : float;");
    assert_eq!(
        r,
        Err(Error::DuplicateVariable(Pos { line: 1, col: 14 }, "x".to_string()))
    );
    // The first declaration was recorded before the failing one.
    assert_eq!(tc.symtable.get(&"x".to_string()), Some(Type::Int));
    assert_eq!(tc.symtable.entries.len(), 1);
}

#[test]
fn scenario_if_without_else_typechecks() {
    let (r, tc) = typecheck("if 1 then print 1; end");
    assert_eq!(r, Ok(()));
    assert_eq!(tc.expr_table.len(), 2);
}

#[test]
fn promotion_int_int_yields_int() {
    let (r, tc) = typecheck("var x : int; x = 2 * 3 + 4 - 5;");
    assert_eq!(r, Ok(()));
    // Every node of the expression is Int, whatever the operator.
    for id in 0..7u64 {
        assert_eq!(tc.expr_table.get(&id), Some(&Type::Int), "node {}", id);
    }
}

#[test]
fn promotion_float_float_yields_float() {
    let (r, tc) = typecheck("var f : float; f = 1.5 / 2.5;");
    assert_eq!(r, Ok(()));
    assert_eq!(tc.expr_table.get(&2), Some(&Type::Float));
}

#[test]
fn promotion_mixed_yields_float_left() {
    // Int on the left, Float on the right: promoted to Float, which an
    // int variable cannot take.
    let (r, _) = typecheck("var x : int; x = 1 + 1.0;");
    assert_eq!(
        r,
        Err(Error::UnexpectedType {
            pos: Pos { line: 1, col: 14 },
            expected: Type::Int,
            actual: Type::Float,
        })
    );
}

#[test]
fn promotion_mixed_yields_float_right() {
    let (r, _) = typecheck("var x : int; x = 1.0 * 1;");
    assert_eq!(
        r,
        Err(Error::UnexpectedType {
            pos: Pos { line: 1, col: 14 },
            expected: Type::Int,
            actual: Type::Float,
        })
    );
}

#[test]
fn widening_assignment_accepted() {
    let (r, tc) = typecheck("var f : float; f = 2 * 3;");
    assert_eq!(r, Ok(()));
    assert_eq!(tc.expr_table.get(&2), Some(&Type::Int));
}

#[test]
fn condition_must_be_int_in_if() {
    let (r, _) = typecheck("if 1.5 then print 1; end");
    assert_eq!(
        r,
        Err(Error::UnexpectedType {
            pos: Pos { line: 1, col: 1 },
            expected: Type::Int,
            actual: Type::Float,
        })
    );
}

#[test]
fn condition_must_be_int_in_while() {
    let (r, _) = typecheck("while 2.0 do done");
    assert_eq!(
        r,
        Err(Error::UnexpectedType {
            pos: Pos { line: 1, col: 1 },
            expected: Type::Int,
            actual: Type::Float,
        })
    );
}

#[test]
fn negation_keeps_operand_type() {
    let (r, tc) = typecheck("var f : float; f = -2.5;");
    assert_eq!(r, Ok(()));
    // Node 0 is the literal, node 1 the negation.
    assert_eq!(tc.expr_table.get(&0), Some(&Type::Float));
    assert_eq!(tc.expr_table.get(&1), Some(&Type::Float));
}

#[test]
fn read_requires_declared_variable() {
    let (r, _) = typecheck("read y;");
    assert_eq!(
        r,
        Err(Error::UndeclaredVariable(Pos { line: 1, col: 1 }, "y".to_string()))
    );
    let (r2, _) = typecheck("var y : int; read y;");
    assert_eq!(r2, Ok(()));
}

#[test]
fn undeclared_identifier_in_expression() {
    let (r, tc) = typecheck("var a : int; a = 1 + c;");
    assert_eq!(
        r,
        Err(Error::UndeclaredVariable(Pos { line: 1, col: 22 }, "c".to_string()))
    );
    // Fail-fast: only the literal 1, visited before the failing
    // identifier, has a table entry.
    assert_eq!(tc.expr_table.len(), 1);
    assert_eq!(tc.expr_table.get(&0), Some(&Type::Int));
}

#[test]
fn fail_fast_stops_table_growth() {
    let (r, tc) = typecheck("var a : int; a = 1 + 2; b = 3;");
    assert_eq!(
        r,
        Err(Error::UndeclaredVariable(Pos { line: 1, col: 25 }, "b".to_string()))
    );
    // The right-hand side of the failing assignment is checked before
    // the name is looked up, so its node is recorded; nothing after
    // the failing statement is.
    assert_eq!(tc.expr_table.len(), 4);
    assert_eq!(tc.symtable.entries.len(), 1);
}

#[test]
fn branch_visits_write_distinct_entries() {
    let (r, tc) = typecheck("var x : int; if 1 then x = 2; else x = 3; end");
    assert_eq!(r, Ok(()));
    // Condition, then-branch literal, else-branch literal: three
    // distinct nodes, three entries.
    assert_eq!(tc.expr_table.len(), 3);
}

fn string_tokens(op: TokenType) -> Vec<Token> {
    // var s : string; s = s <op> s;
    // The scanner of this language has no string literal rule, so
    // string-typed programs are built directly from tokens.
    let p = |col: usize| Pos { line: 1, col };
    vec![
        Token { typ: TokenType::Var, lexeme: None, pos: p(1) },
        Token { typ: TokenType::Id, lexeme: Some("s".to_string()), pos: p(5) },
        Token { typ: TokenType::Colon, lexeme: None, pos: p(7) },
        Token { typ: TokenType::TypeString, lexeme: None, pos: p(9) },
        Token { typ: TokenType::Semicolon, lexeme: None, pos: p(15) },
        Token { typ: TokenType::Id, lexeme: Some("s".to_string()), pos: p(17) },
        Token { typ: TokenType::Equal, lexeme: None, pos: p(19) },
        Token { typ: TokenType::Id, lexeme: Some("s".to_string()), pos: p(21) },
        Token { typ: op, lexeme: None, pos: p(23) },
        Token { typ: TokenType::Id, lexeme: Some("s".to_string()), pos: p(25) },
        Token { typ: TokenType::Semicolon, lexeme: None, pos: p(27) },
        Token { typ: TokenType::Eof, lexeme: None, pos: p(28) },
    ]
}

fn typecheck_tokens(tokens: Vec<Token>) -> (Result<(), Error>, TypeChecker) {
    let mut parser = Parser::new(tokens);
    let program = parser.parse_program().expect("parsing failed");
    let mut tc = TypeChecker::new();
    let r = tc.tc_program(&program);
    (r, tc)
}

#[test]
fn strings_admit_addition_and_subtraction() {
    let (r_add, tc) = typecheck_tokens(string_tokens(TokenType::Plus));
    assert_eq!(r_add, Ok(()));
    assert_eq!(tc.expr_table.get(&2), Some(&Type::String));
    let (r_sub, _) = typecheck_tokens(string_tokens(TokenType::Minus));
    assert_eq!(r_sub, Ok(()));
}

#[test]
fn strings_reject_multiplication_and_division() {
    let (r_mul, _) = typecheck_tokens(string_tokens(TokenType::Star));
    assert_eq!(
        r_mul,
        Err(Error::IllTypedBinop {
            pos: Pos { line: 1, col: 21 },
            op: Binop::Mul,
            lhs: Type::String,
            rhs: Type::String,
        })
    );
    let (r_div, _) = typecheck_tokens(string_tokens(TokenType::Slash));
    assert_eq!(
        r_div,
        Err(Error::IllTypedBinop {
            pos: Pos { line: 1, col: 21 },
            op: Binop::Div,
            lhs: Type::String,
            rhs: Type::String,
        })
    );
}

#[test]
fn string_to_int_assignment_rejected() {
    // var x : int; x = s; with s a string variable.
    let p = |col: usize| Pos { line: 1, col };
    let tokens = vec![
        Token { typ: TokenType::Var, lexeme: None, pos: p(1) },
        Token { typ: TokenType::Id, lexeme: Some("s".to_string()), pos: p(5) },
        Token { typ: TokenType::Colon, lexeme: None, pos: p(7) },
        Token { typ: TokenType::TypeString, lexeme: None, pos: p(9) },
        Token { typ: TokenType::Semicolon, lexeme: None, pos: p(15) },
        Token { typ: TokenType::Var, lexeme: None, pos: p(17) },
        Token { typ: TokenType::Id, lexeme: Some("x".to_string()), pos: p(21) },
        Token { typ: TokenType::Colon, lexeme: None, pos: p(23) },
        Token { typ: TokenType::TypeInt, lexeme: None, pos: p(25) },
        Token { typ: TokenType::Semicolon, lexeme: None, pos: p(28) },
        Token { typ: TokenType::Id, lexeme: Some("x".to_string()), pos: p(30) },
        Token { typ: TokenType::Equal, lexeme: None, pos: p(32) },
        Token { typ: TokenType::Id, lexeme: Some("s".to_string()), pos: p(34) },
        Token { typ: TokenType::Semicolon, lexeme: None, pos: p(35) },
        Token { typ: TokenType::Eof, lexeme: None, pos: p(36) },
    ];
    let (r, _) = typecheck_tokens(tokens);
    assert_eq!(
        r,
        Err(Error::UnexpectedType {
            pos: Pos { line: 1, col: 30 },
            expected: Type::Int,
            actual: Type::String,
        })
    );
}

#[test]
fn typecheck_twice_yields_identical_tables() {
    let src = "var x : int; var f : float; x = 1 + 2; f = x * 3.5; if x then print f; end";
    let (r1, tc1) = typecheck(src);
    let (r2, tc2) = typecheck(src);
    assert_eq!(r1, Ok(()));
    assert_eq!(r1, r2);
    assert_eq!(tc1.symtable.entries, tc2.symtable.entries);
    assert_eq!(tc1.expr_table, tc2.expr_table);
}
