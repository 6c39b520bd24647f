use minilang::error::Error;
use minilang::pos::Pos;
use minilang::scanner::{scan, Scanner};
use minilang::token::{Token, TokenType};

fn kinds(tokens: &[Token]) -> Vec<TokenType> {
    tokens.iter().map(|t| t.typ).collect()
}

#[test]
fn scan_single_char_tokens_round_trip() {
    // Only recognized single-character tokens separated by whitespace:
    // the token count is the character count plus one for Eof.
    let tokens = scan("+ - * / = ( ) : ; ,").unwrap();
    assert_eq!(tokens.len(), 11);
    assert_eq!(
        kinds(&tokens),
        vec![
            TokenType::Plus,
            TokenType::Minus,
            TokenType::Star,
            TokenType::Slash,
            TokenType::Equal,
            TokenType::LParen,
            TokenType::RParen,
            TokenType::Colon,
            TokenType::Semicolon,
            TokenType::Comma,
            TokenType::Eof,
        ]
    );
}

#[test]
fn scan_round_trip_count_with_extra_whitespace() {
    let tokens = scan("  +\t;\n\n(  ").unwrap();
    assert_eq!(tokens.len(), 3 + 1);
}

#[test]
fn scan_empty_input_is_single_eof() {
    let tokens = scan("").unwrap();
    assert_eq!(tokens.len(), 1);
    assert_eq!(tokens[0].typ, TokenType::Eof);
    assert_eq!(tokens[0].lexeme, None);
    assert_eq!(tokens[0].pos, Pos { line: 1, col: 1 });
}

#[test]
fn scan_positions_track_lines_and_columns() {
    let tokens = scan("x =\n 12;").unwrap();
    assert_eq!(tokens[0].typ, TokenType::Id);
    assert_eq!(tokens[0].lexeme, Some("x".to_string()));
    assert_eq!(tokens[0].pos, Pos { line: 1, col: 1 });
    assert_eq!(tokens[1].typ, TokenType::Equal);
    assert_eq!(tokens[1].pos, Pos { line: 1, col: 3 });
    assert_eq!(tokens[2].typ, TokenType::Int);
    assert_eq!(tokens[2].lexeme, Some("12".to_string()));
    assert_eq!(tokens[2].pos, Pos { line: 2, col: 2 });
    assert_eq!(tokens[3].typ, TokenType::Semicolon);
    assert_eq!(tokens[3].pos, Pos { line: 2, col: 4 });
    assert_eq!(tokens[4].typ, TokenType::Eof);
    assert_eq!(tokens[4].pos, Pos { line: 2, col: 5 });
}

#[test]
fn scan_skips_comments_to_end_of_line() {
    let tokens = scan("a # a comment + ; with tokens\nb").unwrap();
    assert_eq!(
        kinds(&tokens),
        vec![TokenType::Id, TokenType::Id, TokenType::Eof]
    );
    assert_eq!(tokens[1].pos, Pos { line: 2, col: 1 });
}

#[test]
fn scan_comment_at_end_of_input_without_newline() {
    let tokens = scan("a # trailing comment").unwrap();
    assert_eq!(kinds(&tokens), vec![TokenType::Id, TokenType::Eof]);
}

#[test]
fn scan_classifies_keywords_and_identifiers() {
    let tokens =
        scan("if then else end while do done read print var int float string foo _bar x1 iff")
            .unwrap();
    assert_eq!(
        kinds(&tokens),
        vec![
            TokenType::If,
            TokenType::Then,
            TokenType::Else,
            TokenType::EndIf,
            TokenType::While,
            TokenType::Do,
            TokenType::Done,
            TokenType::Read,
            TokenType::Print,
            TokenType::Var,
            TokenType::TypeInt,
            TokenType::TypeFloat,
            TokenType::TypeString,
            TokenType::Id,
            TokenType::Id,
            TokenType::Id,
            TokenType::Id,
            TokenType::Eof,
        ]
    );
    // Keywords carry no lexeme; identifiers carry theirs.
    assert_eq!(tokens[0].lexeme, None);
    assert_eq!(tokens[13].lexeme, Some("foo".to_string()));
    assert_eq!(tokens[14].lexeme, Some("_bar".to_string()));
    assert_eq!(tokens[15].lexeme, Some("x1".to_string()));
    assert_eq!(tokens[16].lexeme, Some("iff".to_string()));
}

#[test]
fn scan_int_and_float_literals_by_maximal_munch() {
    let tokens = scan("12 3.14 5. 0.0").unwrap();
    assert_eq!(tokens[0].typ, TokenType::Int);
    assert_eq!(tokens[0].lexeme, Some("12".to_string()));
    assert_eq!(tokens[1].typ, TokenType::Float);
    assert_eq!(tokens[1].lexeme, Some("3.14".to_string()));
    assert_eq!(tokens[2].typ, TokenType::Float);
    assert_eq!(tokens[2].lexeme, Some("5.".to_string()));
    assert_eq!(tokens[3].typ, TokenType::Float);
    assert_eq!(tokens[3].lexeme, Some("0.0".to_string()));
    assert_eq!(tokens[4].typ, TokenType::Eof);
}

#[test]
fn scan_illegal_character_fails_before_any_parsing() {
    let err = scan("1 @ 2;").unwrap_err();
    assert_eq!(err, Error::IllegalCharacter(Pos { line: 1, col: 3 }, '@'));
}

#[test]
fn scan_second_dot_is_illegal() {
    let err = scan("1.2.3").unwrap_err();
    assert_eq!(err, Error::IllegalCharacter(Pos { line: 1, col: 4 }, '.'));
}

#[test]
fn next_token_is_idempotent_at_end_of_input() {
    let mut scanner = Scanner::new("x");
    let first = scanner.next_token().unwrap();
    assert_eq!(first.typ, TokenType::Id);
    let eof1 = scanner.next_token().unwrap();
    let eof2 = scanner.next_token().unwrap();
    assert_eq!(eof1.typ, TokenType::Eof);
    assert_eq!(eof1, eof2);
}

#[test]
fn scan_twice_yields_identical_tokens() {
    let src = "var x : int; # decl\nx = 1 + 2.5 * (x - 3);";
    let first = scan(src).unwrap();
    let second = scan(src).unwrap();
    assert_eq!(first, second);
}
