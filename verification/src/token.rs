//! Tokens: the closed vocabulary shared by the scanner and the parser.

use vstd::prelude::*;

use crate::pos::Pos;

verus! {

/// The closed set of token kinds.
///
/// `Int`, `Float`, `String` and `Id` carry a lexeme; punctuation and
/// keywords do not, their textual form being implied by the kind. `Eof`
/// terminates every well-formed token sequence exactly once, as the
/// last element.
#[derive(Debug, Clone, Copy, PartialEq, Eq, Structural, Hash)]
pub enum TokenType {
    // Values
    Int,
    Float,
    String,
    Id,
    // Punctuation and operators
    Plus,
    Minus,
    Star,
    Slash,
    Equal,
    LParen,
    RParen,
    Colon,
    Semicolon,
    Comma,
    // Keywords
    If,
    Then,
    Else,
    EndIf,
    While,
    Do,
    Done,
    Read,
    Print,
    Var,
    TypeInt,
    TypeFloat,
    TypeString,
    // Terminal
    Eof,
}

/// One classified token: its kind, its lexeme where the kind carries
/// one, and the position of its first character.
#[derive(Debug, PartialEq)]
pub struct Token {
    pub typ: TokenType,
    pub lexeme: Option<String>,
    pub pos: Pos,
}

impl Clone for Token {
    fn clone(&self) -> (res: Self)
        ensures
            res == *self,
    {
        Token {
            typ: self.typ,
            lexeme: match &self.lexeme {
                Some(s) => Some(s.clone()),
                None => None,
            },
            pos: self.pos,
        }
    }
}

/// The mathematical value of a [`Token`]: the lexeme is abstracted to
/// its character sequence.
pub ghost struct TokenV {
    pub typ: TokenType,
    pub lexeme: Option<Seq<char>>,
    pub pos: Pos,
}

impl View for Token {
    type V = TokenV;

    open spec fn view(&self) -> TokenV {
        TokenV {
            typ: self.typ,
            lexeme: match self.lexeme {
                Some(s) => Some(s@),
                None => None,
            },
            pos: self.pos,
        }
    }
}

impl DeepView for Token {
    type V = TokenV;

    open spec fn deep_view(&self) -> TokenV {
        self.view()
    }
}

/// A well-formed token sequence: nonempty, terminated by exactly one
/// `Eof`, which is the last element. The scanner produces such
/// sequences and the parser requires them.
pub open spec fn wf_token_seq(ts: Seq<TokenV>) -> bool {
    &&& ts.len() >= 1
    &&& ts.last().typ == TokenType::Eof
    &&& forall|k: int| 0 <= k < ts.len() - 1 ==> (#[trigger] ts[k].typ) != TokenType::Eof
}

} // verus!
