//! The parser: recursive-descent construction of the [`Program`] AST
//! from a finite token sequence, with exactly one token of lookahead.
//!
//! The grammar, lowest precedence first:
//!
//! ```text
//! program := decl* stmt* Eof
//! decl    := "var" Id ":" type ";"
//! stmt    := read | print | assign | if | while
//! expr    := term (("+"|"-") term)*        (left-associative)
//! term    := factor (("*"|"/") factor)*    (left-associative)
//! factor  := Int | Float | String | Id | "(" expr ")" | "-" expr
//! ```
//!
//! Unary minus applies to a full expression, so `-a+b` parses as
//! `Negate(Add(a, b))`. Every expression node receives a fresh node
//! identity, in construction order, so identities are deterministic
//! for a given input.
//!
//! The whole behaviour is pinned by the `sp_*` spec functions below,
//! one per parsing routine, each mapping (tokens, cursor, next
//! identity) to the parsed value, the new cursor and the next identity,
//! or to the error.

use vstd::prelude::*;

use crate::ast::{
    decls_view, lemma_stmts_view_push, stmts_view, Binop, Decl, DeclV, Expr, ExprBinop, ExprFloat,
    ExprId, ExprInt, ExprNegate, ExprNodeV, ExprString, ExprV, Expr_, Program, ProgramV, Stmt,
    StmtAssign, StmtIf, StmtPrint, StmtRead, StmtV, StmtWhile,
};
use crate::error::{Error, ErrorV};
use crate::pos::Pos;
use crate::scanner::{digits_end, is_digit, is_digit_char};
use vstd::string::StrSliceExecFns;
use crate::token::{wf_token_seq, Token, TokenType, TokenV};
use crate::types::Type;

verus! {

// ------------------------------------------------------------------
// Outcome of one spec-level parsing step
// ------------------------------------------------------------------

/// The outcome of parsing one construct from position `i`: the parsed
/// value together with the new cursor and the next free node identity,
/// or the error that ends the parse.
pub ghost enum Parsed<T> {
    Done { v: T, i: int, id: int },
    Fail { e: ErrorV },
}

/// Clamp a cursor into `[lo, hi]`. The spec parsing functions apply
/// this to the cursor handed back by a recursive call, so that their
/// termination measure decreases by definition; on the cursors the
/// executable parser actually produces (which only move forward and
/// stay inside the buffer) it is the identity.
pub open spec fn clamp_to(lo: int, hi: int, j: int) -> int {
    if j < lo {
        lo
    } else if j > hi {
        hi
    } else {
        j
    }
}

// ------------------------------------------------------------------
// Literal values
// ------------------------------------------------------------------

/// The numeric value of a decimal digit character.
pub open spec fn digit_val(c: char) -> int {
    c as u32 - 0x30
}

/// Whether every character of `s` is a decimal digit.
pub open spec fn all_digits(s: Seq<char>) -> bool {
    forall|k: int| 0 <= k < s.len() ==> is_digit_char(#[trigger] s[k])
}

/// The value of a digit string read in base 10.
pub open spec fn dec_val(s: Seq<char>) -> int
    decreases s.len(),
{
    if s.len() == 0 {
        0
    } else {
        dec_val(s.drop_last()) * 10 + digit_val(s.last())
    }
}

/// A valid integer literal lexeme: a nonempty digit string whose value
/// fits in an `i64`.
pub open spec fn int_lexeme_ok(s: Seq<char>) -> bool {
    &&& s.len() > 0
    &&& all_digits(s)
    &&& dec_val(s) <= i64::MAX
}

/// A valid float literal lexeme: a nonempty digit run, optionally
/// followed by `.` and a (possibly empty) digit run — exactly the
/// shape the scanner produces for `Float` tokens.
pub open spec fn float_lexeme_ok(s: Seq<char>) -> bool {
    let k = digits_end(s, 0);
    &&& k >= 1
    &&& (k == s.len() || (s[k] == '.' && digits_end(s, k + 1) == s.len()))
}

pub proof fn lemma_dec_val_nonneg(s: Seq<char>)
    requires
        all_digits(s),
    ensures
        dec_val(s) >= 0,
    decreases s.len(),
{
    if s.len() > 0 {
        assert(all_digits(s.drop_last()));
        lemma_dec_val_nonneg(s.drop_last());
    }
}

/// The value of a digit string dominates the value of each of its
/// prefixes.
pub proof fn lemma_dec_val_prefix(s: Seq<char>, k: int)
    requires
        all_digits(s),
        0 <= k <= s.len(),
    ensures
        dec_val(s.subrange(0, k)) <= dec_val(s),
    decreases s.len() - k,
{
    if k == s.len() {
        assert(s.subrange(0, k) =~= s);
    } else {
        let p = s.subrange(0, k);
        let q = s.subrange(0, k + 1);
        assert(q.drop_last() =~= p);
        assert(all_digits(p));
        lemma_dec_val_nonneg(p);
        assert(dec_val(q) == dec_val(p) * 10 + digit_val(s[k]));
        lemma_dec_val_prefix(s, k + 1);
    }
}

// ------------------------------------------------------------------
// Spec-level recursive descent
// ------------------------------------------------------------------

/// Consume one token of the given kind, or fail with the token found
/// and the expected kind.
pub open spec fn sp_eat(ts: Seq<TokenV>, i: int, t: TokenType) -> Result<int, ErrorV> {
    if !(0 <= i < ts.len()) {
        Err(arbitrary())
    } else if ts[i].typ == t {
        Ok(i + 1)
    } else {
        Err(ErrorV::UnexpectedToken(ts[i], seq![t]))
    }
}

/// Consume one token of the given kind and yield its lexeme; a token
/// of the right kind without a lexeme is reported like a wrong kind.
pub open spec fn sp_eat_lexeme(ts: Seq<TokenV>, i: int, t: TokenType) -> Result<
    (Seq<char>, int),
    ErrorV,
> {
    if !(0 <= i < ts.len()) {
        Err(arbitrary())
    } else if ts[i].typ == t {
        match ts[i].lexeme {
            Some(lex) => Ok((lex, i + 1)),
            None => Err(ErrorV::UnexpectedToken(ts[i], seq![t])),
        }
    } else {
        Err(ErrorV::UnexpectedToken(ts[i], seq![t]))
    }
}

/// Parse a type name: `int`, `float` or `string`.
pub open spec fn sp_type(ts: Seq<TokenV>, i: int) -> Result<(Type, int), ErrorV> {
    if !(0 <= i < ts.len()) {
        Err(arbitrary())
    } else if ts[i].typ == TokenType::TypeInt {
        Ok((Type::Int, i + 1))
    } else if ts[i].typ == TokenType::TypeFloat {
        Ok((Type::Float, i + 1))
    } else if ts[i].typ == TokenType::TypeString {
        Ok((Type::String, i + 1))
    } else {
        Err(
            ErrorV::UnexpectedToken(
                ts[i],
                seq![TokenType::TypeInt, TokenType::TypeFloat, TokenType::TypeString],
            ),
        )
    }
}

/// Parse one declaration: `"var" Id ":" type ";"`.
pub open spec fn sp_decl(ts: Seq<TokenV>, i: int) -> Result<(DeclV, int), ErrorV> {
    if !(0 <= i < ts.len()) {
        Err(arbitrary())
    } else {
        let pos = ts[i].pos;
        match sp_eat(ts, i, TokenType::Var) {
            Err(e) => Err(e),
            Ok(i1) => match sp_eat_lexeme(ts, i1, TokenType::Id) {
                Err(e) => Err(e),
                Ok((id, i2)) => match sp_eat(ts, i2, TokenType::Colon) {
                    Err(e) => Err(e),
                    Ok(i3) => match sp_type(ts, i3) {
                        Err(e) => Err(e),
                        Ok((ty, i4)) => match sp_eat(ts, i4, TokenType::Semicolon) {
                            Err(e) => Err(e),
                            Ok(i5) => Ok((DeclV { pos, id, ty }, i5)),
                        },
                    },
                },
            },
        }
    }
}

/// Parse `decl*`: declarations as long as the lookahead is `var`.
pub open spec fn sp_decls(ts: Seq<TokenV>, i: int) -> Result<(Seq<DeclV>, int), ErrorV>
    decreases ts.len() - i,
{
    if !(0 <= i < ts.len()) {
        Err(arbitrary())
    } else if ts[i].typ == TokenType::Var {
        match sp_decl(ts, i) {
            Err(e) => Err(e),
            Ok((d, i1)) => match sp_decls(ts, clamp_to(i + 1, ts.len() as int, i1)) {
                Err(e) => Err(e),
                Ok((ds, i2)) => Ok((seq![d] + ds, i2)),
            },
        }
    } else {
        Ok((Seq::empty(), i))
    }
}

/// Parse an integer literal token into an `Int` expression node, or
/// fail with `InvalidIntLiteral` when the lexeme is not a valid
/// integer literal.
pub open spec fn sp_int(ts: Seq<TokenV>, i: int, id: int) -> Parsed<ExprNodeV> {
    if !(0 <= i < ts.len()) {
        Parsed::Fail { e: arbitrary() }
    } else {
        let pos = ts[i].pos;
        match sp_eat_lexeme(ts, i, TokenType::Int) {
            Err(e) => Parsed::Fail { e },
            Ok((lex, i1)) => if int_lexeme_ok(lex) {
                Parsed::Done {
                    v: ExprNodeV {
                        pos,
                        node_id: id as u64,
                        expr: ExprV::Int { value: dec_val(lex) as i64 },
                    },
                    i: i1,
                    id: id + 1,
                }
            } else {
                Parsed::Fail { e: ErrorV::InvalidIntLiteral(pos, lex) }
            },
        }
    }
}

/// Parse a float literal token into a `Float` expression node carrying
/// its validated lexeme, or fail with `InvalidFloatLiteral`.
pub open spec fn sp_float(ts: Seq<TokenV>, i: int, id: int) -> Parsed<ExprNodeV> {
    if !(0 <= i < ts.len()) {
        Parsed::Fail { e: arbitrary() }
    } else {
        let pos = ts[i].pos;
        match sp_eat_lexeme(ts, i, TokenType::Float) {
            Err(e) => Parsed::Fail { e },
            Ok((lex, i1)) => if float_lexeme_ok(lex) {
                Parsed::Done {
                    v: ExprNodeV { pos, node_id: id as u64, expr: ExprV::Float { text: lex } },
                    i: i1,
                    id: id + 1,
                }
            } else {
                Parsed::Fail { e: ErrorV::InvalidFloatLiteral(pos, lex) }
            },
        }
    }
}

/// Parse a string literal token into a `String` expression node.
pub open spec fn sp_string(ts: Seq<TokenV>, i: int, id: int) -> Parsed<ExprNodeV> {
    if !(0 <= i < ts.len()) {
        Parsed::Fail { e: arbitrary() }
    } else {
        let pos = ts[i].pos;
        match sp_eat_lexeme(ts, i, TokenType::String) {
            Err(e) => Parsed::Fail { e },
            Ok((lex, i1)) => Parsed::Done {
                v: ExprNodeV { pos, node_id: id as u64, expr: ExprV::String { text: lex } },
                i: i1,
                id: id + 1,
            },
        }
    }
}

/// Parse an identifier token into an `Id` expression node.
pub open spec fn sp_id(ts: Seq<TokenV>, i: int, id: int) -> Parsed<ExprNodeV> {
    if !(0 <= i < ts.len()) {
        Parsed::Fail { e: arbitrary() }
    } else {
        let pos = ts[i].pos;
        match sp_eat_lexeme(ts, i, TokenType::Id) {
            Err(e) => Parsed::Fail { e },
            Ok((lex, i1)) => Parsed::Done {
                v: ExprNodeV { pos, node_id: id as u64, expr: ExprV::Id { id: lex } },
                i: i1,
                id: id + 1,
            },
        }
    }
}

/// Whether the lookahead starts another additive step.
pub open spec fn is_add_op(t: TokenType) -> bool {
    t == TokenType::Plus || t == TokenType::Minus
}

/// Whether the lookahead starts another multiplicative step.
pub open spec fn is_mul_op(t: TokenType) -> bool {
    t == TokenType::Star || t == TokenType::Slash
}

/// Parse `factor := Int | Float | String | Id | "(" expr ")" | "-" expr`.
pub open spec fn sp_factor(ts: Seq<TokenV>, i: int, id: int) -> Parsed<ExprNodeV>
    decreases ts.len() - i, 4int,
{
    if !(0 <= i < ts.len()) {
        Parsed::Fail { e: arbitrary() }
    } else {
        let pos = ts[i].pos;
        let t = ts[i].typ;
        if t == TokenType::Int {
            sp_int(ts, i, id)
        } else if t == TokenType::Float {
            sp_float(ts, i, id)
        } else if t == TokenType::String {
            sp_string(ts, i, id)
        } else if t == TokenType::Id {
            sp_id(ts, i, id)
        } else if t == TokenType::LParen {
            match sp_expr(ts, i + 1, id) {
                Parsed::Fail { e } => Parsed::Fail { e },
                Parsed::Done { v: e, i: i2, id: id2 } => match sp_eat(
                    ts,
                    i2,
                    TokenType::RParen,
                ) {
                    Err(err) => Parsed::Fail { e: err },
                    Ok(i3) => Parsed::Done { v: e, i: i3, id: id2 },
                },
            }
        } else if t == TokenType::Minus {
            match sp_expr(ts, i + 1, id) {
                Parsed::Fail { e } => Parsed::Fail { e },
                Parsed::Done { v: e, i: i2, id: id2 } => Parsed::Done {
                    v: ExprNodeV {
                        pos,
                        node_id: id2 as u64,
                        expr: ExprV::Negate { expr: Box::new(e) },
                    },
                    i: i2,
                    id: id2 + 1,
                },
            }
        } else {
            Parsed::Fail {
                e: ErrorV::UnexpectedToken(
                    ts[i],
                    seq![
                        TokenType::Int,
                        TokenType::Float,
                        TokenType::String,
                        TokenType::Id,
                        TokenType::Minus,
                        TokenType::LParen,
                    ],
                ),
            }
        }
    }
}

/// The multiplicative continuation: with `acc` parsed so far, as long
/// as the lookahead is `*` or `/`, consume the operator, parse a
/// factor, and fold into a left-associated `Binop` node carrying the
/// position of the whole term.
pub open spec fn sp_term_rest(
    ts: Seq<TokenV>,
    i: int,
    id: int,
    pos: Pos,
    acc: ExprNodeV,
) -> Parsed<ExprNodeV>
    decreases ts.len() - i, 5int,
{
    if !(0 <= i < ts.len()) {
        Parsed::Fail { e: arbitrary() }
    } else if is_mul_op(ts[i].typ) {
        let op = if ts[i].typ == TokenType::Star {
            Binop::Mul
        } else {
            Binop::Div
        };
        match sp_factor(ts, i + 1, id) {
            Parsed::Fail { e } => Parsed::Fail { e },
            Parsed::Done { v: f2, i: i2, id: id2 } => {
                let node = ExprNodeV {
                    pos,
                    node_id: id2 as u64,
                    expr: ExprV::Binop { op, expr1: Box::new(acc), expr2: Box::new(f2) },
                };
                sp_term_rest(ts, clamp_to(i + 1, ts.len() as int, i2), id2 + 1, pos, node)
            },
        }
    } else {
        Parsed::Done { v: acc, i, id }
    }
}

/// Parse `term := factor (("*"|"/") factor)*`, left-associative.
pub open spec fn sp_term(ts: Seq<TokenV>, i: int, id: int) -> Parsed<ExprNodeV>
    decreases ts.len() - i, 6int,
{
    if !(0 <= i < ts.len()) {
        Parsed::Fail { e: arbitrary() }
    } else {
        let pos = ts[i].pos;
        match sp_factor(ts, i, id) {
            Parsed::Fail { e } => Parsed::Fail { e },
            Parsed::Done { v: f, i: i1, id: id1 } => sp_term_rest(
                ts,
                clamp_to(i, ts.len() as int, i1),
                id1,
                pos,
                f,
            ),
        }
    }
}

/// The additive continuation, like `sp_term_rest` but over terms.
pub open spec fn sp_expr_rest(
    ts: Seq<TokenV>,
    i: int,
    id: int,
    pos: Pos,
    acc: ExprNodeV,
) -> Parsed<ExprNodeV>
    decreases ts.len() - i, 7int,
{
    if !(0 <= i < ts.len()) {
        Parsed::Fail { e: arbitrary() }
    } else if is_add_op(ts[i].typ) {
        let op = if ts[i].typ == TokenType::Plus {
            Binop::Add
        } else {
            Binop::Sub
        };
        match sp_term(ts, i + 1, id) {
            Parsed::Fail { e } => Parsed::Fail { e },
            Parsed::Done { v: t2, i: i2, id: id2 } => {
                let node = ExprNodeV {
                    pos,
                    node_id: id2 as u64,
                    expr: ExprV::Binop { op, expr1: Box::new(acc), expr2: Box::new(t2) },
                };
                sp_expr_rest(ts, clamp_to(i + 1, ts.len() as int, i2), id2 + 1, pos, node)
            },
        }
    } else {
        Parsed::Done { v: acc, i, id }
    }
}

/// Parse `expr := term (("+"|"-") term)*`, left-associative.
pub open spec fn sp_expr(ts: Seq<TokenV>, i: int, id: int) -> Parsed<ExprNodeV>
    decreases ts.len() - i, 8int,
{
    if !(0 <= i < ts.len()) {
        Parsed::Fail { e: arbitrary() }
    } else {
        let pos = ts[i].pos;
        match sp_term(ts, i, id) {
            Parsed::Fail { e } => Parsed::Fail { e },
            Parsed::Done { v: t, i: i1, id: id1 } => sp_expr_rest(
                ts,
                clamp_to(i, ts.len() as int, i1),
                id1,
                pos,
                t,
            ),
        }
    }
}

/// Parse `read Id ;`.
pub open spec fn sp_read(ts: Seq<TokenV>, i: int, id: int) -> Parsed<StmtV> {
    if !(0 <= i < ts.len()) {
        Parsed::Fail { e: arbitrary() }
    } else {
        let pos = ts[i].pos;
        match sp_eat(ts, i, TokenType::Read) {
            Err(e) => Parsed::Fail { e },
            Ok(i1) => match sp_eat_lexeme(ts, i1, TokenType::Id) {
                Err(e) => Parsed::Fail { e },
                Ok((name, i2)) => match sp_eat(ts, i2, TokenType::Semicolon) {
                    Err(e) => Parsed::Fail { e },
                    Ok(i3) => Parsed::Done { v: StmtV::Read { pos, id: name }, i: i3, id },
                },
            },
        }
    }
}

/// Parse `print expr ;`.
pub open spec fn sp_print(ts: Seq<TokenV>, i: int, id: int) -> Parsed<StmtV> {
    if !(0 <= i < ts.len()) {
        Parsed::Fail { e: arbitrary() }
    } else {
        let pos = ts[i].pos;
        match sp_eat(ts, i, TokenType::Print) {
            Err(e) => Parsed::Fail { e },
            Ok(i1) => match sp_expr(ts, i1, id) {
                Parsed::Fail { e } => Parsed::Fail { e },
                Parsed::Done { v: e, i: i2, id: id2 } => match sp_eat(
                    ts,
                    i2,
                    TokenType::Semicolon,
                ) {
                    Err(err) => Parsed::Fail { e: err },
                    Ok(i3) => Parsed::Done { v: StmtV::Print { pos, expr: e }, i: i3, id: id2 },
                },
            },
        }
    }
}

/// Parse `Id = expr ;`.
pub open spec fn sp_assign(ts: Seq<TokenV>, i: int, id: int) -> Parsed<StmtV> {
    if !(0 <= i < ts.len()) {
        Parsed::Fail { e: arbitrary() }
    } else {
        let pos = ts[i].pos;
        match sp_eat_lexeme(ts, i, TokenType::Id) {
            Err(e) => Parsed::Fail { e },
            Ok((name, i1)) => match sp_eat(ts, i1, TokenType::Equal) {
                Err(e) => Parsed::Fail { e },
                Ok(i2) => match sp_expr(ts, i2, id) {
                    Parsed::Fail { e } => Parsed::Fail { e },
                    Parsed::Done { v: e, i: i3, id: id3 } => match sp_eat(
                        ts,
                        i3,
                        TokenType::Semicolon,
                    ) {
                        Err(err) => Parsed::Fail { e: err },
                        Ok(i4) => Parsed::Done {
                            v: StmtV::Assign { pos, id: name, expr: e },
                            i: i4,
                            id: id3,
                        },
                    },
                },
            },
        }
    }
}

/// Whether a token kind can start a statement.
pub open spec fn stmt_start_type(t: TokenType) -> bool {
    ||| t == TokenType::Id
    ||| t == TokenType::If
    ||| t == TokenType::While
    ||| t == TokenType::Read
    ||| t == TokenType::Print
}

/// Parse `if expr then stmt* [else stmt*] end`. An absent `else`
/// yields an empty else-branch.
pub open spec fn sp_if(ts: Seq<TokenV>, i: int, id: int) -> Parsed<StmtV>
    decreases ts.len() - i, 0int,
{
    if !(0 <= i < ts.len()) {
        Parsed::Fail { e: arbitrary() }
    } else {
        let pos = ts[i].pos;
        match sp_eat(ts, i, TokenType::If) {
            Err(e) => Parsed::Fail { e },
            Ok(i1) => match sp_expr(ts, i1, id) {
                Parsed::Fail { e } => Parsed::Fail { e },
                Parsed::Done { v: cond, i: i2, id: id2 } => match sp_eat(
                    ts,
                    i2,
                    TokenType::Then,
                ) {
                    Err(err) => Parsed::Fail { e: err },
                    Ok(i3) => match sp_stmts(ts, clamp_to(i + 1, ts.len() as int, i3), id2) {
                        Parsed::Fail { e } => Parsed::Fail { e },
                        Parsed::Done { v: then_ss, i: i4, id: id4 } => {
                            let has_else = 0 <= i4 < ts.len() && ts[i4].typ == TokenType::Else;
                            let after_else: Parsed<Seq<StmtV>> = if has_else {
                                sp_stmts(ts, clamp_to(i + 1, ts.len() as int, i4 + 1), id4)
                            } else {
                                Parsed::Done { v: Seq::empty(), i: i4, id: id4 }
                            };
                            match after_else {
                                Parsed::Fail { e } => Parsed::Fail { e },
                                Parsed::Done { v: else_ss, i: i5, id: id5 } => match sp_eat(
                                    ts,
                                    i5,
                                    TokenType::EndIf,
                                ) {
                                    Err(err) => Parsed::Fail { e: err },
                                    Ok(i6) => Parsed::Done {
                                        v: StmtV::If {
                                            pos,
                                            expr: cond,
                                            then_stmts: then_ss,
                                            else_stmts: else_ss,
                                        },
                                        i: i6,
                                        id: id5,
                                    },
                                },
                            }
                        },
                    },
                },
            },
        }
    }
}

/// Parse `while expr do stmt* done`.
pub open spec fn sp_while(ts: Seq<TokenV>, i: int, id: int) -> Parsed<StmtV>
    decreases ts.len() - i, 0int,
{
    if !(0 <= i < ts.len()) {
        Parsed::Fail { e: arbitrary() }
    } else {
        let pos = ts[i].pos;
        match sp_eat(ts, i, TokenType::While) {
            Err(e) => Parsed::Fail { e },
            Ok(i1) => match sp_expr(ts, i1, id) {
                Parsed::Fail { e } => Parsed::Fail { e },
                Parsed::Done { v: cond, i: i2, id: id2 } => match sp_eat(ts, i2, TokenType::Do) {
                    Err(err) => Parsed::Fail { e: err },
                    Ok(i3) => match sp_stmts(ts, clamp_to(i + 1, ts.len() as int, i3), id2) {
                        Parsed::Fail { e } => Parsed::Fail { e },
                        Parsed::Done { v: body, i: i4, id: id4 } => match sp_eat(
                            ts,
                            i4,
                            TokenType::Done,
                        ) {
                            Err(err) => Parsed::Fail { e: err },
                            Ok(i5) => Parsed::Done {
                                v: StmtV::While { pos, expr: cond, stmts: body },
                                i: i5,
                                id: id4,
                            },
                        },
                    },
                },
            },
        }
    }
}

/// Parse one statement, dispatching on the lookahead.
pub open spec fn sp_stmt(ts: Seq<TokenV>, i: int, id: int) -> Parsed<StmtV>
    decreases ts.len() - i, 1int,
{
    if !(0 <= i < ts.len()) {
        Parsed::Fail { e: arbitrary() }
    } else {
        let t = ts[i].typ;
        if t == TokenType::Read {
            sp_read(ts, i, id)
        } else if t == TokenType::Print {
            sp_print(ts, i, id)
        } else if t == TokenType::Id {
            sp_assign(ts, i, id)
        } else if t == TokenType::If {
            sp_if(ts, i, id)
        } else if t == TokenType::While {
            sp_while(ts, i, id)
        } else {
            Parsed::Fail {
                e: ErrorV::UnexpectedToken(
                    ts[i],
                    seq![
                        TokenType::Read,
                        TokenType::Print,
                        TokenType::Id,
                        TokenType::If,
                        TokenType::While,
                    ],
                ),
            }
        }
    }
}

/// Parse `stmt*`: statements as long as the lookahead can start one.
pub open spec fn sp_stmts(ts: Seq<TokenV>, i: int, id: int) -> Parsed<Seq<StmtV>>
    decreases ts.len() - i, 2int,
{
    if !(0 <= i < ts.len()) {
        Parsed::Fail { e: arbitrary() }
    } else if stmt_start_type(ts[i].typ) {
        match sp_stmt(ts, i, id) {
            Parsed::Fail { e } => Parsed::Fail { e },
            Parsed::Done { v: s, i: i1, id: id1 } => match sp_stmts(
                ts,
                clamp_to(i + 1, ts.len() as int, i1),
                id1,
            ) {
                Parsed::Fail { e } => Parsed::Fail { e },
                Parsed::Done { v: ss, i: i2, id: id2 } => Parsed::Done {
                    v: seq![s] + ss,
                    i: i2,
                    id: id2,
                },
            },
        }
    } else {
        Parsed::Done { v: Seq::empty(), i, id }
    }
}

/// Parse a whole program: `decl* stmt* Eof`, with node identities
/// assigned from `id` on in construction order.
pub open spec fn sp_program(ts: Seq<TokenV>, i: int, id: int) -> Result<ProgramV, ErrorV> {
    match sp_decls(ts, i) {
        Err(e) => Err(e),
        Ok((ds, i1)) => match sp_stmts(ts, i1, id) {
            Parsed::Fail { e } => Err(e),
            Parsed::Done { v: ss, i: i2, id: _ } => match sp_eat(ts, i2, TokenType::Eof) {
                Err(e) => Err(e),
                Ok(_) => Ok(ProgramV { decls: ds, stmts: ss }),
            },
        },
    }
}

// ------------------------------------------------------------------
// The executable parser
// ------------------------------------------------------------------

/// A singleton list of expected token kinds, for diagnostics.
fn one_expected(t: TokenType) -> (v: Vec<TokenType>)
    ensures
        v@ == seq![t],
{
    let mut v: Vec<TokenType> = Vec::new();
    v.push(t);
    proof {
        assert(v@ =~= seq![t]);
    }
    v
}

/// The parser's state: the token sequence, the cursor (one token of
/// lookahead), and the next free expression node identity.
pub struct Parser {
    pub tokens: Vec<Token>,
    pub index: usize,
    pub curr_id: u64,
}

impl Parser {
    /// The mathematical value of the token sequence.
    pub open spec fn toks(&self) -> Seq<TokenV> {
        self.tokens.deep_view()
    }

    /// Well-formedness: the tokens are a well-formed sequence (ending
    /// in exactly one `Eof`), the cursor is on a token, and at most one
    /// node identity has been used per consumed token, so the identity
    /// counter cannot overflow.
    pub open spec fn wf(&self) -> bool {
        &&& wf_token_seq(self.toks())
        &&& (self.index as int) < self.toks().len()
        &&& (self.curr_id as int) <= (self.index as int)
    }

    /// Create a parser over a well-formed token sequence.
    pub fn new(tokens: Vec<Token>) -> (p: Parser)
        requires
            wf_token_seq(tokens.deep_view()),
        ensures
            p.wf(),
            p.toks() == tokens.deep_view(),
            p.index == 0,
            p.curr_id == 0,
    {
        Parser { tokens, index: 0, curr_id: 0 }
    }

    /// Hand out the next free node identity.
    fn next_id(&mut self) -> (x: u64)
        requires
            old(self).curr_id < u64::MAX,
        ensures
            final(self).tokens == old(self).tokens,
            final(self).index == old(self).index,
            final(self).curr_id == old(self).curr_id + 1,
            x == old(self).curr_id,
    {
        let x = self.curr_id;
        self.curr_id = self.curr_id + 1;
        x
    }

    /// The kind of the lookahead token.
    fn peek(&self) -> (t: TokenType)
        requires
            (self.index as int) < self.toks().len(),
        ensures
            t == self.toks()[self.index as int].typ,
    {
        self.tokens[self.index].typ
    }

    /// A copy of the lookahead token.
    fn curr_token(&self) -> (t: Token)
        requires
            (self.index as int) < self.toks().len(),
        ensures
            t@ == self.toks()[self.index as int],
    {
        self.tokens[self.index].clone()
    }

    /// The position of the lookahead token.
    fn token_pos(&self) -> (p: Pos)
        requires
            (self.index as int) < self.toks().len(),
        ensures
            p == self.toks()[self.index as int].pos,
    {
        self.tokens[self.index].pos
    }

    /// Consume one token of the given kind, or fail without moving.
    fn eat(&mut self, t: TokenType) -> (r: Result<(), Error>)
        requires
            old(self).wf(),
            t != TokenType::Eof,
        ensures
            final(self).wf(),
            final(self).tokens == old(self).tokens,
            final(self).curr_id == old(self).curr_id,
            match r {
                Ok(_) => sp_eat(old(self).toks(), old(self).index as int, t) == Ok::<int, ErrorV>(
                    final(self).index as int,
                ) && final(self).index == old(self).index + 1,
                Err(e) => sp_eat(old(self).toks(), old(self).index as int, t) == Err::<
                    int,
                    ErrorV,
                >(e@) && final(self).index == old(self).index,
            },
    {
        if self.peek() == t {
            proof {
                let ts = self.toks();
                assert(ts.last().typ == TokenType::Eof);
                assert(ts[self.index as int].typ != TokenType::Eof);
                assert(vstd::std_specs::vec::spec_vec_len(&self.tokens) == self.tokens@.len());
            }
            self.index = self.index + 1;
            Ok(())
        } else {
            Err(Error::UnexpectedToken(self.curr_token(), one_expected(t)))
        }
    }

    /// Consume one token of the given kind and yield its lexeme, or
    /// fail without moving.
    fn eat_lexeme(&mut self, t: TokenType) -> (r: Result<String, Error>)
        requires
            old(self).wf(),
            t != TokenType::Eof,
        ensures
            final(self).wf(),
            final(self).tokens == old(self).tokens,
            final(self).curr_id == old(self).curr_id,
            match r {
                Ok(lex) => sp_eat_lexeme(old(self).toks(), old(self).index as int, t) == Ok::<
                    (Seq<char>, int),
                    ErrorV,
                >((lex@, final(self).index as int)) && final(self).index == old(self).index + 1,
                Err(e) => sp_eat_lexeme(old(self).toks(), old(self).index as int, t) == Err::<
                    (Seq<char>, int),
                    ErrorV,
                >(e@) && final(self).index == old(self).index,
            },
    {
        if self.peek() == t {
            match &self.tokens[self.index].lexeme {
                Some(l) => {
                    let lex = l.clone();
                    proof {
                        let ts = self.toks();
                        assert(ts.last().typ == TokenType::Eof);
                        assert(ts[self.index as int].typ != TokenType::Eof);
                        assert(vstd::std_specs::vec::spec_vec_len(&self.tokens)
                            == self.tokens@.len());
                    }
                    self.index = self.index + 1;
                    Ok(lex)
                },
                None => Err(Error::UnexpectedToken(self.curr_token(), one_expected(t))),
            }
        } else {
            Err(Error::UnexpectedToken(self.curr_token(), one_expected(t)))
        }
    }

    /// Parse a type name: `int`, `float` or `string`.
    fn parse_type(&mut self) -> (r: Result<Type, Error>)
        requires
            old(self).wf(),
        ensures
            final(self).wf(),
            final(self).tokens == old(self).tokens,
            final(self).curr_id == old(self).curr_id,
            old(self).index <= final(self).index,
            match r {
                Ok(ty) => sp_type(old(self).toks(), old(self).index as int) == Ok::<
                    (Type, int),
                    ErrorV,
                >((ty, final(self).index as int)),
                Err(e) => sp_type(old(self).toks(), old(self).index as int) == Err::<
                    (Type, int),
                    ErrorV,
                >(e@),
            },
    {
        let t = self.peek();
        if t == TokenType::TypeInt {
            match self.eat(TokenType::TypeInt) {
                Ok(_) => Ok(Type::Int),
                Err(e) => Err(e),
            }
        } else if t == TokenType::TypeFloat {
            match self.eat(TokenType::TypeFloat) {
                Ok(_) => Ok(Type::Float),
                Err(e) => Err(e),
            }
        } else if t == TokenType::TypeString {
            match self.eat(TokenType::TypeString) {
                Ok(_) => Ok(Type::String),
                Err(e) => Err(e),
            }
        } else {
            let mut expected: Vec<TokenType> = Vec::new();
            expected.push(TokenType::TypeInt);
            expected.push(TokenType::TypeFloat);
            expected.push(TokenType::TypeString);
            proof {
                assert(expected@ =~= seq![
                    TokenType::TypeInt,
                    TokenType::TypeFloat,
                    TokenType::TypeString,
                ]);
            }
            Err(Error::UnexpectedToken(self.curr_token(), expected))
        }
    }

    /// Parse one declaration: `"var" Id ":" type ";"`.
    fn parse_decl(&mut self) -> (r: Result<Decl, Error>)
        requires
            old(self).wf(),
        ensures
            final(self).wf(),
            final(self).tokens == old(self).tokens,
            final(self).curr_id == old(self).curr_id,
            old(self).index <= final(self).index,
            match r {
                Ok(d) => sp_decl(old(self).toks(), old(self).index as int) == Ok::<
                    (DeclV, int),
                    ErrorV,
                >((d@, final(self).index as int)) && old(self).index < final(self).index,
                Err(e) => sp_decl(old(self).toks(), old(self).index as int) == Err::<
                    (DeclV, int),
                    ErrorV,
                >(e@),
            },
    {
        let pos = self.token_pos();
        match self.eat(TokenType::Var) {
            Ok(_) => {},
            Err(e) => {
                return Err(e);
            },
        }
        let id = match self.eat_lexeme(TokenType::Id) {
            Ok(l) => l,
            Err(e) => {
                return Err(e);
            },
        };
        match self.eat(TokenType::Colon) {
            Ok(_) => {},
            Err(e) => {
                return Err(e);
            },
        }
        let ty = match self.parse_type() {
            Ok(t) => t,
            Err(e) => {
                return Err(e);
            },
        };
        match self.eat(TokenType::Semicolon) {
            Ok(_) => {},
            Err(e) => {
                return Err(e);
            },
        }
        Ok(Decl { pos, id, ty })
    }

    /// Parse `decl*`: declarations as long as the lookahead is `var`.
    #[verifier::loop_isolation(false)]
    fn parse_decls(&mut self) -> (r: Result<Vec<Decl>, Error>)
        requires
            old(self).wf(),
        ensures
            final(self).wf(),
            final(self).tokens == old(self).tokens,
            final(self).curr_id == old(self).curr_id,
            old(self).index <= final(self).index,
            match r {
                Ok(ds) => sp_decls(old(self).toks(), old(self).index as int) == Ok::<
                    (Seq<DeclV>, int),
                    ErrorV,
                >((decls_view(ds@), final(self).index as int)),
                Err(e) => sp_decls(old(self).toks(), old(self).index as int) == Err::<
                    (Seq<DeclV>, int),
                    ErrorV,
                >(e@),
            },
    {
        let ghost ts = self.toks();
        let ghost i0 = self.index as int;
        let mut decls: Vec<Decl> = Vec::new();
        proof {
            assert(decls@ =~= Seq::<Decl>::empty());
        }
        while self.peek() == TokenType::Var
            invariant
                self.wf(),
                self.tokens == old(self).tokens,
                self.curr_id == old(self).curr_id,
                i0 <= self.index,
                sp_decls(ts, i0) == prepend_decls(
                    decls_view(decls@),
                    sp_decls(ts, self.index as int),
                ),
            decreases ts.len() - self.index,
        {
            let ghost ipre = self.index as int;
            let ghost accv = decls_view(decls@);
            let decl = match self.parse_decl() {
                Ok(d) => d,
                Err(e) => {
                    return Err(e);
                },
            };
            decls.push(decl);
            proof {
                let ipost = self.index as int;
                assert(clamp_to(ipre + 1, ts.len() as int, ipost) == ipost);
                assert(decls_view(decls@) =~= accv.push(decl@));
                match sp_decls(ts, ipost) {
                    Ok((ds2, i2)) => {
                        assert(accv + (seq![decl@] + ds2) =~= accv.push(decl@) + ds2);
                    },
                    Err(_) => {},
                }
            }
        }
        proof {
            assert(decls_view(decls@) + Seq::<DeclV>::empty() =~= decls_view(decls@));
        }
        Ok(decls)
    }

    /// Whether the lookahead is `+` or `-`.
    fn next_is_add(&self) -> (b: bool)
        requires
            (self.index as int) < self.toks().len(),
        ensures
            b == is_add_op(self.toks()[self.index as int].typ),
    {
        self.peek() == TokenType::Plus || self.peek() == TokenType::Minus
    }

    /// Whether the lookahead is `*` or `/`.
    fn next_is_mul(&self) -> (b: bool)
        requires
            (self.index as int) < self.toks().len(),
        ensures
            b == is_mul_op(self.toks()[self.index as int].typ),
    {
        self.peek() == TokenType::Star || self.peek() == TokenType::Slash
    }

    /// Parse an integer literal token into an `Int` expression.
    fn parse_int(&mut self) -> (r: Result<Expr, Error>)
        requires
            old(self).wf(),
        ensures
            final(self).wf(),
            final(self).tokens == old(self).tokens,
            old(self).index <= final(self).index,
            final(self).curr_id as int - old(self).curr_id as int <= final(self).index as int
                - old(self).index as int,
            old(self).curr_id <= final(self).curr_id,
            match r {
                Ok(e) => sp_int(old(self).toks(), old(self).index as int, old(self).curr_id as int)
                    == (Parsed::Done {
                    v: e@,
                    i: final(self).index as int,
                    id: final(self).curr_id as int,
                }) && old(self).index < final(self).index,
                Err(err) => sp_int(
                    old(self).toks(),
                    old(self).index as int,
                    old(self).curr_id as int,
                ) == (Parsed::<ExprNodeV>::Fail { e: err@ }) && (err@ is InvalidIntLiteral
                    ==> final(self).index == old(self).index + 1) && (err@ is UnexpectedToken
                    ==> final(self).index == old(self).index),
            },
    {
        let pos = self.token_pos();
        let lexeme = match self.eat_lexeme(TokenType::Int) {
            Ok(l) => l,
            Err(e) => {
                return Err(e);
            },
        };
        match parse_i64_digits(&lexeme) {
            Some(v) => {
                let nid = self.next_id();
                Ok(Expr { pos, node_id: nid, expr: Expr_::Int(ExprInt { value: v }) })
            },
            None => Err(Error::InvalidIntLiteral(pos, lexeme)),
        }
    }

    /// Parse a float literal token into a `Float` expression carrying
    /// its validated lexeme.
    fn parse_float(&mut self) -> (r: Result<Expr, Error>)
        requires
            old(self).wf(),
        ensures
            final(self).wf(),
            final(self).tokens == old(self).tokens,
            old(self).index <= final(self).index,
            final(self).curr_id as int - old(self).curr_id as int <= final(self).index as int
                - old(self).index as int,
            old(self).curr_id <= final(self).curr_id,
            match r {
                Ok(e) => sp_float(
                    old(self).toks(),
                    old(self).index as int,
                    old(self).curr_id as int,
                ) == (Parsed::Done {
                    v: e@,
                    i: final(self).index as int,
                    id: final(self).curr_id as int,
                }) && old(self).index < final(self).index,
                Err(err) => sp_float(
                    old(self).toks(),
                    old(self).index as int,
                    old(self).curr_id as int,
                ) == (Parsed::<ExprNodeV>::Fail { e: err@ }) && (err@ is InvalidFloatLiteral
                    ==> final(self).index == old(self).index + 1) && (err@ is UnexpectedToken
                    ==> final(self).index == old(self).index),
            },
    {
        let pos = self.token_pos();
        let lexeme = match self.eat_lexeme(TokenType::Float) {
            Ok(l) => l,
            Err(e) => {
                return Err(e);
            },
        };
        if float_lexeme_valid(&lexeme) {
            let nid = self.next_id();
            Ok(Expr { pos, node_id: nid, expr: Expr_::Float(ExprFloat { value: lexeme }) })
        } else {
            Err(Error::InvalidFloatLiteral(pos, lexeme))
        }
    }

    /// Parse a string literal token into a `String` expression.
    fn parse_string(&mut self) -> (r: Result<Expr, Error>)
        requires
            old(self).wf(),
        ensures
            final(self).wf(),
            final(self).tokens == old(self).tokens,
            old(self).index <= final(self).index,
            final(self).curr_id as int - old(self).curr_id as int <= final(self).index as int
                - old(self).index as int,
            old(self).curr_id <= final(self).curr_id,
            match r {
                Ok(e) => sp_string(
                    old(self).toks(),
                    old(self).index as int,
                    old(self).curr_id as int,
                ) == (Parsed::Done {
                    v: e@,
                    i: final(self).index as int,
                    id: final(self).curr_id as int,
                }) && old(self).index < final(self).index,
                Err(err) => sp_string(
                    old(self).toks(),
                    old(self).index as int,
                    old(self).curr_id as int,
                ) == (Parsed::<ExprNodeV>::Fail { e: err@ }),
            },
    {
        let pos = self.token_pos();
        let lexeme = match self.eat_lexeme(TokenType::String) {
            Ok(l) => l,
            Err(e) => {
                return Err(e);
            },
        };
        let nid = self.next_id();
        Ok(Expr { pos, node_id: nid, expr: Expr_::String(ExprString { value: lexeme }) })
    }

    /// Parse an identifier token into an `Id` expression.
    fn parse_id(&mut self) -> (r: Result<Expr, Error>)
        requires
            old(self).wf(),
        ensures
            final(self).wf(),
            final(self).tokens == old(self).tokens,
            old(self).index <= final(self).index,
            final(self).curr_id as int - old(self).curr_id as int <= final(self).index as int
                - old(self).index as int,
            old(self).curr_id <= final(self).curr_id,
            match r {
                Ok(e) => sp_id(old(self).toks(), old(self).index as int, old(self).curr_id as int)
                    == (Parsed::Done {
                    v: e@,
                    i: final(self).index as int,
                    id: final(self).curr_id as int,
                }) && old(self).index < final(self).index,
                Err(err) => sp_id(
                    old(self).toks(),
                    old(self).index as int,
                    old(self).curr_id as int,
                ) == (Parsed::<ExprNodeV>::Fail { e: err@ }),
            },
    {
        let pos = self.token_pos();
        let lexeme = match self.eat_lexeme(TokenType::Id) {
            Ok(l) => l,
            Err(e) => {
                return Err(e);
            },
        };
        let nid = self.next_id();
        Ok(Expr { pos, node_id: nid, expr: Expr_::Id(ExprId { id: lexeme }) })
    }

    /// Parse `factor := Int | Float | String | Id | "(" expr ")" | "-" expr`.
    fn parse_factor(&mut self) -> (r: Result<Expr, Error>)
        requires
            old(self).wf(),
        ensures
            final(self).wf(),
            final(self).tokens == old(self).tokens,
            old(self).index <= final(self).index,
            final(self).curr_id as int - old(self).curr_id as int <= final(self).index as int
                - old(self).index as int,
            old(self).curr_id <= final(self).curr_id,
            match r {
                Ok(e) => sp_factor(
                    old(self).toks(),
                    old(self).index as int,
                    old(self).curr_id as int,
                ) == (Parsed::Done {
                    v: e@,
                    i: final(self).index as int,
                    id: final(self).curr_id as int,
                }) && old(self).index < final(self).index,
                Err(err) => sp_factor(
                    old(self).toks(),
                    old(self).index as int,
                    old(self).curr_id as int,
                ) == (Parsed::<ExprNodeV>::Fail { e: err@ }),
            },
        decreases self.tokens@.len() - self.index, 4int,
    {
        let pos = self.token_pos();
        let t = self.peek();
        if t == TokenType::Int {
            self.parse_int()
        } else if t == TokenType::Float {
            self.parse_float()
        } else if t == TokenType::String {
            self.parse_string()
        } else if t == TokenType::Id {
            self.parse_id()
        } else if t == TokenType::LParen {
            match self.eat(TokenType::LParen) {
                Ok(_) => {},
                Err(e) => {
                    proof {
                        assert(false);
                    }
                    return Err(e);
                },
            }
            let e = match self.parse_expr() {
                Ok(e) => e,
                Err(err) => {
                    return Err(err);
                },
            };
            match self.eat(TokenType::RParen) {
                Ok(_) => Ok(e),
                Err(err) => Err(err),
            }
        } else if t == TokenType::Minus {
            match self.eat(TokenType::Minus) {
                Ok(_) => {},
                Err(e) => {
                    proof {
                        assert(false);
                    }
                    return Err(e);
                },
            }
            let e = match self.parse_expr() {
                Ok(e) => e,
                Err(err) => {
                    return Err(err);
                },
            };
            let nid = self.next_id();
            Ok(Expr { pos, node_id: nid, expr: Expr_::Negate(ExprNegate { expr: Box::new(e) }) })
        } else {
            let mut expected: Vec<TokenType> = Vec::new();
            expected.push(TokenType::Int);
            expected.push(TokenType::Float);
            expected.push(TokenType::String);
            expected.push(TokenType::Id);
            expected.push(TokenType::Minus);
            expected.push(TokenType::LParen);
            proof {
                assert(expected@ =~= seq![
                    TokenType::Int,
                    TokenType::Float,
                    TokenType::String,
                    TokenType::Id,
                    TokenType::Minus,
                    TokenType::LParen,
                ]);
            }
            Err(Error::UnexpectedToken(self.curr_token(), expected))
        }
    }

    /// Parse `term := factor (("*"|"/") factor)*`, left-associative.
    #[verifier::loop_isolation(false)]
    fn parse_term(&mut self) -> (r: Result<Expr, Error>)
        requires
            old(self).wf(),
        ensures
            final(self).wf(),
            final(self).tokens == old(self).tokens,
            old(self).index <= final(self).index,
            final(self).curr_id as int - old(self).curr_id as int <= final(self).index as int
                - old(self).index as int,
            old(self).curr_id <= final(self).curr_id,
            match r {
                Ok(e) => sp_term(old(self).toks(), old(self).index as int, old(self).curr_id as int)
                    == (Parsed::Done {
                    v: e@,
                    i: final(self).index as int,
                    id: final(self).curr_id as int,
                }) && old(self).index < final(self).index,
                Err(err) => sp_term(
                    old(self).toks(),
                    old(self).index as int,
                    old(self).curr_id as int,
                ) == (Parsed::<ExprNodeV>::Fail { e: err@ }),
            },
        decreases self.tokens@.len() - self.index, 6int,
    {
        let ghost ts = self.toks();
        let ghost i0 = self.index as int;
        let ghost id0 = self.curr_id as int;
        let pos = self.token_pos();
        let mut fact = match self.parse_factor() {
            Ok(f) => f,
            Err(e) => {
                return Err(e);
            },
        };
        proof {
            assert(clamp_to(i0, ts.len() as int, self.index as int) == self.index as int);
        }
        while self.next_is_mul()
            invariant
                self.wf(),
                self.tokens == old(self).tokens,
                i0 < self.index,
                id0 <= self.curr_id as int,
                self.curr_id as int - id0 <= self.index as int - i0,
                sp_term_rest(ts, self.index as int, self.curr_id as int, pos, fact@) == sp_term(
                    ts,
                    i0,
                    id0,
                ),
            decreases ts.len() - self.index,
        {
            let ghost ie = self.index as int;
            let ghost ce = self.curr_id as int;
            let ghost facte = fact@;
            let tok = self.peek();
            let op = if tok == TokenType::Star {
                Binop::Mul
            } else {
                Binop::Div
            };
            match self.eat(tok) {
                Ok(_) => {},
                Err(e) => {
                    proof {
                        assert(false);
                    }
                    return Err(e);
                },
            }
            let f2 = match self.parse_factor() {
                Ok(f) => f,
                Err(e) => {
                    return Err(e);
                },
            };
            let nid = self.next_id();
            fact =
            Expr {
                pos,
                node_id: nid,
                expr: Expr_::Binop(ExprBinop { op, expr1: Box::new(fact), expr2: Box::new(f2) }),
            };
            proof {
                assert(clamp_to(ie + 1, ts.len() as int, self.index as int)
                    == self.index as int);
            }
        }
        Ok(fact)
    }

    /// Parse `expr := term (("+"|"-") term)*`, left-associative.
    #[verifier::loop_isolation(false)]
    fn parse_expr(&mut self) -> (r: Result<Expr, Error>)
        requires
            old(self).wf(),
        ensures
            final(self).wf(),
            final(self).tokens == old(self).tokens,
            old(self).index <= final(self).index,
            final(self).curr_id as int - old(self).curr_id as int <= final(self).index as int
                - old(self).index as int,
            old(self).curr_id <= final(self).curr_id,
            match r {
                Ok(e) => sp_expr(old(self).toks(), old(self).index as int, old(self).curr_id as int)
                    == (Parsed::Done {
                    v: e@,
                    i: final(self).index as int,
                    id: final(self).curr_id as int,
                }) && old(self).index < final(self).index,
                Err(err) => sp_expr(
                    old(self).toks(),
                    old(self).index as int,
                    old(self).curr_id as int,
                ) == (Parsed::<ExprNodeV>::Fail { e: err@ }),
            },
        decreases self.tokens@.len() - self.index, 8int,
    {
        let ghost ts = self.toks();
        let ghost i0 = self.index as int;
        let ghost id0 = self.curr_id as int;
        let pos = self.token_pos();
        let mut term = match self.parse_term() {
            Ok(t) => t,
            Err(e) => {
                return Err(e);
            },
        };
        proof {
            assert(clamp_to(i0, ts.len() as int, self.index as int) == self.index as int);
        }
        while self.next_is_add()
            invariant
                self.wf(),
                self.tokens == old(self).tokens,
                i0 < self.index,
                id0 <= self.curr_id as int,
                self.curr_id as int - id0 <= self.index as int - i0,
                sp_expr_rest(ts, self.index as int, self.curr_id as int, pos, term@) == sp_expr(
                    ts,
                    i0,
                    id0,
                ),
            decreases ts.len() - self.index,
        {
            let ghost ie = self.index as int;
            let tok = self.peek();
            let op = if tok == TokenType::Plus {
                Binop::Add
            } else {
                Binop::Sub
            };
            match self.eat(tok) {
                Ok(_) => {},
                Err(e) => {
                    proof {
                        assert(false);
                    }
                    return Err(e);
                },
            }
            let t2 = match self.parse_term() {
                Ok(t) => t,
                Err(e) => {
                    return Err(e);
                },
            };
            let nid = self.next_id();
            term =
            Expr {
                pos,
                node_id: nid,
                expr: Expr_::Binop(ExprBinop { op, expr1: Box::new(term), expr2: Box::new(t2) }),
            };
            proof {
                assert(clamp_to(ie + 1, ts.len() as int, self.index as int)
                    == self.index as int);
            }
        }
        Ok(term)
    }

    /// Whether the lookahead can start a statement.
    fn is_stmt_start(&self) -> (b: bool)
        requires
            (self.index as int) < self.toks().len(),
        ensures
            b == stmt_start_type(self.toks()[self.index as int].typ),
    {
        let t = self.peek();
        t == TokenType::Id || t == TokenType::If || t == TokenType::While || t == TokenType::Read
            || t == TokenType::Print
    }

    /// Parse `read Id ;`.
    fn parse_read(&mut self) -> (r: Result<Stmt, Error>)
        requires
            old(self).wf(),
        ensures
            final(self).wf(),
            final(self).tokens == old(self).tokens,
            old(self).index <= final(self).index,
            final(self).curr_id as int - old(self).curr_id as int <= final(self).index as int
                - old(self).index as int,
            old(self).curr_id <= final(self).curr_id,
            match r {
                Ok(s) => sp_read(old(self).toks(), old(self).index as int, old(self).curr_id as int)
                    == (Parsed::Done {
                    v: s@,
                    i: final(self).index as int,
                    id: final(self).curr_id as int,
                }) && old(self).index < final(self).index,
                Err(err) => sp_read(
                    old(self).toks(),
                    old(self).index as int,
                    old(self).curr_id as int,
                ) == (Parsed::<StmtV>::Fail { e: err@ }),
            },
    {
        let pos = self.token_pos();
        match self.eat(TokenType::Read) {
            Ok(_) => {},
            Err(e) => {
                return Err(e);
            },
        }
        let id = match self.eat_lexeme(TokenType::Id) {
            Ok(l) => l,
            Err(e) => {
                return Err(e);
            },
        };
        match self.eat(TokenType::Semicolon) {
            Ok(_) => {},
            Err(e) => {
                return Err(e);
            },
        }
        Ok(Stmt::Read(StmtRead { pos, id }))
    }

    /// Parse `print expr ;`.
    fn parse_print(&mut self) -> (r: Result<Stmt, Error>)
        requires
            old(self).wf(),
        ensures
            final(self).wf(),
            final(self).tokens == old(self).tokens,
            old(self).index <= final(self).index,
            final(self).curr_id as int - old(self).curr_id as int <= final(self).index as int
                - old(self).index as int,
            old(self).curr_id <= final(self).curr_id,
            match r {
                Ok(s) => sp_print(
                    old(self).toks(),
                    old(self).index as int,
                    old(self).curr_id as int,
                ) == (Parsed::Done {
                    v: s@,
                    i: final(self).index as int,
                    id: final(self).curr_id as int,
                }) && old(self).index < final(self).index,
                Err(err) => sp_print(
                    old(self).toks(),
                    old(self).index as int,
                    old(self).curr_id as int,
                ) == (Parsed::<StmtV>::Fail { e: err@ }),
            },
    {
        let pos = self.token_pos();
        match self.eat(TokenType::Print) {
            Ok(_) => {},
            Err(e) => {
                return Err(e);
            },
        }
        let e = match self.parse_expr() {
            Ok(e) => e,
            Err(err) => {
                return Err(err);
            },
        };
        match self.eat(TokenType::Semicolon) {
            Ok(_) => {},
            Err(err) => {
                return Err(err);
            },
        }
        Ok(Stmt::Print(StmtPrint { pos, expr: e }))
    }

    /// Parse `Id = expr ;`.
    fn parse_assign(&mut self) -> (r: Result<Stmt, Error>)
        requires
            old(self).wf(),
        ensures
            final(self).wf(),
            final(self).tokens == old(self).tokens,
            old(self).index <= final(self).index,
            final(self).curr_id as int - old(self).curr_id as int <= final(self).index as int
                - old(self).index as int,
            old(self).curr_id <= final(self).curr_id,
            match r {
                Ok(s) => sp_assign(
                    old(self).toks(),
                    old(self).index as int,
                    old(self).curr_id as int,
                ) == (Parsed::Done {
                    v: s@,
                    i: final(self).index as int,
                    id: final(self).curr_id as int,
                }) && old(self).index < final(self).index,
                Err(err) => sp_assign(
                    old(self).toks(),
                    old(self).index as int,
                    old(self).curr_id as int,
                ) == (Parsed::<StmtV>::Fail { e: err@ }),
            },
    {
        let pos = self.token_pos();
        let id = match self.eat_lexeme(TokenType::Id) {
            Ok(l) => l,
            Err(e) => {
                return Err(e);
            },
        };
        match self.eat(TokenType::Equal) {
            Ok(_) => {},
            Err(e) => {
                return Err(e);
            },
        }
        let e = match self.parse_expr() {
            Ok(e) => e,
            Err(err) => {
                return Err(err);
            },
        };
        match self.eat(TokenType::Semicolon) {
            Ok(_) => {},
            Err(err) => {
                return Err(err);
            },
        }
        Ok(Stmt::Assign(StmtAssign { pos, id, expr: e }))
    }

    /// Parse `if expr then stmt* [else stmt*] end`. An absent `else`
    /// yields an empty else-branch, not an error.
    #[verifier::loop_isolation(false)]
    fn parse_if(&mut self) -> (r: Result<Stmt, Error>)
        requires
            old(self).wf(),
        ensures
            final(self).wf(),
            final(self).tokens == old(self).tokens,
            old(self).index <= final(self).index,
            final(self).curr_id as int - old(self).curr_id as int <= final(self).index as int
                - old(self).index as int,
            old(self).curr_id <= final(self).curr_id,
            match r {
                Ok(s) => sp_if(old(self).toks(), old(self).index as int, old(self).curr_id as int)
                    == (Parsed::Done {
                    v: s@,
                    i: final(self).index as int,
                    id: final(self).curr_id as int,
                }) && old(self).index < final(self).index,
                Err(err) => sp_if(
                    old(self).toks(),
                    old(self).index as int,
                    old(self).curr_id as int,
                ) == (Parsed::<StmtV>::Fail { e: err@ }),
            },
        decreases self.tokens@.len() - self.index, 0int,
    {
        let ghost ts = self.toks();
        let ghost i0 = self.index as int;
        let pos = self.token_pos();
        match self.eat(TokenType::If) {
            Ok(_) => {},
            Err(e) => {
                return Err(e);
            },
        }
        let e = match self.parse_expr() {
            Ok(e) => e,
            Err(err) => {
                return Err(err);
            },
        };
        match self.eat(TokenType::Then) {
            Ok(_) => {},
            Err(err) => {
                return Err(err);
            },
        }
        proof {
            assert(clamp_to(i0 + 1, ts.len() as int, self.index as int) == self.index as int);
        }
        let then_stmts = match self.parse_stmts() {
            Ok(ss) => ss,
            Err(err) => {
                return Err(err);
            },
        };
        let else_stmts = if self.peek() == TokenType::Else {
            match self.eat(TokenType::Else) {
                Ok(_) => {},
                Err(err) => {
                    proof {
                        assert(false);
                    }
                    return Err(err);
                },
            }
            proof {
                assert(clamp_to(i0 + 1, ts.len() as int, self.index as int) == self.index as int);
            }
            match self.parse_stmts() {
                Ok(ss) => ss,
                Err(err) => {
                    return Err(err);
                },
            }
        } else {
            Vec::new()
        };
        proof {
            assert(stmts_view(Seq::<Stmt>::empty()) =~= Seq::<StmtV>::empty());
        }
        match self.eat(TokenType::EndIf) {
            Ok(_) => {},
            Err(err) => {
                return Err(err);
            },
        }
        Ok(Stmt::If(StmtIf { pos, expr: e, then_stmts, else_stmts }))
    }

    /// Parse `while expr do stmt* done`.
    #[verifier::loop_isolation(false)]
    fn parse_while(&mut self) -> (r: Result<Stmt, Error>)
        requires
            old(self).wf(),
        ensures
            final(self).wf(),
            final(self).tokens == old(self).tokens,
            old(self).index <= final(self).index,
            final(self).curr_id as int - old(self).curr_id as int <= final(self).index as int
                - old(self).index as int,
            old(self).curr_id <= final(self).curr_id,
            match r {
                Ok(s) => sp_while(
                    old(self).toks(),
                    old(self).index as int,
                    old(self).curr_id as int,
                ) == (Parsed::Done {
                    v: s@,
                    i: final(self).index as int,
                    id: final(self).curr_id as int,
                }) && old(self).index < final(self).index,
                Err(err) => sp_while(
                    old(self).toks(),
                    old(self).index as int,
                    old(self).curr_id as int,
                ) == (Parsed::<StmtV>::Fail { e: err@ }),
            },
        decreases self.tokens@.len() - self.index, 0int,
    {
        let ghost ts = self.toks();
        let ghost i0 = self.index as int;
        let pos = self.token_pos();
        match self.eat(TokenType::While) {
            Ok(_) => {},
            Err(e) => {
                return Err(e);
            },
        }
        let e = match self.parse_expr() {
            Ok(e) => e,
            Err(err) => {
                return Err(err);
            },
        };
        match self.eat(TokenType::Do) {
            Ok(_) => {},
            Err(err) => {
                return Err(err);
            },
        }
        proof {
            assert(clamp_to(i0 + 1, ts.len() as int, self.index as int) == self.index as int);
        }
        let stmts = match self.parse_stmts() {
            Ok(ss) => ss,
            Err(err) => {
                return Err(err);
            },
        };
        match self.eat(TokenType::Done) {
            Ok(_) => {},
            Err(err) => {
                return Err(err);
            },
        }
        Ok(Stmt::While(StmtWhile { pos, expr: e, stmts }))
    }

    /// Parse one statement, dispatching on the lookahead.
    fn parse_stmt(&mut self) -> (r: Result<Stmt, Error>)
        requires
            old(self).wf(),
        ensures
            final(self).wf(),
            final(self).tokens == old(self).tokens,
            old(self).index <= final(self).index,
            final(self).curr_id as int - old(self).curr_id as int <= final(self).index as int
                - old(self).index as int,
            old(self).curr_id <= final(self).curr_id,
            match r {
                Ok(s) => sp_stmt(old(self).toks(), old(self).index as int, old(self).curr_id as int)
                    == (Parsed::Done {
                    v: s@,
                    i: final(self).index as int,
                    id: final(self).curr_id as int,
                }) && old(self).index < final(self).index,
                Err(err) => sp_stmt(
                    old(self).toks(),
                    old(self).index as int,
                    old(self).curr_id as int,
                ) == (Parsed::<StmtV>::Fail { e: err@ }),
            },
        decreases self.tokens@.len() - self.index, 1int,
    {
        let t = self.peek();
        if t == TokenType::Read {
            self.parse_read()
        } else if t == TokenType::Print {
            self.parse_print()
        } else if t == TokenType::Id {
            self.parse_assign()
        } else if t == TokenType::If {
            self.parse_if()
        } else if t == TokenType::While {
            self.parse_while()
        } else {
            let mut expected: Vec<TokenType> = Vec::new();
            expected.push(TokenType::Read);
            expected.push(TokenType::Print);
            expected.push(TokenType::Id);
            expected.push(TokenType::If);
            expected.push(TokenType::While);
            proof {
                assert(expected@ =~= seq![
                    TokenType::Read,
                    TokenType::Print,
                    TokenType::Id,
                    TokenType::If,
                    TokenType::While,
                ]);
            }
            Err(Error::UnexpectedToken(self.curr_token(), expected))
        }
    }

    /// Parse `stmt*`: statements as long as the lookahead can start one.
    #[verifier::loop_isolation(false)]
    fn parse_stmts(&mut self) -> (r: Result<Vec<Stmt>, Error>)
        requires
            old(self).wf(),
        ensures
            final(self).wf(),
            final(self).tokens == old(self).tokens,
            old(self).index <= final(self).index,
            final(self).curr_id as int - old(self).curr_id as int <= final(self).index as int
                - old(self).index as int,
            old(self).curr_id <= final(self).curr_id,
            match r {
                Ok(ss) => sp_stmts(
                    old(self).toks(),
                    old(self).index as int,
                    old(self).curr_id as int,
                ) == (Parsed::Done {
                    v: stmts_view(ss@),
                    i: final(self).index as int,
                    id: final(self).curr_id as int,
                }),
                Err(err) => sp_stmts(
                    old(self).toks(),
                    old(self).index as int,
                    old(self).curr_id as int,
                ) == (Parsed::<Seq<StmtV>>::Fail { e: err@ }),
            },
        decreases self.tokens@.len() - self.index, 2int,
    {
        let ghost ts = self.toks();
        let ghost i0 = self.index as int;
        let ghost id0 = self.curr_id as int;
        let mut stmts: Vec<Stmt> = Vec::new();
        proof {
            assert(stmts@ =~= Seq::<Stmt>::empty());
            assert(stmts_view(stmts@) =~= Seq::<StmtV>::empty());
        }
        while self.is_stmt_start()
            invariant
                self.wf(),
                self.tokens == old(self).tokens,
                i0 <= self.index,
                id0 <= self.curr_id as int,
                self.curr_id as int - id0 <= self.index as int - i0,
                sp_stmts(ts, i0, id0) == prepend_stmts(
                    stmts_view(stmts@),
                    sp_stmts(ts, self.index as int, self.curr_id as int),
                ),
            decreases ts.len() - self.index,
        {
            let ghost ipre = self.index as int;
            let ghost accv = stmts_view(stmts@);
            let ghost svpre = stmts@;
            let stmt = match self.parse_stmt() {
                Ok(s) => s,
                Err(e) => {
                    return Err(e);
                },
            };
            stmts.push(stmt);
            proof {
                assert(clamp_to(ipre + 1, ts.len() as int, self.index as int)
                    == self.index as int);
                lemma_stmts_view_push(svpre, stmt);
                match sp_stmts(ts, self.index as int, self.curr_id as int) {
                    Parsed::Done { v: ss2, i: _, id: _ } => {
                        assert(accv + (seq![stmt@] + ss2) =~= accv.push(stmt@) + ss2);
                    },
                    Parsed::Fail { e: _ } => {},
                }
            }
        }
        proof {
            assert(stmts_view(stmts@) + Seq::<StmtV>::empty() =~= stmts_view(stmts@));
        }
        Ok(stmts)
    }

    /// Parse a whole program: `decl* stmt*`, ending on the `Eof` token.
    pub fn parse_program(&mut self) -> (r: Result<Program, Error>)
        requires
            old(self).wf(),
        ensures
            final(self).wf(),
            final(self).tokens == old(self).tokens,
            old(self).index <= final(self).index,
            old(self).curr_id <= final(self).curr_id,
            match r {
                Ok(p) => sp_program(
                    old(self).toks(),
                    old(self).index as int,
                    old(self).curr_id as int,
                ) == Ok::<ProgramV, ErrorV>(p@),
                Err(e) => sp_program(
                    old(self).toks(),
                    old(self).index as int,
                    old(self).curr_id as int,
                ) == Err::<ProgramV, ErrorV>(e@),
            },
    {
        let decls = match self.parse_decls() {
            Ok(d) => d,
            Err(e) => {
                return Err(e);
            },
        };
        let stmts = match self.parse_stmts() {
            Ok(s) => s,
            Err(e) => {
                return Err(e);
            },
        };
        if self.peek() == TokenType::Eof {
            Ok(Program { decls, stmts })
        } else {
            Err(Error::UnexpectedToken(self.curr_token(), one_expected(TokenType::Eof)))
        }
    }
}

/// Prefix statements onto the outcome of parsing the remaining ones.
pub open spec fn prepend_stmts(pre: Seq<StmtV>, r: Parsed<Seq<StmtV>>) -> Parsed<Seq<StmtV>> {
    match r {
        Parsed::Done { v, i, id } => Parsed::Done { v: pre + v, i, id },
        Parsed::Fail { e } => Parsed::Fail { e },
    }
}

/// Parse a nonempty all-digit string as an `i64`, reporting `None`
/// when the string is not a valid integer literal (empty, a non-digit
/// character, or a value above `i64::MAX`).
#[verifier::loop_isolation(false)]
fn parse_i64_digits(s: &String) -> (r: Option<i64>)
    ensures
        match r {
            Some(v) => int_lexeme_ok(s@) && v as int == dec_val(s@),
            None => !int_lexeme_ok(s@),
        },
{
    let n = s.as_str().unicode_len();
    if n == 0 {
        return None;
    }
    let mut acc: i64 = 0;
    let mut k: usize = 0;
    proof {
        assert(s@.subrange(0, 0) =~= Seq::<char>::empty());
    }
    while k < n
        invariant
            k <= n,
            all_digits(s@.subrange(0, k as int)),
            0 <= acc,
            acc as int == dec_val(s@.subrange(0, k as int)),
        decreases n - k,
    {
        let c = s.as_str().get_char(k);
        if !is_digit(c) {
            proof {
                assert(s@[k as int] == c);
                assert(!all_digits(s@));
            }
            return None;
        }
        let d: i64 = ((c as u32) - 0x30) as i64;
        let ghost prefix = s@.subrange(0, k as int);
        let ghost prefix1 = s@.subrange(0, k as int + 1);
        proof {
            assert(prefix1.drop_last() =~= prefix);
            assert(prefix1.last() == s@[k as int]);
            assert(dec_val(prefix1) == dec_val(prefix) * 10 + digit_val(s@[k as int]));
            assert(all_digits(prefix1));
        }
        if acc > (i64::MAX - d) / 10 {
            proof {
                assert(dec_val(prefix1) > i64::MAX);
                if all_digits(s@) {
                    lemma_dec_val_prefix(s@, k as int + 1);
                    assert(dec_val(s@) > i64::MAX);
                }
            }
            return None;
        }
        acc = acc * 10 + d;
        k = k + 1;
    }
    proof {
        assert(s@.subrange(0, n as int) =~= s@);
    }
    Some(acc)
}

/// Check that a lexeme has the shape of a valid float literal: a
/// nonempty digit run, optionally followed by `.` and a digit run.
#[verifier::loop_isolation(false)]
fn float_lexeme_valid(s: &String) -> (b: bool)
    ensures
        b == float_lexeme_ok(s@),
{
    let n = s.as_str().unicode_len();
    let mut k: usize = 0;
    while k < n && is_digit(s.as_str().get_char(k))
        invariant
            k <= n,
            digits_end(s@, k as int) == digits_end(s@, 0),
        decreases n - k,
    {
        k = k + 1;
    }
    if k == 0 {
        return false;
    }
    if k == n {
        return true;
    }
    if s.as_str().get_char(k) != '.' {
        return false;
    }
    let mut j: usize = k + 1;
    while j < n && is_digit(s.as_str().get_char(j))
        invariant
            k + 1 <= j <= n,
            digits_end(s@, j as int) == digits_end(s@, k as int + 1),
        decreases n - j,
    {
        j = j + 1;
    }
    j == n
}

/// Prefix declarations onto the outcome of parsing the remaining ones.
pub open spec fn prepend_decls(pre: Seq<DeclV>, r: Result<(Seq<DeclV>, int), ErrorV>) -> Result<
    (Seq<DeclV>, int),
    ErrorV,
> {
    match r {
        Ok((ds, i)) => Ok((pre + ds, i)),
        Err(e) => Err(e),
    }
}

} // verus!
