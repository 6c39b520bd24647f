//! The abstract syntax tree: declarations, statements and expressions,
//! each carrying a source position. Every expression node additionally
//! carries a node identity: a counter value assigned at construction
//! time, unique per parse, which the type checker uses as the key of
//! the expression-type table. Two syntactically identical expressions
//! at different places are different entities.

use vstd::prelude::*;

use crate::pos::Pos;
use crate::types::Type;

verus! {

/// One `var` binding: `var <id> : <ty> ;`.
#[derive(Debug, PartialEq)]
pub struct Decl {
    pub pos: Pos,
    pub id: String,
    pub ty: Type,
}

/// `read <id> ;`
#[derive(Debug, PartialEq)]
pub struct StmtRead {
    pub pos: Pos,
    pub id: String,
}

/// `print <expr> ;`
#[derive(Debug, PartialEq)]
pub struct StmtPrint {
    pub pos: Pos,
    pub expr: Expr,
}

/// `<id> = <expr> ;`
#[derive(Debug, PartialEq)]
pub struct StmtAssign {
    pub pos: Pos,
    pub id: String,
    pub expr: Expr,
}

/// `if <expr> then <stmts> [else <stmts>] endif`. An absent `else`
/// clause yields an empty else-branch sequence, not an error.
#[derive(Debug, PartialEq)]
pub struct StmtIf {
    pub pos: Pos,
    pub expr: Expr,
    pub then_stmts: Vec<Stmt>,
    pub else_stmts: Vec<Stmt>,
}

/// `while <expr> do <stmts> done`
#[derive(Debug, PartialEq)]
pub struct StmtWhile {
    pub pos: Pos,
    pub expr: Expr,
    pub stmts: Vec<Stmt>,
}

/// A statement: the closed set of statement forms.
#[derive(Debug, PartialEq)]
pub enum Stmt {
    Read(StmtRead),
    Print(StmtPrint),
    Assign(StmtAssign),
    If(StmtIf),
    While(StmtWhile),
}

/// A binary arithmetic operator.
#[derive(Debug, Clone, Copy, PartialEq, Eq, Structural, Hash)]
pub enum Binop {
    Add,
    Sub,
    Mul,
    Div,
}

/// An identifier expression.
#[derive(Debug, PartialEq)]
pub struct ExprId {
    pub id: String,
}

/// An integer literal expression.
#[derive(Debug, PartialEq)]
pub struct ExprInt {
    pub value: i64,
}

/// A float literal expression. The value is carried as its validated
/// source text (a maximal digit run, optionally followed by `.` and a
/// digit run); numeric interpretation is left to the code generator.
#[derive(Debug, PartialEq)]
pub struct ExprFloat {
    pub value: String,
}

/// A string literal expression.
#[derive(Debug, PartialEq)]
pub struct ExprString {
    pub value: String,
}

/// A unary negation: `- <expr>`. Negation applies to a full
/// expression, so `-a+b` parses as `Negate(Add(a, b))`.
#[derive(Debug, PartialEq)]
pub struct ExprNegate {
    pub expr: Box<Expr>,
}

/// A binary operation `<expr1> <op> <expr2>`.
#[derive(Debug, PartialEq)]
pub struct ExprBinop {
    pub op: Binop,
    pub expr1: Box<Expr>,
    pub expr2: Box<Expr>,
}

/// The closed set of expression forms.
#[derive(Debug, PartialEq)]
pub enum Expr_ {
    Id(ExprId),
    Int(ExprInt),
    Float(ExprFloat),
    String(ExprString),
    Negate(ExprNegate),
    Binop(ExprBinop),
}

/// An expression node: its position, its node identity, and its form.
#[derive(Debug, PartialEq)]
pub struct Expr {
    pub pos: Pos,
    pub node_id: u64,
    pub expr: Expr_,
}

/// The root entity: the declarations, then the statements, of one
/// compilation unit.
#[derive(Debug, PartialEq)]
pub struct Program {
    pub decls: Vec<Decl>,
    pub stmts: Vec<Stmt>,
}

// ------------------------------------------------------------------
// Mathematical views of the AST. Text is abstracted to `Seq<char>` and
// statement blocks to `Seq`, so that contracts can state structural
// equality of results.
// ------------------------------------------------------------------

/// The mathematical value of a [`Decl`].
pub ghost struct DeclV {
    pub pos: Pos,
    pub id: Seq<char>,
    pub ty: Type,
}

/// The mathematical value of an [`Expr_`].
pub ghost enum ExprV {
    Id { id: Seq<char> },
    Int { value: i64 },
    Float { text: Seq<char> },
    String { text: Seq<char> },
    Negate { expr: Box<ExprNodeV> },
    Binop { op: Binop, expr1: Box<ExprNodeV>, expr2: Box<ExprNodeV> },
}

/// The mathematical value of an [`Expr`] node.
pub ghost struct ExprNodeV {
    pub pos: Pos,
    pub node_id: u64,
    pub expr: ExprV,
}

/// The mathematical value of a [`Stmt`].
pub ghost enum StmtV {
    Read { pos: Pos, id: Seq<char> },
    Print { pos: Pos, expr: ExprNodeV },
    Assign { pos: Pos, id: Seq<char>, expr: ExprNodeV },
    If { pos: Pos, expr: ExprNodeV, then_stmts: Seq<StmtV>, else_stmts: Seq<StmtV> },
    While { pos: Pos, expr: ExprNodeV, stmts: Seq<StmtV> },
}

/// The mathematical value of a [`Program`].
pub ghost struct ProgramV {
    pub decls: Seq<DeclV>,
    pub stmts: Seq<StmtV>,
}

pub open spec fn decl_view(d: Decl) -> DeclV {
    DeclV { pos: d.pos, id: d.id@, ty: d.ty }
}

pub open spec fn decls_view(ds: Seq<Decl>) -> Seq<DeclV> {
    ds.map_values(|d: Decl| decl_view(d))
}

pub open spec fn expr_view(e: Expr) -> ExprNodeV
    decreases e,
{
    ExprNodeV { pos: e.pos, node_id: e.node_id, expr: expr_inner_view(e.expr) }
}

pub open spec fn expr_inner_view(x: Expr_) -> ExprV
    decreases x,
{
    match x {
        Expr_::Id(e) => ExprV::Id { id: e.id@ },
        Expr_::Int(e) => ExprV::Int { value: e.value },
        Expr_::Float(e) => ExprV::Float { text: e.value@ },
        Expr_::String(e) => ExprV::String { text: e.value@ },
        Expr_::Negate(e) => ExprV::Negate { expr: Box::new(expr_view(*e.expr)) },
        Expr_::Binop(e) => ExprV::Binop {
            op: e.op,
            expr1: Box::new(expr_view(*e.expr1)),
            expr2: Box::new(expr_view(*e.expr2)),
        },
    }
}

pub open spec fn stmt_view(s: Stmt) -> StmtV
    decreases s,
{
    match s {
        Stmt::Read(s_) => StmtV::Read { pos: s_.pos, id: s_.id@ },
        Stmt::Print(s_) => StmtV::Print { pos: s_.pos, expr: expr_view(s_.expr) },
        Stmt::Assign(s_) => StmtV::Assign { pos: s_.pos, id: s_.id@, expr: expr_view(s_.expr) },
        Stmt::If(s_) => StmtV::If {
            pos: s_.pos,
            expr: expr_view(s_.expr),
            then_stmts: stmts_view(s_.then_stmts@),
            else_stmts: stmts_view(s_.else_stmts@),
        },
        Stmt::While(s_) => StmtV::While {
            pos: s_.pos,
            expr: expr_view(s_.expr),
            stmts: stmts_view(s_.stmts@),
        },
    }
}

pub open spec fn stmts_view(ss: Seq<Stmt>) -> Seq<StmtV>
    decreases ss,
{
    if ss.len() == 0 {
        Seq::empty()
    } else {
        seq![stmt_view(ss[0])] + stmts_view(ss.subrange(1, ss.len() as int))
    }
}

/// `stmts_view` maps `stmt_view` over the sequence elementwise.
pub proof fn lemma_stmts_view(ss: Seq<Stmt>)
    ensures
        stmts_view(ss).len() == ss.len(),
        forall|i: int| 0 <= i < ss.len() ==> stmts_view(ss)[i] == stmt_view(#[trigger] ss[i]),
    decreases ss.len(),
{
    if ss.len() > 0 {
        let tail = ss.subrange(1, ss.len() as int);
        lemma_stmts_view(tail);
        assert forall|i: int| 0 <= i < ss.len() implies stmts_view(ss)[i] == stmt_view(
            #[trigger] ss[i],
        ) by {
            if i > 0 {
                assert(tail[i - 1] == ss[i]);
                assert(stmts_view(ss)[i] == stmts_view(tail)[i - 1]);
            }
        }
    }
}

/// Viewing commutes with appending one statement.
pub proof fn lemma_stmts_view_push(ss: Seq<Stmt>, s: Stmt)
    ensures
        stmts_view(ss.push(s)) == stmts_view(ss).push(stmt_view(s)),
{
    lemma_stmts_view(ss);
    lemma_stmts_view(ss.push(s));
    assert forall|i: int| 0 <= i < ss.len() + 1 implies stmts_view(ss.push(s))[i] == stmts_view(
        ss,
    ).push(stmt_view(s))[i] by {
        if i < ss.len() {
            assert(ss.push(s)[i] == ss[i]);
        } else {
            assert(ss.push(s)[i] == s);
        }
    }
    assert(stmts_view(ss.push(s)) =~= stmts_view(ss).push(stmt_view(s)));
}

/// The set of node identities carried by an expression and its
/// subexpressions.
pub open spec fn expr_node_ids(e: ExprNodeV) -> Set<u64>
    decreases e,
{
    match e.expr {
        ExprV::Id { id: _ } => set![e.node_id],
        ExprV::Int { value: _ } => set![e.node_id],
        ExprV::Float { text: _ } => set![e.node_id],
        ExprV::String { text: _ } => set![e.node_id],
        ExprV::Negate { expr } => expr_node_ids(*expr).insert(e.node_id),
        ExprV::Binop { op: _, expr1, expr2 } => expr_node_ids(*expr1).union(
            expr_node_ids(*expr2),
        ).insert(e.node_id),
    }
}

/// The set of node identities of every expression in a statement.
pub open spec fn stmt_node_ids(s: StmtV) -> Set<u64>
    decreases s, 1int, 0int,
{
    match s {
        StmtV::Read { pos: _, id: _ } => Set::empty(),
        StmtV::Print { pos: _, expr } => expr_node_ids(expr),
        StmtV::Assign { pos: _, id: _, expr } => expr_node_ids(expr),
        StmtV::If { pos: _, expr, then_stmts, else_stmts } => expr_node_ids(expr).union(
            stmts_node_ids(then_stmts, 0),
        ).union(stmts_node_ids(else_stmts, 0)),
        StmtV::While { pos: _, expr, stmts } => expr_node_ids(expr).union(
            stmts_node_ids(stmts, 0),
        ),
    }
}

/// The set of node identities of every expression in the statements
/// from index `k` on.
pub open spec fn stmts_node_ids(ss: Seq<StmtV>, k: int) -> Set<u64>
    decreases ss, 2int, ss.len() - k,
{
    if !(0 <= k < ss.len()) {
        Set::empty()
    } else {
        stmt_node_ids(ss[k]).union(stmts_node_ids(ss, k + 1))
    }
}

/// The set of node identities of every expression in a program.
pub open spec fn program_node_ids(p: ProgramV) -> Set<u64> {
    stmts_node_ids(p.stmts, 0)
}

pub open spec fn program_view(p: Program) -> ProgramV {
    ProgramV { decls: decls_view(p.decls@), stmts: stmts_view(p.stmts@) }
}

impl View for Expr {
    type V = ExprNodeV;

    open spec fn view(&self) -> ExprNodeV {
        expr_view(*self)
    }
}

impl View for Stmt {
    type V = StmtV;

    open spec fn view(&self) -> StmtV {
        stmt_view(*self)
    }
}

impl View for Decl {
    type V = DeclV;

    open spec fn view(&self) -> DeclV {
        decl_view(*self)
    }
}

impl View for Program {
    type V = ProgramV;

    open spec fn view(&self) -> ProgramV {
        program_view(*self)
    }
}

} // verus!
