//! The type checker: a single-pass static verification of a parsed
//! program, producing the symbol table (declared variable to type) and
//! the expression-type table (expression node identity to inferred
//! type).
//!
//! The check fails fast: the first error aborts the walk, and no
//! further table entries are written beyond those recorded strictly
//! before the failing node. The whole behaviour is pinned by the
//! `tc_*_s` spec functions below, which thread the tables through the
//! walk and return them on success and on failure alike.

use vstd::prelude::*;

use std::collections::HashMap;

use crate::ast::{
    decls_view, expr_node_ids, lemma_stmts_view, program_node_ids, stmt_node_ids, stmts_node_ids,
    stmts_view, Binop, Decl, DeclV, Expr, ExprBinop, ExprId, ExprNegate, ExprNodeV, ExprV, Expr_,
    Program, ProgramV, Stmt, StmtAssign, StmtIf, StmtPrint, StmtRead, StmtV, StmtWhile,
};
use crate::error::{Error, ErrorV};
use crate::pos::Pos;
use crate::types::Type;

verus! {

// ------------------------------------------------------------------
// Type rules
// ------------------------------------------------------------------

/// The promotion table of binary operators: integers and floats mix,
/// mixed arithmetic is promoted to `Float`; strings admit only `+` and
/// `-`, yielding `String`; every other pairing has no rule.
pub open spec fn binop_result(op: Binop, t1: Type, t2: Type) -> Option<Type> {
    if t1 == Type::Int && t2 == Type::Int {
        Some(Type::Int)
    } else if t1 == Type::Int && t2 == Type::Float {
        Some(Type::Float)
    } else if t1 == Type::Float && t2 == Type::Int {
        Some(Type::Float)
    } else if t1 == Type::Float && t2 == Type::Float {
        Some(Type::Float)
    } else if t1 == Type::String && t2 == Type::String && (op == Binop::Add || op == Binop::Sub) {
        Some(Type::String)
    } else {
        None
    }
}

/// Assignment compatibility: `int := int`, `float := int`,
/// `float := float`, `string := string`; narrowing (`int := float`)
/// and every other pairing are invalid.
pub open spec fn assign_compatible(lhs: Type, rhs: Type) -> bool {
    ||| (lhs == Type::Int && rhs == Type::Int)
    ||| (lhs == Type::Float && rhs == Type::Int)
    ||| (lhs == Type::Float && rhs == Type::Float)
    ||| (lhs == Type::String && rhs == Type::String)
}

/// Promotion idempotence: `Binop(Int, Int)` always types as `Int`,
/// `Binop(Float, Float)` as `Float`, and mixed `Int`/`Float` as
/// `Float`, regardless of the operator.
pub proof fn lemma_promotion_idempotent(op: Binop)
    ensures
        binop_result(op, Type::Int, Type::Int) == Some(Type::Int),
        binop_result(op, Type::Float, Type::Float) == Some(Type::Float),
        binop_result(op, Type::Int, Type::Float) == Some(Type::Float),
        binop_result(op, Type::Float, Type::Int) == Some(Type::Float),
{
}

// ------------------------------------------------------------------
// The spec-level walk
// ------------------------------------------------------------------

/// The outcome of checking one construct: the computed value and the
/// expression-type table as it stands afterwards — also on failure,
/// where it holds exactly the entries written before the failing node.
pub ghost enum TcOut<T> {
    Done { v: T, et: Map<u64, Type> },
    Fail { e: ErrorV, et: Map<u64, Type> },
}

/// The outcome of processing declarations: the symbol table as it
/// stands afterwards — also on failure.
pub ghost enum DeclsOut {
    Done { st: Map<Seq<char>, Type> },
    Fail { e: ErrorV, st: Map<Seq<char>, Type> },
}

/// Check one declaration: a name already present is a
/// `DuplicateVariable` error; otherwise the name is recorded with its
/// declared type.
pub open spec fn tc_decl_s(st: Map<Seq<char>, Type>, d: DeclV) -> Result<
    Map<Seq<char>, Type>,
    ErrorV,
> {
    if st.contains_key(d.id) {
        Err(ErrorV::DuplicateVariable(d.pos, d.id))
    } else {
        Ok(st.insert(d.id, d.ty))
    }
}

/// Check the declarations from index `k` on, in declaration order.
pub open spec fn tc_decls_s(st: Map<Seq<char>, Type>, ds: Seq<DeclV>, k: int) -> DeclsOut
    decreases ds.len() - k,
{
    if !(0 <= k < ds.len()) {
        DeclsOut::Done { st }
    } else {
        match tc_decl_s(st, ds[k]) {
            Err(e) => DeclsOut::Fail { e, st },
            Ok(st1) => tc_decls_s(st1, ds, k + 1),
        }
    }
}

/// Look up an identifier expression's type.
pub open spec fn tc_expr_id_s(
    st: Map<Seq<char>, Type>,
    et: Map<u64, Type>,
    name: Seq<char>,
    pos: Pos,
) -> TcOut<Type> {
    if st.contains_key(name) {
        TcOut::Done { v: st[name], et }
    } else {
        TcOut::Fail { e: ErrorV::UndeclaredVariable(pos, name), et }
    }
}

/// Check one expression node: compute its type bottom-up, then record
/// exactly one entry for the node under its identity.
pub open spec fn tc_expr_s(st: Map<Seq<char>, Type>, et: Map<u64, Type>, e: ExprNodeV) -> TcOut<
    Type,
>
    decreases e,
{
    let step: TcOut<Type> = match e.expr {
        ExprV::Int { value: _ } => TcOut::Done { v: Type::Int, et },
        ExprV::Float { text: _ } => TcOut::Done { v: Type::Float, et },
        ExprV::String { text: _ } => TcOut::Done { v: Type::String, et },
        ExprV::Id { id } => tc_expr_id_s(st, et, id, e.pos),
        ExprV::Negate { expr } => tc_expr_s(st, et, *expr),
        ExprV::Binop { op, expr1, expr2 } => match tc_expr_s(st, et, *expr1) {
            TcOut::Fail { e: err, et: et1 } => TcOut::Fail { e: err, et: et1 },
            TcOut::Done { v: t1, et: et1 } => match tc_expr_s(st, et1, *expr2) {
                TcOut::Fail { e: err, et: et2 } => TcOut::Fail { e: err, et: et2 },
                TcOut::Done { v: t2, et: et2 } => match binop_result(op, t1, t2) {
                    Some(t) => TcOut::Done { v: t, et: et2 },
                    None => TcOut::Fail {
                        e: ErrorV::IllTypedBinop { pos: e.pos, op, lhs: t1, rhs: t2 },
                        et: et2,
                    },
                },
            },
        },
    };
    match step {
        TcOut::Fail { e: err, et: et1 } => TcOut::Fail { e: err, et: et1 },
        TcOut::Done { v: t, et: et1 } => TcOut::Done { v: t, et: et1.insert(e.node_id, t) },
    }
}

/// Check both operands of a binary operation, left first, then apply
/// the promotion table. This is the `Binop` step of [`tc_expr_s`],
/// before the node's own table entry is written.
pub open spec fn tc_expr_binop_s(
    st: Map<Seq<char>, Type>,
    et: Map<u64, Type>,
    op: Binop,
    e1: ExprNodeV,
    e2: ExprNodeV,
    pos: Pos,
) -> TcOut<Type> {
    match tc_expr_s(st, et, e1) {
        TcOut::Fail { e, et: et1 } => TcOut::Fail { e, et: et1 },
        TcOut::Done { v: t1, et: et1 } => match tc_expr_s(st, et1, e2) {
            TcOut::Fail { e, et: et2 } => TcOut::Fail { e, et: et2 },
            TcOut::Done { v: t2, et: et2 } => match binop_result(op, t1, t2) {
                Some(t) => TcOut::Done { v: t, et: et2 },
                None => TcOut::Fail {
                    e: ErrorV::IllTypedBinop { pos, op, lhs: t1, rhs: t2 },
                    et: et2,
                },
            },
        },
    }
}

/// Promotion idempotence at the checker: when both operands of a
/// binary operation type as `Int` or `Float`, the operation types by
/// the promotion table — `(Int, Int)` as `Int`, every other numeric
/// pairing as `Float` — whatever the operator is.
pub proof fn lemma_tc_binop_promotion(
    st: Map<Seq<char>, Type>,
    et: Map<u64, Type>,
    op: Binop,
    e1: ExprNodeV,
    e2: ExprNodeV,
    pos: Pos,
)
    ensures
        match tc_expr_s(st, et, e1) {
            TcOut::Done { v: t1, et: et1 } => match tc_expr_s(st, et1, e2) {
                TcOut::Done { v: t2, et: et2 } => {
                    &&& (t1 == Type::Int && t2 == Type::Int ==> tc_expr_binop_s(
                        st,
                        et,
                        op,
                        e1,
                        e2,
                        pos,
                    ) == (TcOut::Done { v: Type::Int, et: et2 }))
                    &&& ((t1 == Type::Int || t1 == Type::Float) && (t2 == Type::Int || t2
                        == Type::Float) && !(t1 == Type::Int && t2 == Type::Int)
                        ==> tc_expr_binop_s(st, et, op, e1, e2, pos) == (TcOut::Done {
                        v: Type::Float,
                        et: et2,
                    }))
                },
                TcOut::Fail { .. } => true,
            },
            TcOut::Fail { .. } => true,
        },
{
}

/// Check `read id;`: the name must be declared.
pub open spec fn tc_stmt_read_s(
    st: Map<Seq<char>, Type>,
    et: Map<u64, Type>,
    name: Seq<char>,
    pos: Pos,
) -> TcOut<()> {
    if st.contains_key(name) {
        TcOut::Done { v: (), et }
    } else {
        TcOut::Fail { e: ErrorV::UndeclaredVariable(pos, name), et }
    }
}

/// Check `id = expr;`: the right-hand side is checked first, then the
/// name must be declared and the pair of types compatible.
pub open spec fn tc_stmt_assign_s(
    st: Map<Seq<char>, Type>,
    et: Map<u64, Type>,
    name: Seq<char>,
    expr: ExprNodeV,
    pos: Pos,
) -> TcOut<()> {
    match tc_expr_s(st, et, expr) {
        TcOut::Fail { e, et: et1 } => TcOut::Fail { e, et: et1 },
        TcOut::Done { v: expr_ty, et: et1 } => if st.contains_key(name) {
            if assign_compatible(st[name], expr_ty) {
                TcOut::Done { v: (), et: et1 }
            } else {
                TcOut::Fail {
                    e: ErrorV::UnexpectedType { pos, expected: st[name], actual: expr_ty },
                    et: et1,
                }
            }
        } else {
            TcOut::Fail { e: ErrorV::UndeclaredVariable(pos, name), et: et1 }
        },
    }
}

/// Check one statement.
pub open spec fn tc_stmt_s(st: Map<Seq<char>, Type>, et: Map<u64, Type>, s: StmtV) -> TcOut<()>
    decreases s, 1int, 0int,
{
    match s {
        StmtV::Read { pos, id } => tc_stmt_read_s(st, et, id, pos),
        StmtV::Print { pos: _, expr } => match tc_expr_s(st, et, expr) {
            TcOut::Fail { e, et: et1 } => TcOut::Fail { e, et: et1 },
            TcOut::Done { v: _, et: et1 } => TcOut::Done { v: (), et: et1 },
        },
        StmtV::Assign { pos, id, expr } => tc_stmt_assign_s(st, et, id, expr, pos),
        StmtV::If { pos, expr, then_stmts, else_stmts } => match tc_expr_s(st, et, expr) {
            TcOut::Fail { e, et: et1 } => TcOut::Fail { e, et: et1 },
            TcOut::Done { v: t, et: et1 } => if t == Type::Int {
                match tc_stmts_s(st, et1, then_stmts, 0) {
                    TcOut::Fail { e, et: et2 } => TcOut::Fail { e, et: et2 },
                    TcOut::Done { v: _, et: et2 } => tc_stmts_s(st, et2, else_stmts, 0),
                }
            } else {
                TcOut::Fail {
                    e: ErrorV::UnexpectedType { pos, expected: Type::Int, actual: t },
                    et: et1,
                }
            },
        },
        StmtV::While { pos, expr, stmts } => match tc_expr_s(st, et, expr) {
            TcOut::Fail { e, et: et1 } => TcOut::Fail { e, et: et1 },
            TcOut::Done { v: t, et: et1 } => if t == Type::Int {
                tc_stmts_s(st, et1, stmts, 0)
            } else {
                TcOut::Fail {
                    e: ErrorV::UnexpectedType { pos, expected: Type::Int, actual: t },
                    et: et1,
                }
            },
        },
    }
}

/// Check the statements from index `k` on, in program order.
pub open spec fn tc_stmts_s(
    st: Map<Seq<char>, Type>,
    et: Map<u64, Type>,
    ss: Seq<StmtV>,
    k: int,
) -> TcOut<()>
    decreases ss, 2int, ss.len() - k,
{
    if !(0 <= k < ss.len()) {
        TcOut::Done { v: (), et }
    } else {
        match tc_stmt_s(st, et, ss[k]) {
            TcOut::Fail { e, et: et1 } => TcOut::Fail { e, et: et1 },
            TcOut::Done { v: _, et: et1 } => tc_stmts_s(st, et1, ss, k + 1),
        }
    }
}

/// The result of checking a whole program: the verdict and both tables
/// as they stand when the walk ends, normally or on the first error.
pub ghost struct TcResult {
    pub r: Result<(), ErrorV>,
    pub st: Map<Seq<char>, Type>,
    pub et: Map<u64, Type>,
}

/// Check a whole program: all declarations (in order), then all
/// statements (in order), failing fast on the first error.
pub open spec fn tc_program_s(
    st0: Map<Seq<char>, Type>,
    et0: Map<u64, Type>,
    p: ProgramV,
) -> TcResult {
    match tc_decls_s(st0, p.decls, 0) {
        DeclsOut::Fail { e, st } => TcResult { r: Err(e), st, et: et0 },
        DeclsOut::Done { st } => match tc_stmts_s(st, et0, p.stmts, 0) {
            TcOut::Done { v: _, et } => TcResult { r: Ok(()), st, et },
            TcOut::Fail { e, et } => TcResult { r: Err(e), st, et },
        },
    }
}

// ------------------------------------------------------------------
// The expression-type table covers every checked node
// ------------------------------------------------------------------

/// Checking an expression only ever adds table entries, and on success
/// the table holds an entry for the node and all its subexpressions.
pub proof fn lemma_tc_expr_table_coverage(
    st: Map<Seq<char>, Type>,
    et: Map<u64, Type>,
    e: ExprNodeV,
)
    ensures
        match tc_expr_s(st, et, e) {
            TcOut::Done { v: _, et: et1 } => et.dom().subset_of(et1.dom()) && expr_node_ids(
                e,
            ).subset_of(et1.dom()),
            TcOut::Fail { e: _, et: et1 } => et.dom().subset_of(et1.dom()),
        },
    decreases e,
{
    match e.expr {
        ExprV::Negate { expr } => {
            lemma_tc_expr_table_coverage(st, et, *expr);
        },
        ExprV::Binop { op: _, expr1, expr2 } => {
            lemma_tc_expr_table_coverage(st, et, *expr1);
            match tc_expr_s(st, et, *expr1) {
                TcOut::Done { v: _, et: et1 } => {
                    lemma_tc_expr_table_coverage(st, et1, *expr2);
                },
                TcOut::Fail { .. } => {},
            }
        },
        _ => {},
    }
}

/// Checking a statement only ever adds table entries, and on success
/// the table holds an entry for every expression node in it.
pub proof fn lemma_tc_stmt_table_coverage(st: Map<Seq<char>, Type>, et: Map<u64, Type>, s: StmtV)
    ensures
        match tc_stmt_s(st, et, s) {
            TcOut::Done { v: _, et: et1 } => et.dom().subset_of(et1.dom()) && stmt_node_ids(
                s,
            ).subset_of(et1.dom()),
            TcOut::Fail { e: _, et: et1 } => et.dom().subset_of(et1.dom()),
        },
    decreases s, 1int, 0int,
{
    match s {
        StmtV::Read { .. } => {},
        StmtV::Print { pos: _, expr } => {
            lemma_tc_expr_table_coverage(st, et, expr);
        },
        StmtV::Assign { pos: _, id: _, expr } => {
            lemma_tc_expr_table_coverage(st, et, expr);
        },
        StmtV::If { pos: _, expr, then_stmts, else_stmts } => {
            lemma_tc_expr_table_coverage(st, et, expr);
            match tc_expr_s(st, et, expr) {
                TcOut::Done { v: t, et: et1 } => {
                    if t == Type::Int {
                        lemma_tc_stmts_table_coverage(st, et1, then_stmts, 0);
                        match tc_stmts_s(st, et1, then_stmts, 0) {
                            TcOut::Done { v: _, et: et2 } => {
                                lemma_tc_stmts_table_coverage(st, et2, else_stmts, 0);
                            },
                            TcOut::Fail { .. } => {},
                        }
                    }
                },
                TcOut::Fail { .. } => {},
            }
        },
        StmtV::While { pos: _, expr, stmts } => {
            lemma_tc_expr_table_coverage(st, et, expr);
            match tc_expr_s(st, et, expr) {
                TcOut::Done { v: t, et: et1 } => {
                    if t == Type::Int {
                        lemma_tc_stmts_table_coverage(st, et1, stmts, 0);
                    }
                },
                TcOut::Fail { .. } => {},
            }
        },
    }
}

/// Checking statements only ever adds table entries, and on success
/// the table holds an entry for every expression node in them.
pub proof fn lemma_tc_stmts_table_coverage(
    st: Map<Seq<char>, Type>,
    et: Map<u64, Type>,
    ss: Seq<StmtV>,
    k: int,
)
    ensures
        match tc_stmts_s(st, et, ss, k) {
            TcOut::Done { v: _, et: et1 } => et.dom().subset_of(et1.dom()) && stmts_node_ids(
                ss,
                k,
            ).subset_of(et1.dom()),
            TcOut::Fail { e: _, et: et1 } => et.dom().subset_of(et1.dom()),
        },
    decreases ss, 2int, ss.len() - k,
{
    if 0 <= k < ss.len() {
        lemma_tc_stmt_table_coverage(st, et, ss[k]);
        match tc_stmt_s(st, et, ss[k]) {
            TcOut::Done { v: _, et: et1 } => {
                lemma_tc_stmts_table_coverage(st, et1, ss, k + 1);
            },
            TcOut::Fail { .. } => {},
        }
    }
}

/// The guarantee owed to the code generator: in a program that passed
/// the type check, every expression node's identity is a valid key
/// into the expression-type table.
pub proof fn lemma_checked_program_covers_every_node(
    st0: Map<Seq<char>, Type>,
    et0: Map<u64, Type>,
    p: ProgramV,
)
    requires
        tc_program_s(st0, et0, p).r is Ok,
    ensures
        forall|id: u64|
            program_node_ids(p).contains(id) ==> tc_program_s(st0, et0, p).et.contains_key(id),
{
    match tc_decls_s(st0, p.decls, 0) {
        DeclsOut::Done { st } => {
            lemma_tc_stmts_table_coverage(st, et0, p.stmts, 0);
        },
        DeclsOut::Fail { .. } => {},
    }
}

// ------------------------------------------------------------------
// The pipeline as one function
// ------------------------------------------------------------------

/// The verdict of the whole pipeline on a source buffer: the error of
/// the first failing stage, or the program together with the two
/// tables, starting from empty tables.
pub open spec fn pipeline_s(data: Seq<char>) -> Result<
    (ProgramV, Map<Seq<char>, Type>, Map<u64, Type>),
    ErrorV,
> {
    match crate::scanner::tokens_from(data, 0) {
        Err(e) => Err(e),
        Ok(ts) => match crate::parser::sp_program(ts, 0, 0) {
            Err(e) => Err(e),
            Ok(p) => {
                let out = tc_program_s(
                    Map::<Seq<char>, Type>::empty(),
                    Map::<u64, Type>::empty(),
                    p,
                );
                match out.r {
                    Err(e) => Err(e),
                    Ok(_) => Ok((p, out.st, out.et)),
                }
            },
        },
    }
}

/// Determinism: every stage's result is a function of the input alone.
/// The contracts of `scan`, `parse_program` and `tc_program` pin their
/// results to `tokens_from`, `sp_program` and `tc_program_s`, so two
/// runs of the pipeline on structurally equal inputs yield structurally
/// identical token sequences, ASTs and tables.
pub proof fn lemma_pipeline_deterministic(d1: Seq<char>, d2: Seq<char>)
    requires
        d1 == d2,
    ensures
        crate::scanner::tokens_from(d1, 0) == crate::scanner::tokens_from(d2, 0),
        pipeline_s(d1) == pipeline_s(d2),
{
}

// ------------------------------------------------------------------
// The symbol table
// ------------------------------------------------------------------

/// The map described by a sequence of entries, later entries taking
/// precedence (the table's methods never add a duplicate key, so the
/// order never actually matters).
pub open spec fn entries_map(es: Seq<(String, Type)>) -> Map<Seq<char>, Type>
    decreases es.len(),
{
    if es.len() == 0 {
        Map::empty()
    } else {
        entries_map(es.drop_last()).insert(es.last().0@, es.last().1)
    }
}

/// The symbol table: declared variable name to declared type. Keys are
/// unique; entries are only ever added, never removed or overwritten.
pub struct Symtable {
    pub entries: Vec<(String, Type)>,
}

impl View for Symtable {
    type V = Map<Seq<char>, Type>;

    open spec fn view(&self) -> Map<Seq<char>, Type> {
        entries_map(self.entries@)
    }
}

impl Symtable {
    /// An empty table.
    pub fn new() -> (t: Symtable)
        ensures
            t@ == Map::<Seq<char>, Type>::empty(),
    {
        Symtable { entries: Vec::new() }
    }

    /// The type recorded for a name, if any.
    #[verifier::loop_isolation(false)]
    pub fn get(&self, name: &String) -> (r: Option<Type>)
        ensures
            match r {
                Some(t) => self@.contains_key(name@) && self@[name@] == t,
                None => !self@.contains_key(name@),
            },
    {
        let mut k = self.entries.len();
        proof {
            assert(self.entries@.subrange(0, k as int) =~= self.entries@);
        }
        while k > 0
            invariant
                k <= self.entries@.len(),
                self@.contains_key(name@) == entries_map(
                    self.entries@.subrange(0, k as int),
                ).contains_key(name@),
                self@.contains_key(name@) ==> self@[name@] == entries_map(
                    self.entries@.subrange(0, k as int),
                )[name@],
            decreases k,
        {
            let ghost pre = self.entries@.subrange(0, k as int);
            proof {
                assert(pre.drop_last() =~= self.entries@.subrange(0, k as int - 1));
                assert(pre.last() == self.entries@[k as int - 1]);
            }
            if self.entries[k - 1].0 == *name {
                return Some(self.entries[k - 1].1);
            }
            k = k - 1;
        }
        proof {
            assert(entries_map(self.entries@.subrange(0, 0)) =~= Map::<Seq<char>, Type>::empty());
        }
        None
    }

    /// Whether a name is recorded.
    pub fn contains_key(&self, name: &String) -> (b: bool)
        ensures
            b == self@.contains_key(name@),
    {
        match self.get(name) {
            Some(_) => true,
            None => false,
        }
    }

    /// Record a name with its type.
    pub fn insert(&mut self, name: String, ty: Type)
        ensures
            final(self)@ == old(self)@.insert(name@, ty),
    {
        let ghost pre = self.entries@;
        self.entries.push((name, ty));
        proof {
            assert(self.entries@.drop_last() =~= pre);
        }
    }
}

// ------------------------------------------------------------------
// The executable type checker
// ------------------------------------------------------------------

/// The type checker's state: the two tables it builds. They are
/// returned to the caller as the analysis result; the AST is never
/// mutated.
pub struct TypeChecker {
    pub symtable: Symtable,
    pub expr_table: HashMap<u64, Type>,
}

impl TypeChecker {
    /// A fresh checker with empty tables.
    pub fn new() -> (tc: TypeChecker)
        ensures
            tc.symtable@ == Map::<Seq<char>, Type>::empty(),
            tc.expr_table@ == Map::<u64, Type>::empty(),
    {
        TypeChecker { symtable: Symtable::new(), expr_table: HashMap::new() }
    }

    /// Check one declaration, extending the symbol table.
    fn tc_decl(&mut self, decl: &Decl) -> (r: Result<(), Error>)
        ensures
            final(self).expr_table == old(self).expr_table,
            match r {
                Ok(_) => tc_decl_s(old(self).symtable@, decl@) == Ok::<
                    Map<Seq<char>, Type>,
                    ErrorV,
                >(final(self).symtable@),
                Err(e) => tc_decl_s(old(self).symtable@, decl@) == Err::<
                    Map<Seq<char>, Type>,
                    ErrorV,
                >(e@) && final(self).symtable@ == old(self).symtable@,
            },
    {
        if self.symtable.contains_key(&decl.id) {
            Err(Error::DuplicateVariable(decl.pos, decl.id.clone()))
        } else {
            self.symtable.insert(decl.id.clone(), decl.ty);
            Ok(())
        }
    }

    /// Check all declarations, in declaration order, failing fast.
    #[verifier::loop_isolation(false)]
    fn tc_decls(&mut self, decls: &Vec<Decl>) -> (r: Result<(), Error>)
        ensures
            final(self).expr_table == old(self).expr_table,
            match r {
                Ok(_) => tc_decls_s(old(self).symtable@, decls_view(decls@), 0)
                    == (DeclsOut::Done { st: final(self).symtable@ }),
                Err(e) => tc_decls_s(old(self).symtable@, decls_view(decls@), 0)
                    == (DeclsOut::Fail { e: e@, st: final(self).symtable@ }),
            },
    {
        let ghost dsv = decls_view(decls@);
        let ghost st0 = self.symtable@;
        let mut k: usize = 0;
        while k < decls.len()
            invariant
                k <= decls@.len(),
                self.expr_table == old(self).expr_table,
                tc_decls_s(st0, dsv, 0) == tc_decls_s(self.symtable@, dsv, k as int),
            decreases decls@.len() - k,
        {
            match self.tc_decl(&decls[k]) {
                Ok(_) => {},
                Err(e) => {
                    return Err(e);
                },
            }
            k = k + 1;
        }
        Ok(())
    }

    /// Look up an identifier expression's type.
    fn tc_expr_id(&mut self, expr_: &ExprId, pos: &Pos) -> (r: Result<Type, Error>)
        ensures
            final(self).symtable == old(self).symtable,
            final(self).expr_table == old(self).expr_table,
            match r {
                Ok(t) => tc_expr_id_s(
                    old(self).symtable@,
                    old(self).expr_table@,
                    expr_.id@,
                    *pos,
                ) == (TcOut::Done { v: t, et: old(self).expr_table@ }),
                Err(e) => tc_expr_id_s(
                    old(self).symtable@,
                    old(self).expr_table@,
                    expr_.id@,
                    *pos,
                ) == (TcOut::<Type>::Fail { e: e@, et: old(self).expr_table@ }),
            },
    {
        match self.symtable.get(&expr_.id) {
            Some(ty) => Ok(ty),
            None => Err(Error::UndeclaredVariable(*pos, expr_.id.clone())),
        }
    }

    /// Check a negation: it has the type of its operand.
    fn tc_expr_negate(&mut self, expr_: &ExprNegate) -> (r: Result<Type, Error>)
        ensures
            final(self).symtable == old(self).symtable,
            match r {
                Ok(t) => tc_expr_s(
                    old(self).symtable@,
                    old(self).expr_table@,
                    crate::ast::expr_view(*expr_.expr),
                ) == (TcOut::Done { v: t, et: final(self).expr_table@ }),
                Err(e) => tc_expr_s(
                    old(self).symtable@,
                    old(self).expr_table@,
                    crate::ast::expr_view(*expr_.expr),
                ) == (TcOut::<Type>::Fail { e: e@, et: final(self).expr_table@ }),
            },
        decreases expr_, 0int,
    {
        self.tc_expr(&expr_.expr)
    }

    /// Check both operands of a binary operation, left first, then
    /// apply the promotion table.
    fn tc_expr_binop(&mut self, expr_: &ExprBinop, pos: &Pos) -> (r: Result<Type, Error>)
        ensures
            final(self).symtable == old(self).symtable,
            match r {
                Ok(t) => tc_expr_binop_s(
                    old(self).symtable@,
                    old(self).expr_table@,
                    expr_.op,
                    crate::ast::expr_view(*expr_.expr1),
                    crate::ast::expr_view(*expr_.expr2),
                    *pos,
                ) == (TcOut::Done { v: t, et: final(self).expr_table@ }),
                Err(e) => tc_expr_binop_s(
                    old(self).symtable@,
                    old(self).expr_table@,
                    expr_.op,
                    crate::ast::expr_view(*expr_.expr1),
                    crate::ast::expr_view(*expr_.expr2),
                    *pos,
                ) == (TcOut::<Type>::Fail { e: e@, et: final(self).expr_table@ }),
            },
        decreases expr_, 0int,
    {
        let t1 = match self.tc_expr(&expr_.expr1) {
            Ok(t) => t,
            Err(e) => {
                return Err(e);
            },
        };
        let t2 = match self.tc_expr(&expr_.expr2) {
            Ok(t) => t,
            Err(e) => {
                return Err(e);
            },
        };
        match (expr_.op, t1, t2) {
            (_, Type::Int, Type::Int) => Ok(Type::Int),
            (_, Type::Int, Type::Float) => Ok(Type::Float),
            (_, Type::Float, Type::Int) => Ok(Type::Float),
            (_, Type::Float, Type::Float) => Ok(Type::Float),
            (Binop::Add, Type::String, Type::String) => Ok(Type::String),
            (Binop::Sub, Type::String, Type::String) => Ok(Type::String),
            (op, lhs, rhs) => Err(Error::IllTypedBinop { pos: *pos, op, lhs, rhs }),
        }
    }

    /// Check one expression: compute its type bottom-up, then record
    /// exactly one entry for the node under its identity. Visiting the
    /// same syntactic expression twice writes two distinct entries,
    /// because identities are unique per node.
    fn tc_expr(&mut self, expr: &Expr) -> (r: Result<Type, Error>)
        ensures
            final(self).symtable == old(self).symtable,
            match r {
                Ok(t) => tc_expr_s(old(self).symtable@, old(self).expr_table@, expr@)
                    == (TcOut::Done { v: t, et: final(self).expr_table@ }),
                Err(e) => tc_expr_s(old(self).symtable@, old(self).expr_table@, expr@)
                    == (TcOut::<Type>::Fail { e: e@, et: final(self).expr_table@ }),
            },
        decreases expr, 1int,
    {
        let ty = match &expr.expr {
            Expr_::Int(_) => Type::Int,
            Expr_::Float(_) => Type::Float,
            Expr_::String(_) => Type::String,
            Expr_::Id(e_) => match self.tc_expr_id(e_, &expr.pos) {
                Ok(t) => t,
                Err(e) => {
                    return Err(e);
                },
            },
            Expr_::Negate(e_) => match self.tc_expr_negate(e_) {
                Ok(t) => t,
                Err(e) => {
                    return Err(e);
                },
            },
            Expr_::Binop(e_) => match self.tc_expr_binop(e_, &expr.pos) {
                Ok(t) => t,
                Err(e) => {
                    return Err(e);
                },
            },
        };
        self.expr_table.insert(expr.node_id, ty);
        Ok(ty)
    }

    /// Check `read id;`: the name must be declared.
    fn tc_stmt_read(&mut self, stmt: &StmtRead) -> (r: Result<(), Error>)
        ensures
            final(self).symtable == old(self).symtable,
            final(self).expr_table == old(self).expr_table,
            match r {
                Ok(_) => tc_stmt_read_s(
                    old(self).symtable@,
                    old(self).expr_table@,
                    stmt.id@,
                    stmt.pos,
                ) == (TcOut::Done { v: (), et: old(self).expr_table@ }),
                Err(e) => tc_stmt_read_s(
                    old(self).symtable@,
                    old(self).expr_table@,
                    stmt.id@,
                    stmt.pos,
                ) == (TcOut::<()>::Fail { e: e@, et: old(self).expr_table@ }),
            },
    {
        if self.symtable.contains_key(&stmt.id) {
            Ok(())
        } else {
            Err(Error::UndeclaredVariable(stmt.pos, stmt.id.clone()))
        }
    }

    /// Check `print expr;`.
    fn tc_stmt_print(&mut self, stmt: &StmtPrint) -> (r: Result<(), Error>)
        ensures
            final(self).symtable == old(self).symtable,
            ({
                let sv = StmtV::Print { pos: stmt.pos, expr: crate::ast::expr_view(stmt.expr) };
                match r {
                    Ok(_) => tc_stmt_s(old(self).symtable@, old(self).expr_table@, sv)
                        == (TcOut::Done { v: (), et: final(self).expr_table@ }),
                    Err(e) => tc_stmt_s(old(self).symtable@, old(self).expr_table@, sv)
                        == (TcOut::<()>::Fail { e: e@, et: final(self).expr_table@ }),
                }
            }),
        decreases stmt, 0int, 0int,
    {
        match self.tc_expr(&stmt.expr) {
            Ok(_) => Ok(()),
            Err(e) => Err(e),
        }
    }

    /// Check `id = expr;`: the right-hand side first, then the name
    /// and the compatibility of the pair of types.
    fn tc_stmt_assign(&mut self, stmt: &StmtAssign) -> (r: Result<(), Error>)
        ensures
            final(self).symtable == old(self).symtable,
            match r {
                Ok(_) => tc_stmt_assign_s(
                    old(self).symtable@,
                    old(self).expr_table@,
                    stmt.id@,
                    crate::ast::expr_view(stmt.expr),
                    stmt.pos,
                ) == (TcOut::Done { v: (), et: final(self).expr_table@ }),
                Err(e) => tc_stmt_assign_s(
                    old(self).symtable@,
                    old(self).expr_table@,
                    stmt.id@,
                    crate::ast::expr_view(stmt.expr),
                    stmt.pos,
                ) == (TcOut::<()>::Fail { e: e@, et: final(self).expr_table@ }),
            },
        decreases stmt, 0int, 0int,
    {
        let expr_ty = match self.tc_expr(&stmt.expr) {
            Ok(t) => t,
            Err(e) => {
                return Err(e);
            },
        };
        match self.symtable.get(&stmt.id) {
            Some(id_ty) => {
                match (id_ty, expr_ty) {
                    (Type::Int, Type::Int) => Ok(()),
                    (Type::Float, Type::Int) => Ok(()),
                    (Type::Float, Type::Float) => Ok(()),
                    (Type::String, Type::String) => Ok(()),
                    (t1, t2) => Err(
                        Error::UnexpectedType { pos: stmt.pos, expected: t1, actual: t2 },
                    ),
                }
            },
            None => Err(Error::UndeclaredVariable(stmt.pos, stmt.id.clone())),
        }
    }

    /// Check `if expr then stmts [else stmts] end`: the condition must
    /// type as `Int` (integers double as booleans), then both branches
    /// are checked in order.
    fn tc_stmt_if(&mut self, stmt: &StmtIf) -> (r: Result<(), Error>)
        ensures
            final(self).symtable == old(self).symtable,
            ({
                let sv = StmtV::If {
                    pos: stmt.pos,
                    expr: crate::ast::expr_view(stmt.expr),
                    then_stmts: stmts_view(stmt.then_stmts@),
                    else_stmts: stmts_view(stmt.else_stmts@),
                };
                match r {
                    Ok(_) => tc_stmt_s(old(self).symtable@, old(self).expr_table@, sv)
                        == (TcOut::Done { v: (), et: final(self).expr_table@ }),
                    Err(e) => tc_stmt_s(old(self).symtable@, old(self).expr_table@, sv)
                        == (TcOut::<()>::Fail { e: e@, et: final(self).expr_table@ }),
                }
            }),
        decreases stmt, 0int, 0int,
    {
        let t = match self.tc_expr(&stmt.expr) {
            Ok(t) => t,
            Err(e) => {
                return Err(e);
            },
        };
        if t == Type::Int {
            match self.tc_stmts(&stmt.then_stmts) {
                Ok(_) => {},
                Err(e) => {
                    return Err(e);
                },
            }
            self.tc_stmts(&stmt.else_stmts)
        } else {
            Err(Error::UnexpectedType { pos: stmt.pos, expected: Type::Int, actual: t })
        }
    }

    /// Check `while expr do stmts done`: the condition must type as
    /// `Int`, then the body is checked.
    fn tc_stmt_while(&mut self, stmt: &StmtWhile) -> (r: Result<(), Error>)
        ensures
            final(self).symtable == old(self).symtable,
            ({
                let sv = StmtV::While {
                    pos: stmt.pos,
                    expr: crate::ast::expr_view(stmt.expr),
                    stmts: stmts_view(stmt.stmts@),
                };
                match r {
                    Ok(_) => tc_stmt_s(old(self).symtable@, old(self).expr_table@, sv)
                        == (TcOut::Done { v: (), et: final(self).expr_table@ }),
                    Err(e) => tc_stmt_s(old(self).symtable@, old(self).expr_table@, sv)
                        == (TcOut::<()>::Fail { e: e@, et: final(self).expr_table@ }),
                }
            }),
        decreases stmt, 0int, 0int,
    {
        let t = match self.tc_expr(&stmt.expr) {
            Ok(t) => t,
            Err(e) => {
                return Err(e);
            },
        };
        if t == Type::Int {
            self.tc_stmts(&stmt.stmts)
        } else {
            Err(Error::UnexpectedType { pos: stmt.pos, expected: Type::Int, actual: t })
        }
    }

    /// Check one statement, dispatching on its form.
    fn tc_stmt(&mut self, stmt: &Stmt) -> (r: Result<(), Error>)
        ensures
            final(self).symtable == old(self).symtable,
            match r {
                Ok(_) => tc_stmt_s(old(self).symtable@, old(self).expr_table@, stmt@)
                    == (TcOut::Done { v: (), et: final(self).expr_table@ }),
                Err(e) => tc_stmt_s(old(self).symtable@, old(self).expr_table@, stmt@)
                    == (TcOut::<()>::Fail { e: e@, et: final(self).expr_table@ }),
            },
        decreases stmt, 1int, 0int,
    {
        match stmt {
            Stmt::Assign(stmt_) => self.tc_stmt_assign(stmt_),
            Stmt::Read(stmt_) => self.tc_stmt_read(stmt_),
            Stmt::Print(stmt_) => self.tc_stmt_print(stmt_),
            Stmt::If(stmt_) => self.tc_stmt_if(stmt_),
            Stmt::While(stmt_) => self.tc_stmt_while(stmt_),
        }
    }

    /// Check statements in program order, failing fast.
    #[verifier::loop_isolation(false)]
    fn tc_stmts(&mut self, stmts: &Vec<Stmt>) -> (r: Result<(), Error>)
        ensures
            final(self).symtable == old(self).symtable,
            match r {
                Ok(_) => tc_stmts_s(
                    old(self).symtable@,
                    old(self).expr_table@,
                    stmts_view(stmts@),
                    0,
                ) == (TcOut::Done { v: (), et: final(self).expr_table@ }),
                Err(e) => tc_stmts_s(
                    old(self).symtable@,
                    old(self).expr_table@,
                    stmts_view(stmts@),
                    0,
                ) == (TcOut::<()>::Fail { e: e@, et: final(self).expr_table@ }),
            },
        decreases stmts, 2int, 0int,
    {
        let ghost ssv = stmts_view(stmts@);
        let ghost st = self.symtable@;
        let ghost et0 = self.expr_table@;
        proof {
            lemma_stmts_view(stmts@);
        }
        let mut k: usize = 0;
        while k < stmts.len()
            invariant
                k <= stmts@.len(),
                self.symtable == old(self).symtable,
                tc_stmts_s(st, et0, ssv, 0) == tc_stmts_s(st, self.expr_table@, ssv, k as int),
            decreases stmts@.len() - k,
        {
            match self.tc_stmt(&stmts[k]) {
                Ok(_) => {},
                Err(e) => {
                    return Err(e);
                },
            }
            k = k + 1;
        }
        Ok(())
    }

    /// Check a whole program: all declarations, then all statements,
    /// failing fast on the first error. On return — normal or not —
    /// the tables hold exactly the entries written before the walk
    /// ended.
    pub fn tc_program(&mut self, p: &Program) -> (r: Result<(), Error>)
        ensures
            ({
                let out = tc_program_s(old(self).symtable@, old(self).expr_table@, p@);
                &&& final(self).symtable@ == out.st
                &&& final(self).expr_table@ == out.et
                &&& match r {
                    Ok(_) => out.r is Ok,
                    Err(e) => out.r == Err::<(), ErrorV>(e@),
                }
            }),
    {
        match self.tc_decls(&p.decls) {
            Ok(_) => {},
            Err(e) => {
                return Err(e);
            },
        }
        self.tc_stmts(&p.stmts)
    }
}

} // verus!
