//! The lowering engine: walks the surface syntax, maintains the
//! compilation context, produces typed terms, records assumptions and
//! assertions, and synthesizes the bug predicate.
//!
//! The whole translation is specified by the `spec_*` mirror functions
//! over the views; each executable function returns exactly what its
//! mirror says, so a compilation is a function of the source syntax
//! alone (see [`lemma_compile_deterministic`]).
use vstd::prelude::*;
use crate::ast::AstArg;
use crate::ast::AstCompound;
use crate::ast::AstExpr;
use crate::ast::AstFuncdef;
use crate::ast::AstStmt;
use crate::ast::AstBop;
use crate::ast::AstUop;
use crate::ast::ArgV;
use crate::ast::CompoundV;
use crate::ast::ExprV;
use crate::ast::FuncdefV;
use crate::ast::StmtV;
use crate::ast::arg_views;
use crate::ast::expr_views;
use crate::ast::funcdef_view;
use crate::ast::lemma_arg_views;
use crate::ast::lemma_branch_views;
use crate::ast::lemma_expr_list_views;
use crate::ast::lemma_expr_views;
use crate::ast::lemma_param_views;
use crate::ast::lemma_stmt_views;
use crate::ast::param_views;
use crate::ast::stmt_view;
use crate::ast::stmt_views;
use crate::ast::expr_view;
use crate::builtins::range;
use crate::builtins::spec_range;
use crate::builtins::is_dec_digits;
use crate::builtins::wrap_decimal;
use crate::builtins::parse_int_literal;
use crate::circify::CircError;
use crate::circify::CirCtx;
use crate::circify::CirCtxV;
use crate::circify::Circify;
use crate::circify::CircifyV;
use crate::circify::scopes_lookup;
use crate::circify::spec_assign;
use crate::circify::spec_declare_init;
use crate::circify::spec_declare_input;
use crate::circify::spec_enter_fn;
use crate::circify::spec_exit_fn;
use crate::circify::spec_return_;
use crate::errors::PyError;
use crate::ir::Term;
use crate::ir::TermV;
use crate::ir::term_view_list;
use crate::ir::lemma_term_view_list;
use crate::strutil::str_eq;
use crate::term::BinArithOp;
use crate::term::BinCmpOp;
use crate::term::PyTerm;
use crate::term::PyTermV;
use crate::term::Pyt;
use crate::term::PyTermData;
use crate::term::cast;
use crate::term::cast_to_bool;
use crate::term::spec_cast;
use crate::term::spec_inner;
use crate::term::spec_wrap_bin_arith;
use crate::term::spec_wrap_bin_cmp;
use crate::term::spec_wrap_un_arith;
use crate::ty::Ty;
use crate::ty::PY_INT_SIZE;
use crate::ty::spec_default;
use crate::ty::spec_ty_from_str;

verus! {

/// The compilation mode. Only proof mode is realized: the computation's
/// output asks for an execution that breaks an assertion.
#[derive(Clone, Copy, Debug, PartialEq, Eq, Structural)]
pub enum Mode {
    Proof,
}

/// The models of the function table.
pub open spec fn table_view(ts: Seq<(String, AstFuncdef)>) -> Seq<(Seq<char>, FuncdefV)>
    decreases ts,
{
    if ts.len() == 0 {
        Seq::empty()
    } else {
        table_view(ts.drop_last()).push((ts.last().0@, funcdef_view(ts.last().1)))
    }
}

/// `table_view` maps the view over the table.
pub broadcast proof fn lemma_table_view(ts: Seq<(String, AstFuncdef)>)
    ensures
        (#[trigger] table_view(ts)).len() == ts.len(),
        forall|i: int| 0 <= i < ts.len() ==> table_view(ts)[i] == (
            ts[i].0@,
            funcdef_view(ts[i].1),
        ),
    decreases ts,
{
    if ts.len() > 0 {
        lemma_table_view(ts.drop_last());
    }
}

/// The models of a typed-term list.
pub open spec fn pyterm_views(ts: Seq<PyTerm>) -> Seq<PyTermV>
    decreases ts,
{
    if ts.len() == 0 {
        Seq::empty()
    } else {
        pyterm_views(ts.drop_last()).push(ts.last()@)
    }
}

/// `pyterm_views` maps the view over the list.
pub broadcast proof fn lemma_pyterm_views(ts: Seq<PyTerm>)
    ensures
        (#[trigger] pyterm_views(ts)).len() == ts.len(),
        forall|i: int| 0 <= i < ts.len() ==> pyterm_views(ts)[i] == ts[i]@,
    decreases ts,
{
    if ts.len() > 0 {
        lemma_pyterm_views(ts.drop_last());
    }
}

/// The model of the engine's state.
pub struct GenV {
    pub circ: CircifyV,
    pub functions: Seq<(Seq<char>, FuncdefV)>,
    pub assumptions: Seq<TermV>,
    pub assertions: Seq<TermV>,
    pub sv_functions: bool,
}

/// The engine.
pub struct PyGen {
    /// The compilation mode.
    pub mode: Mode,
    /// The compilation context.
    pub circ: Circify,
    /// The function table, populated from the top-level definitions;
    /// a later definition of a name shadows an earlier one.
    pub functions: Vec<(String, AstFuncdef)>,
    /// Proof mode: find evaluations satisfying these.
    pub assumptions: Vec<Term>,
    /// Proof mode: find evaluations violating these.
    pub assertions: Vec<Term>,
    /// Whether the verification built-ins are recognized.
    pub sv_functions: bool,
}

impl View for PyGen {
    type V = GenV;

    open spec fn view(&self) -> GenV {
        GenV {
            circ: self.circ@,
            functions: table_view(self.functions@),
            assumptions: term_view_list(self.assumptions@),
            assertions: term_view_list(self.assertions@),
            sv_functions: self.sv_functions,
        }
    }
}

/// How a context error surfaces as a compilation error.
pub open spec fn circ_err(e: CircError) -> PyError {
    match e {
        CircError::Undeclared => PyError::UndeclaredVariable,
        CircError::Rebound => PyError::TypeError,
        CircError::TypeMismatch => PyError::TypeError,
        CircError::NoFrame => PyError::UnsupportedStatement,
    }
}

/// The fresh context a compilation starts from.
pub open spec fn spec_init_circ() -> CircifyV {
    CircifyV {
        ctx: CirCtxV { inputs: Seq::empty(), outputs: Seq::empty() },
        scopes: Seq::empty(),
        conditions: Seq::empty(),
        frame: None,
    }
}

/// The value a binary surface operator produces, or `None` for an
/// operator outside the subset. `and`/`or` lower as the bitwise pair.
pub open spec fn spec_bin_op(op: AstBop, a: PyTermV, b: PyTermV) -> Option<PyTermV> {
    match op {
        AstBop::Add => Some(spec_wrap_bin_arith(BinArithOp::Add, a, b)),
        AstBop::Sub => Some(spec_wrap_bin_arith(BinArithOp::Sub, a, b)),
        AstBop::Mult => Some(spec_wrap_bin_arith(BinArithOp::Mult, a, b)),
        AstBop::Floordiv => Some(spec_wrap_bin_arith(BinArithOp::FloorDiv, a, b)),
        AstBop::BitAnd => Some(spec_wrap_bin_arith(BinArithOp::BitAnd, a, b)),
        AstBop::BitXor => Some(spec_wrap_bin_arith(BinArithOp::BitXor, a, b)),
        AstBop::BitOr => Some(spec_wrap_bin_arith(BinArithOp::BitOr, a, b)),
        AstBop::And => Some(spec_wrap_bin_arith(BinArithOp::BitAnd, a, b)),
        AstBop::Or => Some(spec_wrap_bin_arith(BinArithOp::BitOr, a, b)),
        AstBop::Lt => Some(spec_wrap_bin_cmp(BinCmpOp::Lt, a, b)),
        AstBop::Gt => Some(spec_wrap_bin_cmp(BinCmpOp::Gt, a, b)),
        AstBop::Eq => Some(spec_wrap_bin_cmp(BinCmpOp::Eq, a, b)),
        AstBop::Leq => Some(spec_wrap_bin_cmp(BinCmpOp::Le, a, b)),
        AstBop::Geq => Some(spec_wrap_bin_cmp(BinCmpOp::Ge, a, b)),
        AstBop::Neq => Some(spec_wrap_bin_cmp(BinCmpOp::Ne, a, b)),
        AstBop::Other => None,
    }
}

/// What a call to a verification built-in does: the argument is cast to
/// `Bool` and recorded; the call's value is the boolean default. `None`
/// says the callee is no recognized built-in.
pub open spec fn spec_handle_builtins(g: GenV, fname: Seq<char>, vs: Seq<PyTermV>) -> Result<
    Option<(GenV, PyTermV)>,
    PyError,
> {
    if g.sv_functions && (fname == "__VERIFIER_assert"@ || fname == "__VERIFIER_assume"@) {
        if vs.len() != 1 {
            Err(PyError::UnsupportedCall)
        } else {
            let barg = spec_inner(spec_cast(Ty::Bool, vs[0]));
            if fname == "__VERIFIER_assert"@ {
                Ok(
                    Some(
                        (
                            GenV { assertions: g.assertions.push(barg), ..g },
                            spec_default(Ty::Bool),
                        ),
                    ),
                )
            } else {
                Ok(
                    Some(
                        (
                            GenV { assumptions: g.assumptions.push(barg), ..g },
                            spec_default(Ty::Bool),
                        ),
                    ),
                )
            }
        }
    } else {
        Ok(None)
    }
}

/// The state and value an expression lowers to.
pub open spec fn spec_gen_expr(g: GenV, e: ExprV) -> Result<(GenV, PyTermV), PyError>
    decreases e,
{
    match e {
        ExprV::IntLit(d) => if is_dec_digits(d) {
            Ok((g, PyTermV::Int(TermV::BvLit(wrap_decimal(d), PY_INT_SIZE))))
        } else {
            Err(PyError::TypeError)
        },
        ExprV::BoolLit(b) => Ok((g, PyTermV::Bool(TermV::BoolLit(b)))),
        ExprV::Name(n) => match scopes_lookup(g.circ.scopes, n) {
            Some(v) => Ok((g, v)),
            None => Err(PyError::UndeclaredVariable),
        },
        ExprV::Bop(op, a, b) => match spec_gen_expr(g, *a) {
            Err(er) => Err(er),
            Ok((g1, t0)) => match spec_gen_expr(g1, *b) {
                Err(er) => Err(er),
                Ok((g2, t1)) => match spec_bin_op(op, t0, t1) {
                    Some(v) => Ok((g2, v)),
                    None => Err(PyError::UnsupportedExpression),
                },
            },
        },
        ExprV::Uop(op, a) => match spec_gen_expr(g, *a) {
            Err(er) => Err(er),
            Ok((g1, t)) => match op {
                AstUop::Minus => Ok((g1, spec_wrap_un_arith(t))),
                AstUop::Other => Err(PyError::UnsupportedExpression),
            },
        },
        ExprV::Call(f, args) => match spec_gen_args(g, args) {
            Err(er) => Err(er),
            Ok((g1, vs)) => match *f {
                ExprV::Name(fname) => match spec_handle_builtins(g1, fname, vs) {
                    Err(er) => Err(er),
                    Ok(Some((g2, v))) => Ok((g2, v)),
                    Ok(None) => Err(PyError::UnsupportedCall),
                },
                _ => Err(PyError::UnsupportedExpression),
            },
        },
        ExprV::Other => Err(PyError::UnsupportedExpression),
    }
}

/// The state and values a call's arguments lower to, left to right.
pub open spec fn spec_gen_args(g: GenV, args: Seq<ArgV>) -> Result<(GenV, Seq<PyTermV>), PyError>
    decreases args,
{
    if args.len() == 0 {
        Ok((g, Seq::empty()))
    } else {
        match spec_gen_args(g, args.drop_last()) {
            Err(er) => Err(er),
            Ok((g1, vs)) => match args.last() {
                ArgV::Positional(e) => match spec_gen_expr(g1, e) {
                    Err(er) => Err(er),
                    Ok((g2, v)) => Ok((g2, vs.push(v))),
                },
                ArgV::Other => Err(PyError::UnsupportedCall),
            },
        }
    }
}

/// The state a statement lowers to.
pub open spec fn spec_gen_stmt(g: GenV, s: StmtV) -> Result<GenV, PyError>
    decreases s, 0nat,
{
    match s {
        StmtV::Return(es) => if es.len() != 1 {
            Err(PyError::UnsupportedStatement)
        } else {
            match spec_gen_expr(g, es[0]) {
                Err(er) => Err(er),
                Ok((g1, v)) => match spec_return_(g1.circ, Some(v)) {
                    Ok(c2) => Ok(GenV { circ: c2, ..g1 }),
                    Err(e) => Err(circ_err(e)),
                },
            }
        },
        StmtV::Assignment(lhs, rhs) => if lhs.len() != 1 {
            Err(PyError::UnsupportedStatement)
        } else if rhs.len() > 0 {
            if rhs[0].len() != 1 {
                Err(PyError::UnsupportedStatement)
            } else {
                match lhs[0] {
                    ExprV::Name(n) => match spec_gen_expr(g, rhs[0][0]) {
                        Err(er) => Err(er),
                        Ok((g1, v)) => if scopes_lookup(g1.circ.scopes, n) is None {
                            Err(PyError::UndeclaredAssignment)
                        } else {
                            match spec_assign(g1.circ, n, v) {
                                Ok((c2, _)) => Ok(GenV { circ: c2, ..g1 }),
                                Err(e) => Err(circ_err(e)),
                            }
                        },
                    },
                    _ => Err(PyError::UnsupportedStatement),
                }
            }
        } else {
            match spec_gen_expr(g, lhs[0]) {
                Err(er) => Err(er),
                Ok((g1, _)) => Ok(g1),
            }
        },
        StmtV::TypedAssignment(lhs, ty, rhs) => if lhs.len() != 1 || rhs.len() != 1 {
            Err(PyError::UnsupportedStatement)
        } else {
            match lhs[0] {
                ExprV::Name(n) => match ty {
                    ExprV::Name(ty_str) => match spec_gen_expr(g, rhs[0]) {
                        Err(er) => Err(er),
                        Ok((g1, v)) => if scopes_lookup(g1.circ.scopes, n) is Some {
                            match spec_assign(g1.circ, n, v) {
                                Ok((c2, _)) => Ok(GenV { circ: c2, ..g1 }),
                                Err(e) => Err(circ_err(e)),
                            }
                        } else {
                            match spec_ty_from_str(ty_str) {
                                Err(er) => Err(er),
                                Ok(t) => match spec_declare_init(
                                    g1.circ,
                                    n,
                                    t,
                                    spec_cast(t, v),
                                ) {
                                    Ok(c2) => Ok(GenV { circ: c2, ..g1 }),
                                    Err(e) => Err(circ_err(e)),
                                },
                            }
                        },
                    },
                    _ => Err(PyError::UnknownType),
                },
                _ => Err(PyError::UnsupportedStatement),
            }
        },
        StmtV::Compound(c) => spec_gen_compound(g, *c),
        StmtV::Other => Err(PyError::UnsupportedStatement),
    }
}

/// The state a statement list lowers to, in order.
pub open spec fn spec_gen_block(g: GenV, ss: Seq<StmtV>) -> Result<GenV, PyError>
    decreases ss, 0nat,
{
    if ss.len() == 0 {
        Ok(g)
    } else {
        match spec_gen_block(g, ss.drop_last()) {
            Err(er) => Err(er),
            Ok(g1) => spec_gen_stmt(g1, ss.last()),
        }
    }
}

/// The state a compound statement lowers to.
pub open spec fn spec_gen_compound(g: GenV, c: CompoundV) -> Result<GenV, PyError>
    decreases c, 0nat,
{
    match c {
        CompoundV::If(arms, els) => if arms.len() != 1 {
            Err(PyError::UnsupportedStatement)
        } else {
            match spec_gen_expr(g, arms[0].0) {
                Err(er) => Err(er),
                Ok((g1, cond)) => {
                    let ct = spec_inner(spec_cast(Ty::Bool, cond));
                    let g2 = GenV {
                        circ: CircifyV { conditions: g1.circ.conditions.push(ct), ..g1.circ },
                        ..g1
                    };
                    match spec_gen_block(g2, arms[0].1) {
                        Err(er) => Err(er),
                        Ok(g3) => {
                            let g4 = GenV {
                                circ: CircifyV {
                                    conditions: g3.circ.conditions.drop_last(),
                                    ..g3.circ
                                },
                                ..g3
                            };
                            match els {
                                None => Ok(g4),
                                Some(eb) => {
                                    let nt = TermV::Not(Box::new(ct));
                                    let g5 = GenV {
                                        circ: CircifyV {
                                            conditions: g4.circ.conditions.push(nt),
                                            ..g4.circ
                                        },
                                        ..g4
                                    };
                                    match spec_gen_block(g5, eb) {
                                        Err(er) => Err(er),
                                        Ok(g6) => Ok(
                                            GenV {
                                                circ: CircifyV {
                                                    conditions: g6.circ.conditions.drop_last(),
                                                    ..g6.circ
                                                },
                                                ..g6
                                            },
                                        ),
                                    }
                                },
                            }
                        },
                    }
                },
            }
        },
        CompoundV::For { is_async, item: _, iterator, for_block, else_block } => if is_async {
            Err(PyError::UnsupportedStatement)
        } else if else_block is Some {
            Err(PyError::UnsupportedStatement)
        } else if iterator.len() == 1 {
            match iterator[0] {
                ExprV::Call(f, args) => if *f == ExprV::Name("range"@) {
                    match spec_range(args) {
                        Err(er) => Err(er),
                        Ok((s, e)) => spec_unroll(
                            g,
                            for_block,
                            if e > s {
                                (e - s) as nat
                            } else {
                                0
                            },
                        ),
                    }
                } else {
                    Err(PyError::UnsupportedStatement)
                },
                _ => Err(PyError::UnsupportedStatement),
            }
        } else {
            Err(PyError::UnsupportedStatement)
        },
        CompoundV::Funcdef(_) => Err(PyError::UnsupportedStatement),
        CompoundV::Other => Err(PyError::UnsupportedStatement),
    }
}

/// The state after lowering a loop body `n` times, each inside a fresh
/// lexical scope.
pub open spec fn spec_unroll(g: GenV, block: Seq<StmtV>, n: nat) -> Result<GenV, PyError>
    decreases block, n,
{
    if n == 0 {
        Ok(g)
    } else {
        let g1 = GenV {
            circ: CircifyV { scopes: g.circ.scopes.push(Seq::empty()), ..g.circ },
            ..g
        };
        match spec_gen_block(g1, block) {
            Err(er) => Err(er),
            Ok(g2) => {
                let g3 = GenV {
                    circ: CircifyV { scopes: g2.circ.scopes.drop_last(), ..g2.circ },
                    ..g2
                };
                spec_unroll(g3, block, (n - 1) as nat)
            },
        }
    }
}

/// The state after declaring the parameters as symbolic inputs, in
/// order; each needs an `int` or `bool` annotation.
pub open spec fn spec_declare_params(
    g: GenV,
    ps: Seq<(Seq<char>, Option<ExprV>)>,
) -> Result<GenV, PyError>
    decreases ps,
{
    if ps.len() == 0 {
        Ok(g)
    } else {
        match spec_declare_params(g, ps.drop_last()) {
            Err(er) => Err(er),
            Ok(g1) => match ps.last().1 {
                None => Err(PyError::MissingTypeAnnotation),
                Some(ExprV::Name(ty_str)) => match spec_ty_from_str(ty_str) {
                    Err(er) => Err(er),
                    Ok(ty) => match spec_declare_input(g1.circ, ps.last().0, ty) {
                        Ok((c2, _)) => Ok(GenV { circ: c2, ..g1 }),
                        Err(e) => Err(circ_err(e)),
                    },
                },
                Some(_) => Err(PyError::UnknownType),
            },
        }
    }
}

/// All negations of a term list.
pub open spec fn negate_all(ts: Seq<TermV>) -> Seq<TermV> {
    ts.map_values(|t: TermV| TermV::Not(Box::new(t)))
}

/// Bug-predicate synthesis: `true` joins both lists so neither is
/// empty; the emitted output says "every assumption holds and some
/// assertion fails".
pub open spec fn spec_synthesize(g: GenV) -> GenV {
    let asms = g.assumptions.push(TermV::BoolLit(true));
    let asts = g.assertions.push(TermV::BoolLit(true));
    let assumptions_hold = TermV::NaryAnd(asms);
    let an_assertion_doesnt = TermV::NaryOr(negate_all(asts));
    let bug_if = TermV::NaryAnd(seq![assumptions_hold, an_assertion_doesnt]);
    GenV {
        assumptions: asms,
        assertions: asts,
        circ: CircifyV {
            ctx: CirCtxV { outputs: g.circ.ctx.outputs.push(bug_if), ..g.circ.ctx },
            ..g.circ
        },
        ..g
    }
}

/// The table entry and remainder `take` yields: the latest definition
/// of the name leaves the table.
pub open spec fn spec_take(tbl: Seq<(Seq<char>, FuncdefV)>, n: Seq<char>) -> (
    Seq<(Seq<char>, FuncdefV)>,
    Option<FuncdefV>,
)
    decreases tbl,
{
    if tbl.len() == 0 {
        (tbl, None)
    } else if tbl.last().0 == n {
        (tbl.drop_last(), Some(tbl.last().1))
    } else {
        let (t2, r) = spec_take(tbl.drop_last(), n);
        (t2.push(tbl.last()), r)
    }
}

/// The state after compiling the named entry function: the frame is
/// opened with return type `Int`, the parameters become symbolic
/// inputs, the body is lowered, and — the frame having a return slot —
/// the bug predicate is synthesized.
pub open spec fn spec_entry_fn(g: GenV, name: Seq<char>) -> Result<GenV, PyError> {
    let taken = spec_take(g.functions, name);
    match taken.1 {
        None => Err(PyError::NoMainFunction),
        Some(f) => {
            let g1 = GenV {
                functions: taken.0,
                circ: spec_enter_fn(g.circ, name, Some(Ty::Int)),
                ..g
            };
            match spec_declare_params(g1, f.params) {
                Err(er) => Err(er),
                Ok(g2) => match spec_gen_block(g2, f.code) {
                    Err(er) => Err(er),
                    Ok(g3) => {
                        let exited = spec_exit_fn(g3.circ);
                        let g4 = GenV { circ: exited.0, ..g3 };
                        match exited.1 {
                            Some(_) => Ok(spec_synthesize(g4)),
                            None => Ok(g4),
                        }
                    },
                },
            }
        },
    }
}

/// The function table the top-level statements define: every one must
/// be a function definition.
pub open spec fn spec_build_table(ast: Seq<StmtV>) -> Result<Seq<(Seq<char>, FuncdefV)>, PyError>
    decreases ast,
{
    if ast.len() == 0 {
        Ok(Seq::empty())
    } else {
        match spec_build_table(ast.drop_last()) {
            Err(er) => Err(er),
            Ok(tbl) => match ast.last() {
                StmtV::Compound(c) => match *c {
                    CompoundV::Funcdef(f) => Ok(tbl.push((f.name, f))),
                    _ => Err(PyError::TopLevelNotAFunction),
                },
                _ => Err(PyError::TopLevelNotAFunction),
            },
        }
    }
}

/// The model of the named computations a compilation emits.
pub type ComputationsV = Seq<(Seq<char>, CirCtxV)>;

/// What compiling a source file means: every top-level statement
/// defines a function; `main` is compiled; the result is the one
/// computation named `main`, whose single output is the bug predicate.
pub open spec fn spec_compile(ast: Seq<StmtV>, sv_functions: bool) -> Result<
    ComputationsV,
    PyError,
> {
    match spec_build_table(ast) {
        Err(er) => Err(er),
        Ok(tbl) => {
            let g0 = GenV {
                circ: spec_init_circ(),
                functions: tbl,
                assumptions: Seq::empty(),
                assertions: Seq::empty(),
                sv_functions: sv_functions,
            };
            match spec_entry_fn(g0, "main"@) {
                Err(er) => Err(er),
                Ok(g1) => Ok(seq![("main"@, g1.circ.ctx)]),
            }
        },
    }
}

/// Two compilations of one syntax tree yield the same result — in
/// particular, structurally identical bug-predicate terms.
pub proof fn lemma_compile_deterministic(
    ast1: Seq<StmtV>,
    ast2: Seq<StmtV>,
    sv_functions: bool,
)
    requires
        ast1 == ast2,
    ensures
        spec_compile(ast1, sv_functions) == spec_compile(ast2, sv_functions),
{
}

/// Empty-list safety: when nothing was assumed and nothing asserted,
/// the synthesized bug predicate is `true ∧ ¬true` — it evaluates to
/// `false` under every environment, so no model can witness a bug.
pub proof fn lemma_empty_list_safety(g: GenV, env: Map<Seq<char>, crate::ir::Val>)
    requires
        g.assumptions == Seq::<TermV>::empty(),
        g.assertions == Seq::<TermV>::empty(),
    ensures
        ({
            let g2 = spec_synthesize(g);
            let t_true = TermV::BoolLit(true);
            let bug = TermV::NaryAnd(
                seq![
                    TermV::NaryAnd(seq![t_true]),
                    TermV::NaryOr(seq![TermV::Not(Box::new(t_true))]),
                ],
            );
            &&& g2.circ.ctx.outputs == g.circ.ctx.outputs.push(bug)
            &&& crate::ir::eval(bug, env) == Some(crate::ir::Val::B(false))
        }),
{
    let t_true = TermV::BoolLit(true);
    let not_true = TermV::Not(Box::new(t_true));
    let a = TermV::NaryAnd(seq![t_true]);
    let o = TermV::NaryOr(seq![not_true]);
    let bug = TermV::NaryAnd(seq![a, o]);
    assert(g.assumptions.push(t_true) =~= seq![t_true]);
    assert(g.assertions.push(t_true) =~= seq![t_true]);
    assert(negate_all(seq![t_true]) =~= seq![not_true]);
    assert(spec_synthesize(g).circ.ctx.outputs == g.circ.ctx.outputs.push(bug));
    assert(seq![t_true].drop_last() =~= Seq::<TermV>::empty());
    assert(crate::ir::eval(t_true, env) == Some(crate::ir::Val::B(true)));
    assert(crate::ir::eval_list(seq![t_true], env) == Some(seq![crate::ir::Val::B(true)]))
        by {
        assert(seq![t_true].last() == t_true);
        assert(crate::ir::eval_list(Seq::<TermV>::empty(), env) == Some(
            Seq::<crate::ir::Val>::empty(),
        ));
        assert(Seq::<crate::ir::Val>::empty().push(crate::ir::Val::B(true)) =~= seq![
            crate::ir::Val::B(true),
        ]);
    }
    let vs_t = seq![crate::ir::Val::B(true)];
    assert(crate::ir::vals_all_b(vs_t));
    assert(forall|i: int| 0 <= i < 1 ==> (#[trigger] vs_t[i])->B_0 == true);
    assert(crate::ir::eval(a, env) == Some(crate::ir::Val::B(true)));
    assert(crate::ir::eval(not_true, env) == Some(crate::ir::Val::B(false)));
    assert(seq![not_true].drop_last() =~= Seq::<TermV>::empty());
    assert(crate::ir::eval_list(seq![not_true], env) == Some(seq![crate::ir::Val::B(false)]))
        by {
        assert(crate::ir::eval_list(Seq::<TermV>::empty(), env) == Some(
            Seq::<crate::ir::Val>::empty(),
        ));
        assert(Seq::<crate::ir::Val>::empty().push(crate::ir::Val::B(false)) =~= seq![
            crate::ir::Val::B(false),
        ]);
    }
    let vs_f = seq![crate::ir::Val::B(false)];
    assert(crate::ir::vals_all_b(vs_f));
    assert(!(exists|i: int| 0 <= i < 1 && (#[trigger] vs_f[i])->B_0));
    assert(crate::ir::eval(o, env) == Some(crate::ir::Val::B(false)));
    assert(seq![a, o].drop_last() =~= seq![a]);
    assert(seq![a].drop_last() =~= Seq::<TermV>::empty());
    assert(crate::ir::eval_list(seq![a, o], env) == Some(
        seq![crate::ir::Val::B(true), crate::ir::Val::B(false)],
    )) by {
        assert(crate::ir::eval_list(Seq::<TermV>::empty(), env) == Some(
            Seq::<crate::ir::Val>::empty(),
        ));
        assert(crate::ir::eval_list(seq![a], env) == Some(seq![crate::ir::Val::B(true)]));
        assert(seq![crate::ir::Val::B(true)].push(crate::ir::Val::B(false)) =~= seq![
            crate::ir::Val::B(true),
            crate::ir::Val::B(false),
        ]);
    }
    let vs_tf = seq![crate::ir::Val::B(true), crate::ir::Val::B(false)];
    assert(crate::ir::vals_all_b(vs_tf));
    assert(!(forall|i: int| 0 <= i < 2 ==> (#[trigger] vs_tf[i])->B_0)) by {
        assert(vs_tf[1]->B_0 == false);
    }
    assert(crate::ir::eval(bug, env) == Some(crate::ir::Val::B(false)));
}

/// Lowering an expression never touches the context, the function
/// table or the built-ins switch.
proof fn lemma_expr_preserves_circ(g: GenV, e: ExprV)
    ensures
        spec_gen_expr(g, e) matches Ok((g2, _)) ==> g2.circ == g.circ && g2.functions
            == g.functions && g2.sv_functions == g.sv_functions,
    decreases e,
{
    match e {
        ExprV::Bop(op, a, b) => {
            lemma_expr_preserves_circ(g, *a);
            let r1 = spec_gen_expr(g, *a);
            if r1 is Ok {
                lemma_expr_preserves_circ(r1->Ok_0.0, *b);
            }
        },
        ExprV::Uop(_, a) => {
            lemma_expr_preserves_circ(g, *a);
        },
        ExprV::Call(_, args) => {
            lemma_args_preserves_circ(g, args);
        },
        _ => {},
    }
}

/// Lowering an argument list never touches the context either.
proof fn lemma_args_preserves_circ(g: GenV, args: Seq<ArgV>)
    ensures
        spec_gen_args(g, args) matches Ok((g2, _)) ==> g2.circ == g.circ && g2.functions
            == g.functions && g2.sv_functions == g.sv_functions,
    decreases args,
{
    if args.len() > 0 {
        lemma_args_preserves_circ(g, args.drop_last());
        let r1 = spec_gen_args(g, args.drop_last());
        if r1 is Ok {
            match args.last() {
                ArgV::Positional(e) => lemma_expr_preserves_circ(r1->Ok_0.0, e),
                ArgV::Other => {},
            }
        }
    }
}

/// No call expression occurs in the expression — in particular no
/// verification built-in is invoked while lowering it.
pub open spec fn no_calls_expr(e: ExprV) -> bool
    decreases e,
{
    match e {
        ExprV::Call(_, _) => false,
        ExprV::Bop(_, a, b) => no_calls_expr(*a) && no_calls_expr(*b),
        ExprV::Uop(_, a) => no_calls_expr(*a),
        _ => true,
    }
}

/// No call occurs in any expression of the list.
pub open spec fn no_calls_exprs(es: Seq<ExprV>) -> bool
    decreases es,
{
    es.len() == 0 || (no_calls_exprs(es.drop_last()) && no_calls_expr(es.last()))
}

/// No call occurs in the lowered parts of the statement. A `for` loop's
/// iterator is consumed syntactically — only its body is lowered.
pub open spec fn no_calls_stmt(s: StmtV) -> bool
    decreases s, 0nat,
{
    match s {
        StmtV::Return(es) => no_calls_exprs(es),
        StmtV::Assignment(lhs, rhs) => no_calls_exprs(lhs) && no_calls_expr_lists(rhs),
        StmtV::TypedAssignment(lhs, _, rhs) => no_calls_exprs(lhs) && no_calls_exprs(rhs),
        StmtV::Compound(c) => no_calls_compound(*c),
        StmtV::Other => true,
    }
}

/// No call occurs in any statement of the list.
pub open spec fn no_calls_stmts(ss: Seq<StmtV>) -> bool
    decreases ss, 1nat,
{
    ss.len() == 0 || (no_calls_stmts(ss.drop_last()) && no_calls_stmt(ss.last()))
}

/// No call occurs in any list of the list.
pub open spec fn no_calls_expr_lists(ess: Seq<Seq<ExprV>>) -> bool
    decreases ess,
{
    ess.len() == 0 || (no_calls_expr_lists(ess.drop_last()) && no_calls_exprs(ess.last()))
}

/// No call occurs in the lowered parts of the compound statement.
pub open spec fn no_calls_compound(c: CompoundV) -> bool
    decreases c, 2nat,
{
    match c {
        CompoundV::If(arms, els) => no_calls_branches(arms) && (match els {
            Some(eb) => no_calls_stmts(eb),
            None => true,
        }),
        CompoundV::For { for_block, .. } => no_calls_stmts(for_block),
        CompoundV::Funcdef(f) => no_calls_stmts(f.code),
        CompoundV::Other => true,
    }
}

/// No call occurs in any arm of an `if`.
pub open spec fn no_calls_branches(arms: Seq<(ExprV, Seq<StmtV>)>) -> bool
    decreases arms,
{
    arms.len() == 0 || (no_calls_branches(arms.drop_last()) && no_calls_expr(arms.last().0)
        && no_calls_stmts(arms.last().1))
}

/// Lowering a call-free expression records nothing.
proof fn lemma_no_calls_expr(g: GenV, e: ExprV)
    requires
        no_calls_expr(e),
    ensures
        spec_gen_expr(g, e) matches Ok((g2, _)) ==> g2.assumptions == g.assumptions
            && g2.assertions == g.assertions,
    decreases e,
{
    match e {
        ExprV::Bop(_, a, b) => {
            lemma_no_calls_expr(g, *a);
            let r1 = spec_gen_expr(g, *a);
            if r1 is Ok {
                lemma_no_calls_expr(r1->Ok_0.0, *b);
            }
        },
        ExprV::Uop(_, a) => {
            lemma_no_calls_expr(g, *a);
        },
        _ => {},
    }
}

/// Lowering a call-free statement records nothing.
proof fn lemma_no_calls_stmt(g: GenV, s: StmtV)
    requires
        no_calls_stmt(s),
    ensures
        spec_gen_stmt(g, s) matches Ok(g2) ==> g2.assumptions == g.assumptions
            && g2.assertions == g.assertions,
    decreases s, 1nat,
{
    match s {
        StmtV::Return(es) => {
            if es.len() == 1 {
                assert(no_calls_expr(es[0])) by {
                    assert(es.drop_last().len() == 0);
                    assert(es.last() == es[0]);
                }
                lemma_no_calls_expr(g, es[0]);
            }
        },
        StmtV::Assignment(lhs, rhs) => {
            if lhs.len() == 1 {
                assert(no_calls_expr(lhs[0])) by {
                    assert(lhs.last() == lhs[0]);
                }
                if rhs.len() > 0 {
                    if rhs[0].len() == 1 {
                        assert(no_calls_expr(rhs[0][0])) by {
                            lemma_no_calls_expr_lists_index(rhs, 0);
                            assert(rhs[0].last() == rhs[0][0]);
                        }
                        match lhs[0] {
                            ExprV::Name(_) => {
                                lemma_no_calls_expr(g, rhs[0][0]);
                            },
                            _ => {},
                        }
                    }
                } else {
                    lemma_no_calls_expr(g, lhs[0]);
                }
            }
        },
        StmtV::TypedAssignment(lhs, _, rhs) => {
            if lhs.len() == 1 && rhs.len() == 1 {
                assert(no_calls_expr(rhs[0])) by {
                    assert(rhs.last() == rhs[0]);
                }
                lemma_no_calls_expr(g, rhs[0]);
            }
        },
        StmtV::Compound(c) => {
            lemma_no_calls_compound(g, *c);
        },
        StmtV::Other => {},
    }
}

/// A prefix fact for call-free expression lists of lists.
proof fn lemma_no_calls_expr_lists_index(ess: Seq<Seq<ExprV>>, i: int)
    requires
        no_calls_expr_lists(ess),
        0 <= i < ess.len(),
    ensures
        no_calls_exprs(ess[i]),
    decreases ess,
{
    if i == ess.len() - 1 {
    } else {
        lemma_no_calls_expr_lists_index(ess.drop_last(), i);
    }
}

/// Lowering a call-free block records nothing.
proof fn lemma_no_calls_block(g: GenV, ss: Seq<StmtV>)
    requires
        no_calls_stmts(ss),
    ensures
        spec_gen_block(g, ss) matches Ok(g2) ==> g2.assumptions == g.assumptions
            && g2.assertions == g.assertions,
    decreases ss, 2nat,
{
    if ss.len() > 0 {
        lemma_no_calls_block(g, ss.drop_last());
        let r1 = spec_gen_block(g, ss.drop_last());
        if r1 is Ok {
            lemma_no_calls_stmt(r1->Ok_0, ss.last());
        }
    }
}

/// Lowering a call-free compound statement records nothing.
proof fn lemma_no_calls_compound(g: GenV, c: CompoundV)
    requires
        no_calls_compound(c),
    ensures
        spec_gen_compound(g, c) matches Ok(g2) ==> g2.assumptions == g.assumptions
            && g2.assertions == g.assertions,
    decreases c, 1nat,
{
    match c {
        CompoundV::If(arms, els) => {
            if arms.len() == 1 {
                assert(no_calls_expr(arms[0].0) && no_calls_stmts(arms[0].1)) by {
                    assert(arms.last() == arms[0]);
                }
                lemma_no_calls_expr(g, arms[0].0);
                let r1 = spec_gen_expr(g, arms[0].0);
                if r1 is Ok {
                    let g1 = r1->Ok_0.0;
                    let cond = r1->Ok_0.1;
                    let ct = spec_inner(spec_cast(Ty::Bool, cond));
                    let g2 = GenV {
                        circ: CircifyV { conditions: g1.circ.conditions.push(ct), ..g1.circ },
                        ..g1
                    };
                    lemma_no_calls_block(g2, arms[0].1);
                    let r3 = spec_gen_block(g2, arms[0].1);
                    if r3 is Ok {
                        let g3 = r3->Ok_0;
                        let g4 = GenV {
                            circ: CircifyV {
                                conditions: g3.circ.conditions.drop_last(),
                                ..g3.circ
                            },
                            ..g3
                        };
                        match els {
                            None => {},
                            Some(eb) => {
                                let nt = TermV::Not(Box::new(ct));
                                let g5 = GenV {
                                    circ: CircifyV {
                                        conditions: g4.circ.conditions.push(nt),
                                        ..g4.circ
                                    },
                                    ..g4
                                };
                                lemma_no_calls_block(g5, eb);
                            },
                        }
                    }
                }
            }
        },
        CompoundV::For { is_async, item: _, iterator, for_block, else_block } => {
            if !is_async && else_block is None && iterator.len() == 1 {
                match iterator[0] {
                    ExprV::Call(f, args) => {
                        if *f == ExprV::Name("range"@) {
                            match spec_range(args) {
                                Err(_) => {},
                                Ok((s, e)) => {
                                    lemma_no_calls_unroll(
                                        g,
                                        for_block,
                                        if e > s {
                                            (e - s) as nat
                                        } else {
                                            0
                                        },
                                    );
                                },
                            }
                        }
                    },
                    _ => {},
                }
            }
        },
        _ => {},
    }
}

/// Unrolling a call-free body records nothing.
proof fn lemma_no_calls_unroll(g: GenV, block: Seq<StmtV>, n: nat)
    requires
        no_calls_stmts(block),
    ensures
        spec_unroll(g, block, n) matches Ok(g2) ==> g2.assumptions == g.assumptions
            && g2.assertions == g.assertions,
    decreases block, n + 3nat,
{
    if n != 0 {
        let g1 = GenV {
            circ: CircifyV { scopes: g.circ.scopes.push(Seq::empty()), ..g.circ },
            ..g
        };
        lemma_no_calls_block(g1, block);
        let r2 = spec_gen_block(g1, block);
        if r2 is Ok {
            let g2 = r2->Ok_0;
            let g3 = GenV {
                circ: CircifyV { scopes: g2.circ.scopes.drop_last(), ..g2.circ },
                ..g2
            };
            lemma_no_calls_unroll(g3, block, (n - 1) as nat);
        }
    }
}

/// Declaring the parameters touches only the context.
proof fn lemma_params_preserves(g: GenV, ps: Seq<(Seq<char>, Option<ExprV>)>)
    ensures
        spec_declare_params(g, ps) matches Ok(g2) ==> g2.assumptions == g.assumptions
            && g2.assertions == g.assertions && g2.circ.ctx.outputs == g.circ.ctx.outputs
            && g2.circ.frame == g.circ.frame,
    decreases ps,
{
    if ps.len() > 0 {
        lemma_params_preserves(g, ps.drop_last());
    }
}

/// Every body in a table built from call-free top-level statements is
/// call-free.
proof fn lemma_build_table_no_calls(ast: Seq<StmtV>)
    requires
        no_calls_stmts(ast),
    ensures
        spec_build_table(ast) matches Ok(tbl) ==> forall|i: int|
            0 <= i < tbl.len() ==> no_calls_stmts((#[trigger] tbl[i]).1.code),
    decreases ast,
{
    if ast.len() > 0 {
        lemma_build_table_no_calls(ast.drop_last());
        if spec_build_table(ast) is Ok {
            let tbl0 = spec_build_table(ast.drop_last())->Ok_0;
            let tbl = spec_build_table(ast)->Ok_0;
            match ast.last() {
                StmtV::Compound(c) => match *c {
                    CompoundV::Funcdef(f) => {
                        assert(tbl == tbl0.push((f.name, f)));
                        assert(no_calls_stmt(ast.last()));
                        assert(no_calls_compound(*c));
                        assert(no_calls_stmts(f.code));
                        assert forall|i: int|
                            0 <= i < tbl.len() implies no_calls_stmts(
                            (#[trigger] tbl[i]).1.code,
                        ) by {
                            if i < tbl0.len() {
                                assert(tbl[i] == tbl0[i]);
                            } else {
                                assert(tbl[i] == (f.name, f));
                            }
                        }
                    },
                    _ => {},
                },
                _ => {},
            }
        }
    }
}

/// Taking from a table of call-free bodies yields a call-free body.
proof fn lemma_take_no_calls(tbl: Seq<(Seq<char>, FuncdefV)>, n: Seq<char>)
    requires
        forall|i: int| 0 <= i < tbl.len() ==> no_calls_stmts((#[trigger] tbl[i]).1.code),
    ensures
        spec_take(tbl, n).1 matches Some(f) ==> no_calls_stmts(f.code),
    decreases tbl,
{
    if tbl.len() > 0 {
        if tbl.last().0 == n {
        } else {
            lemma_take_no_calls(tbl.drop_last(), n);
        }
    }
}

/// Empty-list safety at the source level: a program with no call to
/// `__VERIFIER_assume` or `__VERIFIER_assert` (indeed, no call at all)
/// compiles to the bug predicate `true ∧ ¬true`, which evaluates to
/// `false` under every environment.
pub proof fn lemma_no_verifier_calls_unsatisfiable(
    ast: Seq<StmtV>,
    sv_functions: bool,
    env: Map<Seq<char>, crate::ir::Val>,
)
    requires
        no_calls_stmts(ast),
        spec_compile(ast, sv_functions) is Ok,
    ensures
        ({
            let cv = spec_compile(ast, sv_functions)->Ok_0;
            &&& cv.len() == 1
            &&& cv[0].1.outputs.len() == 1
            &&& crate::ir::eval(cv[0].1.outputs[0], env) == Some(crate::ir::Val::B(false))
        }),
{
    let tbl = spec_build_table(ast)->Ok_0;
    lemma_build_table_no_calls(ast);
    let g0 = GenV {
        circ: spec_init_circ(),
        functions: tbl,
        assumptions: Seq::empty(),
        assertions: Seq::empty(),
        sv_functions: sv_functions,
    };
    lemma_take_no_calls(tbl, "main"@);
    let taken = spec_take(g0.functions, "main"@);
    let f = taken.1->Some_0;
    let g1 = GenV {
        functions: taken.0,
        circ: spec_enter_fn(g0.circ, "main"@, Some(Ty::Int)),
        ..g0
    };
    lemma_params_preserves(g1, f.params);
    let g2 = spec_declare_params(g1, f.params)->Ok_0;
    lemma_no_calls_block(g2, f.code);
    lemma_block_preserves(g2, f.code);
    let g3 = spec_gen_block(g2, f.code)->Ok_0;
    let exited = spec_exit_fn(g3.circ);
    let g4 = GenV { circ: exited.0, ..g3 };
    assert(g4.assumptions == Seq::<TermV>::empty());
    assert(g4.assertions == Seq::<TermV>::empty());
    assert(g4.circ.ctx.outputs == Seq::<TermV>::empty());
    lemma_empty_list_safety(g4, env);
    let g5 = spec_synthesize(g4);
    assert(g5.circ.ctx.outputs.len() == 1);
    assert(spec_compile(ast, sv_functions)->Ok_0 == seq![("main"@, g5.circ.ctx)]);
}

/// The shape a lowered statement preserves of the frame: present
/// before if and only if present after, its return slot likewise.
pub open spec fn frame_shape(
    f1: Option<crate::circify::FrameV>,
    f2: Option<crate::circify::FrameV>,
) -> bool {
    &&& (f1 is Some <==> f2 is Some)
    &&& (match (f1, f2) {
        (Some(a), Some(b)) => a.ret is Some <==> b.ret is Some,
        _ => true,
    })
}

/// A successfully lowered statement leaves the condition stack as it
/// was, keeps the number of open scopes, keeps the circuit, and keeps
/// the frame's shape.
proof fn lemma_stmt_preserves(g: GenV, s: StmtV)
    requires
        g.circ.scopes.len() >= 1,
    ensures
        spec_gen_stmt(g, s) matches Ok(g2) ==> g2.circ.conditions == g.circ.conditions
            && g2.circ.scopes.len() == g.circ.scopes.len() && g2.circ.ctx == g.circ.ctx
            && frame_shape(g.circ.frame, g2.circ.frame),
    decreases s, 1nat,
{
    match s {
        StmtV::Return(es) => {
            if es.len() == 1 {
                lemma_expr_preserves_circ(g, es[0]);
            }
        },
        StmtV::Assignment(lhs, rhs) => {
            if lhs.len() == 1 {
                if rhs.len() > 0 {
                    if rhs[0].len() == 1 {
                        match lhs[0] {
                            ExprV::Name(n) => {
                                lemma_expr_preserves_circ(g, rhs[0][0]);
                                let r1 = spec_gen_expr(g, rhs[0][0]);
                                if r1 is Ok {
                                    let g1 = r1->Ok_0.0;
                                    let v = r1->Ok_0.1;
                                    if scopes_lookup(g1.circ.scopes, n) is Some {
                                        if spec_assign(g1.circ, n, v) is Ok {
                                            crate::circify::lemma_scopes_update_len(
                                                g1.circ.scopes,
                                                n,
                                            );
                                        }
                                    }
                                }
                            },
                            _ => {},
                        }
                    }
                } else {
                    lemma_expr_preserves_circ(g, lhs[0]);
                }
            }
        },
        StmtV::TypedAssignment(lhs, ty, rhs) => {
            if lhs.len() == 1 && rhs.len() == 1 {
                match lhs[0] {
                    ExprV::Name(n) => match ty {
                        ExprV::Name(_) => {
                            lemma_expr_preserves_circ(g, rhs[0]);
                            let r1 = spec_gen_expr(g, rhs[0]);
                            if r1 is Ok {
                                let g1 = r1->Ok_0.0;
                                let v = r1->Ok_0.1;
                                if scopes_lookup(g1.circ.scopes, n) is Some {
                                    if spec_assign(g1.circ, n, v) is Ok {
                                        crate::circify::lemma_scopes_update_len(
                                            g1.circ.scopes,
                                            n,
                                        );
                                    }
                                }
                            }
                        },
                        _ => {},
                    },
                    _ => {},
                }
            }
        },
        StmtV::Compound(c) => {
            lemma_compound_preserves(g, *c);
        },
        StmtV::Other => {},
    }
}

/// A successfully lowered block preserves the same context shape.
proof fn lemma_block_preserves(g: GenV, ss: Seq<StmtV>)
    requires
        g.circ.scopes.len() >= 1,
    ensures
        spec_gen_block(g, ss) matches Ok(g2) ==> g2.circ.conditions == g.circ.conditions
            && g2.circ.scopes.len() == g.circ.scopes.len() && g2.circ.ctx == g.circ.ctx
            && frame_shape(g.circ.frame, g2.circ.frame),
    decreases ss, 2nat,
{
    if ss.len() > 0 {
        lemma_block_preserves(g, ss.drop_last());
        let r1 = spec_gen_block(g, ss.drop_last());
        if r1 is Ok {
            lemma_stmt_preserves(r1->Ok_0, ss.last());
        }
    }
}

/// A successfully lowered compound statement preserves the shape too.
proof fn lemma_compound_preserves(g: GenV, c: CompoundV)
    requires
        g.circ.scopes.len() >= 1,
    ensures
        spec_gen_compound(g, c) matches Ok(g2) ==> g2.circ.conditions == g.circ.conditions
            && g2.circ.scopes.len() == g.circ.scopes.len() && g2.circ.ctx == g.circ.ctx
            && frame_shape(g.circ.frame, g2.circ.frame),
    decreases c, 1nat,
{
    match c {
        CompoundV::If(arms, els) => {
            if arms.len() == 1 {
                lemma_expr_preserves_circ(g, arms[0].0);
                let r1 = spec_gen_expr(g, arms[0].0);
                if r1 is Ok {
                    let g1 = r1->Ok_0.0;
                    let cond = r1->Ok_0.1;
                    let ct = spec_inner(spec_cast(Ty::Bool, cond));
                    let g2 = GenV {
                        circ: CircifyV { conditions: g1.circ.conditions.push(ct), ..g1.circ },
                        ..g1
                    };
                    lemma_block_preserves(g2, arms[0].1);
                    let r3 = spec_gen_block(g2, arms[0].1);
                    if r3 is Ok {
                        let g3 = r3->Ok_0;
                        let g4 = GenV {
                            circ: CircifyV {
                                conditions: g3.circ.conditions.drop_last(),
                                ..g3.circ
                            },
                            ..g3
                        };
                        match els {
                            None => {},
                            Some(eb) => {
                                let nt = TermV::Not(Box::new(ct));
                                let g5 = GenV {
                                    circ: CircifyV {
                                        conditions: g4.circ.conditions.push(nt),
                                        ..g4.circ
                                    },
                                    ..g4
                                };
                                lemma_block_preserves(g5, eb);
                            },
                        }
                    }
                }
            }
        },
        CompoundV::For { is_async, item: _, iterator, for_block, else_block } => {
            if !is_async && else_block is None && iterator.len() == 1 {
                match iterator[0] {
                    ExprV::Call(f, args) => {
                        if *f == ExprV::Name("range"@) {
                            match spec_range(args) {
                                Err(_) => {},
                                Ok((s, e)) => {
                                    lemma_unroll_preserves(
                                        g,
                                        for_block,
                                        if e > s {
                                            (e - s) as nat
                                        } else {
                                            0
                                        },
                                    );
                                },
                            }
                        }
                    },
                    _ => {},
                }
            }
        },
        _ => {},
    }
}

/// A successfully unrolled loop preserves the shape as well.
proof fn lemma_unroll_preserves(g: GenV, block: Seq<StmtV>, n: nat)
    requires
        g.circ.scopes.len() >= 1,
    ensures
        spec_unroll(g, block, n) matches Ok(g2) ==> g2.circ.conditions == g.circ.conditions
            && g2.circ.scopes.len() == g.circ.scopes.len() && g2.circ.ctx == g.circ.ctx
            && frame_shape(g.circ.frame, g2.circ.frame),
    decreases block, n + 3nat,
{
    if n != 0 {
        let g1 = GenV {
            circ: CircifyV { scopes: g.circ.scopes.push(Seq::empty()), ..g.circ },
            ..g
        };
        lemma_block_preserves(g1, block);
        let r2 = spec_gen_block(g1, block);
        if r2 is Ok {
            let g2 = r2->Ok_0;
            let g3 = GenV {
                circ: CircifyV { scopes: g2.circ.scopes.drop_last(), ..g2.circ },
                ..g2
            };
            lemma_unroll_preserves(g3, block, (n - 1) as nat);
        }
    }
}

/// An error in a prefix of a block is the error of the whole block.
proof fn lemma_block_err_prefix(g: GenV, ss: Seq<StmtV>, k: int)
    requires
        0 <= k < ss.len(),
        spec_gen_block(g, ss.take(k + 1)) is Err,
    ensures
        spec_gen_block(g, ss) == spec_gen_block(g, ss.take(k + 1)),
    decreases ss.len() - k,
{
    if k + 1 == ss.len() {
        assert(ss.take(k + 1) =~= ss);
    } else {
        assert(ss.take(k + 2).drop_last() =~= ss.take(k + 1));
        lemma_block_err_prefix(g, ss, k + 1);
    }
}

/// An error in a prefix of an argument list is the whole list's error.
proof fn lemma_args_err_prefix(g: GenV, args: Seq<ArgV>, k: int)
    requires
        0 <= k < args.len(),
        spec_gen_args(g, args.take(k + 1)) is Err,
    ensures
        spec_gen_args(g, args) == spec_gen_args(g, args.take(k + 1)),
    decreases args.len() - k,
{
    if k + 1 == args.len() {
        assert(args.take(k + 1) =~= args);
    } else {
        assert(args.take(k + 2).drop_last() =~= args.take(k + 1));
        lemma_args_err_prefix(g, args, k + 1);
    }
}

/// An error in a prefix of the parameters is the whole list's error.
proof fn lemma_params_err_prefix(g: GenV, ps: Seq<(Seq<char>, Option<ExprV>)>, k: int)
    requires
        0 <= k < ps.len(),
        spec_declare_params(g, ps.take(k + 1)) is Err,
    ensures
        spec_declare_params(g, ps) == spec_declare_params(g, ps.take(k + 1)),
    decreases ps.len() - k,
{
    if k + 1 == ps.len() {
        assert(ps.take(k + 1) =~= ps);
    } else {
        assert(ps.take(k + 2).drop_last() =~= ps.take(k + 1));
        lemma_params_err_prefix(g, ps, k + 1);
    }
}

/// An error in a prefix of the top level is the whole table's error.
proof fn lemma_table_err_prefix(ast: Seq<StmtV>, k: int)
    requires
        0 <= k < ast.len(),
        spec_build_table(ast.take(k + 1)) is Err,
    ensures
        spec_build_table(ast) == spec_build_table(ast.take(k + 1)),
    decreases ast.len() - k,
{
    if k + 1 == ast.len() {
        assert(ast.take(k + 1) =~= ast);
    } else {
        assert(ast.take(k + 2).drop_last() =~= ast.take(k + 1));
        lemma_table_err_prefix(ast, k + 1);
    }
}

/// If entry `i` is the latest definition of `n`, `take` removes it.
proof fn lemma_table_take_at(tbl: Seq<(Seq<char>, FuncdefV)>, n: Seq<char>, i: int)
    requires
        0 <= i < tbl.len(),
        tbl[i].0 == n,
        forall|j: int| i < j < tbl.len() ==> tbl[j].0 != n,
    ensures
        spec_take(tbl, n).0 =~= tbl.remove(i),
        spec_take(tbl, n).1 == Some(tbl[i].1),
    decreases tbl,
{
    if i == tbl.len() - 1 {
        assert(tbl.drop_last() =~= tbl.remove(i));
    } else {
        lemma_table_take_at(tbl.drop_last(), n, i);
        assert(spec_take(tbl.drop_last(), n).0.push(tbl.last()) =~= tbl.remove(i));
    }
}

/// If no entry defines `n`, `take` finds nothing and keeps the table.
proof fn lemma_table_take_none(tbl: Seq<(Seq<char>, FuncdefV)>, n: Seq<char>)
    requires
        forall|j: int| 0 <= j < tbl.len() ==> tbl[j].0 != n,
    ensures
        spec_take(tbl, n).1 is None,
        spec_take(tbl, n).0 =~= tbl,
    decreases tbl,
{
    if tbl.len() > 0 {
        lemma_table_take_none(tbl.drop_last(), n);
        assert(spec_take(tbl.drop_last(), n).0.push(tbl.last()) =~= tbl);
    }
}

/// How a context error surfaces, at run time.
fn map_circ_err(e: CircError) -> (r: PyError)
    ensures
        r == circ_err(e),
{
    match e {
        CircError::Undeclared => PyError::UndeclaredVariable,
        CircError::Rebound => PyError::TypeError,
        CircError::TypeMismatch => PyError::TypeError,
        CircError::NoFrame => PyError::UnsupportedStatement,
    }
}

/// Applies a binary surface operator to two lowered values.
fn apply_bin_op(op: AstBop, t0: PyTerm, t1: PyTerm) -> (r: Result<PyTerm, PyError>)
    ensures
        match spec_bin_op(op, t0@, t1@) {
            Some(v) => r matches Ok(p) && p@ == v,
            None => r == Err::<PyTerm, PyError>(PyError::UnsupportedExpression),
        },
{
    let out = match op {
        AstBop::Add => crate::term::add(t0, t1),
        AstBop::Sub => crate::term::sub(t0, t1),
        AstBop::Mult => crate::term::mult(t0, t1),
        AstBop::Floordiv => crate::term::floor_div(t0, t1),
        AstBop::BitAnd => crate::term::bitand(t0, t1),
        AstBop::BitXor => crate::term::bitxor(t0, t1),
        AstBop::BitOr => crate::term::bitor(t0, t1),
        AstBop::And => crate::term::bitand(t0, t1),
        AstBop::Or => crate::term::bitor(t0, t1),
        AstBop::Lt => crate::term::lt(t0, t1),
        AstBop::Gt => crate::term::gt(t0, t1),
        AstBop::Eq => crate::term::eq(t0, t1),
        AstBop::Leq => crate::term::le(t0, t1),
        AstBop::Geq => crate::term::ge(t0, t1),
        AstBop::Neq => crate::term::ne(t0, t1),
        AstBop::Other => {
            return Err(PyError::UnsupportedExpression);
        },
    };
    match out {
        Ok(p) => Ok(p),
        Err(_) => Err(PyError::UnsupportedExpression),
    }
}

impl PyGen {
    /// Builds an engine over the given top-level statements: every one
    /// must be a function definition, entered into the table in order.
    pub fn new(sv_functions: bool, ast: Vec<AstStmt>) -> (r: Result<PyGen, PyError>)
        ensures
            match spec_build_table(stmt_views(ast@)) {
                Ok(tbl) => r matches Ok(g) && g@ == (GenV {
                    circ: spec_init_circ(),
                    functions: tbl,
                    assumptions: Seq::empty(),
                    assertions: Seq::empty(),
                    sv_functions: sv_functions,
                }),
                Err(e) => r == Err::<PyGen, PyError>(e),
            },
    {
        let ghost ast0 = stmt_views(ast@);
        proof {
            lemma_stmt_views(ast@);
            assert(ast0.take(0) =~= Seq::<StmtV>::empty());
        }
        let mut functions: Vec<(String, AstFuncdef)> = Vec::new();
        let mut rest = ast;
        let ghost mut consumed: int = 0;
        proof {
            assert(table_view(functions@) =~= Seq::<(Seq<char>, FuncdefV)>::empty());
        }
        while rest.len() > 0
            invariant
                ast0 == stmt_views(ast@),
                0 <= consumed,
                consumed + rest@.len() == ast0.len(),
                forall|j: int|
                    0 <= j < rest@.len() ==> stmt_view(#[trigger] rest@[j]) == ast0[consumed + j],
                spec_build_table(ast0.take(consumed)) == Ok::<
                    Seq<(Seq<char>, FuncdefV)>,
                    PyError,
                >(table_view(functions@)),
            decreases rest@.len(),
        {
            let ghost prev_rest = rest@;
            let stmt = rest.remove(0);
            proof {
                assert(stmt == prev_rest[0]);
                assert(rest@ =~= prev_rest.remove(0));
                assert(ast0.take(consumed + 1).drop_last() =~= ast0.take(consumed));
                assert(ast0.take(consumed + 1).last() == ast0[consumed]);
                assert(stmt_view(stmt) == ast0[consumed]);
            }
            match stmt {
                AstStmt::Compound(c) => match *c {
                    AstCompound::Funcdef(f) => {
                        let ghost prev_fns = functions@;
                        let ghost fv = funcdef_view(f);
                        let key = f.name.clone();
                        let ghost keyv = key@;
                        functions.push((key, f));
                        proof {
                            assert(functions@.drop_last() =~= prev_fns);
                            assert(table_view(functions@) =~= table_view(prev_fns).push(
                                (keyv, fv),
                            ));
                            assert(keyv == fv.name);
                        }
                    },
                    _ => {
                        proof {
                            assert(spec_build_table(ast0.take(consumed + 1)) == Err::<
                                Seq<(Seq<char>, FuncdefV)>,
                                PyError,
                            >(PyError::TopLevelNotAFunction));
                            lemma_table_err_prefix(ast0, consumed);
                        }
                        return Err(PyError::TopLevelNotAFunction);
                    },
                },
                _ => {
                    proof {
                        assert(spec_build_table(ast0.take(consumed + 1)) == Err::<
                            Seq<(Seq<char>, FuncdefV)>,
                            PyError,
                        >(PyError::TopLevelNotAFunction));
                        lemma_table_err_prefix(ast0, consumed);
                    }
                    return Err(PyError::TopLevelNotAFunction);
                },
            }
            proof {
                consumed = consumed + 1;
            }
        }
        proof {
            assert(ast0.take(consumed) =~= ast0);
        }
        Ok(
            PyGen {
                mode: Mode::Proof,
                circ: Circify::new(Pyt::new()),
                functions: functions,
                assumptions: Vec::new(),
                assertions: Vec::new(),
                sv_functions: sv_functions,
            },
        )
    }

    /// An integer literal term: the digits, wrapped to the fixed width.
    fn integer(digits: &Vec<u8>) -> (r: Result<PyTerm, PyError>)
        ensures
            is_dec_digits(digits@) ==> (r matches Ok(p) && p@ == PyTermV::Int(
                TermV::BvLit(wrap_decimal(digits@), PY_INT_SIZE),
            )),
            !is_dec_digits(digits@) ==> r == Err::<PyTerm, PyError>(PyError::TypeError),
    {
        match parse_int_literal(digits) {
            Ok(v) => Ok(PyTerm { term: PyTermData::Int(Term::BvLit(v, PY_INT_SIZE)) }),
            Err(e) => Err(e),
        }
    }

    /// A boolean literal term.
    fn boolean(b: bool) -> (r: PyTerm)
        ensures
            r@ == PyTermV::Bool(TermV::BoolLit(b)),
    {
        PyTerm { term: PyTermData::Bool(Term::BoolLit(b)) }
    }

    /// Lowers an expression to a typed term.
    #[verifier::rlimit(100)]
    pub fn gen_expr(&mut self, expr: &AstExpr) -> (r: Result<PyTerm, PyError>)
        ensures
            match spec_gen_expr(old(self)@, expr@) {
                Ok((g2, v)) => r matches Ok(p) && p@ == v && final(self)@ == g2,
                Err(er) => r == Err::<PyTerm, PyError>(er),
            },
        decreases *expr,
    {
        match expr {
            AstExpr::IntLit(d) => Self::integer(d),
            AstExpr::BoolLit(b) => Ok(Self::boolean(*b)),
            AstExpr::Name(n) => match self.circ.get_value(n.as_str()) {
                Ok(p) => Ok(p),
                Err(_) => Err(PyError::UndeclaredVariable),
            },
            AstExpr::Bop(op, a, b) => {
                let t0 = match self.gen_expr(&**a) {
                    Ok(t) => t,
                    Err(e) => {
                        return Err(e);
                    },
                };
                let t1 = match self.gen_expr(&**b) {
                    Ok(t) => t,
                    Err(e) => {
                        return Err(e);
                    },
                };
                apply_bin_op(*op, t0, t1)
            },
            AstExpr::Uop(op, a) => {
                let t = match self.gen_expr(&**a) {
                    Ok(t) => t,
                    Err(e) => {
                        return Err(e);
                    },
                };
                match op {
                    AstUop::Minus => match crate::term::minus(t) {
                        Ok(p) => Ok(p),
                        Err(_) => Err(PyError::UnsupportedExpression),
                    },
                    AstUop::Other => Err(PyError::UnsupportedExpression),
                }
            },
            AstExpr::Call(f, args) => {
                proof {
                    assert(decreases_to!(*expr => expr->Call_1));
                    assert(decreases_to!(expr->Call_1 => expr->Call_1@));
                }
                let vals = match self.gen_args(args) {
                    Ok(v) => v,
                    Err(e) => {
                        return Err(e);
                    },
                };
                match &**f {
                    AstExpr::Name(fname) => {
                        proof {
                            assert(expr_view(**f) == ExprV::Name(fname@));
                        }
                        match self.maybe_handle_builtins(fname, &vals) {
                            Ok(Some(p)) => Ok(p),
                            Ok(None) => Err(PyError::UnsupportedCall),
                            Err(e) => Err(e),
                        }
                    },
                    AstExpr::IntLit(_) => Err(PyError::UnsupportedExpression),
                    AstExpr::BoolLit(_) => Err(PyError::UnsupportedExpression),
                    AstExpr::Bop(_, _, _) => Err(PyError::UnsupportedExpression),
                    AstExpr::Uop(_, _) => Err(PyError::UnsupportedExpression),
                    AstExpr::Call(_, _) => Err(PyError::UnsupportedExpression),
                    AstExpr::Other => Err(PyError::UnsupportedExpression),
                }
            },
            AstExpr::Other => Err(PyError::UnsupportedExpression),
        }
    }

    /// Lowers a call's arguments, left to right.
    fn gen_args(&mut self, args: &Vec<AstArg>) -> (r: Result<Vec<PyTerm>, PyError>)
        ensures
            match spec_gen_args(old(self)@, arg_views(args@)) {
                Ok((g2, vs)) => r matches Ok(ps) && pyterm_views(ps@) == vs && final(self)@
                    == g2,
                Err(er) => r == Err::<Vec<PyTerm>, PyError>(er),
            },
        decreases args@,
    {
        let ghost g0 = self@;
        let ghost avs = arg_views(args@);
        proof {
            lemma_arg_views(args@);
            assert(avs.take(0) =~= Seq::<ArgV>::empty());
            assert(pyterm_views(Seq::<PyTerm>::empty()) =~= Seq::<PyTermV>::empty());
        }
        let mut vals: Vec<PyTerm> = Vec::new();
        let mut i: usize = 0;
        while i < args.len()
            invariant
                i <= args@.len(),
                g0 == old(self)@,
                avs == arg_views(args@),
                avs.len() == args@.len(),
                forall|j: int| 0 <= j < args@.len() ==> avs[j] == crate::ast::arg_view(
                    #[trigger] args@[j],
                ),
                spec_gen_args(g0, avs.take(i as int)) == Ok::<(GenV, Seq<PyTermV>), PyError>(
                    (self@, pyterm_views(vals@)),
                ),
            decreases args@.len() - i,
        {
            proof {
                assert(avs.take(i + 1 as int).drop_last() =~= avs.take(i as int));
                assert(avs.take(i + 1 as int).last() == avs[i as int]);
            }
            match &args[i] {
                AstArg::Positional(e) => {
                    proof {
                        assert(decreases_to!(args@ => args@[i as int]));
                    }
                    let ghost gprev = self@;
                    match self.gen_expr(e) {
                        Ok(p) => {
                            let ghost prev_vals = vals@;
                            vals.push(p);
                            proof {
                                assert(vals@.drop_last() =~= prev_vals);
                            }
                        },
                        Err(er) => {
                            proof {
                                lemma_args_err_prefix(g0, avs, i as int);
                            }
                            return Err(er);
                        },
                    }
                },
                AstArg::Other => {
                    proof {
                        lemma_args_err_prefix(g0, avs, i as int);
                    }
                    return Err(PyError::UnsupportedCall);
                },
            }
            i = i + 1;
        }
        proof {
            assert(avs.take(args@.len() as int) =~= avs);
        }
        Ok(vals)
    }

    /// Handles a call to a recognized built-in: the argument joins the
    /// assumption or assertion list and the call's value is the boolean
    /// default. `None` says the callee is no built-in.
    fn maybe_handle_builtins(&mut self, fname: &String, args: &Vec<PyTerm>) -> (r: Result<
        Option<PyTerm>,
        PyError,
    >)
        ensures
            match spec_handle_builtins(old(self)@, fname@, pyterm_views(args@)) {
                Ok(Some((g2, v))) => r matches Ok(Some(p)) && p@ == v && final(self)@ == g2,
                Ok(None) => r == Ok::<Option<PyTerm>, PyError>(None) && final(self)@ == old(
                    self,
                )@,
                Err(er) => r == Err::<Option<PyTerm>, PyError>(er),
            },
    {
        proof {
            lemma_pyterm_views(args@);
        }
        let is_assert = str_eq(fname.as_str(), "__VERIFIER_assert");
        let is_assume = str_eq(fname.as_str(), "__VERIFIER_assume");
        if self.sv_functions && (is_assert || is_assume) {
            if args.len() != 1 {
                return Err(PyError::UnsupportedCall);
            }
            let bool_arg = cast_to_bool(args[0].clone());
            let ghost bv = bool_arg@;
            if is_assert {
                let ghost prev = self.assertions@;
                self.assertions.push(bool_arg);
                proof {
                    assert(self.assertions@.drop_last() =~= prev);
                    assert(term_view_list(self.assertions@) =~= term_view_list(prev).push(bv));
                }
            } else {
                let ghost prev = self.assumptions@;
                self.assumptions.push(bool_arg);
                proof {
                    assert(self.assumptions@.drop_last() =~= prev);
                    assert(term_view_list(self.assumptions@) =~= term_view_list(prev).push(bv));
                }
            }
            Ok(Some(Ty::Bool.default(&self.circ.ctx)))
        } else {
            Ok(None)
        }
    }

    /// Lowers one statement.
    #[verifier::rlimit(60)]
    pub fn gen_stmt(&mut self, stmt: &AstStmt) -> (r: Result<(), PyError>)
        requires
            old(self)@.circ.scopes.len() >= 1,
        ensures
            match spec_gen_stmt(old(self)@, stmt@) {
                Ok(g2) => r is Ok && final(self)@ == g2,
                Err(er) => r == Err::<(), PyError>(er),
            },
        decreases *stmt, 0nat,
    {
        let ghost g0 = self@;
        match stmt {
            AstStmt::Return(es) => {
                proof {
                    lemma_expr_views(es@);
                }
                if es.len() != 1 {
                    return Err(PyError::UnsupportedStatement);
                }
                let v = match self.gen_expr(&es[0]) {
                    Ok(v) => v,
                    Err(e) => {
                        return Err(e);
                    },
                };
                match self.circ.return_(Some(v)) {
                    Ok(_) => Ok(()),
                    Err(e) => Err(map_circ_err(e)),
                }
            },
            AstStmt::Assignment(lhs, rhs) => {
                proof {
                    lemma_expr_views(lhs@);
                    lemma_expr_list_views(rhs@);
                }
                if lhs.len() != 1 {
                    return Err(PyError::UnsupportedStatement);
                }
                if rhs.len() > 0 {
                    proof {
                        lemma_expr_views(rhs@[0]@);
                    }
                    if rhs[0].len() != 1 {
                        return Err(PyError::UnsupportedStatement);
                    }
                    match &lhs[0] {
                        AstExpr::Name(n) => {
                            let v = match self.gen_expr(&rhs[0][0]) {
                                Ok(v) => v,
                                Err(e) => {
                                    return Err(e);
                                },
                            };
                            if !self.circ.already_declared(n.as_str()) {
                                return Err(PyError::UndeclaredAssignment);
                            }
                            match self.circ.assign(n.as_str(), v) {
                                Ok(_) => Ok(()),
                                Err(e) => Err(map_circ_err(e)),
                            }
                        },
                        _ => Err(PyError::UnsupportedStatement),
                    }
                } else {
                    match self.gen_expr(&lhs[0]) {
                        Ok(_) => Ok(()),
                        Err(e) => Err(e),
                    }
                }
            },
            AstStmt::TypedAssignment(lhs, ty, rhs) => {
                proof {
                    lemma_expr_views(lhs@);
                    lemma_expr_views(rhs@);
                }
                if lhs.len() != 1 || rhs.len() != 1 {
                    return Err(PyError::UnsupportedStatement);
                }
                match &lhs[0] {
                    AstExpr::Name(n) => match ty {
                        AstExpr::Name(ty_str) => {
                            let v = match self.gen_expr(&rhs[0]) {
                                Ok(v) => v,
                                Err(e) => {
                                    return Err(e);
                                },
                            };
                            proof {
                                lemma_expr_preserves_circ(g0, expr_view(rhs@[0]));
                            }
                            if self.circ.already_declared(n.as_str()) {
                                match self.circ.assign(n.as_str(), v) {
                                    Ok(_) => Ok(()),
                                    Err(e) => Err(map_circ_err(e)),
                                }
                            } else {
                                let t = match Ty::from_str(ty_str.as_str()) {
                                    Ok(t) => t,
                                    Err(e) => {
                                        return Err(e);
                                    },
                                };
                                let cv = cast(Some(t), v);
                                match self.circ.declare_init(n.clone(), t, cv) {
                                    Ok(_) => Ok(()),
                                    Err(e) => Err(map_circ_err(e)),
                                }
                            }
                        },
                        _ => Err(PyError::UnknownType),
                    },
                    _ => Err(PyError::UnsupportedStatement),
                }
            },
            AstStmt::Compound(c) => {
                proof {
                    assert(decreases_to!(*stmt => stmt->Compound_0));
                }
                self.gen_compound_stmt(&**c)
            },
            AstStmt::Other => Err(PyError::UnsupportedStatement),
        }
    }

    /// Lowers a block of statements, in order.
    pub fn gen_block(&mut self, stmts: &Vec<AstStmt>) -> (r: Result<(), PyError>)
        requires
            old(self)@.circ.scopes.len() >= 1,
        ensures
            match spec_gen_block(old(self)@, stmt_views(stmts@)) {
                Ok(g2) => r is Ok && final(self)@ == g2,
                Err(er) => r == Err::<(), PyError>(er),
            },
        decreases stmts@, 0nat,
    {
        let ghost g0 = self@;
        let ghost ssv = stmt_views(stmts@);
        proof {
            lemma_stmt_views(stmts@);
            assert(ssv.take(0) =~= Seq::<StmtV>::empty());
        }
        let mut i: usize = 0;
        while i < stmts.len()
            invariant
                i <= stmts@.len(),
                g0 == old(self)@,
                ssv == stmt_views(stmts@),
                ssv.len() == stmts@.len(),
                forall|j: int| 0 <= j < stmts@.len() ==> ssv[j] == stmt_view(
                    #[trigger] stmts@[j],
                ),
                spec_gen_block(g0, ssv.take(i as int)) == Ok::<GenV, PyError>(self@),
                g0.circ.scopes.len() >= 1,
                self@.circ.scopes.len() == g0.circ.scopes.len(),
            decreases stmts@.len() - i,
        {
            proof {
                assert(ssv.take(i + 1 as int).drop_last() =~= ssv.take(i as int));
                assert(ssv.take(i + 1 as int).last() == ssv[i as int]);
                assert(decreases_to!(stmts@ => stmts@[i as int]));
            }
            let ghost gprev = self@;
            match self.gen_stmt(&stmts[i]) {
                Ok(_) => {
                    proof {
                        lemma_stmt_preserves(gprev, ssv[i as int]);
                    }
                },
                Err(er) => {
                    proof {
                        lemma_block_err_prefix(g0, ssv, i as int);
                    }
                    return Err(er);
                },
            }
            i = i + 1;
        }
        proof {
            assert(ssv.take(stmts@.len() as int) =~= ssv);
        }
        Ok(())
    }

    /// Lowers a compound statement.
    #[verifier::rlimit(100)]
    pub fn gen_compound_stmt(&mut self, stmt: &AstCompound) -> (r: Result<(), PyError>)
        requires
            old(self)@.circ.scopes.len() >= 1,
        ensures
            match spec_gen_compound(old(self)@, stmt@) {
                Ok(g2) => r is Ok && final(self)@ == g2,
                Err(er) => r == Err::<(), PyError>(er),
            },
        decreases *stmt, 1nat,
    {
        let ghost g0 = self@;
        match stmt {
            AstCompound::If(arms, els) => {
                proof {
                    lemma_branch_views(arms@);
                }
                if arms.len() != 1 {
                    return Err(PyError::UnsupportedStatement);
                }
                let cond = match self.gen_expr(&arms[0].0) {
                    Ok(c) => c,
                    Err(e) => {
                        return Err(e);
                    },
                };
                proof {
                    lemma_expr_preserves_circ(g0, expr_view(arms@[0].0));
                }
                let ct = cast_to_bool(cond);
                let ct2 = ct.clone();
                self.circ.enter_condition(ct);
                let ghost g2 = self@;
                proof {
                    assert(decreases_to!(*stmt => stmt->If_0));
                    assert(decreases_to!(stmt->If_0@ => stmt->If_0@[0]));
                    assert(decreases_to!(stmt->If_0@[0] => stmt->If_0@[0].1));
                }
                match self.gen_block(&arms[0].1) {
                    Err(e) => {
                        return Err(e);
                    },
                    Ok(_) => {},
                }
                proof {
                    lemma_block_preserves(g2, stmt_views(arms@[0].1@));
                }
                self.circ.exit_condition();
                match els {
                    None => Ok(()),
                    Some(eb) => {
                        let nt = Term::Not(Box::new(ct2));
                        self.circ.enter_condition(nt);
                        let ghost g5 = self@;
                        proof {
                            assert(decreases_to!(*stmt => stmt->If_1));
                        }
                        match self.gen_block(eb) {
                            Err(e) => {
                                return Err(e);
                            },
                            Ok(_) => {},
                        }
                        proof {
                            lemma_block_preserves(g5, stmt_views(eb@));
                        }
                        self.circ.exit_condition();
                        Ok(())
                    },
                }
            },
            AstCompound::For { is_async, item: _, iterator, for_block, else_block } => {
                if *is_async {
                    return Err(PyError::UnsupportedStatement);
                }
                if els_check(else_block) {
                    return Err(PyError::UnsupportedStatement);
                }
                proof {
                    lemma_expr_views(iterator@);
                }
                if iterator.len() != 1 {
                    return Err(PyError::UnsupportedStatement);
                }
                match &iterator[0] {
                    AstExpr::Call(f, args) => {
                        proof {
                            assert(expr_views(iterator@)[0] == expr_view(iterator@[0]));
                            assert(expr_view(iterator@[0]) == ExprV::Call(
                                Box::new(expr_view(**f)),
                                arg_views(args@),
                            ));
                        }
                        let is_range = is_range_callee(&**f);
                        if !is_range {
                            return Err(PyError::UnsupportedStatement);
                        }
                        let bounds = match range(args) {
                            Ok(p) => p,
                            Err(er) => {
                                return Err(er);
                            },
                        };
                        let s = bounds.0;
                        let e = bounds.1;
                        let total: u64 = if e > s {
                            (e as i64 - s as i64) as u64
                        } else {
                            0
                        };
                        proof {
                            match stmt {
                                AstCompound::For { for_block: fb, .. } => {
                                    assert(decreases_to!(*stmt => *fb));
                                    assert(decreases_to!(*fb => fb@));
                                },
                                _ => {},
                            }
                        }
                        self.unroll(for_block, total)
                    },
                    _ => Err(PyError::UnsupportedStatement),
                }
            },
            AstCompound::Funcdef(_) => Err(PyError::UnsupportedStatement),
            AstCompound::Other => Err(PyError::UnsupportedStatement),
        }
    }

    /// Lowers a loop body `total` times, each pass in a fresh scope.
    fn unroll(&mut self, block: &Vec<AstStmt>, total: u64) -> (r: Result<(), PyError>)
        requires
            old(self)@.circ.scopes.len() >= 1,
        ensures
            match spec_unroll(old(self)@, stmt_views(block@), total as nat) {
                Ok(g2) => r is Ok && final(self)@ == g2,
                Err(er) => r == Err::<(), PyError>(er),
            },
        decreases block@, total as nat + 2nat,
    {
        let ghost blockv = stmt_views(block@);
        let ghost granchor = self@;
        let mut it: u64 = 0;
        while it < total
            invariant
                it <= total,
                granchor == old(self)@,
                blockv == stmt_views(block@),
                granchor.circ.scopes.len() >= 1,
                self@.circ.scopes.len() == granchor.circ.scopes.len(),
                spec_unroll(granchor, blockv, total as nat) == spec_unroll(
                    self@,
                    blockv,
                    (total - it) as nat,
                ),
            decreases total - it,
        {
            let ghost gi = self@;
            self.circ.enter_scope();
            let ghost g1 = self@;
            match self.gen_block(block) {
                Ok(_) => {},
                Err(er) => {
                    proof {
                        assert(spec_unroll(gi, blockv, (total - it) as nat) == Err::<
                            GenV,
                            PyError,
                        >(er));
                    }
                    return Err(er);
                },
            }
            proof {
                lemma_block_preserves(g1, blockv);
            }
            self.circ.exit_scope();
            it = it + 1;
        }
        Ok(())
    }
}

impl PyGen {
    /// Removes the latest definition of the name from the table.
    fn take_function(&mut self, name: &str) -> (r: Option<AstFuncdef>)
        ensures
            final(self)@ == (GenV {
                functions: spec_take(old(self)@.functions, name@).0,
                ..old(self)@
            }),
            match spec_take(old(self)@.functions, name@).1 {
                Some(fv) => r matches Some(f) && f@ == fv,
                None => r is None,
            },
    {
        let ghost tbl = self@.functions;
        proof {
            lemma_table_view(self.functions@);
        }
        let mut i: usize = self.functions.len();
        while i > 0
            invariant
                i <= self.functions@.len(),
                self@ == old(self)@,
                tbl == table_view(self.functions@),
                tbl.len() == self.functions@.len(),
                forall|j: int| 0 <= j < tbl.len() ==> tbl[j] == (
                    (#[trigger] self.functions@[j]).0@,
                    funcdef_view(self.functions@[j].1),
                ),
                forall|j: int| i <= j < tbl.len() ==> (#[trigger] tbl[j]).0 != name@,
            decreases i,
        {
            i = i - 1;
            if str_eq(self.functions[i].0.as_str(), name) {
                let ghost prev_fns = self.functions@;
                let f = self.functions.remove(i);
                proof {
                    lemma_table_take_at(tbl, name@, i as int);
                    lemma_table_view(self.functions@);
                    assert(self.functions@ =~= prev_fns.remove(i as int));
                    assert(table_view(self.functions@) =~= tbl.remove(i as int));
                }
                return Some(f.1);
            }
        }
        proof {
            lemma_table_take_none(tbl, name@);
        }
        None
    }

    /// Compiles the named entry function: its frame is opened with
    /// return type `Int`, its parameters become symbolic inputs, its
    /// body is lowered, and the bug predicate is synthesized.
    pub fn entry_fn(&mut self, name: &str) -> (r: Result<(), PyError>)
        ensures
            match spec_entry_fn(old(self)@, name@) {
                Ok(g2) => r is Ok && final(self)@ == g2,
                Err(er) => r == Err::<(), PyError>(er),
            },
    {
        let ghost g0 = self@;
        let func = match self.take_function(name) {
            Some(f) => f,
            None => {
                return Err(PyError::NoMainFunction);
            },
        };
        proof {
            assert(func@.params == param_views(func.params@));
            assert(func@.code == stmt_views(func.code@));
        }
        self.circ.enter_fn(name.to_owned(), Some(Ty::Int));
        let ghost g1v = self@;
        let ghost psv = param_views(func.params@);
        proof {
            lemma_param_views(func.params@);
            assert(psv.take(0) =~= Seq::<(Seq<char>, Option<ExprV>)>::empty());
        }
        let mut pi: usize = 0;
        while pi < func.params.len()
            invariant
                pi <= func.params@.len(),
                g0 == old(self)@,
                spec_take(g0.functions, name@).1 == Some(func@),
                psv == func@.params,
                g1v == (GenV {
                    functions: spec_take(g0.functions, name@).0,
                    circ: spec_enter_fn(g0.circ, name@, Some(Ty::Int)),
                    ..g0
                }),
                psv == param_views(func.params@),
                psv.len() == func.params@.len(),
                forall|j: int| 0 <= j < psv.len() ==> psv[j] == (
                    (#[trigger] func.params@[j]).0@,
                    match func.params@[j].1 {
                        Some(e) => Some(expr_view(e)),
                        None => None,
                    },
                ),
                g1v.circ.scopes.len() >= 1,
                self@.circ.scopes.len() == g1v.circ.scopes.len(),
                self@.circ.frame == g1v.circ.frame,
                spec_declare_params(g1v, psv.take(pi as int)) == Ok::<GenV, PyError>(self@),
            decreases func.params@.len() - pi,
        {
            proof {
                assert(psv.take(pi + 1 as int).drop_last() =~= psv.take(pi as int));
                assert(psv.take(pi + 1 as int).last() == psv[pi as int]);
            }
            match &func.params[pi].1 {
                None => {
                    proof {
                        lemma_params_err_prefix(g1v, psv, pi as int);
                    }
                    return Err(PyError::MissingTypeAnnotation);
                },
                Some(ann) => match ann {
                    AstExpr::Name(ty_str) => {
                        proof {
                            assert(expr_view(*ann) == ExprV::Name(ty_str@));
                        }
                        let ty = match Ty::from_str(ty_str.as_str()) {
                            Ok(t) => t,
                            Err(e) => {
                                proof {
                                    lemma_params_err_prefix(g1v, psv, pi as int);
                                }
                                return Err(e);
                            },
                        };
                        let pname = func.params[pi].0.clone();
                        match self.circ.declare_input(pname, &ty) {
                            Ok(_) => {},
                            Err(ce) => {
                                proof {
                                    lemma_params_err_prefix(g1v, psv, pi as int);
                                }
                                return Err(map_circ_err(ce));
                            },
                        }
                    },
                    AstExpr::IntLit(_) => {
                        proof {
                            lemma_params_err_prefix(g1v, psv, pi as int);
                        }
                        return Err(PyError::UnknownType);
                    },
                    AstExpr::BoolLit(_) => {
                        proof {
                            lemma_params_err_prefix(g1v, psv, pi as int);
                        }
                        return Err(PyError::UnknownType);
                    },
                    AstExpr::Bop(_, _, _) => {
                        proof {
                            lemma_params_err_prefix(g1v, psv, pi as int);
                        }
                        return Err(PyError::UnknownType);
                    },
                    AstExpr::Uop(_, _) => {
                        proof {
                            lemma_params_err_prefix(g1v, psv, pi as int);
                        }
                        return Err(PyError::UnknownType);
                    },
                    AstExpr::Call(_, _) => {
                        proof {
                            lemma_params_err_prefix(g1v, psv, pi as int);
                        }
                        return Err(PyError::UnknownType);
                    },
                    AstExpr::Other => {
                        proof {
                            lemma_params_err_prefix(g1v, psv, pi as int);
                        }
                        return Err(PyError::UnknownType);
                    },
                },
            }
            pi = pi + 1;
        }
        proof {
            assert(psv.take(func.params@.len() as int) =~= psv);
        }
        let ghost g2v = self@;
        match self.gen_block(&func.code) {
            Ok(_) => {},
            Err(e) => {
                return Err(e);
            },
        }
        proof {
            lemma_block_preserves(g2v, stmt_views(func.code@));
        }
        let ret = self.circ.exit_fn();
        match ret {
            Some(_) => {
                match self.mode {
                    Mode::Proof => self.synthesize(),
                }
                Ok(())
            },
            None => Ok(()),
        }
    }

    /// Emits the bug predicate: `true` joins both lists, and the output
    /// `AND(assumptions) ∧ OR(¬assertion, ...)` is pushed on the circuit.
    fn synthesize(&mut self)
        ensures
            final(self)@ == spec_synthesize(old(self)@),
    {
        let ghost g0 = self@;
        let ghost prev_asms = self.assumptions@;
        self.assumptions.push(Term::BoolLit(true));
        proof {
            assert(self.assumptions@.drop_last() =~= prev_asms);
            assert(crate::ir::term_view(Term::BoolLit(true)) == TermV::BoolLit(true));
            assert(term_view_list(self.assumptions@) =~= term_view_list(prev_asms).push(
                TermV::BoolLit(true),
            ));
        }
        let ghost prev_asts = self.assertions@;
        self.assertions.push(Term::BoolLit(true));
        proof {
            assert(self.assertions@.drop_last() =~= prev_asts);
            assert(term_view_list(self.assertions@) =~= term_view_list(prev_asts).push(
                TermV::BoolLit(true),
            ));
        }
        let ghost gpre = self@;
        let ghost asms = term_view_list(self.assumptions@);
        let ghost asts = term_view_list(self.assertions@);
        proof {
            lemma_term_view_list(self.assumptions@);
            lemma_term_view_list(self.assertions@);
        }
        let a_list = crate::ir::clone_term_list(&self.assumptions);
        let assumptions_hold = Term::NaryAnd(a_list);
        let mut negs: Vec<Term> = Vec::new();
        let mut i: usize = 0;
        while i < self.assertions.len()
            invariant
                i <= self.assertions@.len(),
                self@ == gpre,
                asms == term_view_list(self.assumptions@),
                asts == term_view_list(self.assertions@),
                asts.len() == self.assertions@.len(),
                forall|j: int| 0 <= j < asts.len() ==> asts[j] == crate::ir::term_view(
                    #[trigger] self.assertions@[j],
                ),
                negs@.len() == i,
                forall|j: int| 0 <= j < i ==> crate::ir::term_view(#[trigger] negs@[j])
                    == TermV::Not(Box::new(asts[j])),
            decreases self.assertions@.len() - i,
        {
            proof {
                lemma_term_view_list(self.assertions@);
            }
            let nt = Term::Not(Box::new(self.assertions[i].clone()));
            negs.push(nt);
            i = i + 1;
        }
        let an_assertion_doesnt = Term::NaryOr(negs);
        proof {
            lemma_term_view_list(an_assertion_doesnt->NaryOr_0@);
            assert(term_view_list(an_assertion_doesnt->NaryOr_0@) =~= negate_all(asts));
        }
        let ghost av = assumptions_hold@;
        let ghost vv = an_assertion_doesnt@;
        let mut bug_args: Vec<Term> = Vec::new();
        bug_args.push(assumptions_hold);
        bug_args.push(an_assertion_doesnt);
        let bug_if = Term::NaryAnd(bug_args);
        proof {
            lemma_term_view_list(bug_if->NaryAnd_0@);
            assert(term_view_list(bug_if->NaryAnd_0@) =~= seq![av, vv]);
        }
        self.circ.ctx.push_output(bug_if);
    }
}

/// The computations a compilation emits, by name.
#[derive(Debug, PartialEq, Eq)]
pub struct Computations {
    /// The named computations; this front-end emits exactly one,
    /// named `main`.
    pub comps: Vec<(String, CirCtx)>,
}

/// The models of the computation list.
pub open spec fn comps_view(cs: Seq<(String, CirCtx)>) -> Seq<(Seq<char>, CirCtxV)>
    decreases cs,
{
    if cs.len() == 0 {
        Seq::empty()
    } else {
        comps_view(cs.drop_last()).push((cs.last().0@, cs.last().1@))
    }
}

impl View for Computations {
    type V = ComputationsV;

    open spec fn view(&self) -> ComputationsV {
        comps_view(self.comps@)
    }
}

/// The front-end: lowers a parsed source file into the computation
/// whose single output is the bug predicate.
pub struct Python;

impl Python {
    /// Compiles the top-level statements: builds the function table,
    /// compiles `main`, and hands back the named computation.
    pub fn gen(ast: Vec<AstStmt>, sv_functions: bool) -> (r: Result<Computations, PyError>)
        ensures
            match spec_compile(stmt_views(ast@), sv_functions) {
                Ok(cv) => r matches Ok(c) && c@ == cv,
                Err(e) => r == Err::<Computations, PyError>(e),
            },
    {
        let ghost astv = stmt_views(ast@);
        let mut pygen = match PyGen::new(sv_functions, ast) {
            Ok(g) => g,
            Err(e) => {
                return Err(e);
            },
        };
        match pygen.entry_fn("main") {
            Ok(_) => {},
            Err(e) => {
                return Err(e);
            },
        }
        let ghost g1 = pygen@;
        let circ = pygen.circ;
        let main_comp = circ.consume();
        let ghost cv = main_comp@;
        let mut comps: Vec<(String, CirCtx)> = Vec::new();
        let key = "main".to_owned();
        proof {
            assert(comps_view(comps@) =~= Seq::<(Seq<char>, CirCtxV)>::empty());
        }
        let ghost keyv = key@;
        comps.push((key, main_comp));
        proof {
            assert(comps@.drop_last() =~= Seq::<(String, CirCtx)>::empty());
            assert(comps@.last() == comps@[0]);
            assert(comps_view(comps@) =~= seq![(keyv, cv)]);
        }
        Ok(Computations { comps: comps })
    }
}

/// Whether a callee expression is exactly the name `range`.
fn is_range_callee(f: &AstExpr) -> (r: bool)
    ensures
        r == (expr_view(*f) == ExprV::Name("range"@)),
{
    match f {
        AstExpr::Name(fname) => str_eq(fname.as_str(), "range"),
        AstExpr::IntLit(_) => false,
        AstExpr::BoolLit(_) => false,
        AstExpr::Bop(_, _, _) => false,
        AstExpr::Uop(_, _) => false,
        AstExpr::Call(_, _) => false,
        AstExpr::Other => false,
    }
}

/// Whether a `for` statement carries an `else` block.
fn els_check(els: &Option<Vec<AstStmt>>) -> (r: bool)
    ensures
        r == (crate::ast::opt_block_view(*els) is Some),
{
    match els {
        Some(_) => true,
        None => false,
    }
}

} // verus!
