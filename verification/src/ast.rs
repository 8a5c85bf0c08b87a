//! The surface-language syntax the lowering engine consumes.
//!
//! The shapes mirror the grammar of the indentation-sensitive surface
//! language: statements, compound statements, expressions, call
//! arguments and function definitions. Forms the engine does not
//! support are represented by the `Other` variants, so that the engine
//! itself decides — and reports — what lies outside the subset.
//! Integer literals carry their decimal digits as bytes.
use vstd::prelude::*;

verus! {

/// A binary operator of the surface language.
#[derive(Clone, Copy, Debug, PartialEq, Eq, Structural)]
pub enum AstBop {
    Add,
    Sub,
    Mult,
    Floordiv,
    BitAnd,
    BitXor,
    BitOr,
    And,
    Or,
    Lt,
    Gt,
    Eq,
    Leq,
    Geq,
    Neq,
    Other,
}

/// A unary operator of the surface language.
#[derive(Clone, Copy, Debug, PartialEq, Eq, Structural)]
pub enum AstUop {
    Minus,
    Other,
}

/// An expression.
#[derive(Debug, PartialEq, Eq)]
pub enum AstExpr {
    /// An integer literal: its decimal digits.
    IntLit(Vec<u8>),
    /// `True` or `False`.
    BoolLit(bool),
    /// A variable read (or a bare callee name).
    Name(String),
    /// A binary operation.
    Bop(AstBop, Box<AstExpr>, Box<AstExpr>),
    /// A unary operation.
    Uop(AstUop, Box<AstExpr>),
    /// A call.
    Call(Box<AstExpr>, Vec<AstArg>),
    /// Any expression form outside the supported subset.
    Other,
}

/// A call argument.
#[derive(Debug, PartialEq, Eq)]
pub enum AstArg {
    Positional(AstExpr),
    /// Starred, keyword or double-starred arguments.
    Other,
}

/// A statement.
#[derive(Debug, PartialEq, Eq)]
pub enum AstStmt {
    /// `return e1, ...`.
    Return(Vec<AstExpr>),
    /// `lhs = rhs1 = rhs2 ...`; an empty right side is a bare
    /// expression statement.
    Assignment(Vec<AstExpr>, Vec<Vec<AstExpr>>),
    /// `lhs: ty = rhs`.
    TypedAssignment(Vec<AstExpr>, AstExpr, Vec<AstExpr>),
    /// A compound statement.
    Compound(Box<AstCompound>),
    /// Any statement form outside the supported subset.
    Other,
}

/// A compound statement.
#[derive(Debug, PartialEq, Eq)]
pub enum AstCompound {
    /// `if c: block [else: block]`; each pair is one `if`/`elif` arm.
    If(Vec<(AstExpr, Vec<AstStmt>)>, Option<Vec<AstStmt>>),
    /// `for item in iterator: block [else: block]`.
    For {
        is_async: bool,
        item: Vec<AstExpr>,
        iterator: Vec<AstExpr>,
        for_block: Vec<AstStmt>,
        else_block: Option<Vec<AstStmt>>,
    },
    /// A function definition.
    Funcdef(AstFuncdef),
    /// Any compound form outside the supported subset.
    Other,
}

/// A function definition: name, positional parameters with their
/// optional annotations, and body.
#[derive(Debug, PartialEq, Eq)]
pub struct AstFuncdef {
    pub name: String,
    pub params: Vec<(String, Option<AstExpr>)>,
    pub code: Vec<AstStmt>,
}

/// The model of an expression.
pub enum ExprV {
    IntLit(Seq<u8>),
    BoolLit(bool),
    Name(Seq<char>),
    Bop(AstBop, Box<ExprV>, Box<ExprV>),
    Uop(AstUop, Box<ExprV>),
    Call(Box<ExprV>, Seq<ArgV>),
    Other,
}

/// The model of a call argument.
pub enum ArgV {
    Positional(ExprV),
    Other,
}

/// The model of a statement.
pub enum StmtV {
    Return(Seq<ExprV>),
    Assignment(Seq<ExprV>, Seq<Seq<ExprV>>),
    TypedAssignment(Seq<ExprV>, ExprV, Seq<ExprV>),
    Compound(Box<CompoundV>),
    Other,
}

/// The model of a compound statement.
pub enum CompoundV {
    If(Seq<(ExprV, Seq<StmtV>)>, Option<Seq<StmtV>>),
    For {
        is_async: bool,
        item: Seq<ExprV>,
        iterator: Seq<ExprV>,
        for_block: Seq<StmtV>,
        else_block: Option<Seq<StmtV>>,
    },
    Funcdef(FuncdefV),
    Other,
}

/// The model of a function definition.
pub struct FuncdefV {
    pub name: Seq<char>,
    pub params: Seq<(Seq<char>, Option<ExprV>)>,
    pub code: Seq<StmtV>,
}

/// The model of an expression tree.
pub open spec fn expr_view(e: AstExpr) -> ExprV
    decreases e,
{
    match e {
        AstExpr::IntLit(d) => ExprV::IntLit(d@),
        AstExpr::BoolLit(b) => ExprV::BoolLit(b),
        AstExpr::Name(n) => ExprV::Name(n@),
        AstExpr::Bop(op, a, b) => ExprV::Bop(op, Box::new(expr_view(*a)), Box::new(expr_view(*b))),
        AstExpr::Uop(op, a) => ExprV::Uop(op, Box::new(expr_view(*a))),
        AstExpr::Call(f, args) => ExprV::Call(Box::new(expr_view(*f)), arg_views(args@)),
        AstExpr::Other => ExprV::Other,
    }
}

/// The models of an expression list.
pub open spec fn expr_views(es: Seq<AstExpr>) -> Seq<ExprV>
    decreases es,
{
    if es.len() == 0 {
        Seq::empty()
    } else {
        expr_views(es.drop_last()).push(expr_view(es.last()))
    }
}

/// The models of a list of expression lists.
pub open spec fn expr_list_views(ess: Seq<Vec<AstExpr>>) -> Seq<Seq<ExprV>>
    decreases ess,
{
    if ess.len() == 0 {
        Seq::empty()
    } else {
        expr_list_views(ess.drop_last()).push(expr_views(ess.last()@))
    }
}

/// The models of an argument list.
pub open spec fn arg_views(args: Seq<AstArg>) -> Seq<ArgV>
    decreases args,
{
    if args.len() == 0 {
        Seq::empty()
    } else {
        arg_views(args.drop_last()).push(arg_view(args.last()))
    }
}

/// The model of one argument.
pub open spec fn arg_view(a: AstArg) -> ArgV
    decreases a,
{
    match a {
        AstArg::Positional(e) => ArgV::Positional(expr_view(e)),
        AstArg::Other => ArgV::Other,
    }
}

/// The model of a statement tree.
pub open spec fn stmt_view(s: AstStmt) -> StmtV
    decreases s,
{
    match s {
        AstStmt::Return(es) => StmtV::Return(expr_views(es@)),
        AstStmt::Assignment(lhs, rhs) => StmtV::Assignment(
            expr_views(lhs@),
            expr_list_views(rhs@),
        ),
        AstStmt::TypedAssignment(lhs, ty, rhs) => StmtV::TypedAssignment(
            expr_views(lhs@),
            expr_view(ty),
            expr_views(rhs@),
        ),
        AstStmt::Compound(c) => StmtV::Compound(Box::new(compound_view(*c))),
        AstStmt::Other => StmtV::Other,
    }
}

/// The models of a statement list.
pub open spec fn stmt_views(ss: Seq<AstStmt>) -> Seq<StmtV>
    decreases ss,
{
    if ss.len() == 0 {
        Seq::empty()
    } else {
        stmt_views(ss.drop_last()).push(stmt_view(ss.last()))
    }
}

/// The model of a compound statement.
pub open spec fn compound_view(c: AstCompound) -> CompoundV
    decreases c,
{
    match c {
        AstCompound::If(arms, els) => CompoundV::If(branch_views(arms@), opt_block_view(els)),
        AstCompound::For { is_async, item, iterator, for_block, else_block } => CompoundV::For {
            is_async: is_async,
            item: expr_views(item@),
            iterator: expr_views(iterator@),
            for_block: stmt_views(for_block@),
            else_block: opt_block_view(else_block),
        },
        AstCompound::Funcdef(f) => CompoundV::Funcdef(funcdef_view(f)),
        AstCompound::Other => CompoundV::Other,
    }
}

/// The model of an optional block.
pub open spec fn opt_block_view(b: Option<Vec<AstStmt>>) -> Option<Seq<StmtV>>
    decreases b,
{
    match b {
        Some(ss) => Some(stmt_views(ss@)),
        None => None,
    }
}

/// The models of the `if` arms.
pub open spec fn branch_views(arms: Seq<(AstExpr, Vec<AstStmt>)>) -> Seq<(ExprV, Seq<StmtV>)>
    decreases arms,
{
    if arms.len() == 0 {
        Seq::empty()
    } else {
        branch_views(arms.drop_last()).push(
            (expr_view(arms.last().0), stmt_views(arms.last().1@)),
        )
    }
}

/// The model of a function definition.
pub open spec fn funcdef_view(f: AstFuncdef) -> FuncdefV
    decreases f,
{
    FuncdefV { name: f.name@, params: param_views(f.params@), code: stmt_views(f.code@) }
}

/// The models of the parameter list.
pub open spec fn param_views(ps: Seq<(String, Option<AstExpr>)>) -> Seq<(Seq<char>, Option<ExprV>)>
    decreases ps,
{
    if ps.len() == 0 {
        Seq::empty()
    } else {
        param_views(ps.drop_last()).push(
            (
                ps.last().0@,
                match ps.last().1 {
                    Some(e) => Some(expr_view(e)),
                    None => None,
                },
            ),
        )
    }
}

impl View for AstExpr {
    type V = ExprV;

    open spec fn view(&self) -> ExprV {
        expr_view(*self)
    }
}

impl View for AstArg {
    type V = ArgV;

    open spec fn view(&self) -> ArgV {
        arg_view(*self)
    }
}

impl View for AstStmt {
    type V = StmtV;

    open spec fn view(&self) -> StmtV {
        stmt_view(*self)
    }
}

impl View for AstCompound {
    type V = CompoundV;

    open spec fn view(&self) -> CompoundV {
        compound_view(*self)
    }
}

impl View for AstFuncdef {
    type V = FuncdefV;

    open spec fn view(&self) -> FuncdefV {
        funcdef_view(*self)
    }
}

/// `expr_views` maps the view over the list.
pub broadcast proof fn lemma_expr_views(es: Seq<AstExpr>)
    ensures
        (#[trigger] expr_views(es)).len() == es.len(),
        forall|i: int| 0 <= i < es.len() ==> expr_views(es)[i] == expr_view(es[i]),
    decreases es,
{
    if es.len() > 0 {
        lemma_expr_views(es.drop_last());
    }
}

/// `expr_list_views` maps the view over the list.
pub broadcast proof fn lemma_expr_list_views(ess: Seq<Vec<AstExpr>>)
    ensures
        (#[trigger] expr_list_views(ess)).len() == ess.len(),
        forall|i: int| 0 <= i < ess.len() ==> expr_list_views(ess)[i] == expr_views(ess[i]@),
    decreases ess,
{
    if ess.len() > 0 {
        lemma_expr_list_views(ess.drop_last());
    }
}

/// `arg_views` maps the view over the list.
pub broadcast proof fn lemma_arg_views(args: Seq<AstArg>)
    ensures
        (#[trigger] arg_views(args)).len() == args.len(),
        forall|i: int| 0 <= i < args.len() ==> arg_views(args)[i] == arg_view(args[i]),
    decreases args,
{
    if args.len() > 0 {
        lemma_arg_views(args.drop_last());
    }
}

/// `stmt_views` maps the view over the list.
pub broadcast proof fn lemma_stmt_views(ss: Seq<AstStmt>)
    ensures
        (#[trigger] stmt_views(ss)).len() == ss.len(),
        forall|i: int| 0 <= i < ss.len() ==> stmt_views(ss)[i] == stmt_view(ss[i]),
    decreases ss,
{
    if ss.len() > 0 {
        lemma_stmt_views(ss.drop_last());
    }
}

/// `branch_views` maps the view over the arms.
pub broadcast proof fn lemma_branch_views(arms: Seq<(AstExpr, Vec<AstStmt>)>)
    ensures
        (#[trigger] branch_views(arms)).len() == arms.len(),
        forall|i: int| 0 <= i < arms.len() ==> branch_views(arms)[i] == (
            expr_view(arms[i].0),
            stmt_views(arms[i].1@),
        ),
    decreases arms,
{
    if arms.len() > 0 {
        lemma_branch_views(arms.drop_last());
    }
}

/// `param_views` maps the view over the parameters.
pub broadcast proof fn lemma_param_views(ps: Seq<(String, Option<AstExpr>)>)
    ensures
        (#[trigger] param_views(ps)).len() == ps.len(),
        forall|i: int| 0 <= i < ps.len() ==> param_views(ps)[i] == (
            ps[i].0@,
            match ps[i].1 {
                Some(e) => Some(expr_view(e)),
                None => None,
            },
        ),
    decreases ps,
{
    if ps.len() > 0 {
        lemma_param_views(ps.drop_last());
    }
}

} // verus!
