//! Typed values of the surface language: a tag (`Bool` or `Int`) paired
//! with an IR term whose sort agrees with the tag, the cast table between
//! the two types, and the surface operators over such values.
use vstd::prelude::*;
use crate::ir::Term;
use crate::ir::TermV;
use crate::ir::Sort;
use crate::ir::BvNaryOp;
use crate::ir::BvBinOp;
use crate::ir::BvBinPred;
use crate::ir::sort_of;
use crate::circify::CirCtx;
use crate::circify::CircError;
use crate::ty::Ty;
use crate::ty::PY_INT_SIZE;
use crate::ty::spec_default;

verus! {

/// A tagged IR term: the tag is the authoritative surface type.
#[derive(Debug, PartialEq, Eq)]
pub enum PyTermData {
    Bool(Term),
    Int(Term),
}

/// The model of a tagged term.
pub enum PyTermV {
    Bool(TermV),
    Int(TermV),
}

impl View for PyTermData {
    type V = PyTermV;

    open spec fn view(&self) -> PyTermV {
        match self {
            PyTermData::Bool(t) => PyTermV::Bool(t@),
            PyTermData::Int(t) => PyTermV::Int(t@),
        }
    }
}

/// The tag of a tagged term.
pub open spec fn spec_type_of(v: PyTermV) -> Ty {
    match v {
        PyTermV::Bool(_) => Ty::Bool,
        PyTermV::Int(_) => Ty::Int,
    }
}

/// The IR term under the tag.
pub open spec fn spec_inner(v: PyTermV) -> TermV {
    match v {
        PyTermV::Bool(t) => t,
        PyTermV::Int(t) => t,
    }
}

/// A tagged term is well formed when its term's sort agrees with its tag.
pub open spec fn pyterm_wf(v: PyTermV) -> bool {
    sort_of(spec_inner(v)) == Some(crate::ty::spec_sort(spec_type_of(v)))
}

impl PyTermData {
    /// The tag.
    pub fn type_(&self) -> (t: Ty)
        ensures
            t == spec_type_of(self@),
    {
        match self {
            PyTermData::Bool(_) => Ty::Bool,
            PyTermData::Int(_) => Ty::Int,
        }
    }

    /// The IR term under the tag, without re-inspecting the tag.
    pub fn simple_term(&self) -> (r: Term)
        ensures
            r@ == spec_inner(self@),
    {
        match self {
            PyTermData::Bool(b) => b.clone(),
            PyTermData::Int(b) => b.clone(),
        }
    }
}

impl Clone for PyTermData {
    /// A clone has the same model.
    fn clone(&self) -> (res: Self)
        ensures
            res@ == self@,
    {
        match self {
            PyTermData::Bool(t) => PyTermData::Bool(t.clone()),
            PyTermData::Int(t) => PyTermData::Int(t.clone()),
        }
    }
}

/// A typed surface value.
#[derive(Debug, PartialEq, Eq)]
pub struct PyTerm {
    pub term: PyTermData,
}

impl View for PyTerm {
    type V = PyTermV;

    open spec fn view(&self) -> PyTermV {
        self.term@
    }
}

impl Clone for PyTerm {
    /// A clone has the same model.
    fn clone(&self) -> (res: Self)
        ensures
            res@ == self@,
    {
        PyTerm { term: self.term.clone() }
    }
}

impl PyTerm {
    /// The tag.
    pub fn type_(&self) -> (t: Ty)
        ensures
            t == spec_type_of(self@),
    {
        self.term.type_()
    }
}

/// The cast table. Casting to a value's own type is the identity; a
/// boolean becomes the zero-extension of its one-bit encoding; an integer
/// becomes the test `¬(0 == v)`.
pub open spec fn spec_cast(to_ty: Ty, v: PyTermV) -> PyTermV {
    match v {
        PyTermV::Bool(t) => match to_ty {
            Ty::Bool => v,
            Ty::Int => PyTermV::Int(
                TermV::ZeroExt((PY_INT_SIZE - 1) as u32, Box::new(TermV::BoolToBv(Box::new(t)))),
            ),
        },
        PyTermV::Int(t) => match to_ty {
            Ty::Bool => PyTermV::Bool(
                TermV::Not(
                    Box::new(TermV::Equal(Box::new(TermV::BvLit(0, PY_INT_SIZE)), Box::new(t))),
                ),
            ),
            Ty::Int => v,
        },
    }
}

/// Casts a value to the requested type, per the cast table.
pub fn cast(to_ty: Option<Ty>, t: PyTerm) -> (r: PyTerm)
    requires
        to_ty is Some,
    ensures
        r@ == spec_cast(to_ty->Some_0, t@),
{
    match t.term {
        PyTermData::Bool(ref term) => match to_ty {
            Some(Ty::Bool) => t.clone(),
            Some(Ty::Int) => {
                let ghost tv = term@;
                let one_bit = Term::BoolToBv(Box::new(term.clone()));
                proof {
                    assert(one_bit@ == TermV::BoolToBv(Box::new(tv)));
                }
                let widened = Term::ZeroExt(PY_INT_SIZE - 1, Box::new(one_bit));
                PyTerm { term: PyTermData::Int(widened) }
            },
            None => t.clone(),
        },
        PyTermData::Int(ref term) => match to_ty {
            Some(Ty::Bool) => {
                let ghost tv = term@;
                let zero = Term::BvLit(0, PY_INT_SIZE);
                proof {
                    assert(zero@ == TermV::BvLit(0, PY_INT_SIZE));
                }
                let eq_t = Term::Equal(Box::new(zero), Box::new(term.clone()));
                proof {
                    assert(eq_t@ == TermV::Equal(
                        Box::new(TermV::BvLit(0, PY_INT_SIZE)),
                        Box::new(tv),
                    ));
                }
                let not_t = Term::Not(Box::new(eq_t));
                PyTerm { term: PyTermData::Bool(not_t) }
            },
            Some(Ty::Int) => PyTerm { term: PyTermData::Int(term.clone()) },
            None => t.clone(),
        },
    }
}

/// Casts to `Bool` and takes the IR term.
pub fn cast_to_bool(t: PyTerm) -> (r: Term)
    ensures
        r@ == spec_inner(spec_cast(Ty::Bool, t@)),
{
    cast(Some(Ty::Bool), t).term.simple_term()
}

/// Casting well-formed values yields well-formed values of the target type.
pub proof fn lemma_spec_cast_wf(to_ty: Ty, v: PyTermV)
    requires
        pyterm_wf(v),
    ensures
        pyterm_wf(spec_cast(to_ty, v)),
        spec_type_of(spec_cast(to_ty, v)) == to_ty,
{
    vstd::arithmetic::power2::lemma2_to64();
    match v {
        PyTermV::Bool(t) => {
            if to_ty == Ty::Int {
                assert(crate::ir::sort_of(TermV::BoolToBv(Box::new(t))) == Some(
                    Sort::BitVector(1),
                ));
            }
        },
        PyTermV::Int(t) => {
            if to_ty == Ty::Bool {
                assert(crate::ir::sort_of(TermV::BvLit(0, PY_INT_SIZE)) == Some(
                    Sort::BitVector(PY_INT_SIZE),
                ));
                assert(crate::ir::sort_of(
                    TermV::Equal(Box::new(TermV::BvLit(0, PY_INT_SIZE)), Box::new(t)),
                ) == Some(Sort::Bool));
            }
        },
    }
}

/// Cast idempotence: casting a value to its own tag is the identity.
pub proof fn lemma_cast_idempotent(v: PyTermV)
    ensures
        spec_cast(spec_type_of(v), v) == v,
{
}

/// Casting a boolean to `Int` and back to `Bool` preserves its value under
/// every environment in which the boolean evaluates; in particular the
/// round trip is the identity on the literals `True` and `False`.
pub proof fn lemma_cast_round_trip(v: PyTermV, env: Map<Seq<char>, crate::ir::Val>)
    requires
        v is Bool,
        crate::ir::eval(spec_inner(v), env) matches Some(b) && b is B,
    ensures
        crate::ir::eval(spec_inner(spec_cast(Ty::Bool, spec_cast(Ty::Int, v))), env)
            == crate::ir::eval(spec_inner(v), env),
{
    vstd::arithmetic::power2::lemma2_to64();
    let b = crate::ir::eval(spec_inner(v), env)->Some_0->B_0;
    let bb: u32 = if b {
        1u32
    } else {
        0u32
    };
    let one_bit = TermV::BoolToBv(Box::new(spec_inner(v)));
    let widened = TermV::ZeroExt((PY_INT_SIZE - 1) as u32, Box::new(one_bit));
    let zero = TermV::BvLit(0, PY_INT_SIZE);
    let eq_t = TermV::Equal(Box::new(zero), Box::new(widened));
    assert(crate::ir::eval(one_bit, env) == Some(crate::ir::Val::Bv(1, bb)));
    assert(crate::ir::eval(widened, env) == Some(crate::ir::Val::Bv(PY_INT_SIZE, bb)));
    assert(crate::ir::eval(zero, env) == Some(crate::ir::Val::Bv(PY_INT_SIZE, 0)));
    assert(crate::ir::eval(eq_t, env) == Some(crate::ir::Val::B(!b)));
    assert(crate::ir::eval(TermV::Not(Box::new(eq_t)), env) == Some(crate::ir::Val::B(b)));
}

/// The binary operators whose result is an integer.
#[derive(Clone, Copy, Debug, PartialEq, Eq, Structural)]
pub enum BinArithOp {
    Add,
    Sub,
    Mult,
    FloorDiv,
    BitAnd,
    BitOr,
    BitXor,
}

/// The comparison operators, whose result is a boolean.
#[derive(Clone, Copy, Debug, PartialEq, Eq, Structural)]
pub enum BinCmpOp {
    Eq,
    Ne,
    Lt,
    Le,
    Gt,
    Ge,
}

/// The IR node an arithmetic operator builds over two integer terms.
pub open spec fn spec_arith_node(op: BinArithOp, a: TermV, b: TermV) -> TermV {
    match op {
        BinArithOp::Add => TermV::BvNary(BvNaryOp::Add, seq![a, b]),
        BinArithOp::Sub => TermV::BvBin(BvBinOp::Sub, Box::new(a), Box::new(b)),
        BinArithOp::Mult => TermV::BvNary(BvNaryOp::Mul, seq![a, b]),
        BinArithOp::FloorDiv => TermV::BvBin(BvBinOp::Udiv, Box::new(a), Box::new(b)),
        BinArithOp::BitAnd => TermV::BvNary(BvNaryOp::And, seq![a, b]),
        BinArithOp::BitOr => TermV::BvNary(BvNaryOp::Or, seq![a, b]),
        BinArithOp::BitXor => TermV::BvNary(BvNaryOp::Xor, seq![a, b]),
    }
}

/// The IR node a comparison operator builds over two same-sorted terms.
pub open spec fn spec_cmp_node(op: BinCmpOp, a: TermV, b: TermV) -> TermV {
    match op {
        BinCmpOp::Eq => TermV::Equal(Box::new(a), Box::new(b)),
        BinCmpOp::Ne => TermV::Not(Box::new(TermV::Equal(Box::new(a), Box::new(b)))),
        BinCmpOp::Lt => TermV::BvPred(BvBinPred::Slt, Box::new(a), Box::new(b)),
        BinCmpOp::Le => TermV::BvPred(BvBinPred::Sle, Box::new(a), Box::new(b)),
        BinCmpOp::Gt => TermV::BvPred(BvBinPred::Sgt, Box::new(a), Box::new(b)),
        BinCmpOp::Ge => TermV::BvPred(BvBinPred::Sge, Box::new(a), Box::new(b)),
    }
}

/// The result of a binary arithmetic operator: both operands are lifted to
/// `Int`, and the result is tagged `Int`.
pub open spec fn spec_wrap_bin_arith(op: BinArithOp, a: PyTermV, b: PyTermV) -> PyTermV {
    PyTermV::Int(
        spec_arith_node(
            op,
            spec_inner(spec_cast(Ty::Int, a)),
            spec_inner(spec_cast(Ty::Int, b)),
        ),
    )
}

/// The result of unary negation: the operand is lifted to `Int`.
pub open spec fn spec_wrap_un_arith(a: PyTermV) -> PyTermV {
    PyTermV::Int(TermV::BvNeg(Box::new(spec_inner(spec_cast(Ty::Int, a)))))
}

/// The result of a comparison: operands of equal tags are compared as
/// they stand; a boolean beside an integer is lifted to `Int`. The result
/// is tagged `Bool`.
pub open spec fn spec_wrap_bin_cmp(op: BinCmpOp, a: PyTermV, b: PyTermV) -> PyTermV {
    match (a, b) {
        (PyTermV::Bool(t0), PyTermV::Bool(t1)) => PyTermV::Bool(spec_cmp_node(op, t0, t1)),
        (PyTermV::Int(t0), PyTermV::Int(t1)) => PyTermV::Bool(spec_cmp_node(op, t0, t1)),
        (PyTermV::Int(t0), PyTermV::Bool(_)) => PyTermV::Bool(
            spec_cmp_node(op, t0, spec_inner(spec_cast(Ty::Int, b))),
        ),
        (PyTermV::Bool(_), PyTermV::Int(t1)) => PyTermV::Bool(
            spec_cmp_node(op, spec_inner(spec_cast(Ty::Int, a)), t1),
        ),
    }
}

/// Builds the IR node of an arithmetic operator.
fn arith_node(op: BinArithOp, a: Term, b: Term) -> (r: Term)
    ensures
        r@ == spec_arith_node(op, a@, b@),
{
    let r = match op {
        BinArithOp::Add => add_int(a, b),
        BinArithOp::Sub => sub_uint(a, b),
        BinArithOp::Mult => mult_uint(a, b),
        BinArithOp::FloorDiv => floor_div_uint(a, b),
        BinArithOp::BitAnd => bitand_uint(a, b),
        BinArithOp::BitOr => bitor_uint(a, b),
        BinArithOp::BitXor => bitxor_uint(a, b),
    };
    r
}

fn add_int(a: Term, b: Term) -> (r: Term)
    ensures
        r@ == TermV::BvNary(BvNaryOp::Add, seq![a@, b@]),
{
    let args = two_args(a, b);
    Term::BvNary(BvNaryOp::Add, args)
}

fn bitand_uint(a: Term, b: Term) -> (r: Term)
    ensures
        r@ == TermV::BvNary(BvNaryOp::And, seq![a@, b@]),
{
    let args = two_args(a, b);
    Term::BvNary(BvNaryOp::And, args)
}

fn bitor_uint(a: Term, b: Term) -> (r: Term)
    ensures
        r@ == TermV::BvNary(BvNaryOp::Or, seq![a@, b@]),
{
    let args = two_args(a, b);
    Term::BvNary(BvNaryOp::Or, args)
}

fn bitxor_uint(a: Term, b: Term) -> (r: Term)
    ensures
        r@ == TermV::BvNary(BvNaryOp::Xor, seq![a@, b@]),
{
    let args = two_args(a, b);
    Term::BvNary(BvNaryOp::Xor, args)
}

fn sub_uint(a: Term, b: Term) -> (r: Term)
    ensures
        r@ == TermV::BvBin(BvBinOp::Sub, Box::new(a@), Box::new(b@)),
{
    Term::BvBin(BvBinOp::Sub, Box::new(a), Box::new(b))
}

fn mult_uint(a: Term, b: Term) -> (r: Term)
    ensures
        r@ == TermV::BvNary(BvNaryOp::Mul, seq![a@, b@]),
{
    let args = two_args(a, b);
    Term::BvNary(BvNaryOp::Mul, args)
}

fn floor_div_uint(a: Term, b: Term) -> (r: Term)
    ensures
        r@ == TermV::BvBin(BvBinOp::Udiv, Box::new(a@), Box::new(b@)),
{
    Term::BvBin(BvBinOp::Udiv, Box::new(a), Box::new(b))
}

fn minus_uint(a: Term) -> (r: Term)
    ensures
        r@ == TermV::BvNeg(Box::new(a@)),
{
    Term::BvNeg(Box::new(a))
}

/// A two-element argument list whose models are the two given models.
fn two_args(a: Term, b: Term) -> (r: Vec<Term>)
    ensures
        crate::ir::term_view_list(r@) == seq![a@, b@],
{
    let ghost va = a@;
    let ghost vb = b@;
    let mut args: Vec<Term> = Vec::new();
    args.push(a);
    args.push(b);
    proof {
        crate::ir::lemma_term_view_list(args@);
        assert(crate::ir::term_view_list(args@) =~= seq![va, vb]);
    }
    args
}

/// Applies an arithmetic operator: operands of either tag are accepted,
/// booleans are lifted to `Int`, and the result is tagged `Int`.
pub fn wrap_bin_arith(op: BinArithOp, a: PyTerm, b: PyTerm) -> (r: Result<PyTerm, String>)
    ensures
        r matches Ok(p) && p@ == spec_wrap_bin_arith(op, a@, b@),
{
    let ta = a.term.type_();
    match ta {
        Ty::Int => {
            let x = a.term.simple_term();
            let b_cast = cast(Some(Ty::Int), b).term.simple_term();
            Ok(PyTerm { term: PyTermData::Int(arith_node(op, x, b_cast)) })
        },
        Ty::Bool => {
            let a_cast = cast(Some(Ty::Int), a).term.simple_term();
            let b_cast = cast(Some(Ty::Int), b).term.simple_term();
            Ok(PyTerm { term: PyTermData::Int(arith_node(op, a_cast, b_cast)) })
        },
    }
}

/// Surface `+`.
pub fn add(a: PyTerm, b: PyTerm) -> (r: Result<PyTerm, String>)
    ensures
        r matches Ok(p) && p@ == spec_wrap_bin_arith(BinArithOp::Add, a@, b@),
{
    wrap_bin_arith(BinArithOp::Add, a, b)
}

/// Surface `&` and `and`.
pub fn bitand(a: PyTerm, b: PyTerm) -> (r: Result<PyTerm, String>)
    ensures
        r matches Ok(p) && p@ == spec_wrap_bin_arith(BinArithOp::BitAnd, a@, b@),
{
    wrap_bin_arith(BinArithOp::BitAnd, a, b)
}

/// Surface `|` and `or`.
pub fn bitor(a: PyTerm, b: PyTerm) -> (r: Result<PyTerm, String>)
    ensures
        r matches Ok(p) && p@ == spec_wrap_bin_arith(BinArithOp::BitOr, a@, b@),
{
    wrap_bin_arith(BinArithOp::BitOr, a, b)
}

/// Surface `^`.
pub fn bitxor(a: PyTerm, b: PyTerm) -> (r: Result<PyTerm, String>)
    ensures
        r matches Ok(p) && p@ == spec_wrap_bin_arith(BinArithOp::BitXor, a@, b@),
{
    wrap_bin_arith(BinArithOp::BitXor, a, b)
}

/// Surface binary `-`.
pub fn sub(a: PyTerm, b: PyTerm) -> (r: Result<PyTerm, String>)
    ensures
        r matches Ok(p) && p@ == spec_wrap_bin_arith(BinArithOp::Sub, a@, b@),
{
    wrap_bin_arith(BinArithOp::Sub, a, b)
}

/// Surface `*`.
pub fn mult(a: PyTerm, b: PyTerm) -> (r: Result<PyTerm, String>)
    ensures
        r matches Ok(p) && p@ == spec_wrap_bin_arith(BinArithOp::Mult, a@, b@),
{
    wrap_bin_arith(BinArithOp::Mult, a, b)
}

/// Surface `//`.
pub fn floor_div(a: PyTerm, b: PyTerm) -> (r: Result<PyTerm, String>)
    ensures
        r matches Ok(p) && p@ == spec_wrap_bin_arith(BinArithOp::FloorDiv, a@, b@),
{
    wrap_bin_arith(BinArithOp::FloorDiv, a, b)
}

/// Applies unary negation: a boolean operand is lifted to `Int`.
pub fn wrap_un_arith(a: PyTerm) -> (r: Result<PyTerm, String>)
    ensures
        r matches Ok(p) && p@ == spec_wrap_un_arith(a@),
{
    let ta = a.term.type_();
    match ta {
        Ty::Int => {
            let x = a.term.simple_term();
            Ok(PyTerm { term: PyTermData::Int(minus_uint(x)) })
        },
        Ty::Bool => {
            let a_cast = cast(Some(Ty::Int), a).term.simple_term();
            Ok(PyTerm { term: PyTermData::Int(minus_uint(a_cast)) })
        },
    }
}

/// Surface unary `-`.
pub fn minus(a: PyTerm) -> (r: Result<PyTerm, String>)
    ensures
        r matches Ok(p) && p@ == spec_wrap_un_arith(a@),
{
    wrap_un_arith(a)
}

/// Builds the IR node of a comparison operator.
fn cmp_node(op: BinCmpOp, a: Term, b: Term) -> (r: Term)
    ensures
        r@ == spec_cmp_node(op, a@, b@),
{
    match op {
        BinCmpOp::Eq => Term::Equal(Box::new(a), Box::new(b)),
        BinCmpOp::Ne => {
            let ghost va = a@;
            let ghost vb = b@;
            let eq_t = Term::Equal(Box::new(a), Box::new(b));
            proof {
                assert(eq_t@ == TermV::Equal(Box::new(va), Box::new(vb)));
            }
            Term::Not(Box::new(eq_t))
        },
        BinCmpOp::Lt => Term::BvPred(BvBinPred::Slt, Box::new(a), Box::new(b)),
        BinCmpOp::Le => Term::BvPred(BvBinPred::Sle, Box::new(a), Box::new(b)),
        BinCmpOp::Gt => Term::BvPred(BvBinPred::Sgt, Box::new(a), Box::new(b)),
        BinCmpOp::Ge => Term::BvPred(BvBinPred::Sge, Box::new(a), Box::new(b)),
    }
}

/// Applies a comparison operator: equal tags compare directly, a boolean
/// beside an integer is lifted, and the result is tagged `Bool`.
pub fn wrap_bin_cmp(op: BinCmpOp, a: PyTerm, b: PyTerm) -> (r: Result<PyTerm, String>)
    ensures
        r matches Ok(p) && p@ == spec_wrap_bin_cmp(op, a@, b@),
{
    let ta = a.term.type_();
    let tb = b.term.type_();
    match (ta, tb) {
        (Ty::Bool, Ty::Bool) => {
            let x = a.term.simple_term();
            let y = b.term.simple_term();
            Ok(PyTerm { term: PyTermData::Bool(cmp_node(op, x, y)) })
        },
        (Ty::Int, Ty::Int) => {
            let x = a.term.simple_term();
            let y = b.term.simple_term();
            Ok(PyTerm { term: PyTermData::Bool(cmp_node(op, x, y)) })
        },
        (Ty::Int, Ty::Bool) => {
            let x = a.term.simple_term();
            let y = cast(Some(Ty::Int), b).term.simple_term();
            Ok(PyTerm { term: PyTermData::Bool(cmp_node(op, x, y)) })
        },
        (Ty::Bool, Ty::Int) => {
            let y = b.term.simple_term();
            let x = cast(Some(Ty::Int), a).term.simple_term();
            Ok(PyTerm { term: PyTermData::Bool(cmp_node(op, x, y)) })
        },
    }
}

/// Surface `==`.
pub fn eq(a: PyTerm, b: PyTerm) -> (r: Result<PyTerm, String>)
    ensures
        r matches Ok(p) && p@ == spec_wrap_bin_cmp(BinCmpOp::Eq, a@, b@),
{
    wrap_bin_cmp(BinCmpOp::Eq, a, b)
}

/// Surface `!=`.
pub fn ne(a: PyTerm, b: PyTerm) -> (r: Result<PyTerm, String>)
    ensures
        r matches Ok(p) && p@ == spec_wrap_bin_cmp(BinCmpOp::Ne, a@, b@),
{
    wrap_bin_cmp(BinCmpOp::Ne, a, b)
}

/// Surface `<`.
pub fn lt(a: PyTerm, b: PyTerm) -> (r: Result<PyTerm, String>)
    ensures
        r matches Ok(p) && p@ == spec_wrap_bin_cmp(BinCmpOp::Lt, a@, b@),
{
    wrap_bin_cmp(BinCmpOp::Lt, a, b)
}

/// Surface `<=`.
pub fn le(a: PyTerm, b: PyTerm) -> (r: Result<PyTerm, String>)
    ensures
        r matches Ok(p) && p@ == spec_wrap_bin_cmp(BinCmpOp::Le, a@, b@),
{
    wrap_bin_cmp(BinCmpOp::Le, a, b)
}

/// Surface `>`.
pub fn gt(a: PyTerm, b: PyTerm) -> (r: Result<PyTerm, String>)
    ensures
        r matches Ok(p) && p@ == spec_wrap_bin_cmp(BinCmpOp::Gt, a@, b@),
{
    wrap_bin_cmp(BinCmpOp::Gt, a, b)
}

/// Surface `>=`.
pub fn ge(a: PyTerm, b: PyTerm) -> (r: Result<PyTerm, String>)
    ensures
        r matches Ok(p) && p@ == spec_wrap_bin_cmp(BinCmpOp::Ge, a@, b@),
{
    wrap_bin_cmp(BinCmpOp::Ge, a, b)
}

/// Operator closure for arithmetic: the result's tag is always `Int`.
pub proof fn lemma_arith_closure(op: BinArithOp, a: PyTermV, b: PyTermV)
    ensures
        spec_type_of(spec_wrap_bin_arith(op, a, b)) == Ty::Int,
        spec_type_of(spec_wrap_un_arith(a)) == Ty::Int,
{
}

/// Operator closure for comparisons: the result's tag is always `Bool`.
pub proof fn lemma_cmp_closure(op: BinCmpOp, a: PyTermV, b: PyTermV)
    ensures
        spec_type_of(spec_wrap_bin_cmp(op, a, b)) == Ty::Bool,
{
}

/// The language definition handed to the compilation context: how values
/// of this language are declared, merged and defaulted.
pub struct Pyt {}

impl Pyt {
    /// Makes the language definition.
    pub fn new() -> Self {
        Self {  }
    }

    /// Declares a circuit-level input of the given type and returns the
    /// variable term that stands for it.
    pub fn declare_input(&self, ctx: &mut CirCtx, ty: &Ty, name: String) -> (r: PyTerm)
        ensures
            final(ctx)@.inputs == old(ctx)@.inputs.push((name@, crate::ty::spec_sort(*ty))),
            final(ctx)@.outputs == old(ctx)@.outputs,
            r@ == spec_input_term(*ty, name@),
    {
        let sort = ty.sort();
        let var = Term::Var(name.clone(), sort);
        ctx.push_input(name, sort);
        match ty {
            Ty::Int => PyTerm { term: PyTermData::Int(var) },
            Ty::Bool => PyTerm { term: PyTermData::Bool(var) },
        }
    }

    /// Merges two values of one type under a condition term.
    pub fn ite(&self, cond: Term, t: PyTerm, f: PyTerm) -> (r: Result<PyTerm, CircError>)
        ensures
            match spec_ite(cond@, t@, f@) {
                Ok(v) => r matches Ok(p) && p@ == v,
                Err(e) => r == Err::<PyTerm, CircError>(e),
            },
    {
        match (t.term, f.term) {
            (PyTermData::Bool(a), PyTermData::Bool(b)) => Ok(
                PyTerm {
                    term: PyTermData::Bool(
                        Term::Ite(Box::new(cond), Box::new(a), Box::new(b)),
                    ),
                },
            ),
            (PyTermData::Int(a), PyTermData::Int(b)) => Ok(
                PyTerm {
                    term: PyTermData::Int(Term::Ite(Box::new(cond), Box::new(a), Box::new(b))),
                },
            ),
            _ => Err(CircError::TypeMismatch),
        }
    }

    /// A fresh uninitialized value of a type: its default.
    pub fn create_uninit(&self, ctx: &CirCtx, ty: &Ty) -> (r: PyTerm)
        ensures
            r@ == spec_default(*ty),
    {
        ty.default(ctx)
    }

    /// The default return value of a function returning `ty`.
    pub fn initialize_return(&self, ty: &Ty) -> (r: PyTerm)
        ensures
            r@ == spec_default(*ty),
    {
        match ty {
            Ty::Int => PyTerm { term: PyTermData::Int(Term::BvLit(0, PY_INT_SIZE)) },
            Ty::Bool => PyTerm { term: PyTermData::Bool(Term::BoolLit(false)) },
        }
    }
}

/// The variable term an input declaration produces.
pub open spec fn spec_input_term(ty: Ty, name: Seq<char>) -> PyTermV {
    match ty {
        Ty::Int => PyTermV::Int(TermV::Var(name, crate::ty::spec_sort(ty))),
        Ty::Bool => PyTermV::Bool(TermV::Var(name, crate::ty::spec_sort(ty))),
    }
}

/// The if-then-else merge of two values: defined when the tags agree.
pub open spec fn spec_ite(cond: TermV, t: PyTermV, f: PyTermV) -> Result<PyTermV, CircError> {
    match (t, f) {
        (PyTermV::Bool(a), PyTermV::Bool(b)) => Ok(
            PyTermV::Bool(TermV::Ite(Box::new(cond), Box::new(a), Box::new(b))),
        ),
        (PyTermV::Int(a), PyTermV::Int(b)) => Ok(
            PyTermV::Int(TermV::Ite(Box::new(cond), Box::new(a), Box::new(b))),
        ),
        _ => Err(CircError::TypeMismatch),
    }
}

/// A cast always lands on the requested type.
pub proof fn lemma_cast_type(to_ty: Ty, v: PyTermV)
    ensures
        spec_type_of(spec_cast(to_ty, v)) == to_ty,
{
}

} // verus!
