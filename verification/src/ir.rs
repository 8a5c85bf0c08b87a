//! The first-order term representation the front-end lowers into: sorts,
//! term nodes, well-sortedness, and an evaluation semantics.
//!
//! Terms are trees over two sorts: booleans and fixed-width bit-vectors
//! (widths 1 through 32). The mathematical model of a term is [`TermV`],
//! reached through `@`; [`sort_of`] assigns each well-sorted model its
//! sort, and [`eval`] gives its value under an assignment of values to the
//! named variables. The executable evaluator [`eval_term`] mirrors `eval`
//! exactly, so a candidate model for a term can be checked by running it.
use vstd::prelude::*;
use vstd::arithmetic::power2::pow2;
use vstd::arithmetic::power2::lemma_pow2_pos;
use vstd::arithmetic::power2::lemma_pow2_unfold;
use vstd::arithmetic::power2::lemma2_to64;

verus! {

/// The widest bit-vector sort the evaluator supports.
pub const MAX_BV_WIDTH: u32 = 32;

/// A sort: boolean, or bit-vector of the given width.
#[derive(Clone, Copy, Debug, PartialEq, Eq, Structural)]
pub enum Sort {
    Bool,
    BitVector(u32),
}

/// N-ary bit-vector operators (applied here to two or more operands).
#[derive(Clone, Copy, Debug, PartialEq, Eq, Structural)]
pub enum BvNaryOp {
    Add,
    Mul,
    And,
    Or,
    Xor,
}

/// Binary (non-associative) bit-vector operators.
#[derive(Clone, Copy, Debug, PartialEq, Eq, Structural)]
pub enum BvBinOp {
    Sub,
    Udiv,
}

/// Signed bit-vector comparison predicates.
#[derive(Clone, Copy, Debug, PartialEq, Eq, Structural)]
pub enum BvBinPred {
    Slt,
    Sle,
    Sgt,
    Sge,
}

/// A term node. `BvLit(v, w)` is the literal `v` at width `w`;
/// `Var(n, s)` a free variable; `ZeroExt(k, t)` widens `t` by `k` zero bits.
#[derive(Debug, PartialEq, Eq)]
pub enum Term {
    BoolLit(bool),
    BvLit(u32, u32),
    Var(String, Sort),
    Not(Box<Term>),
    Equal(Box<Term>, Box<Term>),
    NaryAnd(Vec<Term>),
    NaryOr(Vec<Term>),
    Ite(Box<Term>, Box<Term>, Box<Term>),
    BoolToBv(Box<Term>),
    ZeroExt(u32, Box<Term>),
    BvNary(BvNaryOp, Vec<Term>),
    BvBin(BvBinOp, Box<Term>, Box<Term>),
    BvNeg(Box<Term>),
    BvPred(BvBinPred, Box<Term>, Box<Term>),
}

/// The mathematical model of a [`Term`]: the same tree with variable names
/// as character sequences and argument lists as sequences.
pub enum TermV {
    BoolLit(bool),
    BvLit(u32, u32),
    Var(Seq<char>, Sort),
    Not(Box<TermV>),
    Equal(Box<TermV>, Box<TermV>),
    NaryAnd(Seq<TermV>),
    NaryOr(Seq<TermV>),
    Ite(Box<TermV>, Box<TermV>, Box<TermV>),
    BoolToBv(Box<TermV>),
    ZeroExt(u32, Box<TermV>),
    BvNary(BvNaryOp, Seq<TermV>),
    BvBin(BvBinOp, Box<TermV>, Box<TermV>),
    BvNeg(Box<TermV>),
    BvPred(BvBinPred, Box<TermV>, Box<TermV>),
}

/// The model of a term tree.
pub open spec fn term_view(t: Term) -> TermV
    decreases t,
{
    match t {
        Term::BoolLit(b) => TermV::BoolLit(b),
        Term::BvLit(v, w) => TermV::BvLit(v, w),
        Term::Var(n, s) => TermV::Var(n@, s),
        Term::Not(a) => TermV::Not(Box::new(term_view(*a))),
        Term::Equal(a, b) => TermV::Equal(Box::new(term_view(*a)), Box::new(term_view(*b))),
        Term::NaryAnd(args) => TermV::NaryAnd(term_view_list(args@)),
        Term::NaryOr(args) => TermV::NaryOr(term_view_list(args@)),
        Term::Ite(c, a, b) => TermV::Ite(
            Box::new(term_view(*c)),
            Box::new(term_view(*a)),
            Box::new(term_view(*b)),
        ),
        Term::BoolToBv(a) => TermV::BoolToBv(Box::new(term_view(*a))),
        Term::ZeroExt(k, a) => TermV::ZeroExt(k, Box::new(term_view(*a))),
        Term::BvNary(op, args) => TermV::BvNary(op, term_view_list(args@)),
        Term::BvBin(op, a, b) => TermV::BvBin(op, Box::new(term_view(*a)), Box::new(term_view(*b))),
        Term::BvNeg(a) => TermV::BvNeg(Box::new(term_view(*a))),
        Term::BvPred(op, a, b) => TermV::BvPred(
            op,
            Box::new(term_view(*a)),
            Box::new(term_view(*b)),
        ),
    }
}

/// The models of a list of terms, elementwise.
pub open spec fn term_view_list(ts: Seq<Term>) -> Seq<TermV>
    decreases ts,
{
    if ts.len() == 0 {
        Seq::empty()
    } else {
        term_view_list(ts.drop_last()).push(term_view(ts.last()))
    }
}

/// `term_view_list` maps `term_view` over the list.
pub broadcast proof fn lemma_term_view_list(ts: Seq<Term>)
    ensures
        (#[trigger] term_view_list(ts)).len() == ts.len(),
        forall|i: int| 0 <= i < ts.len() ==> term_view_list(ts)[i] == term_view(ts[i]),
    decreases ts,
{
    if ts.len() > 0 {
        lemma_term_view_list(ts.drop_last());
    }
}

impl View for Term {
    type V = TermV;

    open spec fn view(&self) -> TermV {
        term_view(*self)
    }
}

impl Clone for Term {
    /// A clone has the same model.
    fn clone(&self) -> (res: Self)
        ensures
            res@ == self@,
        decreases *self,
    {
        match self {
            Term::BoolLit(b) => Term::BoolLit(*b),
            Term::BvLit(v, w) => Term::BvLit(*v, *w),
            Term::Var(n, s) => Term::Var(n.clone(), *s),
            Term::Not(a) => Term::Not(Box::new((**a).clone())),
            Term::Equal(a, b) => Term::Equal(Box::new((**a).clone()), Box::new((**b).clone())),
            Term::NaryAnd(args) => Term::NaryAnd(clone_term_list(args)),
            Term::NaryOr(args) => Term::NaryOr(clone_term_list(args)),
            Term::Ite(c, a, b) => Term::Ite(
                Box::new((**c).clone()),
                Box::new((**a).clone()),
                Box::new((**b).clone()),
            ),
            Term::BoolToBv(a) => Term::BoolToBv(Box::new((**a).clone())),
            Term::ZeroExt(k, a) => Term::ZeroExt(*k, Box::new((**a).clone())),
            Term::BvNary(op, args) => Term::BvNary(*op, clone_term_list(args)),
            Term::BvBin(op, a, b) => Term::BvBin(
                *op,
                Box::new((**a).clone()),
                Box::new((**b).clone()),
            ),
            Term::BvNeg(a) => Term::BvNeg(Box::new((**a).clone())),
            Term::BvPred(op, a, b) => Term::BvPred(
                *op,
                Box::new((**a).clone()),
                Box::new((**b).clone()),
            ),
        }
    }
}

/// Clones a term list, preserving each element's model.
pub(crate) fn clone_term_list(ts: &Vec<Term>) -> (res: Vec<Term>)
    ensures
        term_view_list(res@) == term_view_list(ts@),
    decreases ts@,
{
    let mut res: Vec<Term> = Vec::new();
    let mut i: usize = 0;
    while i < ts.len()
        invariant
            i <= ts.len(),
            res@.len() == i,
            forall|j: int| 0 <= j < i ==> term_view(#[trigger] res@[j]) == term_view(ts@[j]),
        decreases ts@.len() - i,
    {
        proof {
            assert(decreases_to!(ts@ => ts@[i as int]));
        }
        let c = ts[i].clone();
        res.push(c);
        i = i + 1;
    }
    proof {
        lemma_term_view_list(res@);
        lemma_term_view_list(ts@);
        assert(term_view_list(res@) =~= term_view_list(ts@));
    }
    res
}

/// A sort is admissible when any bit-vector width lies in 1..=32.
pub open spec fn sort_wf(s: Sort) -> bool {
    match s {
        Sort::Bool => true,
        Sort::BitVector(w) => 1 <= w <= MAX_BV_WIDTH,
    }
}

/// The sort of a term, or `None` if the term is ill-sorted.
pub open spec fn sort_of(t: TermV) -> Option<Sort>
    decreases t,
{
    match t {
        TermV::BoolLit(_) => Some(Sort::Bool),
        TermV::BvLit(v, w) => if 1 <= w <= MAX_BV_WIDTH && (v as nat) < pow2(w as nat) {
            Some(Sort::BitVector(w))
        } else {
            None
        },
        TermV::Var(_, s) => if sort_wf(s) {
            Some(s)
        } else {
            None
        },
        TermV::Not(a) => if sort_of(*a) == Some(Sort::Bool) {
            Some(Sort::Bool)
        } else {
            None
        },
        TermV::Equal(a, b) => match (sort_of(*a), sort_of(*b)) {
            (Some(sa), Some(sb)) => if sa == sb {
                Some(Sort::Bool)
            } else {
                None
            },
            _ => None,
        },
        TermV::NaryAnd(args) => if all_bool_sorted(args) {
            Some(Sort::Bool)
        } else {
            None
        },
        TermV::NaryOr(args) => if all_bool_sorted(args) {
            Some(Sort::Bool)
        } else {
            None
        },
        TermV::Ite(c, a, b) => if sort_of(*c) == Some(Sort::Bool) {
            match (sort_of(*a), sort_of(*b)) {
                (Some(sa), Some(sb)) => if sa == sb {
                    Some(sa)
                } else {
                    None
                },
                _ => None,
            }
        } else {
            None
        },
        TermV::BoolToBv(a) => if sort_of(*a) == Some(Sort::Bool) {
            Some(Sort::BitVector(1))
        } else {
            None
        },
        TermV::ZeroExt(k, a) => match sort_of(*a) {
            Some(Sort::BitVector(w)) => if w + k <= MAX_BV_WIDTH {
                Some(Sort::BitVector((w + k) as u32))
            } else {
                None
            },
            _ => None,
        },
        TermV::BvNary(_, args) => if args.len() >= 1 {
            match sort_of(args[0]) {
                Some(Sort::BitVector(w)) => if all_bv_sorted(args, w) {
                    Some(Sort::BitVector(w))
                } else {
                    None
                },
                _ => None,
            }
        } else {
            None
        },
        TermV::BvBin(_, a, b) => match (sort_of(*a), sort_of(*b)) {
            (Some(Sort::BitVector(wa)), Some(Sort::BitVector(wb))) => if wa == wb {
                Some(Sort::BitVector(wa))
            } else {
                None
            },
            _ => None,
        },
        TermV::BvNeg(a) => match sort_of(*a) {
            Some(Sort::BitVector(w)) => Some(Sort::BitVector(w)),
            _ => None,
        },
        TermV::BvPred(_, a, b) => match (sort_of(*a), sort_of(*b)) {
            (Some(Sort::BitVector(wa)), Some(Sort::BitVector(wb))) => if wa == wb {
                Some(Sort::Bool)
            } else {
                None
            },
            _ => None,
        },
    }
}

/// Every term of the list has sort `Bool`.
pub open spec fn all_bool_sorted(ts: Seq<TermV>) -> bool
    decreases ts,
{
    ts.len() == 0 || (all_bool_sorted(ts.drop_last()) && sort_of(ts.last()) == Some(Sort::Bool))
}

/// Every term of the list has sort `BitVector(w)`.
pub open spec fn all_bv_sorted(ts: Seq<TermV>, w: u32) -> bool
    decreases ts,
{
    ts.len() == 0 || (all_bv_sorted(ts.drop_last(), w) && sort_of(ts.last()) == Some(
        Sort::BitVector(w),
    ))
}

/// A value: a boolean, or a bit-vector `Bv(w, v)` of width `w` with `v < 2^w`.
#[derive(Clone, Copy, Debug, PartialEq, Eq, Structural)]
pub enum Val {
    B(bool),
    Bv(u32, u32),
}

/// Well-formedness of a value: admissible width, value within range.
pub open spec fn val_wf(v: Val) -> bool {
    match v {
        Val::B(_) => true,
        Val::Bv(w, x) => 1 <= w <= MAX_BV_WIDTH && (x as nat) < pow2(w as nat),
    }
}

/// The sort a value inhabits.
pub open spec fn val_sort(v: Val) -> Sort {
    match v {
        Val::B(_) => Sort::Bool,
        Val::Bv(w, _) => Sort::BitVector(w),
    }
}

/// `x` reduced modulo `2^w`.
pub open spec fn bv_norm(w: u32, x: int) -> u32 {
    (x % (pow2(w as nat) as int)) as u32
}

/// The signed (two's-complement) reading of the `w`-bit value `x`.
pub open spec fn to_signed(w: u32, x: u32) -> int {
    if w >= 1 && x >= pow2((w - 1) as nat) {
        x - pow2(w as nat)
    } else {
        x as int
    }
}

/// One application of an n-ary bit-vector operator at width `w`.
pub open spec fn apply_bv_nary(op: BvNaryOp, w: u32, a: u32, b: u32) -> u32 {
    match op {
        BvNaryOp::Add => bv_norm(w, a + b),
        BvNaryOp::Mul => bv_norm(w, a * b),
        BvNaryOp::And => bv_norm(w, (a & b) as int),
        BvNaryOp::Or => bv_norm(w, (a | b) as int),
        BvNaryOp::Xor => bv_norm(w, (a ^ b) as int),
    }
}

/// A binary bit-vector operator at width `w`. Unsigned division by zero
/// yields the all-ones vector.
pub open spec fn apply_bv_bin(op: BvBinOp, w: u32, a: u32, b: u32) -> u32 {
    match op {
        BvBinOp::Sub => bv_norm(w, a - b + pow2(w as nat)),
        BvBinOp::Udiv => if b == 0 {
            (pow2(w as nat) - 1) as u32
        } else {
            a / b
        },
    }
}

/// A signed comparison predicate at width `w`.
pub open spec fn apply_bv_pred(op: BvBinPred, w: u32, a: u32, b: u32) -> bool {
    match op {
        BvBinPred::Slt => to_signed(w, a) < to_signed(w, b),
        BvBinPred::Sle => to_signed(w, a) <= to_signed(w, b),
        BvBinPred::Sgt => to_signed(w, a) > to_signed(w, b),
        BvBinPred::Sge => to_signed(w, a) >= to_signed(w, b),
    }
}

/// Left-associated fold of an n-ary operator over a non-empty value list.
pub open spec fn fold_bv_nary(op: BvNaryOp, w: u32, xs: Seq<u32>) -> u32
    decreases xs,
{
    if xs.len() <= 1 {
        if xs.len() == 1 {
            xs[0]
        } else {
            0
        }
    } else {
        apply_bv_nary(op, w, fold_bv_nary(op, w, xs.drop_last()), xs.last())
    }
}

/// All values are booleans.
pub open spec fn vals_all_b(vs: Seq<Val>) -> bool {
    forall|i: int| 0 <= i < vs.len() ==> vs[i] is B
}

/// All values are bit-vectors of width `w`.
pub open spec fn vals_all_bv(vs: Seq<Val>, w: u32) -> bool {
    forall|i: int| 0 <= i < vs.len() ==> vs[i] == Val::Bv(w, (#[trigger] vs[i])->Bv_1)
}

/// The payloads of a bit-vector value list.
pub open spec fn bv_payloads(vs: Seq<Val>) -> Seq<u32> {
    vs.map_values(|v: Val| v->Bv_1)
}

/// The value of `t` under `env`, or `None` where `t` is ill-sorted for the
/// values at hand (including a free variable absent from `env` or bound to
/// a value of the wrong sort).
pub open spec fn eval(t: TermV, env: Map<Seq<char>, Val>) -> Option<Val>
    decreases t,
{
    match t {
        TermV::BoolLit(b) => Some(Val::B(b)),
        TermV::BvLit(v, w) => if 1 <= w <= MAX_BV_WIDTH && (v as nat) < pow2(w as nat) {
            Some(Val::Bv(w, v))
        } else {
            None
        },
        TermV::Var(n, s) => if env.contains_key(n) && val_wf(env[n]) && val_sort(env[n]) == s {
            Some(env[n])
        } else {
            None
        },
        TermV::Not(a) => match eval(*a, env) {
            Some(Val::B(b)) => Some(Val::B(!b)),
            _ => None,
        },
        TermV::Equal(a, b) => match (eval(*a, env), eval(*b, env)) {
            (Some(va), Some(vb)) => if val_sort(va) == val_sort(vb) {
                Some(Val::B(va == vb))
            } else {
                None
            },
            _ => None,
        },
        TermV::NaryAnd(args) => match eval_list(args, env) {
            Some(vs) => if vals_all_b(vs) {
                Some(Val::B(forall|i: int| 0 <= i < vs.len() ==> (#[trigger] vs[i])->B_0))
            } else {
                None
            },
            None => None,
        },
        TermV::NaryOr(args) => match eval_list(args, env) {
            Some(vs) => if vals_all_b(vs) {
                Some(Val::B(exists|i: int| 0 <= i < vs.len() && (#[trigger] vs[i])->B_0))
            } else {
                None
            },
            None => None,
        },
        TermV::Ite(c, a, b) => match (eval(*c, env), eval(*a, env), eval(*b, env)) {
            (Some(Val::B(cb)), Some(va), Some(vb)) => if val_sort(va) == val_sort(vb) {
                if cb {
                    Some(va)
                } else {
                    Some(vb)
                }
            } else {
                None
            },
            _ => None,
        },
        TermV::BoolToBv(a) => match eval(*a, env) {
            Some(Val::B(b)) => Some(
                Val::Bv(
                    1,
                    if b {
                        1
                    } else {
                        0
                    },
                ),
            ),
            _ => None,
        },
        TermV::ZeroExt(k, a) => match eval(*a, env) {
            Some(Val::Bv(w, x)) => if w + k <= MAX_BV_WIDTH {
                Some(Val::Bv((w + k) as u32, x))
            } else {
                None
            },
            _ => None,
        },
        TermV::BvNary(op, args) => match eval_list(args, env) {
            Some(vs) => if vs.len() >= 1 && vals_all_bv(vs, vs[0]->Bv_0) {
                Some(Val::Bv(vs[0]->Bv_0, fold_bv_nary(op, vs[0]->Bv_0, bv_payloads(vs))))
            } else {
                None
            },
            None => None,
        },
        TermV::BvBin(op, a, b) => match (eval(*a, env), eval(*b, env)) {
            (Some(Val::Bv(wa, x)), Some(Val::Bv(wb, y))) => if wa == wb {
                Some(Val::Bv(wa, apply_bv_bin(op, wa, x, y)))
            } else {
                None
            },
            _ => None,
        },
        TermV::BvNeg(a) => match eval(*a, env) {
            Some(Val::Bv(w, x)) => Some(Val::Bv(w, bv_norm(w, pow2(w as nat) - x))),
            _ => None,
        },
        TermV::BvPred(op, a, b) => match (eval(*a, env), eval(*b, env)) {
            (Some(Val::Bv(wa, x)), Some(Val::Bv(wb, y))) => if wa == wb && wa >= 1 {
                Some(Val::B(apply_bv_pred(op, wa, x, y)))
            } else {
                None
            },
            _ => None,
        },
    }
}

/// Pointwise evaluation of a term list; `None` if any element fails.
pub open spec fn eval_list(ts: Seq<TermV>, env: Map<Seq<char>, Val>) -> Option<Seq<Val>>
    decreases ts,
{
    if ts.len() == 0 {
        Some(Seq::empty())
    } else {
        match (eval_list(ts.drop_last(), env), eval(ts.last(), env)) {
            (Some(rest), Some(v)) => Some(rest.push(v)),
            _ => None,
        }
    }
}

/// Evaluation yields only well-formed values.
pub proof fn lemma_eval_wf(t: TermV, env: Map<Seq<char>, Val>)
    ensures
        eval(t, env) matches Some(v) ==> val_wf(v),
    decreases t,
{
    lemma_pow2_pos(32);
    lemma2_to64();
    match t {
        TermV::Not(a) => lemma_eval_wf(*a, env),
        TermV::Equal(a, b) => {
            lemma_eval_wf(*a, env);
            lemma_eval_wf(*b, env);
        },
        TermV::Ite(c, a, b) => {
            lemma_eval_wf(*c, env);
            lemma_eval_wf(*a, env);
            lemma_eval_wf(*b, env);
        },
        TermV::BoolToBv(a) => {
            lemma_eval_wf(*a, env);
        },
        TermV::ZeroExt(k, a) => {
            lemma_eval_wf(*a, env);
            if eval(t, env) is Some {
                let va = eval(*a, env)->Some_0;
                lemma_pow2_le(va->Bv_0, (va->Bv_0 + k) as u32);
            }
        },
        TermV::BvNary(op, args) => {
            if eval(t, env) is Some {
                let vs = eval_list(args, env)->Some_0;
                let w = vs[0]->Bv_0;
                lemma_eval_list_wf(args, env);
                assert(val_wf(vs[0]));
                assert(bv_payloads(vs)[0] == vs[0]->Bv_1);
                lemma_fold_bv_nary_range(op, w, bv_payloads(vs));
            }
        },
        TermV::BvBin(op, a, b) => {
            lemma_eval_wf(*a, env);
            lemma_eval_wf(*b, env);
            if eval(t, env) is Some {
                let va = eval(*a, env)->Some_0;
                let w = va->Bv_0;
                lemma_pow2_pos(w as nat);
                lemma_mod_range(w);
            }
        },
        TermV::BvNeg(a) => {
            lemma_eval_wf(*a, env);
            if eval(t, env) is Some {
                let va = eval(*a, env)->Some_0;
                lemma_pow2_pos(va->Bv_0 as nat);
                lemma_mod_range(va->Bv_0);
            }
        },
        TermV::BvPred(_, a, b) => {
            lemma_eval_wf(*a, env);
            lemma_eval_wf(*b, env);
        },
        _ => {},
    }
}

/// Every value produced by `eval_list` is well-formed.
pub proof fn lemma_eval_list_wf(ts: Seq<TermV>, env: Map<Seq<char>, Val>)
    ensures
        eval_list(ts, env) matches Some(vs) ==> forall|i: int|
            0 <= i < vs.len() ==> val_wf(#[trigger] vs[i]),
    decreases ts,
{
    if ts.len() > 0 {
        lemma_eval_list_wf(ts.drop_last(), env);
        lemma_eval_wf(ts.last(), env);
        if eval_list(ts, env) is Some {
            let vs = eval_list(ts, env)->Some_0;
            let rest = eval_list(ts.drop_last(), env)->Some_0;
            assert(forall|i: int| 0 <= i < rest.len() ==> vs[i] == #[trigger] rest[i]);
        }
    }
}

/// `pow2` is monotone.
pub proof fn lemma_pow2_le(w1: u32, w2: u32)
    requires
        w1 <= w2,
    ensures
        pow2(w1 as nat) <= pow2(w2 as nat),
    decreases w2 - w1,
{
    if w1 < w2 {
        lemma_pow2_le(w1, (w2 - 1) as u32);
        lemma_pow2_unfold(w2 as nat);
    }
}

/// A fold of an n-ary operator stays below `2^w` when the first input does.
proof fn lemma_fold_bv_nary_range(op: BvNaryOp, w: u32, xs: Seq<u32>)
    requires
        w <= 32,
        xs.len() >= 1 ==> (xs[0] as nat) < pow2(w as nat),
    ensures
        xs.len() >= 1 ==> (fold_bv_nary(op, w, xs) as nat) < pow2(w as nat),
    decreases xs,
{
    lemma_pow2_pos(w as nat);
    if xs.len() > 1 {
        lemma_fold_bv_nary_range(op, w, xs.drop_last());
        lemma_mod_range(w);
    }
}

/// The result of `% 2^w` lies in `0 .. 2^w`, and `2^w` fits below `2^33`.
proof fn lemma_mod_range(w: u32)
    requires
        w <= 32,
    ensures
        forall|x: int| 0 <= #[trigger] (x % (pow2(w as nat) as int)) < pow2(w as nat),
        pow2(w as nat) <= 0x1_0000_0000,
{
    lemma_pow2_pos(w as nat);
    lemma_pow2_le(w, 32);
    lemma2_to64();
}

} // verus!
