//! The executable term evaluator: a faithful mirror of [`crate::ir::eval`].
//!
//! An environment is a list of `(name, value)` pairs; a later binding for a
//! name shadows an earlier one. Running the evaluator on a term checks a
//! candidate model: the result is provably the value the semantics assigns.
use vstd::prelude::*;
use vstd::arithmetic::power2::pow2;
use vstd::arithmetic::power2::lemma_pow2_pos;
use vstd::arithmetic::power2::lemma_pow2_unfold;
use crate::ir::Term;
use crate::ir::TermV;
use crate::ir::Sort;
use crate::ir::Val;
use crate::ir::BvNaryOp;
use crate::ir::BvBinOp;
use crate::ir::BvBinPred;
use crate::ir::MAX_BV_WIDTH;
use crate::ir::eval;
use crate::ir::eval_list;
use crate::ir::term_view;
use crate::ir::term_view_list;
use crate::ir::lemma_term_view_list;
use crate::ir::lemma_eval_wf;
use crate::ir::lemma_pow2_le;
use crate::ir::val_wf;
use crate::ir::val_sort;
use crate::ir::vals_all_b;
use crate::ir::vals_all_bv;
use crate::ir::bv_payloads;
use crate::ir::fold_bv_nary;
use crate::ir::apply_bv_nary;
use crate::ir::apply_bv_bin;
use crate::ir::apply_bv_pred;
use crate::ir::to_signed;

verus! {

/// The binding map described by an environment list: later pairs win.
pub open spec fn env_map(pairs: Seq<(String, Val)>) -> Map<Seq<char>, Val>
    decreases pairs,
{
    if pairs.len() == 0 {
        Map::empty()
    } else {
        env_map(pairs.drop_last()).insert(pairs.last().0@, pairs.last().1)
    }
}

/// `2^w` as a machine word.
pub fn pow2_u64(w: u32) -> (r: u64)
    requires
        w <= 32,
    ensures
        r == pow2(w as nat),
{
    let mut r: u64 = 1;
    let mut j: u32 = 0;
    proof {
        vstd::arithmetic::power2::lemma2_to64();
    }
    while j < w
        invariant
            j <= w <= 32,
            r == pow2(j as nat),
        decreases w - j,
    {
        proof {
            lemma_pow2_unfold((j + 1) as nat);
            lemma_pow2_le((j + 1) as u32, 32);
            vstd::arithmetic::power2::lemma2_to64();
        }
        r = r * 2;
        j = j + 1;
    }
    r
}

/// One n-ary operator step at width `w`.
fn apply_nary_exec(op: BvNaryOp, w: u32, a: u32, b: u32) -> (r: u32)
    requires
        1 <= w <= MAX_BV_WIDTH,
    ensures
        r == apply_bv_nary(op, w, a, b),
{
    let p = pow2_u64(w);
    proof {
        lemma_pow2_pos(w as nat);
    }
    proof {
        assert(a as u64 * b as u64 <= 0xffff_ffffu64 * 0xffff_ffffu64) by (nonlinear_arith)
            requires
                a <= 0xffff_ffffu64 && b <= 0xffff_ffffu64,
        ;
    }
    let x: u64 = match op {
        BvNaryOp::Add => a as u64 + b as u64,
        BvNaryOp::Mul => a as u64 * b as u64,
        BvNaryOp::And => (a & b) as u64,
        BvNaryOp::Or => (a | b) as u64,
        BvNaryOp::Xor => (a ^ b) as u64,
    };
    proof {
        lemma_pow2_le(w, 32);
        vstd::arithmetic::power2::lemma2_to64();
    }
    (x % p) as u32
}

/// One binary operator step at width `w`.
fn apply_bin_exec(op: BvBinOp, w: u32, a: u32, b: u32) -> (r: u32)
    requires
        1 <= w <= MAX_BV_WIDTH,
        (b as nat) < pow2(w as nat),
    ensures
        r == apply_bv_bin(op, w, a, b),
{
    let p = pow2_u64(w);
    proof {
        lemma_pow2_pos(w as nat);
        lemma_pow2_le(w, 32);
        vstd::arithmetic::power2::lemma2_to64();
    }
    match op {
        BvBinOp::Sub => ((a as u64 + p - b as u64) % p) as u32,
        BvBinOp::Udiv => if b == 0 {
            (p - 1) as u32
        } else {
            a / b
        },
    }
}

/// The signed reading of a `w`-bit value.
fn to_signed_exec(w: u32, x: u32) -> (r: i64)
    requires
        1 <= w <= MAX_BV_WIDTH,
    ensures
        r == to_signed(w, x),
{
    let half = pow2_u64(w - 1);
    proof {
        lemma_pow2_le(w, 32);
        vstd::arithmetic::power2::lemma2_to64();
    }
    if x as u64 >= half {
        x as i64 - pow2_u64(w) as i64
    } else {
        x as i64
    }
}

/// One signed comparison at width `w`.
fn apply_pred_exec(op: BvBinPred, w: u32, a: u32, b: u32) -> (r: bool)
    requires
        1 <= w <= MAX_BV_WIDTH,
    ensures
        r == apply_bv_pred(op, w, a, b),
{
    let sa = to_signed_exec(w, a);
    let sb = to_signed_exec(w, b);
    match op {
        BvBinPred::Slt => sa < sb,
        BvBinPred::Sle => sa <= sb,
        BvBinPred::Sgt => sa > sb,
        BvBinPred::Sge => sa >= sb,
    }
}

/// Whether a value is well-formed, decided at run time.
fn val_wf_exec(v: &Val) -> (r: bool)
    ensures
        r == val_wf(*v),
{
    match v {
        Val::B(_) => true,
        Val::Bv(w, x) => if 1 <= *w && *w <= MAX_BV_WIDTH {
            (*x as u64) < pow2_u64(*w)
        } else {
            false
        },
    }
}

/// Looks a name up in an environment list; the latest binding wins.
fn lookup_var(env: &Vec<(String, Val)>, name: &String) -> (r: Option<Val>)
    ensures
        env_map(env@).contains_key(name@) ==> r == Some(env_map(env@)[name@]),
        !env_map(env@).contains_key(name@) ==> r is None,
{
    let ghost full = env_map(env@);
    let mut i: usize = env.len();
    proof {
        assert(env@.take(i as int) =~= env@);
    }
    while i > 0
        invariant
            i <= env@.len(),
            full == env_map(env@),
            full.contains_key(name@) == env_map(env@.take(i as int)).contains_key(name@),
            full.contains_key(name@) ==> env_map(env@.take(i as int)).contains_key(name@)
                && env_map(env@.take(i as int))[name@] == full[name@],
        decreases i,
    {
        i = i - 1;
        proof {
            assert(env@.take(i + 1 as int).drop_last() =~= env@.take(i as int));
            assert(env@.take(i + 1 as int).last() == env@[i as int]);
        }
        if env[i].0 == *name {
            return Some(env[i].1);
        }
    }
    proof {
        assert(env@.take(0) =~= Seq::<(String, Val)>::empty());
    }
    None
}

/// Evaluates a term under an environment. The result is exactly the value
/// the semantics [`eval`] assigns to the term's model.
pub fn eval_term(t: &Term, env: &Vec<(String, Val)>) -> (r: Option<Val>)
    ensures
        r == eval(t@, env_map(env@)),
    decreases *t,
{
    let ghost m = env_map(env@);
    match t {
        Term::BoolLit(b) => Some(Val::B(*b)),
        Term::BvLit(v, w) => {
            if 1 <= *w && *w <= MAX_BV_WIDTH && (*v as u64) < pow2_u64(*w) {
                Some(Val::Bv(*w, *v))
            } else {
                None
            }
        },
        Term::Var(n, s) => {
            match lookup_var(env, n) {
                Some(v) => {
                    if val_wf_exec(&v) && val_sort_exec(&v) == *s {
                        Some(v)
                    } else {
                        None
                    }
                },
                None => None,
            }
        },
        Term::Not(a) => {
            match eval_term(a, env) {
                Some(Val::B(b)) => Some(Val::B(!b)),
                _ => None,
            }
        },
        Term::Equal(a, b) => {
            let va = eval_term(a, env);
            let vb = eval_term(b, env);
            match (va, vb) {
                (Some(x), Some(y)) => {
                    if val_sort_exec(&x) == val_sort_exec(&y) {
                        Some(Val::B(x == y))
                    } else {
                        None
                    }
                },
                _ => None,
            }
        },
        Term::NaryAnd(args) => {
            proof {
                assert(decreases_to!(*t => t->NaryAnd_0));
            }
            match eval_term_list(args, env) {
                Some(vs) => eval_bool_fold(&vs, true),
                None => None,
            }
        },
        Term::NaryOr(args) => {
            proof {
                assert(decreases_to!(*t => t->NaryOr_0));
            }
            match eval_term_list(args, env) {
                Some(vs) => eval_bool_fold(&vs, false),
                None => None,
            }
        },
        Term::Ite(c, a, b) => {
            let vc = eval_term(c, env);
            let va = eval_term(a, env);
            let vb = eval_term(b, env);
            match (vc, va, vb) {
                (Some(Val::B(cb)), Some(x), Some(y)) => {
                    if val_sort_exec(&x) == val_sort_exec(&y) {
                        if cb {
                            Some(x)
                        } else {
                            Some(y)
                        }
                    } else {
                        None
                    }
                },
                _ => None,
            }
        },
        Term::BoolToBv(a) => {
            match eval_term(a, env) {
                Some(Val::B(b)) => Some(Val::Bv(1, if b { 1 } else { 0 })),
                _ => None,
            }
        },
        Term::ZeroExt(k, a) => {
            match eval_term(a, env) {
                Some(Val::Bv(w, x)) => {
                    if *k <= MAX_BV_WIDTH && w <= MAX_BV_WIDTH - *k {
                        Some(Val::Bv(w + *k, x))
                    } else {
                        None
                    }
                },
                _ => None,
            }
        },
        Term::BvNary(op, args) => {
            proof {
                assert(decreases_to!(*t => t->BvNary_1));
            }
            match eval_term_list(args, env) {
                Some(vs) => {
                    proof {
                        crate::ir::lemma_eval_list_wf(term_view_list(args@), m);
                    }
                    eval_bv_fold(*op, &vs)
                },
                None => None,
            }
        },
        Term::BvBin(op, a, b) => {
            let va = eval_term(a, env);
            let vb = eval_term(b, env);
            proof {
                lemma_eval_wf((*a)@, m);
                lemma_eval_wf((*b)@, m);
            }
            match (va, vb) {
                (Some(Val::Bv(wa, x)), Some(Val::Bv(wb, y))) => {
                    if wa == wb && 1 <= wa && wa <= MAX_BV_WIDTH {
                        Some(Val::Bv(wa, apply_bin_exec(*op, wa, x, y)))
                    } else {
                        None
                    }
                },
                _ => None,
            }
        },
        Term::BvNeg(a) => {
            let va = eval_term(a, env);
            proof {
                lemma_eval_wf((*a)@, m);
            }
            match va {
                Some(Val::Bv(w, x)) => {
                    if 1 <= w && w <= MAX_BV_WIDTH {
                        let p = pow2_u64(w);
                        proof {
                            lemma_pow2_pos(w as nat);
                            lemma_pow2_le(w, 32);
                            vstd::arithmetic::power2::lemma2_to64();
                        }
                        Some(Val::Bv(w, ((p - x as u64) % p) as u32))
                    } else {
                        None
                    }
                },
                _ => None,
            }
        },
        Term::BvPred(op, a, b) => {
            let va = eval_term(a, env);
            let vb = eval_term(b, env);
            proof {
                lemma_eval_wf((*a)@, m);
                lemma_eval_wf((*b)@, m);
            }
            match (va, vb) {
                (Some(Val::Bv(wa, x)), Some(Val::Bv(wb, y))) => {
                    if wa == wb && 1 <= wa && wa <= MAX_BV_WIDTH {
                        Some(Val::B(apply_pred_exec(*op, wa, x, y)))
                    } else {
                        None
                    }
                },
                _ => None,
            }
        },
    }
}

/// The sort of a value, decided at run time.
fn val_sort_exec(v: &Val) -> (s: Sort)
    ensures
        s == val_sort(*v),
{
    match v {
        Val::B(_) => Sort::Bool,
        Val::Bv(w, _) => Sort::BitVector(*w),
    }
}

/// Evaluates each term of a list.
fn eval_term_list(ts: &Vec<Term>, env: &Vec<(String, Val)>) -> (r: Option<Vec<Val>>)
    ensures
        r matches Some(vs) ==> eval_list(term_view_list(ts@), env_map(env@)) == Some(vs@),
        r is None ==> eval_list(term_view_list(ts@), env_map(env@)) is None,
    decreases ts@,
{
    let mut vs: Vec<Val> = Vec::new();
    let mut i: usize = 0;
    proof {
        lemma_term_view_list(ts@);
        assert(term_view_list(ts@).take(0) =~= term_view_list(ts@.take(0)));
    }
    while i < ts.len()
        invariant
            i <= ts@.len(),
            vs@.len() == i,
            eval_list(term_view_list(ts@.take(i as int)), env_map(env@)) == Some(vs@),
        decreases ts@.len() - i,
    {
        proof {
            assert(decreases_to!(ts@ => ts@[i as int]));
        }
        let v = eval_term(&ts[i], env);
        proof {
            assert(ts@.take(i + 1 as int).drop_last() =~= ts@.take(i as int));
            assert(ts@.take(i + 1 as int).last() == ts@[i as int]);
            lemma_term_view_list(ts@.take(i + 1 as int));
            lemma_term_view_list(ts@.take(i as int));
            assert(term_view_list(ts@.take(i + 1 as int)).drop_last() =~= term_view_list(
                ts@.take(i as int),
            ));
            assert(term_view_list(ts@.take(i + 1 as int)).last() == term_view(ts@[i as int]));
        }
        match v {
            Some(x) => {
                vs.push(x);
            },
            None => {
                proof {
                    lemma_term_view_list(ts@);
                    assert(term_view_list(ts@).take(i + 1 as int) =~= term_view_list(
                        ts@.take(i + 1 as int),
                    )) by {
                        lemma_term_view_list(ts@);
                        lemma_term_view_list(ts@.take(i + 1 as int));
                    }
                    lemma_eval_list_none_prefix(term_view_list(ts@), env_map(env@), i as int);
                }
                return None;
            },
        }
        i = i + 1;
    }
    proof {
        assert(ts@.take(ts@.len() as int) =~= ts@);
    }
    Some(vs)
}

/// If a prefix of a term list fails to evaluate, so does the whole list.
proof fn lemma_eval_list_none_prefix(ts: Seq<TermV>, env: Map<Seq<char>, Val>, k: int)
    requires
        0 <= k < ts.len(),
        eval_list(ts.take(k + 1), env) is None,
    ensures
        eval_list(ts, env) is None,
    decreases ts.len() - k,
{
    if k + 1 == ts.len() {
        assert(ts.take(k + 1) =~= ts);
    } else {
        assert(ts.take(k + 2).drop_last() =~= ts.take(k + 1));
        lemma_eval_list_none_prefix(ts, env, k + 1);
    }
}

/// Folds a boolean connective over an evaluated list: conjunction when
/// `conj` is set, disjunction otherwise.
fn eval_bool_fold(vs: &Vec<Val>, conj: bool) -> (r: Option<Val>)
    ensures
        conj ==> r == (if vals_all_b(vs@) {
            Some(Val::B(forall|i: int| 0 <= i < vs@.len() ==> (#[trigger] vs@[i])->B_0))
        } else {
            None::<Val>
        }),
        !conj ==> r == (if vals_all_b(vs@) {
            Some(Val::B(exists|i: int| 0 <= i < vs@.len() && (#[trigger] vs@[i])->B_0))
        } else {
            None::<Val>
        }),
{
    let mut acc_and: bool = true;
    let mut acc_or: bool = false;
    let mut i: usize = 0;
    while i < vs.len()
        invariant
            i <= vs@.len(),
            forall|j: int| 0 <= j < i ==> (#[trigger] vs@[j]) is B,
            acc_and == (forall|j: int| 0 <= j < i ==> (#[trigger] vs@[j])->B_0),
            acc_or == (exists|j: int| 0 <= j < i && (#[trigger] vs@[j])->B_0),
        decreases vs@.len() - i,
    {
        match vs[i] {
            Val::B(b) => {
                acc_and = acc_and && b;
                acc_or = acc_or || b;
            },
            _ => {
                assert(!vals_all_b(vs@));
                return None;
            },
        }
        i = i + 1;
    }
    if conj {
        Some(Val::B(acc_and))
    } else {
        Some(Val::B(acc_or))
    }
}

/// Folds an n-ary bit-vector operator over an evaluated list.
fn eval_bv_fold(op: BvNaryOp, vs: &Vec<Val>) -> (r: Option<Val>)
    ensures
        r == (if vs@.len() >= 1 && vals_all_bv(vs@, vs@[0]->Bv_0) && 1 <= vs@[0]->Bv_0 <= MAX_BV_WIDTH {
            Some(Val::Bv(vs@[0]->Bv_0, fold_bv_nary(op, vs@[0]->Bv_0, bv_payloads(vs@))))
        } else {
            None::<Val>
        }),
{
    if vs.len() == 0 {
        return None;
    }
    let w: u32 = match vs[0] {
        Val::Bv(w0, _) => w0,
        _ => {
            assert(!vals_all_bv(vs@, vs@[0]->Bv_0));
            return None;
        },
    };
    if !(1 <= w && w <= MAX_BV_WIDTH) {
        return None;
    }
    let mut acc: u32 = match vs[0] {
        Val::Bv(_, x0) => x0,
        _ => 0,
    };
    let mut i: usize = 1;
    proof {
        assert(bv_payloads(vs@).take(1) =~= bv_payloads(vs@.take(1)));
        assert(bv_payloads(vs@)[0] == vs@[0]->Bv_1);
    }
    while i < vs.len()
        invariant
            1 <= i <= vs@.len(),
            vs@.len() >= 1,
            w == vs@[0]->Bv_0,
            1 <= w <= MAX_BV_WIDTH,
            vs@[0] is Bv,
            forall|j: int| 0 <= j < i ==> vs@[j] == Val::Bv(w, (#[trigger] vs@[j])->Bv_1),
            acc == fold_bv_nary(op, w, bv_payloads(vs@).take(i as int)),
        decreases vs@.len() - i,
    {
        match vs[i] {
            Val::Bv(wi, xi) => {
                if wi != w {
                    assert(!vals_all_bv(vs@, vs@[0]->Bv_0));
                    return None;
                }
                proof {
                    assert(bv_payloads(vs@).take(i + 1 as int).drop_last() =~= bv_payloads(
                        vs@,
                    ).take(i as int));
                    assert(bv_payloads(vs@).take(i + 1 as int).last() == vs@[i as int]->Bv_1);
                }
                acc = apply_nary_exec(op, w, acc, xi);
            },
            _ => {
                assert(!vals_all_bv(vs@, vs@[0]->Bv_0));
                return None;
            },
        }
        i = i + 1;
    }
    proof {
        assert(bv_payloads(vs@).take(vs@.len() as int) =~= bv_payloads(vs@));
    }
    Some(Val::Bv(w, acc))
}

} // verus!
