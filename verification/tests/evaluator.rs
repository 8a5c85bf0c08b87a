//! The term evaluator: fixed-width arithmetic with wrap-around, signed
//! comparison, the boolean connectives, and environment lookup.
use pyfront::ir::BvBinOp;
use pyfront::ir::BvBinPred;
use pyfront::ir::BvNaryOp;
use pyfront::ir::Sort;
use pyfront::ir::Term;
use pyfront::ir::Val;
use pyfront::eval::eval_term;
use pyfront::builtins::parse_int_literal;
use pyfront::builtins::range;
use pyfront::ast::AstArg;
use pyfront::ast::AstExpr;
use pyfront::errors::PyError;

fn bv(v: u32) -> Term {
    Term::BvLit(v, 32)
}

fn nary(op: BvNaryOp, a: Term, b: Term) -> Term {
    Term::BvNary(op, vec![a, b])
}

fn no_env() -> Vec<(String, Val)> {
    vec![]
}

#[test]
fn addition_wraps_at_the_width() {
    let t = nary(BvNaryOp::Add, bv(u32::MAX), bv(1));
    assert_eq!(eval_term(&t, &no_env()), Some(Val::Bv(32, 0)));
}

#[test]
fn multiplication_wraps() {
    let t = nary(BvNaryOp::Mul, bv(0x8000_0000), bv(2));
    assert_eq!(eval_term(&t, &no_env()), Some(Val::Bv(32, 0)));
}

#[test]
fn subtraction_wraps_below_zero() {
    let t = Term::BvBin(BvBinOp::Sub, Box::new(bv(0)), Box::new(bv(1)));
    assert_eq!(eval_term(&t, &no_env()), Some(Val::Bv(32, u32::MAX)));
}

#[test]
fn division_by_zero_is_all_ones() {
    let t = Term::BvBin(BvBinOp::Udiv, Box::new(bv(7)), Box::new(bv(0)));
    assert_eq!(eval_term(&t, &no_env()), Some(Val::Bv(32, u32::MAX)));
    let t = Term::BvBin(BvBinOp::Udiv, Box::new(bv(7)), Box::new(bv(2)));
    assert_eq!(eval_term(&t, &no_env()), Some(Val::Bv(32, 3)));
}

#[test]
fn negation_is_twos_complement() {
    let t = Term::BvNeg(Box::new(bv(1)));
    assert_eq!(eval_term(&t, &no_env()), Some(Val::Bv(32, u32::MAX)));
    let t = Term::BvNeg(Box::new(bv(0)));
    assert_eq!(eval_term(&t, &no_env()), Some(Val::Bv(32, 0)));
}

#[test]
fn bitwise_operators() {
    assert_eq!(
        eval_term(&nary(BvNaryOp::And, bv(0b1100), bv(0b1010)), &no_env()),
        Some(Val::Bv(32, 0b1000))
    );
    assert_eq!(
        eval_term(&nary(BvNaryOp::Or, bv(0b1100), bv(0b1010)), &no_env()),
        Some(Val::Bv(32, 0b1110))
    );
    assert_eq!(
        eval_term(&nary(BvNaryOp::Xor, bv(0b1100), bv(0b1010)), &no_env()),
        Some(Val::Bv(32, 0b0110))
    );
}

#[test]
fn comparison_is_signed() {
    // -1 (all ones) is smaller than 0 under signed comparison.
    let t = Term::BvPred(BvBinPred::Slt, Box::new(bv(u32::MAX)), Box::new(bv(0)));
    assert_eq!(eval_term(&t, &no_env()), Some(Val::B(true)));
    let t = Term::BvPred(BvBinPred::Sgt, Box::new(bv(u32::MAX)), Box::new(bv(0)));
    assert_eq!(eval_term(&t, &no_env()), Some(Val::B(false)));
    let t = Term::BvPred(BvBinPred::Sle, Box::new(bv(3)), Box::new(bv(3)));
    assert_eq!(eval_term(&t, &no_env()), Some(Val::B(true)));
    let t = Term::BvPred(BvBinPred::Sge, Box::new(bv(2)), Box::new(bv(3)));
    assert_eq!(eval_term(&t, &no_env()), Some(Val::B(false)));
}

#[test]
fn equality_requires_matching_sorts() {
    let t = Term::Equal(Box::new(bv(1)), Box::new(bv(1)));
    assert_eq!(eval_term(&t, &no_env()), Some(Val::B(true)));
    let t = Term::Equal(Box::new(bv(1)), Box::new(Term::BoolLit(true)));
    assert_eq!(eval_term(&t, &no_env()), None);
}

#[test]
fn boolean_connectives() {
    let t = Term::NaryAnd(vec![Term::BoolLit(true), Term::BoolLit(false)]);
    assert_eq!(eval_term(&t, &no_env()), Some(Val::B(false)));
    let t = Term::NaryOr(vec![Term::BoolLit(true), Term::BoolLit(false)]);
    assert_eq!(eval_term(&t, &no_env()), Some(Val::B(true)));
    // The empty conjunction is true; the empty disjunction is false.
    assert_eq!(eval_term(&Term::NaryAnd(vec![]), &no_env()), Some(Val::B(true)));
    assert_eq!(eval_term(&Term::NaryOr(vec![]), &no_env()), Some(Val::B(false)));
    let t = Term::Not(Box::new(Term::BoolLit(true)));
    assert_eq!(eval_term(&t, &no_env()), Some(Val::B(false)));
}

#[test]
fn ite_picks_by_condition() {
    let t = Term::Ite(
        Box::new(Term::BoolLit(true)),
        Box::new(bv(1)),
        Box::new(bv(2)),
    );
    assert_eq!(eval_term(&t, &no_env()), Some(Val::Bv(32, 1)));
    let t = Term::Ite(
        Box::new(Term::BoolLit(false)),
        Box::new(bv(1)),
        Box::new(bv(2)),
    );
    assert_eq!(eval_term(&t, &no_env()), Some(Val::Bv(32, 2)));
}

#[test]
fn bool_to_bv_and_zero_extension() {
    let t = Term::ZeroExt(31, Box::new(Term::BoolToBv(Box::new(Term::BoolLit(true)))));
    assert_eq!(eval_term(&t, &no_env()), Some(Val::Bv(32, 1)));
    let t = Term::ZeroExt(31, Box::new(Term::BoolToBv(Box::new(Term::BoolLit(false)))));
    assert_eq!(eval_term(&t, &no_env()), Some(Val::Bv(32, 0)));
}

#[test]
fn variables_read_the_environment() {
    let env = vec![
        ("x".to_string(), Val::Bv(32, 7)),
        ("b".to_string(), Val::B(true)),
    ];
    let t = Term::Var("x".to_string(), Sort::BitVector(32));
    assert_eq!(eval_term(&t, &env), Some(Val::Bv(32, 7)));
    let t = Term::Var("b".to_string(), Sort::Bool);
    assert_eq!(eval_term(&t, &env), Some(Val::B(true)));
    // A missing variable, or one at the wrong sort, has no value.
    let t = Term::Var("y".to_string(), Sort::BitVector(32));
    assert_eq!(eval_term(&t, &env), None);
    let t = Term::Var("x".to_string(), Sort::Bool);
    assert_eq!(eval_term(&t, &env), None);
}

#[test]
fn later_bindings_shadow_earlier_ones() {
    let env = vec![
        ("x".to_string(), Val::Bv(32, 1)),
        ("x".to_string(), Val::Bv(32, 2)),
    ];
    let t = Term::Var("x".to_string(), Sort::BitVector(32));
    assert_eq!(eval_term(&t, &env), Some(Val::Bv(32, 2)));
}

#[test]
fn literal_digits_wrap_modulo_the_width() {
    assert_eq!(parse_int_literal(&b"0".to_vec()), Ok(0));
    assert_eq!(parse_int_literal(&b"4294967295".to_vec()), Ok(u32::MAX));
    assert_eq!(parse_int_literal(&b"4294967296".to_vec()), Ok(0));
    assert_eq!(parse_int_literal(&b"4294967297".to_vec()), Ok(1));
    assert_eq!(parse_int_literal(&b"".to_vec()), Err(PyError::TypeError));
    assert_eq!(parse_int_literal(&b"12a".to_vec()), Err(PyError::TypeError));
}

#[test]
fn range_accepts_one_or_two_literals() {
    let one = vec![AstArg::Positional(AstExpr::IntLit(b"5".to_vec()))];
    assert_eq!(range(&one), Ok((0, 5)));
    let two = vec![
        AstArg::Positional(AstExpr::IntLit(b"2".to_vec())),
        AstArg::Positional(AstExpr::IntLit(b"7".to_vec())),
    ];
    assert_eq!(range(&two), Ok((2, 7)));
    let three = vec![
        AstArg::Positional(AstExpr::IntLit(b"0".to_vec())),
        AstArg::Positional(AstExpr::IntLit(b"9".to_vec())),
        AstArg::Positional(AstExpr::IntLit(b"3".to_vec())),
    ];
    assert_eq!(range(&three), Err(PyError::UnsupportedCall));
    let named = vec![AstArg::Positional(AstExpr::Name("n".to_string()))];
    assert_eq!(range(&named), Err(PyError::InvalidRangeArgs));
    assert_eq!(range(&vec![]), Err(PyError::InvalidRangeArgs));
}
