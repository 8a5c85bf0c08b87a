//! The typed term algebra: the cast table, the operator wrappers and
//! their closure properties, and the type lattice.
use pyfront::ir::BvBinOp;
use pyfront::ir::BvBinPred;
use pyfront::ir::BvNaryOp;
use pyfront::ir::Term;
use pyfront::ir::Val;
use pyfront::circify::CirCtx;
use pyfront::errors::PyError;
use pyfront::eval::eval_term;
use pyfront::term::add;
use pyfront::term::bitand;
use pyfront::term::bitor;
use pyfront::term::bitxor;
use pyfront::term::cast;
use pyfront::term::cast_to_bool;
use pyfront::term::eq;
use pyfront::term::floor_div;
use pyfront::term::ge;
use pyfront::term::gt;
use pyfront::term::le;
use pyfront::term::lt;
use pyfront::term::minus;
use pyfront::term::mult;
use pyfront::term::ne;
use pyfront::term::sub;
use pyfront::term::PyTerm;
use pyfront::term::PyTermData;
use pyfront::ty::Ty;
use pyfront::ty::PY_INT_SIZE;

fn int_term(v: u32) -> PyTerm {
    PyTerm { term: PyTermData::Int(Term::BvLit(v, PY_INT_SIZE)) }
}

fn bool_term(b: bool) -> PyTerm {
    PyTerm { term: PyTermData::Bool(Term::BoolLit(b)) }
}

#[test]
fn ty_parses_exactly_int_and_bool() {
    assert_eq!(Ty::from_str("int"), Ok(Ty::Int));
    assert_eq!(Ty::from_str("bool"), Ok(Ty::Bool));
    assert_eq!(Ty::from_str("float"), Err(PyError::UnknownType));
    assert_eq!(Ty::from_str(""), Err(PyError::UnknownType));
}

#[test]
fn ty_maps_to_exactly_one_sort() {
    assert_eq!(Ty::Int.sort(), pyfront::ir::Sort::BitVector(32));
    assert_eq!(Ty::Bool.sort(), pyfront::ir::Sort::Bool);
}

#[test]
fn ty_defaults_are_zero_and_false() {
    let ctx = CirCtx::new();
    assert_eq!(
        Ty::Int.default(&ctx).term,
        PyTermData::Int(Term::BvLit(0, 32))
    );
    assert_eq!(
        Ty::Bool.default(&ctx).term,
        PyTermData::Bool(Term::BoolLit(false))
    );
}

#[test]
fn cast_is_idempotent_on_own_tag() {
    // Cast idempotence on concrete values of both tags.
    let v = int_term(17);
    assert_eq!(cast(Some(Ty::Int), v.clone()), v);
    let b = bool_term(true);
    assert_eq!(cast(Some(Ty::Bool), b.clone()), b);
}

#[test]
fn cast_bool_to_int_zero_extends() {
    let c = cast(Some(Ty::Int), bool_term(true));
    assert_eq!(
        c.term,
        PyTermData::Int(Term::ZeroExt(
            31,
            Box::new(Term::BoolToBv(Box::new(Term::BoolLit(true))))
        ))
    );
}

#[test]
fn cast_int_to_bool_tests_nonzero() {
    let c = cast(Some(Ty::Bool), int_term(5));
    assert_eq!(
        c.term,
        PyTermData::Bool(Term::Not(Box::new(Term::Equal(
            Box::new(Term::BvLit(0, 32)),
            Box::new(Term::BvLit(5, 32))
        ))))
    );
}

#[test]
fn cast_round_trip_preserves_booleans() {
    // cast(Bool, cast(Int, b)) evaluates back to b for both literals.
    for b in [true, false] {
        let round = cast(Some(Ty::Bool), cast(Some(Ty::Int), bool_term(b)));
        let t = round.term.simple_term();
        assert_eq!(eval_term(&t, &vec![]), Some(Val::B(b)));
    }
}

#[test]
fn arithmetic_results_are_int_tagged() {
    // Operator closure: every arithmetic operator lands on Int,
    // whatever the operand tags.
    let ops: Vec<fn(PyTerm, PyTerm) -> Result<PyTerm, String>> =
        vec![add, sub, mult, floor_div, bitand, bitor, bitxor];
    for f in ops {
        let r = f(int_term(1), int_term(2)).unwrap();
        assert_eq!(r.type_(), Ty::Int);
        let r = f(bool_term(true), int_term(2)).unwrap();
        assert_eq!(r.type_(), Ty::Int);
        let r = f(int_term(1), bool_term(false)).unwrap();
        assert_eq!(r.type_(), Ty::Int);
        let r = f(bool_term(true), bool_term(false)).unwrap();
        assert_eq!(r.type_(), Ty::Int);
    }
    assert_eq!(minus(int_term(3)).unwrap().type_(), Ty::Int);
    assert_eq!(minus(bool_term(true)).unwrap().type_(), Ty::Int);
}

#[test]
fn comparison_results_are_bool_tagged() {
    let ops: Vec<fn(PyTerm, PyTerm) -> Result<PyTerm, String>> =
        vec![eq, ne, lt, le, gt, ge];
    for f in ops {
        let r = f(int_term(1), int_term(2)).unwrap();
        assert_eq!(r.type_(), Ty::Bool);
        let r = f(int_term(1), bool_term(true)).unwrap();
        assert_eq!(r.type_(), Ty::Bool);
        let r = f(bool_term(true), int_term(1)).unwrap();
        assert_eq!(r.type_(), Ty::Bool);
        let r = f(bool_term(true), bool_term(false)).unwrap();
        assert_eq!(r.type_(), Ty::Bool);
    }
}

#[test]
fn add_builds_nary_add_and_lifts_booleans() {
    let r = add(int_term(1), int_term(2)).unwrap();
    assert_eq!(
        r.term,
        PyTermData::Int(Term::BvNary(
            BvNaryOp::Add,
            vec![Term::BvLit(1, 32), Term::BvLit(2, 32)]
        ))
    );
    // A boolean left operand is cast to Int first.
    let r = add(bool_term(true), int_term(2)).unwrap();
    match r.term {
        PyTermData::Int(Term::BvNary(BvNaryOp::Add, args)) => {
            assert!(matches!(args[0], Term::ZeroExt(31, _)));
            assert_eq!(args[1], Term::BvLit(2, 32));
        }
        other => panic!("unexpected shape: {:?}", other),
    }
}

#[test]
fn sub_and_floor_div_are_binary_nodes() {
    let r = sub(int_term(5), int_term(3)).unwrap();
    assert_eq!(
        r.term,
        PyTermData::Int(Term::BvBin(
            BvBinOp::Sub,
            Box::new(Term::BvLit(5, 32)),
            Box::new(Term::BvLit(3, 32))
        ))
    );
    let r = floor_div(int_term(6), int_term(3)).unwrap();
    assert_eq!(
        r.term,
        PyTermData::Int(Term::BvBin(
            BvBinOp::Udiv,
            Box::new(Term::BvLit(6, 32)),
            Box::new(Term::BvLit(3, 32))
        ))
    );
}

#[test]
fn comparisons_use_signed_predicates() {
    let r = lt(int_term(1), int_term(2)).unwrap();
    assert_eq!(
        r.term,
        PyTermData::Bool(Term::BvPred(
            BvBinPred::Slt,
            Box::new(Term::BvLit(1, 32)),
            Box::new(Term::BvLit(2, 32))
        ))
    );
    let r = ne(int_term(1), int_term(2)).unwrap();
    assert_eq!(
        r.term,
        PyTermData::Bool(Term::Not(Box::new(Term::Equal(
            Box::new(Term::BvLit(1, 32)),
            Box::new(Term::BvLit(2, 32))
        ))))
    );
}

#[test]
fn cast_to_bool_of_bool_is_the_term_itself() {
    let t = cast_to_bool(bool_term(true));
    assert_eq!(t, Term::BoolLit(true));
}

#[test]
fn simple_term_extracts_under_either_tag() {
    assert_eq!(int_term(9).term.simple_term(), Term::BvLit(9, 32));
    assert_eq!(bool_term(true).term.simple_term(), Term::BoolLit(true));
    assert_eq!(int_term(9).type_(), Ty::Int);
    assert_eq!(bool_term(true).term.type_(), Ty::Bool);
}
