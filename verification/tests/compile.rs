//! End-to-end compilations: each scenario builds the syntax of a small
//! source file, compiles it, and checks the bug predicate by evaluating
//! it under concrete inputs. A predicate that evaluates to `true` under
//! some input has a model (the property fails); one that yields `false`
//! under every tried input is consistent with the property holding.
use pyfront::ast::AstArg;
use pyfront::ast::AstBop;
use pyfront::ast::AstCompound;
use pyfront::ast::AstExpr;
use pyfront::ast::AstFuncdef;
use pyfront::ast::AstStmt;
use pyfront::ast::AstUop;
use pyfront::errors::PyError;
use pyfront::eval::eval_term;
use pyfront::ir::Term;
use pyfront::ir::Val;
use pyfront::lower::Python;

fn name(s: &str) -> AstExpr {
    AstExpr::Name(s.to_string())
}

fn int_lit(n: &str) -> AstExpr {
    AstExpr::IntLit(n.as_bytes().to_vec())
}

fn bop(op: AstBop, a: AstExpr, b: AstExpr) -> AstExpr {
    AstExpr::Bop(op, Box::new(a), Box::new(b))
}

fn neg(a: AstExpr) -> AstExpr {
    AstExpr::Uop(AstUop::Minus, Box::new(a))
}

fn call(f: &str, args: Vec<AstExpr>) -> AstExpr {
    AstExpr::Call(
        Box::new(name(f)),
        args.into_iter().map(AstArg::Positional).collect(),
    )
}

fn expr_stmt(e: AstExpr) -> AstStmt {
    AstStmt::Assignment(vec![e], vec![])
}

fn assign(lhs: &str, rhs: AstExpr) -> AstStmt {
    AstStmt::Assignment(vec![name(lhs)], vec![vec![rhs]])
}

fn typed_assign(lhs: &str, ty: &str, rhs: AstExpr) -> AstStmt {
    AstStmt::TypedAssignment(vec![name(lhs)], name(ty), vec![rhs])
}

fn assume_that(e: AstExpr) -> AstStmt {
    expr_stmt(call("__VERIFIER_assume", vec![e]))
}

fn check(e: AstExpr) -> AstStmt {
    expr_stmt(call("__VERIFIER_assert", vec![e]))
}

fn if_else(cond: AstExpr, then_block: Vec<AstStmt>, else_block: Vec<AstStmt>) -> AstStmt {
    AstStmt::Compound(Box::new(AstCompound::If(
        vec![(cond, then_block)],
        Some(else_block),
    )))
}

fn for_range(var: &str, args: Vec<AstExpr>, block: Vec<AstStmt>) -> AstStmt {
    AstStmt::Compound(Box::new(AstCompound::For {
        is_async: false,
        item: vec![name(var)],
        iterator: vec![call("range", args)],
        for_block: block,
        else_block: None,
    }))
}

fn def_main(params: Vec<(&str, &str)>, code: Vec<AstStmt>) -> Vec<AstStmt> {
    vec![AstStmt::Compound(Box::new(AstCompound::Funcdef(AstFuncdef {
        name: "main".to_string(),
        params: params
            .into_iter()
            .map(|(n, t)| (n.to_string(), Some(name(t))))
            .collect(),
        code,
    })))]
}

/// Compiles and returns the single output of the `main` computation.
fn bug_predicate(ast: Vec<AstStmt>) -> Term {
    let cs = Python::gen(ast, true).expect("compilation should succeed");
    assert_eq!(cs.comps.len(), 1);
    assert_eq!(cs.comps[0].0, "main");
    let comp = &cs.comps[0].1;
    assert_eq!(comp.outputs.len(), 1);
    comp.outputs[0].clone()
}

fn eval_with_x(t: &Term, x: u32) -> Option<Val> {
    let env = vec![("x".to_string(), Val::Bv(32, x))];
    eval_term(t, &env)
}

#[test]
fn scenario_assume_assert_contradiction() {
    // assume(x > 0); assert(x < 0): x = 1 witnesses the bug.
    let ast = def_main(
        vec![("x", "int")],
        vec![
            assume_that(bop(AstBop::Gt, name("x"), int_lit("0"))),
            check(bop(AstBop::Lt, name("x"), int_lit("0"))),
        ],
    );
    let bug = bug_predicate(ast);
    assert_eq!(eval_with_x(&bug, 1), Some(Val::B(true)));
}

#[test]
fn scenario_assume_assert_consistent() {
    // assume(x > 0); assert(x > 0): no input witnesses a bug.
    let ast = def_main(
        vec![("x", "int")],
        vec![
            assume_that(bop(AstBop::Gt, name("x"), int_lit("0"))),
            check(bop(AstBop::Gt, name("x"), int_lit("0"))),
        ],
    );
    let bug = bug_predicate(ast);
    for x in [0u32, 1, 2, 7, 0x7fff_ffff, 0x8000_0000, u32::MAX] {
        assert_eq!(eval_with_x(&bug, x), Some(Val::B(false)));
    }
}

#[test]
fn scenario_assignment() {
    // y: int = x + 1; assume(x == 1); assert(y == 2)
    let ast = def_main(
        vec![("x", "int")],
        vec![
            typed_assign("y", "int", bop(AstBop::Add, name("x"), int_lit("1"))),
            assume_that(bop(AstBop::Eq, name("x"), int_lit("1"))),
            check(bop(AstBop::Eq, name("y"), int_lit("2"))),
        ],
    );
    let bug = bug_predicate(ast);
    for x in [0u32, 1, 2, 100, u32::MAX] {
        assert_eq!(eval_with_x(&bug, x), Some(Val::B(false)));
    }
}

#[test]
fn scenario_if_else() {
    // if x > 0: y: int = 1 else: y: int = -1; assert(y != 0)
    let ast = def_main(
        vec![("x", "int")],
        vec![
            if_else(
                bop(AstBop::Gt, name("x"), int_lit("0")),
                vec![typed_assign("y", "int", int_lit("1"))],
                vec![typed_assign("y", "int", neg(int_lit("1")))],
            ),
            check(bop(AstBop::Neq, name("y"), int_lit("0"))),
        ],
    );
    let bug = bug_predicate(ast);
    for x in [0u32, 1, 5, 0x8000_0000, u32::MAX] {
        assert_eq!(eval_with_x(&bug, x), Some(Val::B(false)));
    }
}

#[test]
fn scenario_path_condition_observed() {
    // The assignment inside `if` is seen outside exactly when the
    // condition held: with x == 1 the then-branch value is observed.
    let ast = def_main(
        vec![("x", "int")],
        vec![
            if_else(
                bop(AstBop::Gt, name("x"), int_lit("0")),
                vec![typed_assign("y", "int", int_lit("1"))],
                vec![typed_assign("y", "int", neg(int_lit("1")))],
            ),
            assume_that(bop(AstBop::Eq, name("x"), int_lit("1"))),
            check(bop(AstBop::Eq, name("y"), int_lit("1"))),
        ],
    );
    let bug = bug_predicate(ast);
    assert_eq!(eval_with_x(&bug, 1), Some(Val::B(false)));

    // ... and asserting the else-branch value instead is refuted by x == 1.
    let ast2 = def_main(
        vec![("x", "int")],
        vec![
            if_else(
                bop(AstBop::Gt, name("x"), int_lit("0")),
                vec![typed_assign("y", "int", int_lit("1"))],
                vec![typed_assign("y", "int", neg(int_lit("1")))],
            ),
            assume_that(bop(AstBop::Eq, name("x"), int_lit("1"))),
            check(bop(AstBop::Eq, name("y"), neg(int_lit("1")))),
        ],
    );
    let bug2 = bug_predicate(ast2);
    assert_eq!(eval_with_x(&bug2, 1), Some(Val::B(true)));
}

#[test]
fn scenario_for_unrolled() {
    // s: int = 0; for i in range(3): s = s + 1; assert(s == 3)
    let ast = def_main(
        vec![],
        vec![
            typed_assign("s", "int", int_lit("0")),
            for_range(
                "i",
                vec![int_lit("3")],
                vec![assign("s", bop(AstBop::Add, name("s"), int_lit("1")))],
            ),
            check(bop(AstBop::Eq, name("s"), int_lit("3"))),
        ],
    );
    let bug = bug_predicate(ast);
    // No inputs: the predicate is a closed term, decided outright.
    assert_eq!(eval_term(&bug, &vec![]), Some(Val::B(false)));
}

#[test]
fn scenario_range_zero_runs_never() {
    let ast = def_main(
        vec![],
        vec![
            typed_assign("s", "int", int_lit("0")),
            for_range(
                "i",
                vec![int_lit("0")],
                vec![assign("s", bop(AstBop::Add, name("s"), int_lit("1")))],
            ),
            check(bop(AstBop::Eq, name("s"), int_lit("0"))),
        ],
    );
    let bug = bug_predicate(ast);
    assert_eq!(eval_term(&bug, &vec![]), Some(Val::B(false)));
}

#[test]
fn scenario_range_two_bounds() {
    // s: int = 0; for i in range(2, 5): s = s + 1; assert(s == 3)
    let ast = def_main(
        vec![],
        vec![
            typed_assign("s", "int", int_lit("0")),
            for_range(
                "i",
                vec![int_lit("2"), int_lit("5")],
                vec![assign("s", bop(AstBop::Add, name("s"), int_lit("1")))],
            ),
            check(bop(AstBop::Eq, name("s"), int_lit("3"))),
        ],
    );
    let bug = bug_predicate(ast);
    assert_eq!(eval_term(&bug, &vec![]), Some(Val::B(false)));
}

#[test]
fn scenario_overflow_wraps_but_never_fixpoint() {
    // assert(x + 1 == x): fails for every x, wrap-around included.
    let ast = def_main(
        vec![("x", "int")],
        vec![check(bop(
            AstBop::Eq,
            bop(AstBop::Add, name("x"), int_lit("1")),
            name("x"),
        ))],
    );
    let bug = bug_predicate(ast);
    for x in [0u32, 1, u32::MAX, 0x7fff_ffff] {
        assert_eq!(eval_with_x(&bug, x), Some(Val::B(true)));
    }
}

#[test]
fn scenario_empty_body_is_unsatisfiable() {
    // No assumptions, no assertions: the output is true ∧ ¬true.
    let ast = def_main(vec![("x", "int")], vec![]);
    let bug = bug_predicate(ast);
    for x in [0u32, 1, u32::MAX] {
        assert_eq!(eval_with_x(&bug, x), Some(Val::B(false)));
    }
}

#[test]
fn scenario_single_return() {
    let ast = def_main(vec![("x", "int")], vec![AstStmt::Return(vec![name("x")])]);
    let bug = bug_predicate(ast);
    assert_eq!(eval_with_x(&bug, 3), Some(Val::B(false)));
}

#[test]
fn scenario_return_inside_condition() {
    // A return staged under a condition merges into the return slot.
    let ast = def_main(
        vec![("x", "int")],
        vec![
            if_else(
                bop(AstBop::Gt, name("x"), int_lit("0")),
                vec![AstStmt::Return(vec![int_lit("1")])],
                vec![AstStmt::Return(vec![int_lit("2")])],
            ),
        ],
    );
    let bug = bug_predicate(ast);
    assert_eq!(eval_with_x(&bug, 1), Some(Val::B(false)));
}

#[test]
fn scenario_typed_assign_twice_ignores_second_annotation() {
    // x: int = 1; x: bool = 2 — the second annotation is ignored and the
    // assignment lands on the integer slot.
    let ast = def_main(
        vec![],
        vec![
            typed_assign("x", "int", int_lit("1")),
            typed_assign("x", "bool", int_lit("2")),
            check(bop(AstBop::Eq, name("x"), int_lit("2"))),
        ],
    );
    let bug = bug_predicate(ast);
    assert_eq!(eval_term(&bug, &vec![]), Some(Val::B(false)));
}

#[test]
fn scenario_bool_int_comparison_both_orders() {
    // b: bool = True wouldn't parse as a literal here; compare mixed
    // tags instead: (1 == True-as-int) in both orders via `x < True`.
    let ast = def_main(
        vec![],
        vec![
            typed_assign("x", "int", int_lit("0")),
            check(bop(AstBop::Lt, name("x"), AstExpr::BoolLit(true))),
            check(bop(AstBop::Gt, AstExpr::BoolLit(true), name("x"))),
        ],
    );
    let bug = bug_predicate(ast);
    assert_eq!(eval_term(&bug, &vec![]), Some(Val::B(false)));
}

#[test]
fn scenario_literal_wraps_at_width() {
    // 4294967296 == 2^32 wraps to 0.
    let ast = def_main(
        vec![],
        vec![
            typed_assign("x", "int", int_lit("4294967296")),
            check(bop(AstBop::Eq, name("x"), int_lit("0"))),
        ],
    );
    let bug = bug_predicate(ast);
    assert_eq!(eval_term(&bug, &vec![]), Some(Val::B(false)));
}

#[test]
fn compilation_is_deterministic() {
    let build = || {
        def_main(
            vec![("x", "int")],
            vec![
                typed_assign("y", "int", bop(AstBop::Add, name("x"), int_lit("1"))),
                assume_that(bop(AstBop::Gt, name("x"), int_lit("0"))),
                check(bop(AstBop::Gt, name("y"), int_lit("1"))),
            ],
        )
    };
    let c1 = Python::gen(build(), true).unwrap();
    let c2 = Python::gen(build(), true).unwrap();
    assert_eq!(c1, c2);
}

#[test]
fn inputs_are_declared_in_order() {
    let ast = def_main(
        vec![("x", "int"), ("b", "bool")],
        vec![check(name("b"))],
    );
    let cs = Python::gen(ast, true).unwrap();
    let comp = &cs.comps[0].1;
    assert_eq!(comp.inputs.len(), 2);
    assert_eq!(comp.inputs[0].0, "x");
    assert_eq!(comp.inputs[1].0, "b");
}

#[test]
fn error_top_level_not_a_function() {
    let ast = vec![assign("x", int_lit("1"))];
    assert_eq!(Python::gen(ast, true), Err(PyError::TopLevelNotAFunction));
}

#[test]
fn error_no_main_function() {
    let ast = vec![AstStmt::Compound(Box::new(AstCompound::Funcdef(AstFuncdef {
        name: "helper".to_string(),
        params: vec![],
        code: vec![],
    })))];
    assert_eq!(Python::gen(ast, true), Err(PyError::NoMainFunction));
}

#[test]
fn error_missing_type_annotation() {
    let ast = vec![AstStmt::Compound(Box::new(AstCompound::Funcdef(AstFuncdef {
        name: "main".to_string(),
        params: vec![("x".to_string(), None)],
        code: vec![],
    })))];
    assert_eq!(Python::gen(ast, true), Err(PyError::MissingTypeAnnotation));
}

#[test]
fn error_unknown_type() {
    let ast = def_main(vec![("x", "float")], vec![]);
    assert_eq!(Python::gen(ast, true), Err(PyError::UnknownType));
}

#[test]
fn error_unsupported_statement() {
    let ast = def_main(vec![], vec![AstStmt::Other]);
    assert_eq!(Python::gen(ast, true), Err(PyError::UnsupportedStatement));
}

#[test]
fn error_unsupported_expression() {
    let ast = def_main(vec![], vec![expr_stmt(AstExpr::Other)]);
    assert_eq!(Python::gen(ast, true), Err(PyError::UnsupportedExpression));
}

#[test]
fn error_unsupported_call() {
    let ast = def_main(vec![], vec![expr_stmt(call("helper", vec![]))]);
    assert_eq!(Python::gen(ast, true), Err(PyError::UnsupportedCall));
}

#[test]
fn error_unsupported_call_when_builtins_disabled() {
    let ast = def_main(
        vec![("x", "int")],
        vec![check(bop(AstBop::Gt, name("x"), int_lit("0")))],
    );
    assert_eq!(Python::gen(ast, false), Err(PyError::UnsupportedCall));
}

#[test]
fn error_three_argument_range() {
    let ast = def_main(
        vec![],
        vec![for_range("i", vec![int_lit("0"), int_lit("5"), int_lit("2")], vec![])],
    );
    assert_eq!(Python::gen(ast, true), Err(PyError::UnsupportedCall));
}

#[test]
fn error_undeclared_assignment() {
    let ast = def_main(vec![], vec![assign("x", int_lit("1"))]);
    assert_eq!(Python::gen(ast, true), Err(PyError::UndeclaredAssignment));
}

#[test]
fn error_undeclared_variable() {
    let ast = def_main(vec![], vec![AstStmt::Return(vec![name("y")])]);
    assert_eq!(Python::gen(ast, true), Err(PyError::UndeclaredVariable));
}

#[test]
fn error_invalid_range_args() {
    let ast = def_main(
        vec![("x", "int")],
        vec![for_range("i", vec![name("x")], vec![])],
    );
    assert_eq!(Python::gen(ast, true), Err(PyError::InvalidRangeArgs));
}

#[test]
fn error_type_mismatch_on_assignment() {
    let ast = def_main(
        vec![],
        vec![
            typed_assign("x", "int", int_lit("0")),
            assign("x", AstExpr::BoolLit(true)),
        ],
    );
    assert_eq!(Python::gen(ast, true), Err(PyError::TypeError));
}

#[test]
fn error_elif_unsupported() {
    let ast = def_main(
        vec![("x", "int")],
        vec![AstStmt::Compound(Box::new(AstCompound::If(
            vec![
                (bop(AstBop::Gt, name("x"), int_lit("0")), vec![]),
                (bop(AstBop::Lt, name("x"), int_lit("0")), vec![]),
            ],
            None,
        )))],
    );
    assert_eq!(Python::gen(ast, true), Err(PyError::UnsupportedStatement));
}

#[test]
fn last_definition_of_main_wins() {
    let mut ast = def_main(vec![], vec![check(AstExpr::BoolLit(true))]);
    ast.extend(def_main(vec![], vec![check(AstExpr::BoolLit(false))]));
    let bug = bug_predicate(ast);
    // The second main asserts False: the bug predicate is satisfied.
    assert_eq!(eval_term(&bug, &vec![]), Some(Val::B(true)));
}
