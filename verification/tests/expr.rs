use stwo_cairo_prover::constraint_framework::expr::{BaseExpr, ExprEvaluator, ExtExpr};
use stwo_cairo_prover::constraint_framework::trace::Trace;
use stwo_cairo_prover::constraint_framework::{
    next_extension_interaction_mask, next_trace_mask, EvalAtRow,
};
use stwo_cairo_prover::fields::{M31, P, QM31};

fn m(value: u32) -> M31 {
    M31 { value }
}

fn q(a: u32, b: u32, c: u32, d: u32) -> QM31 {
    QM31::from_u32_unchecked(a, b, c, d)
}

fn col(interaction: usize, column: usize, offset: isize) -> BaseExpr {
    BaseExpr::Col { interaction, column, offset }
}

fn trace() -> Trace {
    let column = |start: u32| (0..4).map(|r| m(start + r)).collect::<Vec<M31>>();
    Trace::new(2, vec![vec![column(10), column(20)], vec![column(30), column(40), column(50), column(60)]])
        .unwrap()
}

#[test]
fn new_evaluator_has_read_nothing() {
    let eval = ExprEvaluator::new(vec![7, 12, 1]);
    assert_eq!(eval.cursors, vec![0, 0, 0]);
    assert_eq!(eval.widths, vec![7, 12, 1]);
    assert!(eval.reads().is_empty());
    assert!(eval.constraints().is_empty());
    let eval = ExprEvaluator::new(vec![]);
    assert!(eval.cursors.is_empty());
}

#[test]
fn masks_are_column_handles() {
    let mut eval = ExprEvaluator::new(vec![2, 8]);
    assert_eq!(next_trace_mask(&mut eval), col(0, 0, 0));
    assert_eq!(eval.next_interaction_mask(1, &vec![0, -1, 5]), vec![col(1, 0, 0), col(1, 0, -1), col(1, 0, 5)]);
    assert_eq!(next_trace_mask(&mut eval), col(0, 1, 0));
    assert_eq!(eval.next_interaction_mask(1, &vec![]), Vec::<BaseExpr>::new());
    assert_eq!(eval.cursors, vec![2, 2]);
    let cells = next_extension_interaction_mask(&mut eval, 1, &vec![0, -1]);
    let secure = |offset: isize| {
        ExtExpr::SecureCol(
            Box::new(col(1, 2, offset)),
            Box::new(col(1, 3, offset)),
            Box::new(col(1, 4, offset)),
            Box::new(col(1, 5, offset)),
        )
    };
    assert_eq!(cells, vec![secure(0), secure(-1)]);
    assert_eq!(eval.cursors, vec![2, 6]);
    let both = vec![0isize, -1];
    assert_eq!(
        eval.reads(),
        &vec![
            (0, vec![0isize]),
            (1, vec![0isize, -1, 5]),
            (0, vec![0isize]),
            (1, vec![]),
            (1, both.clone()),
            (1, both.clone()),
            (1, both.clone()),
            (1, both),
        ]
    );
}

#[test]
fn operations_build_nodes() {
    let a = || col(0, 0, 0);
    let b = || BaseExpr::Const(m(5));
    let x = || ExtExpr::Const(q(1, 2, 3, 4));
    let y = || ExtExpr::Scale(Box::new(a()), q(9, 9, 9, 9));
    assert_eq!(ExprEvaluator::base_const(m(5)), b());
    assert_eq!(ExprEvaluator::base_sub(a(), b()), BaseExpr::Sub(Box::new(a()), Box::new(b())));
    assert_eq!(ExprEvaluator::base_times(a(), q(9, 9, 9, 9)), y());
    assert_eq!(ExprEvaluator::ext_const(q(1, 2, 3, 4)), x());
    assert_eq!(ExprEvaluator::ext_add(x(), y()), ExtExpr::Add(Box::new(x()), Box::new(y())));
    assert_eq!(ExprEvaluator::ext_sub(x(), y()), ExtExpr::Sub(Box::new(x()), Box::new(y())));
    assert_eq!(ExprEvaluator::ext_mul(x(), y()), ExtExpr::Mul(Box::new(x()), Box::new(y())));
    assert_eq!(
        ExprEvaluator::combine_ef(a(), b(), a(), b()),
        ExtExpr::SecureCol(Box::new(a()), Box::new(b()), Box::new(a()), Box::new(b()))
    );
    assert_eq!(ExprEvaluator::clone_base(&a()), a());
    assert_eq!(ExprEvaluator::clone_ext(&y()), y());
}

#[test]
fn copies_are_equal_all_the_way_down() {
    let base = BaseExpr::Sub(
        Box::new(BaseExpr::Sub(Box::new(col(1, 2, -3)), Box::new(BaseExpr::Const(m(7))))),
        Box::new(col(0, 0, 0)),
    );
    assert_eq!(base.dup(), base);
    let ext = ExtExpr::Mul(
        Box::new(ExtExpr::Add(
            Box::new(ExtExpr::Scale(Box::new(base.dup()), q(1, 2, 3, 4))),
            Box::new(ExtExpr::Const(q(4, 3, 2, 1))),
        )),
        Box::new(ExtExpr::Sub(
            Box::new(ExtExpr::SecureCol(
                Box::new(col(1, 0, 0)),
                Box::new(col(1, 1, 0)),
                Box::new(base.dup()),
                Box::new(col(1, 3, 0)),
            )),
            Box::new(ExtExpr::Const(QM31::one())),
        )),
    );
    assert_eq!(ext.dup(), ext);
    assert_ne!(ext.dup(), ExtExpr::Const(QM31::one()));
}

#[test]
fn constraints_are_kept_as_expressions() {
    let mut eval = ExprEvaluator::new(vec![1]);
    eval.add_constraint(ExtExpr::Const(q(1, 0, 0, 0)));
    eval.add_constraint(ExtExpr::Const(q(2, 0, 0, 0)));
    assert_eq!(
        eval.constraints(),
        &vec![ExtExpr::Const(q(1, 0, 0, 0)), ExtExpr::Const(q(2, 0, 0, 0))]
    );
    assert_eq!(eval.cursors, vec![0]);
}

#[test]
fn base_expressions_evaluate_on_a_trace() {
    let t = trace();
    assert_eq!(col(0, 0, 0).evaluate(&t, 0), m(10));
    assert_eq!(col(0, 1, 0).evaluate(&t, 3), m(23));
    assert_eq!(col(0, 1, 1).evaluate(&t, 3), m(20));
    assert_eq!(col(1, 3, -1).evaluate(&t, 0), m(63));
    assert_eq!(col(1, 3, -6).evaluate(&t, 1), m(63));
    assert_eq!(BaseExpr::Const(m(77)).evaluate(&t, 2), m(77));
    let diff = BaseExpr::Sub(Box::new(col(0, 0, 0)), Box::new(col(0, 1, 0)));
    assert_eq!(diff.evaluate(&t, 2), m(P - 10));
    let diff = BaseExpr::Sub(Box::new(col(1, 2, 0)), Box::new(BaseExpr::Const(m(2))));
    assert_eq!(diff.evaluate(&t, 1), m(49));
}

#[test]
fn columns_that_are_not_there_evaluate_to_zero() {
    let t = trace();
    assert_eq!(col(0, 2, 0).evaluate(&t, 0), m(0));
    assert_eq!(col(2, 0, 0).evaluate(&t, 0), m(0));
    assert_eq!(col(1, 4, 1).evaluate(&t, 3), m(0));
    assert_eq!(col(usize::MAX, usize::MAX, isize::MIN).evaluate(&t, 3), m(0));
}

#[test]
fn secure_expressions_evaluate_on_a_trace() {
    let t = trace();
    let secure = |offset: isize| {
        ExtExpr::SecureCol(
            Box::new(col(1, 0, offset)),
            Box::new(col(1, 1, offset)),
            Box::new(col(1, 2, offset)),
            Box::new(col(1, 3, offset)),
        )
    };
    assert_eq!(secure(0).evaluate(&t, 1), q(31, 41, 51, 61));
    assert_eq!(secure(-1).evaluate(&t, 0), q(33, 43, 53, 63));
    assert_eq!(ExtExpr::Const(q(1, 2, 3, 4)).evaluate(&t, 0), q(1, 2, 3, 4));
    let scaled = ExtExpr::Scale(Box::new(col(0, 0, 0)), q(1, 2, 3, 4));
    assert_eq!(scaled.evaluate(&t, 2), q(12, 24, 36, 48));
    let sum = ExtExpr::Add(Box::new(secure(0)), Box::new(ExtExpr::Const(q(1, 2, 3, 4))));
    assert_eq!(sum.evaluate(&t, 0), q(31, 42, 53, 64));
    let diff = ExtExpr::Sub(Box::new(ExtExpr::Const(q(1, 2, 3, 4))), Box::new(secure(0)));
    assert_eq!(diff.evaluate(&t, 0), q(P - 29, P - 38, P - 47, P - 56));
    let product = ExtExpr::Mul(
        Box::new(ExtExpr::Const(q(1, 2, 3, 4))),
        Box::new(ExtExpr::Const(q(4, 5, 6, 7))),
    );
    assert_eq!(product.evaluate(&t, 0), q(P - 71, 93, P - 16, 50));
    let nested = ExtExpr::Sub(
        Box::new(ExtExpr::Mul(Box::new(sum), Box::new(ExtExpr::Const(q(2, 0, 0, 0))))),
        Box::new(ExtExpr::Const(q(2, 4, 6, 8))),
    );
    assert_eq!(nested.evaluate(&t, 0), q(60, 80, 100, 120));
}
