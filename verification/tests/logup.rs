use stwo_cairo_prover::constraint_framework::expr::{BaseExpr, ExprEvaluator, ExtExpr};
use stwo_cairo_prover::constraint_framework::logup::{Fraction, LogupAtRow};
use stwo_cairo_prover::constraint_framework::trace::{Trace, TraceEvaluator};
use stwo_cairo_prover::constraint_framework::EvalAtRow;
use stwo_cairo_prover::fields::{M31, P, QM31};

fn m(value: u32) -> M31 {
    M31 { value }
}

fn q(a: u32, b: u32, c: u32, d: u32) -> QM31 {
    QM31::from_u32_unchecked(a, b, c, d)
}

/// Two rows; the interaction phase holds three secure columns whose
/// running sums are base-field numbers.
fn small_trace(sums: [[u32; 2]; 3]) -> Trace {
    let mut interaction = Vec::new();
    for sum in sums {
        interaction.push(vec![m(sum[0]), m(sum[1])]);
        for _ in 0..3 {
            interaction.push(vec![m(0), m(0)]);
        }
    }
    Trace::new(1, vec![vec![], interaction, vec![vec![m(1), m(0)]]]).unwrap()
}

fn frac(numerator: u32, denominator: u32) -> Fraction<QM31, QM31> {
    Fraction::new(q(numerator, 0, 0, 0), q(denominator, 0, 0, 0))
}

#[test]
fn fraction_keeps_its_parts() {
    let f = Fraction::new(q(1, 2, 3, 4), q(5, 6, 7, 8));
    assert_eq!(f.numerator, q(1, 2, 3, 4));
    assert_eq!(f.denominator, q(5, 6, 7, 8));
    let g = Fraction::new(3u8, "three");
    assert_eq!(g.numerator, 3);
    assert_eq!(g.denominator, "three");
}

#[test]
fn new_accumulator_has_nothing_written() {
    let logup = LogupAtRow::<TraceEvaluator>::new(1, q(9, 8, 7, 6), m(1));
    assert_eq!(logup.interaction, 1);
    assert_eq!(logup.total_sum, q(9, 8, 7, 6));
    assert_eq!(logup.prev_col_cumsum, QM31::zero());
    assert!(logup.cur_frac.is_none());
    assert_eq!(logup.is_first, m(1));
}

#[test]
fn first_term_is_only_kept() {
    let trace = small_trace([[0, 0], [0, 0], [0, 0]]);
    let mut eval = TraceEvaluator::new(&trace, 0).unwrap();
    let mut logup = LogupAtRow::<TraceEvaluator>::new(1, QM31::zero(), m(1));
    logup.write_frac(&mut eval, frac(3, 4));
    assert_eq!(eval.cursors, vec![0, 0, 0]);
    assert!(eval.constraints().is_empty());
    let kept = logup.cur_frac.unwrap();
    assert_eq!(kept.numerator, q(3, 0, 0, 0));
    assert_eq!(kept.denominator, q(4, 0, 0, 0));
    assert_eq!(logup.prev_col_cumsum, QM31::zero());
}

#[test]
fn later_terms_constrain_the_one_before() {
    // Sums 5, 12 in the first two columns of row 0.
    let trace = small_trace([[5, 0], [12, 0], [0, 0]]);
    let mut eval = TraceEvaluator::new(&trace, 0).unwrap();
    let mut logup = LogupAtRow::<TraceEvaluator>::new(1, QM31::zero(), m(1));
    logup.write_frac(&mut eval, frac(3, 4));
    logup.write_frac(&mut eval, frac(7, 2));
    // (5 - 0) * 4 - 3.
    assert_eq!(eval.constraints(), &vec![q(17, 0, 0, 0)]);
    assert_eq!(eval.cursors, vec![0, 4, 0]);
    assert_eq!(logup.prev_col_cumsum, q(5, 0, 0, 0));
    logup.write_frac(&mut eval, frac(1, 1));
    // (12 - 5) * 2 - 7.
    assert_eq!(eval.constraints(), &vec![q(17, 0, 0, 0), q(7, 0, 0, 0)]);
    assert_eq!(eval.cursors, vec![0, 8, 0]);
    assert_eq!(logup.prev_col_cumsum, q(12, 0, 0, 0));
    assert_eq!(logup.cur_frac.unwrap().denominator, q(1, 0, 0, 0));
}

#[test]
fn finalize_ties_the_row_to_the_row_before() {
    // On the first row the total, 100, is taken off the sum of the row
    // before, 90: (30 - (90 - 100) - 0) * 2 - 7.
    let trace = small_trace([[30, 90], [0, 0], [0, 0]]);
    let mut eval = TraceEvaluator::new(&trace, 0).unwrap();
    let mut logup = LogupAtRow::<TraceEvaluator>::new(1, q(100, 0, 0, 0), m(1));
    logup.write_frac(&mut eval, frac(7, 2));
    logup.finalize(&mut eval);
    assert_eq!(eval.constraints(), &vec![q(73, 0, 0, 0)]);
    assert_eq!(eval.cursors, vec![0, 4, 0]);

    // On another row nothing is taken off: (90 - 30 - 0) * 2 - 7.
    let mut eval = TraceEvaluator::new(&trace, 1).unwrap();
    let mut logup = LogupAtRow::<TraceEvaluator>::new(1, q(100, 0, 0, 0), m(0));
    logup.write_frac(&mut eval, frac(7, 2));
    logup.finalize(&mut eval);
    assert_eq!(eval.constraints(), &vec![q(113, 0, 0, 0)]);
}

#[test]
fn finalize_takes_the_earlier_columns_off() {
    // Row 1: sums 4 and 9 in its two columns, 6 in the last column of row 0:
    // first (4 - 0) * 1 - 4, then (9 - 6 - 4) * 3 - 5 = -8.
    let trace = small_trace([[0, 4], [6, 9], [0, 0]]);
    let mut eval = TraceEvaluator::new(&trace, 1).unwrap();
    let mut logup = LogupAtRow::<TraceEvaluator>::new(1, q(1, 1, 1, 1), m(0));
    logup.write_frac(&mut eval, frac(4, 1));
    logup.write_frac(&mut eval, frac(5, 3));
    logup.finalize(&mut eval);
    assert_eq!(eval.constraints(), &vec![q(0, 0, 0, 0), q(P - 8, 0, 0, 0)]);
    assert_eq!(eval.cursors, vec![0, 8, 0]);
}

#[test]
fn finalize_scales_the_total_by_the_first_row_flag() {
    // is_first = 1, total (1, 2, 3, 4), everything else zero:
    // (0 - (0 - total) - 0) * 1 - 0 = total.
    let trace = small_trace([[0, 0], [0, 0], [0, 0]]);
    let mut eval = TraceEvaluator::new(&trace, 0).unwrap();
    let mut logup = LogupAtRow::<TraceEvaluator>::new(1, q(1, 2, 3, 4), m(1));
    logup.write_frac(&mut eval, frac(0, 1));
    logup.finalize(&mut eval);
    assert_eq!(eval.constraints(), &vec![q(1, 2, 3, 4)]);
    // A flag of 3 takes the total off three times.
    let mut eval = TraceEvaluator::new(&trace, 0).unwrap();
    let mut logup = LogupAtRow::<TraceEvaluator>::new(1, q(1, 2, 3, 4), m(3));
    logup.write_frac(&mut eval, frac(0, 1));
    logup.finalize(&mut eval);
    assert_eq!(eval.constraints(), &vec![q(3, 6, 9, 12)]);
}

#[test]
fn accumulator_over_expressions() {
    let mut eval = ExprEvaluator::new(vec![0, 8, 1]);
    let is_first = eval.next_interaction_mask(2, &vec![0]).pop().unwrap();
    let mut logup = LogupAtRow::<ExprEvaluator>::new(1, q(1, 2, 3, 4), is_first);
    let term = |n: u32, d: u32| {
        Fraction::new(ExtExpr::Const(q(n, 0, 0, 0)), ExtExpr::Const(q(d, 0, 0, 0)))
    };
    logup.write_frac(&mut eval, term(3, 4));
    assert!(eval.constraints().is_empty());
    logup.write_frac(&mut eval, term(7, 2));
    logup.finalize(&mut eval);
    assert_eq!(eval.cursors, vec![0, 8, 1]);

    let col = |column: usize, offset: isize| {
        Box::new(BaseExpr::Col { interaction: 1, column, offset })
    };
    let secure = |column: usize, offset: isize| {
        Box::new(ExtExpr::SecureCol(
            col(column, offset),
            col(column + 1, offset),
            col(column + 2, offset),
            col(column + 3, offset),
        ))
    };
    let constant = |n: u32| Box::new(ExtExpr::Const(q(n, 0, 0, 0)));
    let first = ExtExpr::Sub(
        Box::new(ExtExpr::Mul(
            Box::new(ExtExpr::Sub(secure(0, 0), constant(0))),
            constant(4),
        )),
        constant(3),
    );
    let fixed = ExtExpr::Sub(
        secure(4, -1),
        Box::new(ExtExpr::Scale(
            Box::new(BaseExpr::Col { interaction: 2, column: 0, offset: 0 }),
            q(1, 2, 3, 4),
        )),
    );
    let second = ExtExpr::Sub(
        Box::new(ExtExpr::Mul(
            Box::new(ExtExpr::Sub(
                Box::new(ExtExpr::Sub(secure(4, 0), Box::new(fixed))),
                secure(0, 0),
            )),
            constant(2),
        )),
        constant(7),
    );
    assert_eq!(eval.constraints(), &vec![first, second]);
}
