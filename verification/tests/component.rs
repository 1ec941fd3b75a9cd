use stwo_cairo_prover::components::memory::id_to_f252::RelationElements;
use stwo_cairo_prover::components::ret_opcode::component::{
    Claim, Eval, InteractionClaim, RET_INSTRUCTION,
};
use stwo_cairo_prover::components::ret_opcode::trace_check::TraceError;
use stwo_cairo_prover::constraint_framework::expr::{BaseExpr, ExprEvaluator, ExtExpr};
use stwo_cairo_prover::constraint_framework::trace::{Trace, TraceEvaluator};
use stwo_cairo_prover::fields::{M31, P, QM31};

type StwoM31 = stwo::core::fields::m31::M31;
type StwoQM31 = stwo::core::fields::qm31::QM31;

fn m(value: u32) -> M31 {
    M31 { value }
}

fn q(a: u32, b: u32, c: u32, d: u32) -> QM31 {
    QM31::from_u32_unchecked(a, b, c, d)
}

fn to_stwo(x: QM31) -> StwoQM31 {
    let [a, b, c, d] = x.to_u32_array();
    StwoQM31::from_u32_unchecked(a, b, c, d)
}

fn from_stwo(x: StwoQM31) -> QM31 {
    let [a, b, c, d] = x.to_m31_array();
    q(a.0, b.0, c.0, d.0)
}

fn toy() -> RelationElements {
    RelationElements::new((0..29).map(|i| q(i + 1, 0, 0, 0)).collect()).unwrap()
}

fn rich() -> RelationElements {
    RelationElements::new((0..29).map(|i| q(3 * i + 1, 5 * i + 2, 7 * i + 3, 11 * i + 4)).collect())
        .unwrap()
}

/// The three tuples that a row looks up, from its seven cells.
fn accesses(row: &[u32; 7]) -> [Vec<u32>; 3] {
    let [pc, _ap, fp, a0, a1, b0, b1] = *row;
    let mut fetch = vec![pc];
    fetch.extend_from_slice(&RET_INSTRUCTION);
    let mut first = vec![(fp + P - 1) % P, a0, a1];
    first.resize(29, 0);
    let mut second = vec![(fp + P - 2) % P, b0, b1];
    second.resize(29, 0);
    [fetch, first, second]
}

fn denominator(elements: &RelationElements, values: &[u32]) -> StwoQM31 {
    let mut acc = StwoQM31::from_u32_unchecked(0, 0, 0, 0);
    for (c, v) in elements.coefficients.iter().zip(values) {
        acc = acc + to_stwo(*c) * StwoM31::from_u32_unchecked(*v);
    }
    acc
}

fn push_secure(columns: &mut Vec<Vec<M31>>, at: usize, value: StwoQM31) {
    let coordinates = value.to_m31_array();
    for i in 0..4 {
        columns[at + i].push(m(coordinates[i].0));
    }
}

/// The columns of a trace that meets the constraints, and the total of its
/// lookup terms.
fn columns_of(rows: &[[u32; 7]], elements: &RelationElements) -> (Vec<Vec<Vec<M31>>>, QM31) {
    let mut main: Vec<Vec<M31>> = vec![Vec::new(); 7];
    let mut interaction: Vec<Vec<M31>> = vec![Vec::new(); 12];
    let mut is_first: Vec<M31> = Vec::new();
    let mut running = StwoQM31::from_u32_unchecked(0, 0, 0, 0);
    for (index, row) in rows.iter().enumerate() {
        for c in 0..7 {
            main[c].push(m(row[c]));
        }
        is_first.push(m(if index == 0 { 1 } else { 0 }));
        let terms: Vec<StwoQM31> =
            accesses(row)
                .iter()
                .map(|a| stwo::core::fields::FieldExpOps::inverse(&denominator(elements, a)))
                .collect();
        running = running + terms[0] + terms[1] + terms[2];
        push_secure(&mut interaction, 0, terms[0]);
        push_secure(&mut interaction, 4, terms[0] + terms[1]);
        push_secure(&mut interaction, 8, running);
    }
    (vec![main, interaction, vec![is_first]], from_stwo(running))
}

fn four_rows() -> Vec<[u32; 7]> {
    vec![
        [7, 50, 100, 11, 13, 5, 6],
        [19, 52, 102, 1, 0, P - 1, 3],
        [0, 0, 2, 0, 0, 0, 1],
        [P - 1, 77, 1, 123456, 654321, 42, P - 2],
    ]
}

fn eval_for(n_rets: usize, elements: RelationElements, claimed_sum: QM31) -> Eval {
    let claim = Claim { n_rets };
    let log_size = claim.log_size();
    Eval::new(claim, elements, InteractionClaim { log_size, claimed_sum })
}

fn single_row_trace(sum0: QM31, sum1: QM31, sum2: QM31, is_first: u32) -> Trace {
    let row = [7u32, 50, 100, 11, 13, 5, 6];
    let main: Vec<Vec<M31>> = row.iter().map(|v| vec![m(*v)]).collect();
    let mut interaction: Vec<Vec<M31>> = Vec::new();
    for sum in [sum0, sum1, sum2] {
        for coordinate in sum.to_u32_array() {
            interaction.push(vec![m(coordinate)]);
        }
    }
    Trace::new(0, vec![main, interaction, vec![vec![m(is_first)]]]).unwrap()
}

fn constraints_at(eval: &Eval, trace: &Trace, row: usize) -> Vec<QM31> {
    let out = eval.evaluate(TraceEvaluator::new(trace, row).unwrap());
    out.constraints().clone()
}

#[test]
fn lookup_sums_of_a_valid_trace_vanish_on_every_row() {
    let rows = four_rows();
    let (columns, total) = columns_of(&rows, &rich());
    let trace = Trace::new(2, columns).unwrap();
    assert!(trace.has_layout(&Claim { n_rets: 4 }.column_log_sizes()));
    let eval = eval_for(4, rich(), total);
    for row in 0..4 {
        assert_eq!(constraints_at(&eval, &trace, row), vec![QM31::zero(); 3]);
    }
    assert_eq!(eval.first_violation(&trace), None);
}

#[test]
fn one_corrupted_denominator_is_found() {
    let rows = four_rows();
    let (columns, total) = columns_of(&rows, &rich());
    let eval = eval_for(4, rich(), total);

    // The program counter of the third row: the first term of that row.
    let mut corrupted = columns.clone();
    corrupted[0][0][2] = m(1);
    let trace = Trace::new(2, corrupted).unwrap();
    assert_eq!(eval.first_violation(&trace), Some((2, 0)));
    let values = constraints_at(&eval, &trace, 2);
    assert!(!values[0].is_zero());
    assert!(values[1].is_zero());
    assert!(values[2].is_zero());
    for row in [0, 1, 3] {
        assert_eq!(constraints_at(&eval, &trace, row), vec![QM31::zero(); 3]);
    }

    // A limb of the cell at `fp - 2` of the second row: its last term.
    let mut corrupted = columns.clone();
    corrupted[0][5][1] = m(0);
    let trace = Trace::new(2, corrupted).unwrap();
    assert_eq!(eval.first_violation(&trace), Some((1, 2)));

    // The frame pointer of the last row: its second and third terms.
    let mut corrupted = columns.clone();
    corrupted[0][2][3] = m(5);
    let trace = Trace::new(2, corrupted).unwrap();
    assert_eq!(eval.first_violation(&trace), Some((3, 1)));
    assert!(!constraints_at(&eval, &trace, 3)[2].is_zero());
}

#[test]
fn a_wrong_claimed_sum_is_found_on_the_first_row() {
    let rows = four_rows();
    let (columns, total) = columns_of(&rows, &rich());
    let trace = Trace::new(2, columns).unwrap();
    let wrong = from_stwo(to_stwo(total) + StwoQM31::from_u32_unchecked(1, 0, 0, 0));
    let eval = eval_for(4, rich(), wrong);
    assert_eq!(eval.first_violation(&trace), Some((0, 2)));
    for row in 1..4 {
        assert_eq!(constraints_at(&eval, &trace, row), vec![QM31::zero(); 3]);
    }
}

#[test]
fn a_corrupted_running_sum_is_found() {
    let rows = four_rows();
    let (columns, total) = columns_of(&rows, &rich());
    let eval = eval_for(4, rich(), total);
    // The first running sum of the second row.
    let mut corrupted = columns.clone();
    corrupted[1][0][1] = m((columns[1][0][1].value + 1) % P);
    let trace = Trace::new(2, corrupted).unwrap();
    assert_eq!(eval.first_violation(&trace), Some((1, 0)));
    assert!(!constraints_at(&eval, &trace, 1)[1].is_zero());
    // The last running sum of the second row: its own row and the next.
    let mut corrupted = columns.clone();
    corrupted[1][11][1] = m((columns[1][11][1].value + 1) % P);
    let trace = Trace::new(2, corrupted).unwrap();
    assert_eq!(eval.first_violation(&trace), Some((1, 2)));
    assert!(!constraints_at(&eval, &trace, 2)[2].is_zero());
    assert_eq!(constraints_at(&eval, &trace, 0), vec![QM31::zero(); 3]);
    assert_eq!(constraints_at(&eval, &trace, 3), vec![QM31::zero(); 3]);
}

#[test]
fn one_ret_with_a_toy_relation() {
    // With coefficient i + 1 in slot i, the three accesses of the row
    // (pc 7, fp 100, cells (11, 13) and (5, 6)) combine to
    //   7 + 2*510 + 3*447 + 4*511 + 5*495 + 6*511 + 7*91 + 8*130 = 11630,
    //   99 + 2*11 + 3*13 = 160 and 98 + 2*5 + 3*6 = 126.
    let elements = toy();
    let row = [7u32, 50, 100, 11, 13, 5, 6];
    let [fetch, first, second] = accesses(&row);
    let as_cells = |values: &Vec<u32>| values.iter().map(|v| m(*v)).collect::<Vec<M31>>();
    assert_eq!(elements.combine::<TraceEvaluator>(&as_cells(&fetch)), q(11630, 0, 0, 0));
    assert_eq!(elements.combine::<TraceEvaluator>(&as_cells(&first)), q(160, 0, 0, 0));
    assert_eq!(elements.combine::<TraceEvaluator>(&as_cells(&second)), q(126, 0, 0, 0));

    // Their inverses modulo 2^31 - 1, and the running sums.
    let terms: [u64; 3] = [1517271980, 1301911961, 2130440126];
    assert_eq!(terms[0] * 11630 % P as u64, 1);
    assert_eq!(terms[1] * 160 % P as u64, 1);
    assert_eq!(terms[2] * 126 % P as u64, 1);
    let sum0 = q(1517271980, 0, 0, 0);
    let sum1 = q(671700294, 0, 0, 0);
    let sum2 = q(654656773, 0, 0, 0);
    assert_eq!((terms[0] + terms[1]) % P as u64, 671700294);
    assert_eq!((terms[0] + terms[1] + terms[2]) % P as u64, 654656773);

    let trace = single_row_trace(sum0, sum1, sum2, 1);
    assert!(trace.has_layout(&Claim { n_rets: 1 }.column_log_sizes()));
    let eval = eval_for(1, toy(), sum2);
    assert_eq!(constraints_at(&eval, &trace, 0), vec![QM31::zero(); 3]);
    assert_eq!(eval.first_violation(&trace), None);

    // The same columns against the true sum plus one.
    let eval = eval_for(1, toy(), q(654656774, 0, 0, 0));
    // ((sum2 - (sum2 - claimed) - sum1) * 126 - 1 = 126.
    assert_eq!(
        constraints_at(&eval, &trace, 0),
        vec![QM31::zero(), QM31::zero(), q(126, 0, 0, 0)]
    );
    assert_eq!(eval.first_violation(&trace), Some((0, 2)));
}

#[test]
fn constraints_on_given_columns() {
    let eval = eval_for(1, rich(), q(5, 6, 7, 8));
    let trace = single_row_trace(q(10, 20, 30, 40), q(11, 22, 33, 44), q(100, 200, 300, 400), 1);
    assert_eq!(
        constraints_at(&eval, &trace, 0),
        vec![
            q(2136197906, 11036700, 2144892167, 5182960),
            q(2147474385, 9605, 2147481455, 4384),
            q(57805, 2147425593, 14040, 2147459135),
        ]
    );
}

#[test]
fn constraints_on_columns_of_zeros() {
    let eval = eval_for(1, rich(), q(5, 6, 7, 8));
    let zero = QM31::zero();
    let trace = single_row_trace(zero, zero, zero, 1);
    assert_eq!(
        constraints_at(&eval, &trace, 0),
        vec![
            q(P - 1, 0, 0, 0),
            q(P - 1, 0, 0, 0),
            q(2147470975, 16471, 2147480835, 9192),
        ]
    );
    // Where the row is not the first, the claimed sum drops out.
    let trace = single_row_trace(zero, zero, zero, 0);
    assert_eq!(constraints_at(&eval, &trace, 0), vec![q(P - 1, 0, 0, 0); 3]);
}

#[test]
fn evaluate_reads_every_column_once() {
    let (columns, total) = columns_of(&four_rows(), &rich());
    let trace = Trace::new(2, columns).unwrap();
    let eval = eval_for(4, rich(), total);
    let out = eval.evaluate(TraceEvaluator::new(&trace, 1).unwrap());
    assert_eq!(out.cursors, vec![7, 12, 1]);
    assert_eq!(out.row, 1);
    assert_eq!(out.constraints().len(), 3);

    let out = eval.evaluate(ExprEvaluator::new(vec![7, 12, 1]));
    assert_eq!(out.cursors, vec![7, 12, 1]);
    assert_eq!(out.widths, vec![7, 12, 1]);
    assert_eq!(out.constraints().len(), 3);
}

#[test]
fn evaluate_reads_in_a_fixed_order() {
    let eval = eval_for(4, rich(), q(5, 6, 7, 8));
    let out = eval.evaluate(ExprEvaluator::new(vec![7, 12, 1]));
    let here = vec![0isize];
    let mut expected: Vec<(usize, Vec<isize>)> = vec![(2, here.clone())];
    expected.extend(vec![(0, here.clone()); 5]);
    expected.extend(vec![(1, here.clone()); 4]);
    expected.extend(vec![(0, here.clone()); 2]);
    expected.extend(vec![(1, here.clone()); 4]);
    expected.extend(vec![(1, vec![0isize, -1]); 4]);
    assert_eq!(out.reads(), &expected);
    assert_eq!(out.reads().len(), 20);

    // A second row on the same evaluator reads the same once more.
    let out = eval.evaluate(ExprEvaluator::new(vec![14, 24, 2]));
    let out = eval.evaluate(out);
    let mut twice = expected.clone();
    twice.extend(expected);
    assert_eq!(out.reads(), &twice);
}

#[test]
fn evaluate_goes_on_from_where_the_evaluator_stands() {
    let eval = eval_for(4, rich(), q(5, 6, 7, 8));
    let out = eval.evaluate(ExprEvaluator::new(vec![14, 24, 2, 5]));
    let out = eval.evaluate(out);
    assert_eq!(out.cursors, vec![14, 24, 2, 0]);
    assert_eq!(out.constraints().len(), 6);
    // The second pass reads the columns after those of the first.
    match &out.constraints()[3] {
        ExtExpr::Sub(product, _) => match &**product {
            ExtExpr::Mul(diff, _) => match &**diff {
                ExtExpr::Sub(cur, _) => match &**cur {
                    ExtExpr::SecureCol(a, b, c, d) => {
                        assert!(is_col(a, 1, 12));
                        assert!(is_col(b, 1, 13));
                        assert!(is_col(c, 1, 14));
                        assert!(is_col(d, 1, 15));
                    }
                    other => panic!("{other:?}"),
                },
                other => panic!("{other:?}"),
            },
            other => panic!("{other:?}"),
        },
        other => panic!("{other:?}"),
    }
}

#[test]
fn evaluating_twice_gives_the_same() {
    let (columns, total) = columns_of(&four_rows(), &rich());
    let trace = Trace::new(2, columns).unwrap();
    for claimed_sum in [total, q(1, 2, 3, 4)] {
        let eval = eval_for(4, rich(), claimed_sum);
        for row in 0..4 {
            let first = constraints_at(&eval, &trace, row);
            let second = constraints_at(&eval, &trace, row);
            assert_eq!(first, second);
        }
    }
    let eval = eval_for(4, rich(), q(1, 2, 3, 4));
    assert!(!constraints_at(&eval, &trace, 0)[2].is_zero());
    let first = eval.evaluate(ExprEvaluator::new(vec![7, 12, 1]));
    let second = eval.evaluate(ExprEvaluator::new(vec![7, 12, 1]));
    assert_eq!(first.constraints(), second.constraints());
    assert_eq!(eval.first_violation(&trace), eval.first_violation(&trace));
}

fn is_col(e: &BaseExpr, i: usize, c: usize) -> bool {
    matches!(e, BaseExpr::Col { interaction, column, offset: 0 } if *interaction == i && *column == c)
}

fn col(interaction: usize, column: usize, offset: isize) -> Box<BaseExpr> {
    Box::new(BaseExpr::Col { interaction, column, offset })
}

fn secure_col(column: usize, offset: isize) -> Box<ExtExpr> {
    Box::new(ExtExpr::SecureCol(
        col(1, column, offset),
        col(1, column + 1, offset),
        col(1, column + 2, offset),
        col(1, column + 3, offset),
    ))
}

fn combined(elements: &RelationElements, values: Vec<BaseExpr>) -> Box<ExtExpr> {
    let mut acc = ExtExpr::Const(QM31::zero());
    for (c, v) in elements.coefficients.iter().zip(values) {
        acc = ExtExpr::Add(Box::new(acc), Box::new(ExtExpr::Scale(Box::new(v), *c)));
    }
    Box::new(acc)
}

fn frame_cells(back: u32, limb0: usize, limb1: usize) -> Vec<BaseExpr> {
    let mut values = vec![
        BaseExpr::Sub(col(0, 2, 0), Box::new(BaseExpr::Const(m(back)))),
        *col(0, limb0, 0),
        *col(0, limb1, 0),
    ];
    for _ in 3..29 {
        values.push(BaseExpr::Const(m(0)));
    }
    values
}

fn one() -> Box<ExtExpr> {
    Box::new(ExtExpr::Const(QM31::one()))
}

#[test]
fn symbolic_constraints_are_the_expected_expressions() {
    let elements = rich();
    let eval = eval_for(4, rich(), q(5, 6, 7, 8));
    let out = eval.evaluate(ExprEvaluator::new(vec![7, 12, 1]));

    let mut fetch = vec![*col(0, 0, 0)];
    for limb in RET_INSTRUCTION {
        fetch.push(BaseExpr::Const(m(limb)));
    }
    let zero = Box::new(ExtExpr::Const(QM31::zero()));
    let first = ExtExpr::Sub(
        Box::new(ExtExpr::Mul(
            Box::new(ExtExpr::Sub(secure_col(0, 0), zero)),
            combined(&elements, fetch),
        )),
        one(),
    );
    let second = ExtExpr::Sub(
        Box::new(ExtExpr::Mul(
            Box::new(ExtExpr::Sub(secure_col(4, 0), secure_col(0, 0))),
            combined(&elements, frame_cells(1, 3, 4)),
        )),
        one(),
    );
    let fixed_prev_row = ExtExpr::Sub(
        secure_col(8, -1),
        Box::new(ExtExpr::Scale(col(2, 0, 0), q(5, 6, 7, 8))),
    );
    let diff = ExtExpr::Sub(
        Box::new(ExtExpr::Sub(secure_col(8, 0), Box::new(fixed_prev_row))),
        secure_col(4, 0),
    );
    let third = ExtExpr::Sub(
        Box::new(ExtExpr::Mul(Box::new(diff), combined(&elements, frame_cells(2, 5, 6)))),
        one(),
    );
    assert_eq!(out.constraints()[0], first);
    assert_eq!(out.constraints()[1], second);
    assert_eq!(out.constraints()[2], third);
}

#[test]
fn symbolic_constraints_have_the_values_of_the_known_ones() {
    let (mut columns, total) = columns_of(&four_rows(), &rich());
    // Also on a trace that does not meet the constraints.
    columns[1][5][2] = m(99);
    columns[0][2][0] = m(3);
    let trace = Trace::new(2, columns).unwrap();
    let eval = eval_for(4, rich(), total);
    let symbolic = eval.evaluate(ExprEvaluator::new(vec![7, 12, 1]));
    let mut seen_nonzero = false;
    for row in 0..4 {
        let known = constraints_at(&eval, &trace, row);
        for k in 0..3 {
            let value = symbolic.constraints()[k].evaluate(&trace, row);
            assert_eq!(value, known[k]);
            seen_nonzero |= !value.is_zero();
        }
    }
    assert!(seen_nonzero);
}

#[test]
fn a_valid_trace_passes_the_check() {
    let (columns, total) = columns_of(&four_rows(), &rich());
    let trace = Trace::new(2, columns).unwrap();
    assert_eq!(eval_for(4, rich(), total).check_trace(&trace), Ok(()));
    assert_eq!(eval_for(3, rich(), total).check_trace(&trace), Ok(()));
}

#[test]
fn a_trace_of_another_shape_is_refused() {
    let (columns, total) = columns_of(&four_rows(), &rich());
    let trace = Trace::new(2, columns.clone()).unwrap();
    // Claims of another log size.
    assert_eq!(eval_for(2, rich(), total).check_trace(&trace), Err(TraceError::Shape));
    assert_eq!(eval_for(5, rich(), total).check_trace(&trace), Err(TraceError::Shape));
    let eval = eval_for(4, rich(), total);
    // A phase too few, a phase too many.
    let trace = Trace::new(2, columns[..2].to_vec()).unwrap();
    assert_eq!(eval.check_trace(&trace), Err(TraceError::Shape));
    let mut more = columns.clone();
    more.push(vec![]);
    assert_eq!(eval.check_trace(&Trace::new(2, more).unwrap()), Err(TraceError::Shape));
    assert_eq!(eval.check_trace(&Trace::new(2, vec![]).unwrap()), Err(TraceError::Shape));
    // A column too few or too many in each phase.
    for phase in 0..3 {
        let mut fewer = columns.clone();
        fewer[phase].pop();
        assert_eq!(eval.check_trace(&Trace::new(2, fewer).unwrap()), Err(TraceError::Shape));
        let mut more = columns.clone();
        more[phase].push(vec![m(0); 4]);
        assert_eq!(eval.check_trace(&Trace::new(2, more).unwrap()), Err(TraceError::Shape));
    }
}

#[test]
fn an_unsatisfied_constraint_is_reported_with_its_place() {
    let (columns, total) = columns_of(&four_rows(), &rich());
    let eval = eval_for(4, rich(), total);
    let mut corrupted = columns.clone();
    corrupted[0][0][2] = m(1);
    assert_eq!(
        eval.check_trace(&Trace::new(2, corrupted).unwrap()),
        Err(TraceError::Unsatisfied { row: 2, constraint: 0 })
    );
    let mut corrupted = columns.clone();
    corrupted[0][3][3] = m(1);
    assert_eq!(
        eval.check_trace(&Trace::new(2, corrupted).unwrap()),
        Err(TraceError::Unsatisfied { row: 3, constraint: 1 })
    );
    let mut corrupted = columns.clone();
    corrupted[2][0][0] = m(0);
    assert_eq!(
        eval.check_trace(&Trace::new(2, corrupted).unwrap()),
        Err(TraceError::Unsatisfied { row: 0, constraint: 2 })
    );
    // The shape is looked at first.
    let mut corrupted = columns.clone();
    corrupted[0][0][2] = m(1);
    corrupted[1].pop();
    assert_eq!(eval.check_trace(&Trace::new(2, corrupted).unwrap()), Err(TraceError::Shape));
}
