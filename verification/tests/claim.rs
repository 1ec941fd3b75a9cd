use stwo_cairo_prover::components::memory::id_to_f252::component::N_M31_IN_FELT252;
use stwo_cairo_prover::components::memory::id_to_f252::{RelationElements, N_ELEMENTS};
use stwo_cairo_prover::components::ret_opcode::component::{
    Claim, Eval, InteractionClaim, RET_INSTRUCTION, RET_N_LOOKUPS, RET_N_TRACE_CELLS,
};
use stwo_cairo_prover::fields::QM31;

fn elements() -> RelationElements {
    let coefficients = (0..N_ELEMENTS as u32).map(|i| QM31::from_u32_unchecked(i + 1, 0, 0, 0)).collect();
    RelationElements::new(coefficients).unwrap()
}

#[test]
fn constants_of_the_component() {
    assert_eq!(RET_N_TRACE_CELLS, 7);
    assert_eq!(RET_N_LOOKUPS, 3);
    assert_eq!(N_M31_IN_FELT252, 28);
    assert_eq!(N_ELEMENTS, 29);
    assert_eq!(RET_INSTRUCTION.len(), 28);
    assert_eq!(&RET_INSTRUCTION[..7], &[510, 447, 511, 495, 511, 91, 130]);
    assert!(RET_INSTRUCTION[7..].iter().all(|limb| *limb == 0));
}

#[test]
fn log_size_is_the_rounded_up_logarithm() {
    assert_eq!(Claim { n_rets: 5 }.log_size(), 3);
    assert_eq!(Claim { n_rets: 1 }.log_size(), 0);
    assert_eq!(Claim { n_rets: 0 }.log_size(), 0);
    assert_eq!(Claim { n_rets: 2 }.log_size(), 1);
    assert_eq!(Claim { n_rets: 3 }.log_size(), 2);
    assert_eq!(Claim { n_rets: 4 }.log_size(), 2);
    assert_eq!(Claim { n_rets: 8 }.log_size(), 3);
    assert_eq!(Claim { n_rets: 9 }.log_size(), 4);
    assert_eq!(Claim { n_rets: 1023 }.log_size(), 10);
    assert_eq!(Claim { n_rets: 1024 }.log_size(), 10);
    assert_eq!(Claim { n_rets: 1025 }.log_size(), 11);
}

#[test]
fn log_size_is_the_least_sufficient_exponent() {
    for n in 1usize..5000 {
        let k = Claim { n_rets: n }.log_size();
        assert!((1u64 << k) >= n as u64);
        if k > 0 {
            assert!((1u64 << (k - 1)) < n as u64);
        }
        assert_eq!(k, n.next_power_of_two().ilog2());
    }
}

#[test]
fn log_size_of_the_largest_row_counts() {
    let bits = usize::BITS;
    assert_eq!(Claim { n_rets: usize::MAX }.log_size(), bits);
    assert_eq!(Claim { n_rets: 1usize << (bits - 1) }.log_size(), bits - 1);
    assert_eq!(Claim { n_rets: (1usize << (bits - 1)) + 1 }.log_size(), bits);
    assert_eq!(Claim { n_rets: (1usize << (bits - 1)) - 1 }.log_size(), bits - 1);
}

#[test]
fn log_sizes_give_every_column_the_log_size() {
    let trees = Claim { n_rets: 5 }.log_sizes();
    assert_eq!(trees.0.len(), 3);
    assert_eq!(trees.0[0], vec![3u32; 7]);
    assert_eq!(trees.0[1], vec![3u32; 12]);
    assert_eq!(trees.0[2], vec![3u32]);
}

#[test]
fn log_sizes_of_small_claims() {
    for (n_rets, log_size) in [(0usize, 0u32), (1, 0), (2, 1), (16, 4), (17, 5)] {
        let claim = Claim { n_rets };
        let plain = claim.column_log_sizes();
        assert_eq!(plain, vec![vec![log_size; 7], vec![log_size; 12], vec![log_size; 1]]);
        assert_eq!(claim.log_sizes().0, plain);
    }
}

#[test]
fn eval_takes_log_size_elements_and_claimed_sum() {
    let claimed_sum = QM31::from_u32_unchecked(4, 3, 2, 1);
    let eval = Eval::new(
        Claim { n_rets: 5 },
        elements(),
        InteractionClaim { log_size: 3, claimed_sum },
    );
    assert_eq!(eval.log_size, 3);
    assert_eq!(eval.log_size(), 3);
    assert_eq!(eval.max_constraint_log_degree_bound(), 4);
    assert_eq!(eval.claimed_sum, claimed_sum);
    assert_eq!(eval.memory_lookup_elements.coefficients, elements().coefficients);
}

#[test]
fn eval_log_size_comes_from_the_claim() {
    // The interaction claim's own log size is not consulted.
    let eval = Eval::new(
        Claim { n_rets: 0 },
        elements(),
        InteractionClaim { log_size: 9, claimed_sum: QM31::zero() },
    );
    assert_eq!(eval.log_size(), 0);
    assert_eq!(eval.max_constraint_log_degree_bound(), 1);
    let eval = Eval::new(
        Claim { n_rets: 1000 },
        elements(),
        InteractionClaim { log_size: 0, claimed_sum: QM31::zero() },
    );
    assert_eq!(eval.log_size(), 10);
    assert_eq!(eval.max_constraint_log_degree_bound(), 11);
}
