use zkproofs::air::{BoundaryAssertion, TRACE_LENGTH};
use zkproofs::field::Felt;
use zkproofs::merkle::{build_merkle_trace, MerkleAir};
use zkproofs::multiplication::{build_multiplication_trace, MultiplicationAir};
use zkproofs::sha256::{build_sha256_trace, Sha256Air};
use zkproofs::trace::ExecutionTrace;

fn row(trace: &ExecutionTrace, step: usize) -> Vec<Felt> {
    (0..trace.width()).map(|c| trace.get(c, step)).collect()
}

fn values(row: &[Felt]) -> Vec<u128> {
    row.iter().map(|f| f.value()).collect()
}

fn holds(trace: &ExecutionTrace, asserts: &[BoundaryAssertion]) -> bool {
    asserts.iter().all(|a| trace.get(a.column, a.step) == a.value)
}

#[test]
fn trace_push_and_get() {
    let mut t = ExecutionTrace::new(2);
    assert_eq!(t.length(), 0);
    t.push_row(vec![Felt::new(1), Felt::new(2)]);
    t.push_row(vec![Felt::new(3), Felt::new(4)]);
    assert_eq!(t.length(), 2);
    assert_eq!(t.width(), 2);
    assert_eq!(t.get(1, 0).value(), 2);
    assert_eq!(t.get(0, 1).value(), 3);
}

#[test]
fn multiplication_trace_rows() {
    let t = build_multiplication_trace(Felt::new(3), Felt::new(5));
    assert_eq!(t.length(), TRACE_LENGTH);
    assert_eq!(t.width(), 3);
    assert_eq!(values(&row(&t, 0)), vec![3, 5, 1]);
    for step in 1..8 {
        assert_eq!(values(&row(&t, step)), vec![15, 5, 0]);
    }
    assert_eq!(t.get(0, t.length() - 1).value(), 15);
}

#[test]
fn multiplication_trace_meets_its_statement() {
    let air = MultiplicationAir::new(8);
    assert_eq!(air.transition_degrees(), vec![2, 1, 1]);
    assert_eq!(air.num_assertions(), 1);
    let t = build_multiplication_trace(Felt::new(3), Felt::new(5));
    for step in 0..7 {
        let out = air.evaluate_transition(&row(&t, step), &row(&t, step + 1));
        assert_eq!(values(&out), vec![0, 0, 0]);
    }
    let asserts = air.get_assertions();
    assert_eq!(asserts.len(), 1);
    assert_eq!((asserts[0].column, asserts[0].step, asserts[0].value.value()), (0, 7, 15));
    assert!(holds(&t, &asserts));
    let other = build_multiplication_trace(Felt::new(4), Felt::new(5));
    assert!(!holds(&other, &asserts));
}

#[test]
fn multiplication_transition_flags_a_wrong_product() {
    let air = MultiplicationAir::new(8);
    let current = vec![Felt::new(3), Felt::new(5), Felt::one()];
    let next = vec![Felt::new(16), Felt::new(5), Felt::zero()];
    assert_eq!(values(&air.evaluate_transition(&current, &next)), vec![1, 0, 0]);
    let next = vec![Felt::new(15), Felt::new(6), Felt::one()];
    assert_eq!(values(&air.evaluate_transition(&current, &next)), vec![0, 1, 1]);
}

#[test]
fn multiplication_in_the_field_wraps() {
    let m1 = zkproofs::field::MODULUS - 1;
    let t = build_multiplication_trace(Felt::new(m1), Felt::new(m1));
    assert_eq!(t.get(0, 7).value(), 1);
}

const HELLO_WORLD_WORDS: [u128; 8] = [
    0x7f83b165, 0x7ff1fc53, 0xb92dc181, 0x48a1d65d, 0xfc2d4b1f, 0xa3d67728, 0x4addd200, 0x126d9069,
];

#[test]
fn sha256_trace_rows() {
    let t = build_sha256_trace("Hello World!");
    assert_eq!(t.length(), 8);
    assert_eq!(t.width(), 9);
    let mut first = HELLO_WORLD_WORDS.to_vec();
    first.push(1);
    assert_eq!(values(&row(&t, 0)), first);
    let mut later = HELLO_WORLD_WORDS.to_vec();
    later.push(0);
    for step in 1..8 {
        assert_eq!(values(&row(&t, step)), later);
    }
}

#[test]
fn sha256_trace_meets_its_statement() {
    let air = Sha256Air::new(8);
    assert_eq!(air.transition_degrees(), vec![1; 9]);
    assert_eq!(air.num_assertions(), 8);
    let t = build_sha256_trace("Hello World!");
    for step in 0..7 {
        let out = air.evaluate_transition(&row(&t, step), &row(&t, step + 1));
        assert_eq!(values(&out), vec![0; 9]);
    }
    let asserts = air.get_assertions();
    assert_eq!(asserts.len(), 8);
    for (i, a) in asserts.iter().enumerate() {
        assert_eq!((a.column, a.step, a.value.value()), (i, 7, HELLO_WORLD_WORDS[i]));
    }
    assert!(holds(&t, &asserts));
    assert!(!holds(&build_sha256_trace("Hello World?"), &asserts));
}

#[test]
fn sha256_transition_flags_a_changed_word() {
    let air = Sha256Air::new(8);
    let current: Vec<Felt> = (0..9).map(|i| Felt::new(i as u128)).collect();
    let mut next = current.clone();
    next[3] = Felt::new(10);
    next[8] = Felt::one();
    let out = values(&air.evaluate_transition(&current, &next));
    assert_eq!(out, vec![0, 0, 0, 7, 0, 0, 0, 0, 1]);
}

const MERKLE_ROOT: [u128; 8] =
    [2979419580, 3741653137, 1409103455, 1378847554, 2286745112, 1103954196, 1149985725, 320578323];

#[test]
fn merkle_trace_rows() {
    let t = build_merkle_trace();
    assert_eq!(t.length(), 8);
    assert_eq!(t.width(), 9);
    let leaf = zkproofs::hashing::compute_sha256_words("L2");
    let mut r0: Vec<u128> = leaf.iter().map(|w| *w as u128).collect();
    r0.push(1);
    assert_eq!(values(&row(&t, 0)), r0);
    let inter: [u128; 8] =
        [2402832844, 1369119726, 904912907, 1859412798, 3431741478, 900903595, 3360578179, 2322918860];
    let mut r1 = inter.to_vec();
    r1.push(1);
    assert_eq!(values(&row(&t, 1)), r1);
    let mut r2 = MERKLE_ROOT.to_vec();
    r2.push(1);
    assert_eq!(values(&row(&t, 2)), r2);
    let mut later = MERKLE_ROOT.to_vec();
    later.push(0);
    for step in 3..8 {
        assert_eq!(values(&row(&t, step)), later);
    }
}

#[test]
fn merkle_trace_meets_its_statement() {
    let air = MerkleAir::new(8);
    assert_eq!(air.transition_degrees(), vec![2; 9]);
    assert_eq!(air.num_assertions(), 8);
    let t = build_merkle_trace();
    for step in 0..7 {
        let out = air.evaluate_transition(&row(&t, step), &row(&t, step + 1));
        assert_eq!(values(&out), vec![0; 9]);
    }
    let asserts = air.get_assertions();
    assert_eq!(asserts.len(), 8);
    for (i, a) in asserts.iter().enumerate() {
        assert_eq!((a.column, a.step, a.value.value()), (i, 7, MERKLE_ROOT[i]));
    }
    assert!(holds(&t, &asserts));
}

#[test]
fn merkle_transition_flags_a_change_after_the_flag_drops() {
    let air = MerkleAir::new(8);
    let mut current: Vec<Felt> = (0..9).map(|i| Felt::new(i as u128)).collect();
    current[8] = Felt::zero();
    let mut next = current.clone();
    next[0] = Felt::new(2);
    next[8] = Felt::one();
    let out = values(&air.evaluate_transition(&current, &next));
    let m = zkproofs::field::MODULUS;
    assert_eq!(out, vec![2, 0, 0, 0, 0, 0, 0, 0, m - 1]);
    // while the flag is set, any change is allowed
    current[8] = Felt::one();
    let out = values(&air.evaluate_transition(&current, &next));
    assert_eq!(out, vec![0; 9]);
}
