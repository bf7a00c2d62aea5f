//! The product statement: a trace whose first column goes from `a` to `a * b` in one
//! step, with `b` carried along and a flag that marks the multiplying step.

use vstd::prelude::*;
use crate::air::{
    TRACE_LENGTH, BoundaryAssertion, assertion_views, assertions_hold, transitions_hold, all_zero,
    canonical_rows,
};
use crate::field::{
    Felt, fadd, fsub, fmul, modulus, lemma_unit_identities, lemma_ops_canonical, lemma_sub_zero_equal,
};
use crate::trace::{ExecutionTrace, row_values};

verus! {

/// The rows of the product trace: `[a, b, 1]`, then `[a * b, b, 0]` on every later row.
pub open spec fn multiplication_rows(a: int, b: int) -> Seq<Seq<int>> {
    Seq::new(
        TRACE_LENGTH as nat,
        |s: int|
            if s == 0 {
                seq![a, b, 1int]
            } else {
                seq![fmul(a, b), b, 0int]
            },
    )
}

/// The transition constraints on a pair of rows: the next value is the current one,
/// times `b` where the flag is set; `b` stays; the next flag is zero.
pub open spec fn multiplication_transition(current: Seq<int>, next: Seq<int>) -> Seq<int> {
    let flag = current[2];
    let expected_next = fadd(fmul(flag, fmul(current[0], current[1])), fmul(fsub(1, flag), current[0]));
    seq![fsub(next[0], expected_next), fsub(next[1], current[1]), next[2]]
}

/// The product the statement claims.
pub const EXPECTED_PRODUCT: u128 = 15u128;

/// Builds the product trace of 8 rows and 3 columns: the running value, the
/// multiplier `b` and the flag.
pub fn build_multiplication_trace(a: Felt, b: Felt) -> (t: ExecutionTrace)
    ensures
        t@ == multiplication_rows(a@, b@),
        t.spec_width() == 3,
        t@.len() == TRACE_LENGTH,
        t@[0] == seq![a@, b@, 1int],
        forall|s: int|
            1 <= s < TRACE_LENGTH ==> #[trigger] t@[s] == seq![(a@ * b@) % modulus(), b@, 0int],
{
    proof {
        lemma_multiplication_rows_hold_product(a@, b@);
    }
    let mut trace = ExecutionTrace::new(3);
    let first: Vec<Felt> = vec![a, b, Felt::one()];
    assert(row_values(first@) =~= multiplication_rows(a@, b@)[0]);
    trace.push_row(first);
    let mut step: usize = 0;
    while step < TRACE_LENGTH - 1
        invariant
            0 <= step < TRACE_LENGTH,
            trace.spec_width() == 3,
            trace@ =~= multiplication_rows(a@, b@).take(step + 1),
        decreases TRACE_LENGTH - step,
    {
        let prev0 = trace.get(0, step);
        let prev1 = trace.get(1, step);
        let next: Vec<Felt>;
        if step == 0 {
            let prod = prev0.mul(prev1);
            next = vec![prod, prev1, Felt::zero()];
        } else {
            next = vec![prev0, prev1, Felt::zero()];
        }
        assert(row_values(next@) =~= multiplication_rows(a@, b@)[step + 1]);
        trace.push_row(next);
        step = step + 1;
    }
    assert(multiplication_rows(a@, b@).take(TRACE_LENGTH as int) =~= multiplication_rows(a@, b@));
    trace
}

/// The assertions of the product statement on a trace of `trace_length` rows: the
/// last value of the first column is the expected product.
pub open spec fn multiplication_assertions(trace_length: int) -> Seq<(int, int, int)> {
    seq![(0int, trace_length - 1, EXPECTED_PRODUCT as int)]
}

/// The description of the product statement for a trace of a given length.
pub struct MultiplicationAir {
    trace_length: usize,
}

impl MultiplicationAir {
    #[verifier::type_invariant]
    spec fn has_rows(self) -> bool {
        self.trace_length >= 1
    }

    /// The number of rows of the traces this statement is about.
    pub closed spec fn spec_trace_length(&self) -> int {
        self.trace_length as int
    }

    /// The statement for traces of `trace_length` rows.
    pub fn new(trace_length: usize) -> (air: MultiplicationAir)
        requires
            trace_length >= 1,
        ensures
            air.spec_trace_length() == trace_length,
    {
        MultiplicationAir { trace_length }
    }

    /// The number of rows of the traces this statement is about.
    pub fn trace_length(&self) -> (n: usize)
        ensures
            n == self.spec_trace_length(),
            n >= 1,
    {
        proof {
            use_type_invariant(self);
        }
        self.trace_length
    }

    /// The degrees of the three transition constraints: the product is of degree 2,
    /// the other two of degree 1.
    pub fn transition_degrees(&self) -> (degrees: Vec<usize>)
        ensures
            degrees@ == seq![2usize, 1usize, 1usize],
    {
        vec![2, 1, 1]
    }

    /// The number of boundary assertions.
    pub fn num_assertions(&self) -> (n: usize)
        ensures
            n == multiplication_assertions(self.spec_trace_length()).len(),
    {
        1
    }

    /// Evaluates the transition constraints on a row and the next one.
    pub fn evaluate_transition(&self, current: &[Felt], next: &[Felt]) -> (out: Vec<Felt>)
        requires
            current@.len() >= 3,
            next@.len() >= 3,
        ensures
            row_values(out@) == multiplication_transition(
                row_values(current@),
                row_values(next@),
            ),
    {
        let one = Felt::one();
        let flag = current[2];
        let expected_next = flag.mul(current[0].mul(current[1])).add(one.sub(flag).mul(current[0]));
        let out = vec![next[0].sub(expected_next), next[1].sub(current[1]), next[2]];
        assert(row_values(out@) =~= multiplication_transition(
            row_values(current@),
            row_values(next@),
        ));
        out
    }

    /// The boundary assertions: the last value of the first column is 15.
    pub fn get_assertions(&self) -> (asserts: Vec<BoundaryAssertion>)
        ensures
            assertion_views(asserts@) == multiplication_assertions(self.spec_trace_length()),
            asserts@.len() == 1,
            asserts@[0].column == 0,
            asserts@[0].step == self.spec_trace_length() - 1,
            asserts@[0].value@ == 15,
            asserts@.len() == multiplication_assertions(self.spec_trace_length()).len(),
            forall|k: int|
                0 <= k < asserts@.len() ==> #[trigger] asserts@[k]@ == multiplication_assertions(
                    self.spec_trace_length(),
                )[k],
    {
        let last_step = self.trace_length() - 1;
        let asserts = vec![BoundaryAssertion { column: 0, step: last_step, value: Felt::new(EXPECTED_PRODUCT) }];
        proof {
            vstd::arithmetic::div_mod::lemma_small_mod(EXPECTED_PRODUCT as nat, modulus() as nat);
        }
        assert(assertion_views(asserts@) =~= multiplication_assertions(self.spec_trace_length()));
        proof {
            lemma_multiplication_assertion_on_last_row(self.spec_trace_length());
        }
        asserts
    }
}

/// The product trace of any `a` and `b` starts with `a`, `b` and a set flag, and every
/// later row holds `a * b` (reduced modulo the field's order), `b` and a zero flag.
pub proof fn lemma_multiplication_rows_hold_product(a: int, b: int)
    ensures
        multiplication_rows(a, b).len() == TRACE_LENGTH,
        multiplication_rows(a, b)[0] == seq![a, b, 1int],
        forall|s: int|
            1 <= s < TRACE_LENGTH ==> #[trigger] multiplication_rows(a, b)[s] == seq![
                (a * b) % modulus(),
                b,
                0int,
            ],
{
}

/// For a trace of any length `n`, the one assertion is that the first column of the
/// last row `n - 1` holds 15.
pub proof fn lemma_multiplication_assertion_on_last_row(n: int)
    requires
        n >= 1,
    ensures
        multiplication_assertions(n) == seq![(0int, n - 1, 15int)],
{
}

/// What the transition constraints accept on canonical rows: with the flag set, the
/// next row must be `[c0 * c1, c1, 0]`; with the flag clear, `[c0, c1, 0]`.
pub proof fn lemma_multiplication_transition_accepts(current: Seq<int>, next: Seq<int>)
    requires
        canonical_rows(seq![current, next], 3),
    ensures
        current[2] == 1 ==> (all_zero(multiplication_transition(current, next)) <==> next
            == seq![(current[0] * current[1]) % modulus(), current[1], 0int]),
        current[2] == 0 ==> (all_zero(multiplication_transition(current, next)) <==> next
            == seq![current[0], current[1], 0int]),
{
    let t = seq![current, next];
    assert(t[0] == current && t[1] == next);
    assert(current.len() == 3 && next.len() == 3);
    assert(0 <= t[0][0] < modulus() && 0 <= t[0][1] < modulus() && 0 <= t[0][2] < modulus());
    assert(0 <= t[1][0] < modulus() && 0 <= t[1][1] < modulus() && 0 <= t[1][2] < modulus());
    let c0 = current[0];
    let c1 = current[1];
    let p = fmul(c0, c1);
    let out = multiplication_transition(current, next);
    lemma_ops_canonical(c0, c1);
    lemma_unit_identities(c0);
    lemma_unit_identities(p);
    let expected = if current[2] == 1 { p } else { c0 };
    if current[2] == 1 || current[2] == 0 {
        assert(fadd(fmul(current[2], p), fmul(fsub(1, current[2]), c0)) == expected);
        assert(out[0] == fsub(next[0], expected));
        if all_zero(out) {
            assert(out[0] == 0 && out[1] == 0 && out[2] == 0);
            lemma_sub_zero_equal(next[0], expected);
            lemma_sub_zero_equal(next[1], c1);
            assert(next =~= seq![expected, c1, 0int]);
        }
        if next == seq![expected, c1, 0int] {
            lemma_unit_identities(c1);
            lemma_unit_identities(expected);
            assert forall|i: int| 0 <= i < out.len() implies #[trigger] out[i] == 0 by {}
        }
    }
}

/// The product trace meets the transition constraints at every step, for every pair
/// of field elements.
pub proof fn lemma_multiplication_trace_meets_transitions(a: int, b: int)
    requires
        0 <= a < modulus(),
        0 <= b < modulus(),
    ensures
        transitions_hold(
            multiplication_rows(a, b),
            |c: Seq<int>, n: Seq<int>| multiplication_transition(c, n),
        ),
{
    let rows = multiplication_rows(a, b);
    let p = fmul(a, b);
    lemma_ops_canonical(a, b);
    lemma_unit_identities(a);
    lemma_unit_identities(b);
    lemma_unit_identities(p);
    assert forall|s: int| 0 <= s < rows.len() - 1 implies all_zero(
        #[trigger] multiplication_transition(rows[s], rows[s + 1]),
    ) by {
        let out = multiplication_transition(rows[s], rows[s + 1]);
        if s == 0 {
            assert(rows[0] == seq![a, b, 1int]);
            assert(rows[1] == seq![p, b, 0int]);
            assert(out[0] == 0);
            assert(out[1] == 0);
            assert(out[2] == 0);
            assert(out.len() == 3);
        } else {
            assert(rows[s] == seq![p, b, 0int]);
            assert(rows[s + 1] == seq![p, b, 0int]);
            lemma_ops_canonical(p, b);
            lemma_unit_identities(fmul(p, b));
            assert(out[0] == 0);
            assert(out[1] == 0);
            assert(out[2] == 0);
            assert(out.len() == 3);
        }
    }
}

/// The product trace meets the boundary assertions exactly when `a * b` is 15 in the
/// field.
pub proof fn lemma_multiplication_assertions(a: int, b: int)
    requires
        0 <= a < modulus(),
        0 <= b < modulus(),
    ensures
        assertions_hold(
            multiplication_rows(a, b),
            multiplication_assertions(TRACE_LENGTH as int),
        ) <==> fmul(a, b) == EXPECTED_PRODUCT as int,
{
    let rows = multiplication_rows(a, b);
    let asserts = multiplication_assertions(TRACE_LENGTH as int);
    assert(rows[7] == seq![fmul(a, b), b, 0int]);
    if fmul(a, b) == EXPECTED_PRODUCT as int {
        assert forall|k: int| 0 <= k < asserts.len() implies crate::air::assertion_holds(
            rows,
            #[trigger] asserts[k],
        ) by {
            assert(k == 0);
        }
    }
    if assertions_hold(rows, asserts) {
        assert(crate::air::assertion_holds(rows, asserts[0]));
    }
}

/// What the transition constraints enforce: in any trace of canonical values that
/// meets them and starts with the flag set, every later row holds `a * b`, `b` and a
/// zero flag, where `a` and `b` are the first row's values.
pub proof fn lemma_multiplication_constraints_carry_product(t: Seq<Seq<int>>)
    requires
        t.len() >= 1,
        canonical_rows(t, 3),
        transitions_hold(t, |c: Seq<int>, n: Seq<int>| multiplication_transition(c, n)),
        t[0][2] == 1,
    ensures
        forall|s: int|
            1 <= s < t.len() ==> #[trigger] t[s] == seq![fmul(t[0][0], t[0][1]), t[0][1], 0int],
{
    assert forall|s: int| 1 <= s < t.len() implies #[trigger] t[s] == seq![
        fmul(t[0][0], t[0][1]),
        t[0][1],
        0int,
    ] by {
        lemma_multiplication_row(t, s);
    }
}

/// Row `s` of a trace as in `lemma_multiplication_constraints_carry_product`.
proof fn lemma_multiplication_row(t: Seq<Seq<int>>, s: int)
    requires
        1 <= s < t.len(),
        canonical_rows(t, 3),
        transitions_hold(t, |c: Seq<int>, n: Seq<int>| multiplication_transition(c, n)),
        t[0][2] == 1,
    ensures
        t[s] == seq![fmul(t[0][0], t[0][1]), t[0][1], 0int],
    decreases s,
{
    let a = t[0][0];
    let b = t[0][1];
    let p = fmul(a, b);
    let k = s - 1;
    let cur = t[k];
    let nxt = t[k + 1];
    assert(t[0].len() == 3 && t[k].len() == 3 && t[k + 1].len() == 3);
    assert(0 <= t[0][0] < modulus() && 0 <= t[0][1] < modulus());
    assert(0 <= cur[0] < modulus() && 0 <= cur[1] < modulus() && 0 <= cur[2] < modulus());
    assert(0 <= nxt[0] < modulus() && 0 <= nxt[1] < modulus() && 0 <= nxt[2] < modulus());
    let f = |c: Seq<int>, n: Seq<int>| multiplication_transition(c, n);
    assert(all_zero(f(t[k], t[k + 1])));
    let out = multiplication_transition(cur, nxt);
    assert(out[0] == 0 && out[1] == 0 && out[2] == 0);
    lemma_ops_canonical(a, b);
    lemma_unit_identities(a);
    lemma_unit_identities(p);
    if s == 1 {
        assert(cur[2] == 1);
        lemma_ops_canonical(cur[0], cur[1]);
        assert(fadd(fmul(1, fmul(a, b)), fmul(fsub(1, 1), a)) == p);
        lemma_sub_zero_equal(nxt[0], p);
    } else {
        lemma_multiplication_row(t, s - 1);
        assert(cur == seq![p, b, 0int]);
        lemma_ops_canonical(p, b);
        lemma_unit_identities(fmul(p, b));
        assert(fadd(fmul(0, fmul(p, b)), fmul(fsub(1, 0), p)) == p);
        lemma_sub_zero_equal(nxt[0], p);
    }
    lemma_sub_zero_equal(nxt[1], cur[1]);
    assert(nxt =~= seq![p, b, 0int]);
}

} // verus!
