//! The digest statement: a trace whose eight word columns hold the SHA-256 digest of
//! a text on every row, with a flag column that is 1 on the first row only.

use vstd::prelude::*;
use vstd::utf8::encode_utf8;
use crate::air::{
    TRACE_LENGTH, BoundaryAssertion, assertion_views, assertion_holds, assertions_hold,
    transitions_hold, all_zero, canonical_rows,
};
use crate::field::{Felt, fsub, modulus, lemma_unit_identities, lemma_sub_zero_equal};
use crate::hashing::{compute_sha256_words, sha256_words, digest_words, sha256_spec};
use crate::trace::{ExecutionTrace, row_values, words_row, digest_row};

verus! {

/// The rows of the digest trace of `words`: the flag is 1 on the first row, 0 after.
pub open spec fn sha256_rows(words: Seq<u32>) -> Seq<Seq<int>> {
    Seq::new(TRACE_LENGTH as nat, |s: int| words_row(words, if s == 0 { 1 } else { 0 }))
}

/// The transition constraints: every word stays as it is, and the next flag is zero.
pub open spec fn sha256_transition(current: Seq<int>, next: Seq<int>) -> Seq<int> {
    Seq::new(9, |i: int| if i < 8 { fsub(next[i], current[i]) } else { next[8] })
}

/// The digest the statement claims: SHA-256 of the text "Hello World!".
pub open spec fn sha256_expected_words() -> Seq<u32> {
    seq![
        0x7f83b165u32,
        0x7ff1fc53u32,
        0xb92dc181u32,
        0x48a1d65du32,
        0xfc2d4b1fu32,
        0xa3d67728u32,
        0x4addd200u32,
        0x126d9069u32,
    ]
}

/// The assertions of the digest statement on a trace of `trace_length` rows: the
/// last row holds the claimed digest.
pub open spec fn sha256_assertions(trace_length: int) -> Seq<(int, int, int)> {
    Seq::new(8, |i: int| (i, trace_length - 1, sha256_expected_words()[i] as int))
}

/// Builds the digest trace of `data`: 8 rows and 9 columns, the eight big-endian
/// words of the SHA-256 digest of its UTF-8 bytes and a flag.
pub fn build_sha256_trace(data: &str) -> (t: ExecutionTrace)
    ensures
        t@ == sha256_rows(sha256_words(encode_utf8(data@))),
        t.spec_width() == 9,
        t@.len() == TRACE_LENGTH,
        forall|s: int| 0 <= s < TRACE_LENGTH ==> (#[trigger] t@[s]).len() == 9,
        forall|s: int, i: int|
            0 <= s < TRACE_LENGTH && 0 <= i < 8 ==> #[trigger] t@[s][i] == digest_words(
                sha256_spec(encode_utf8(data@)),
            )[i] as int,
        forall|s: int|
            0 <= s < TRACE_LENGTH ==> #[trigger] t@[s][8] == (if s == 0 {
                1int
            } else {
                0int
            }),
{
    let hash_words = compute_sha256_words(data);
    proof {
        lemma_sha256_rows_hold_words(hash_words@);
    }
    let ghost rows = sha256_rows(hash_words@);
    let mut trace = ExecutionTrace::new(9);
    trace.push_row(digest_row(&hash_words, Felt::one()));
    let mut step: usize = 0;
    while step < TRACE_LENGTH - 1
        invariant
            0 <= step < TRACE_LENGTH,
            trace.spec_width() == 9,
            rows == sha256_rows(hash_words@),
            trace@ =~= rows.take(step + 1),
        decreases TRACE_LENGTH - step,
    {
        trace.push_row(digest_row(&hash_words, Felt::zero()));
        step = step + 1;
    }
    assert(rows.take(TRACE_LENGTH as int) =~= rows);
    trace
}

/// The description of the digest statement for a trace of a given length.
pub struct Sha256Air {
    trace_length: usize,
}

impl Sha256Air {
    #[verifier::type_invariant]
    spec fn has_rows(self) -> bool {
        self.trace_length >= 1
    }

    /// The number of rows of the traces this statement is about.
    pub closed spec fn spec_trace_length(&self) -> int {
        self.trace_length as int
    }

    /// The statement for traces of `trace_length` rows.
    pub fn new(trace_length: usize) -> (air: Sha256Air)
        requires
            trace_length >= 1,
        ensures
            air.spec_trace_length() == trace_length,
    {
        Sha256Air { trace_length }
    }

    /// The number of rows of the traces this statement is about.
    pub fn trace_length(&self) -> (n: usize)
        ensures
            n == self.spec_trace_length(),
            n >= 1,
    {
        proof {
            use_type_invariant(self);
        }
        self.trace_length
    }

    /// The degrees of the nine transition constraints, all 1.
    pub fn transition_degrees(&self) -> (degrees: Vec<usize>)
        ensures
            degrees@ == Seq::new(9, |i: int| 1usize),
    {
        let degrees = vec![1usize, 1, 1, 1, 1, 1, 1, 1, 1];
        assert(degrees@ =~= Seq::new(9, |i: int| 1usize));
        degrees
    }

    /// The number of boundary assertions, one per word.
    pub fn num_assertions(&self) -> (n: usize)
        ensures
            n == sha256_assertions(self.spec_trace_length()).len(),
    {
        8
    }

    /// Evaluates the transition constraints on a row and the next one.
    pub fn evaluate_transition(&self, current: &[Felt], next: &[Felt]) -> (out: Vec<Felt>)
        requires
            current@.len() >= 9,
            next@.len() >= 9,
        ensures
            row_values(out@) == sha256_transition(row_values(current@), row_values(next@)),
    {
        let mut out: Vec<Felt> = Vec::new();
        let mut i: usize = 0;
        while i < 8
            invariant
                0 <= i <= 8,
                current@.len() >= 9,
                next@.len() >= 9,
                out@.len() == i,
                forall|j: int|
                    0 <= j < i ==> #[trigger] out@[j]@ == fsub(next@[j]@, current@[j]@),
            decreases 8 - i,
        {
            out.push(next[i].sub(current[i]));
            i = i + 1;
        }
        out.push(next[8]);
        assert(row_values(out@) =~= sha256_transition(row_values(current@), row_values(next@)));
        out
    }

    /// The boundary assertions: the last row holds the digest of "Hello World!".
    pub fn get_assertions(&self) -> (asserts: Vec<BoundaryAssertion>)
        ensures
            assertion_views(asserts@) == sha256_assertions(self.spec_trace_length()),
            forall|k: int|
                0 <= k < asserts@.len() ==> (#[trigger] asserts@[k]).column == k
                    && asserts@[k].step == self.spec_trace_length() - 1
                    && asserts@[k].value@ == sha256_expected_words()[k] as int,
            asserts@.len() == sha256_assertions(self.spec_trace_length()).len(),
            forall|k: int|
                0 <= k < asserts@.len() ==> #[trigger] asserts@[k]@ == sha256_assertions(
                    self.spec_trace_length(),
                )[k],
    {
        let last_step = self.trace_length() - 1;
        let expected: [u32; 8] = [
            0x7f83b165u32,
            0x7ff1fc53u32,
            0xb92dc181u32,
            0x48a1d65du32,
            0xfc2d4b1fu32,
            0xa3d67728u32,
            0x4addd200u32,
            0x126d9069u32,
        ];
        assert(expected@ =~= sha256_expected_words());
        let mut asserts: Vec<BoundaryAssertion> = Vec::new();
        let mut i: usize = 0;
        while i < 8
            invariant
                0 <= i <= 8,
                expected@ == sha256_expected_words(),
                last_step == self.spec_trace_length() - 1,
                asserts@.len() == i,
                forall|j: int|
                    0 <= j < i ==> #[trigger] asserts@[j]@ == sha256_assertions(
                        self.spec_trace_length(),
                    )[j],
            decreases 8 - i,
        {
            proof {
                vstd::arithmetic::div_mod::lemma_small_mod(expected@[i as int] as nat, modulus() as nat);
            }
            asserts.push(BoundaryAssertion { column: i, step: last_step, value: Felt::new(expected[i] as u128) });
            i = i + 1;
        }
        assert(assertion_views(asserts@) =~= sha256_assertions(self.spec_trace_length()));
        proof {
            lemma_sha256_assertions_on_last_row(self.spec_trace_length());
            assert forall|k: int| 0 <= k < asserts@.len() implies (#[trigger] asserts@[k]).column
                == k && asserts@[k].step == self.spec_trace_length() - 1 && asserts@[k].value@
                == sha256_expected_words()[k] as int by {
                assert(asserts@[k]@ == sha256_assertions(self.spec_trace_length())[k]);
            }
        }
        asserts
    }
}

/// The digest trace of any eight words holds those words on every row, whatever
/// they are, with the flag 1 on the first row and 0 on the others.
pub proof fn lemma_sha256_rows_hold_words(words: Seq<u32>)
    requires
        words.len() == 8,
    ensures
        sha256_rows(words).len() == TRACE_LENGTH,
        forall|s: int| 0 <= s < TRACE_LENGTH ==> (#[trigger] sha256_rows(words)[s]).len() == 9,
        forall|s: int, i: int|
            0 <= s < TRACE_LENGTH && 0 <= i < 8 ==> #[trigger] sha256_rows(words)[s][i]
                == words[i] as int,
        forall|s: int|
            0 <= s < TRACE_LENGTH ==> #[trigger] sha256_rows(words)[s][8] == (if s == 0 {
                1int
            } else {
                0int
            }),
{
}

/// For a trace of any length `n`, the assertions are one per word, in column `k`,
/// on the last row `n - 1`, with the claimed word `k`.
pub proof fn lemma_sha256_assertions_on_last_row(n: int)
    requires
        n >= 1,
    ensures
        sha256_assertions(n).len() == 8,
        forall|k: int|
            0 <= k < 8 ==> #[trigger] sha256_assertions(n)[k] == (
                k,
                n - 1,
                sha256_expected_words()[k] as int,
            ),
{
}

/// What the transition constraints accept: a next row passes exactly when it keeps
/// every word of the current row and has a zero flag.
pub proof fn lemma_sha256_transition_accepts(current: Seq<int>, next: Seq<int>)
    requires
        canonical_rows(seq![current, next], 9),
    ensures
        all_zero(sha256_transition(current, next)) <==> ((forall|i: int|
            0 <= i < 8 ==> #[trigger] next[i] == current[i]) && next[8] == 0),
{
    let t = seq![current, next];
    assert(t[0] == current && t[1] == next);
    assert(current.len() == 9 && next.len() == 9);
    let out = sha256_transition(current, next);
    if all_zero(out) {
        assert forall|i: int| 0 <= i < 8 implies #[trigger] next[i] == current[i] by {
            assert(out[i] == 0);
            assert(0 <= t[0][i] < modulus() && 0 <= t[1][i] < modulus());
            lemma_sub_zero_equal(next[i], current[i]);
        }
        assert(out[8] == 0);
    }
    if (forall|i: int| 0 <= i < 8 ==> #[trigger] next[i] == current[i]) && next[8] == 0 {
        assert forall|i: int| 0 <= i < out.len() implies #[trigger] out[i] == 0 by {
            if i < 8 {
                assert(0 <= t[0][i] < modulus());
                lemma_unit_identities(current[i]);
            }
        }
    }
}

/// The digest trace meets the transition constraints at every step, whatever the
/// digest.
pub proof fn lemma_sha256_trace_meets_transitions(words: Seq<u32>)
    requires
        words.len() == 8,
    ensures
        transitions_hold(sha256_rows(words), |c: Seq<int>, n: Seq<int>| sha256_transition(c, n)),
{
    let rows = sha256_rows(words);
    assert forall|s: int| 0 <= s < rows.len() - 1 implies all_zero(
        #[trigger] sha256_transition(rows[s], rows[s + 1]),
    ) by {
        let out = sha256_transition(rows[s], rows[s + 1]);
        assert forall|i: int| 0 <= i < out.len() implies #[trigger] out[i] == 0 by {
            if i < 8 {
                assert(words[i] < modulus());
                lemma_unit_identities(words[i] as int);
            }
        }
    }
}

/// The digest trace meets the boundary assertions exactly when its words are the
/// digest of "Hello World!".
pub proof fn lemma_sha256_assertions(words: Seq<u32>)
    requires
        words.len() == 8,
    ensures
        assertions_hold(sha256_rows(words), sha256_assertions(TRACE_LENGTH as int)) <==> words
            == sha256_expected_words(),
{
    let rows = sha256_rows(words);
    let asserts = sha256_assertions(TRACE_LENGTH as int);
    if words == sha256_expected_words() {
        assert forall|k: int| 0 <= k < asserts.len() implies assertion_holds(
            rows,
            #[trigger] asserts[k],
        ) by {}
    }
    if assertions_hold(rows, asserts) {
        assert forall|i: int| 0 <= i < 8 implies words[i] == sha256_expected_words()[i] by {
            assert(assertion_holds(rows, asserts[i]));
        }
        assert(words =~= sha256_expected_words());
    }
}

/// What the transition constraints enforce: in any trace of canonical values that
/// meets them, every row after the first holds the first row's words and a zero flag.
pub proof fn lemma_sha256_constraints_keep_words(t: Seq<Seq<int>>)
    requires
        t.len() >= 1,
        canonical_rows(t, 9),
        transitions_hold(t, |c: Seq<int>, n: Seq<int>| sha256_transition(c, n)),
    ensures
        forall|s: int, i: int| 1 <= s < t.len() && 0 <= i < 8 ==> #[trigger] t[s][i] == t[0][i],
        forall|s: int| 1 <= s < t.len() ==> #[trigger] t[s][8] == 0,
{
    assert forall|s: int, i: int| 1 <= s < t.len() && 0 <= i < 8 implies #[trigger] t[s][i]
        == t[0][i] by {
        lemma_sha256_row(t, s);
    }
    assert forall|s: int| 1 <= s < t.len() implies #[trigger] t[s][8] == 0 by {
        lemma_sha256_row(t, s);
    }
}

/// Row `s` of a trace as in `lemma_sha256_constraints_keep_words`.
proof fn lemma_sha256_row(t: Seq<Seq<int>>, s: int)
    requires
        1 <= s < t.len(),
        canonical_rows(t, 9),
        transitions_hold(t, |c: Seq<int>, n: Seq<int>| sha256_transition(c, n)),
    ensures
        forall|i: int| 0 <= i < 8 ==> #[trigger] t[s][i] == t[0][i],
        t[s][8] == 0,
    decreases s,
{
    let k = s - 1;
    if k >= 1 {
        lemma_sha256_row(t, k);
    }
    let cur = t[k];
    let nxt = t[k + 1];
    assert(cur.len() == 9 && nxt.len() == 9);
    let f = |c: Seq<int>, n: Seq<int>| sha256_transition(c, n);
    assert(all_zero(f(t[k], t[k + 1])));
    let out = sha256_transition(cur, nxt);
    assert(out[8] == 0);
    assert forall|i: int| 0 <= i < 8 implies #[trigger] t[s][i] == t[0][i] by {
        assert(out[i] == 0);
        assert(0 <= cur[i] < modulus() && 0 <= nxt[i] < modulus());
        lemma_sub_zero_equal(nxt[i], cur[i]);
    }
}

} // verus!
