//! The Merkle statement: a trace that climbs a four-leaf SHA-256 Merkle tree from
//! leaf "L2" to the root in two steps, then keeps the root for the remaining rows.

use vstd::prelude::*;
use vstd::utf8::{encode_utf8, is_ascii_chars_encode_utf8};
use crate::air::{
    TRACE_LENGTH, BoundaryAssertion, assertion_views, assertion_holds, assertions_hold,
    transitions_hold, all_zero, canonical_rows,
};
use crate::field::{
    Felt, fsub, fmul, modulus, lemma_unit_identities, lemma_ops_canonical, lemma_sub_zero_equal,
};
use crate::hashing::{compute_sha256_words, hash_pair, hash_pair_spec, sha256_words, digest_words, sha256_spec};
use crate::trace::{ExecutionTrace, row_values, words_row, digest_row};

verus! {

/// The UTF-8 bytes of the leaf label "L`k`", for `k` from 1 to 4.
pub open spec fn label_bytes(k: int) -> Seq<u8> {
    seq![76u8, (48 + k) as u8]
}

/// The words of the SHA-256 digest of leaf label "L`k`".
pub open spec fn leaf_words(k: int) -> Seq<u32> {
    sha256_words(label_bytes(k))
}

/// The node above leaves "L1" and "L2".
pub open spec fn merkle_left_words() -> Seq<u32> {
    hash_pair_spec(leaf_words(1), leaf_words(2))
}

/// The node above leaves "L3" and "L4".
pub open spec fn merkle_right_words() -> Seq<u32> {
    hash_pair_spec(leaf_words(3), leaf_words(4))
}

/// The root of the tree.
pub open spec fn merkle_root_words() -> Seq<u32> {
    hash_pair_spec(merkle_left_words(), merkle_right_words())
}

/// The rows of the Merkle trace: the leaf "L2", its parent, the root (flag 1 on these
/// three), then the root with flag 0 on every later row.
pub open spec fn merkle_rows() -> Seq<Seq<int>> {
    Seq::new(
        TRACE_LENGTH as nat,
        |s: int|
            if s == 0 {
                words_row(leaf_words(2), 1)
            } else if s == 1 {
                words_row(merkle_left_words(), 1)
            } else if s == 2 {
                words_row(merkle_root_words(), 1)
            } else {
                words_row(merkle_root_words(), 0)
            },
    )
}

/// The transition constraints: once the flag is 0 the words stay as they are, and a
/// zero flag is followed by a zero flag.
pub open spec fn merkle_transition(current: Seq<int>, next: Seq<int>) -> Seq<int> {
    Seq::new(
        9,
        |i: int|
            if i < 8 {
                fmul(fsub(1, current[8]), fsub(next[i], current[i]))
            } else {
                fsub(fmul(current[8], next[8]), next[8])
            },
    )
}

/// The root the statement claims.
pub open spec fn merkle_expected_words() -> Seq<u32> {
    seq![
        2979419580u32,
        3741653137u32,
        1409103455u32,
        1378847554u32,
        2286745112u32,
        1103954196u32,
        1149985725u32,
        320578323u32,
    ]
}

/// The assertions of the Merkle statement on a trace of `trace_length` rows: the
/// last row holds the claimed root.
pub open spec fn merkle_assertions(trace_length: int) -> Seq<(int, int, int)> {
    Seq::new(8, |i: int| (i, trace_length - 1, merkle_expected_words()[i] as int))
}

/// The UTF-8 encoding of two ASCII characters is their two codes.
proof fn lemma_two_ascii_chars(a: char, b: char)
    requires
        a <= '\u{7f}',
        b <= '\u{7f}',
    ensures
        encode_utf8(seq![a, b]) == seq![a as u8, b as u8],
{
    let cs = seq![a, b];
    is_ascii_chars_encode_utf8(cs);
    assert(encode_utf8(cs) =~= seq![a as u8, b as u8]);
}

/// Builds the Merkle trace: 8 rows and 9 columns, the eight words of a node and a
/// flag. Row 0 holds the hash of leaf "L2", row 1 `hash_pair` of the hashes of "L1"
/// and "L2", row 2 the root, `hash_pair` of row 1 and the node above "L3" and "L4";
/// the later rows repeat the root.
pub fn build_merkle_trace() -> (t: ExecutionTrace)
    ensures
        t@ == merkle_rows(),
        t.spec_width() == 9,
        t@.len() == TRACE_LENGTH,
        forall|s: int| 0 <= s < TRACE_LENGTH ==> (#[trigger] t@[s]).len() == 9,
        forall|i: int|
            0 <= i < 8 ==> #[trigger] t@[0][i] == digest_words(sha256_spec(seq![76u8, 50u8]))[i] as int,
        forall|i: int|
            0 <= i < 8 ==> #[trigger] t@[1][i] == hash_pair_spec(
                digest_words(sha256_spec(seq![76u8, 49u8])),
                digest_words(sha256_spec(seq![76u8, 50u8])),
            )[i] as int,
        forall|s: int, i: int|
            2 <= s < TRACE_LENGTH && 0 <= i < 8 ==> #[trigger] t@[s][i] == hash_pair_spec(
                hash_pair_spec(
                    digest_words(sha256_spec(seq![76u8, 49u8])),
                    digest_words(sha256_spec(seq![76u8, 50u8])),
                ),
                hash_pair_spec(
                    digest_words(sha256_spec(seq![76u8, 51u8])),
                    digest_words(sha256_spec(seq![76u8, 52u8])),
                ),
            )[i] as int,
        forall|s: int|
            0 <= s < TRACE_LENGTH ==> #[trigger] t@[s][8] == (if s <= 2 {
                1int
            } else {
                0int
            }),
{
    proof {
        lemma_merkle_rows_hold_path();
    }
    let l1 = "L1";
    let l2 = "L2";
    let l3 = "L3";
    let l4 = "L4";
    proof {
        reveal_strlit("L1");
        reveal_strlit("L2");
        reveal_strlit("L3");
        reveal_strlit("L4");
        lemma_two_ascii_chars('L', '1');
        lemma_two_ascii_chars('L', '2');
        lemma_two_ascii_chars('L', '3');
        lemma_two_ascii_chars('L', '4');
        assert(l1@ == seq!['L', '1']);
        assert(l2@ == seq!['L', '2']);
        assert(l3@ == seq!['L', '3']);
        assert(l4@ == seq!['L', '4']);
        assert(encode_utf8(l1@) == label_bytes(1));
        assert(encode_utf8(l2@) == label_bytes(2));
        assert(encode_utf8(l3@) == label_bytes(3));
        assert(encode_utf8(l4@) == label_bytes(4));
    }

    let hl1 = compute_sha256_words(l1);
    let hl2 = compute_sha256_words(l2);
    let hl3 = compute_sha256_words(l3);
    let hl4 = compute_sha256_words(l4);

    let h34 = hash_pair(hl3, hl4);

    let leaf_hash = hl2;
    let inter_hash = hash_pair(hl1, leaf_hash);
    let final_hash = hash_pair(inter_hash, h34);

    let ghost rows = merkle_rows();
    let mut trace = ExecutionTrace::new(9);
    trace.push_row(digest_row(&leaf_hash, Felt::one()));
    trace.push_row(digest_row(&inter_hash, Felt::one()));
    trace.push_row(digest_row(&final_hash, Felt::one()));
    assert(trace@ =~= rows.take(3));
    let mut step: usize = 2;
    while step < TRACE_LENGTH - 1
        invariant
            2 <= step < TRACE_LENGTH,
            trace.spec_width() == 9,
            rows == merkle_rows(),
            final_hash@ == merkle_root_words(),
            trace@ =~= rows.take(step + 1),
        decreases TRACE_LENGTH - step,
    {
        trace.push_row(digest_row(&final_hash, Felt::zero()));
        step = step + 1;
    }
    assert(rows.take(TRACE_LENGTH as int) =~= rows);
    trace
}

/// The description of the Merkle statement for a trace of a given length.
pub struct MerkleAir {
    trace_length: usize,
}

impl MerkleAir {
    #[verifier::type_invariant]
    spec fn has_rows(self) -> bool {
        self.trace_length >= 1
    }

    /// The number of rows of the traces this statement is about.
    pub closed spec fn spec_trace_length(&self) -> int {
        self.trace_length as int
    }

    /// The statement for traces of `trace_length` rows.
    pub fn new(trace_length: usize) -> (air: MerkleAir)
        requires
            trace_length >= 1,
        ensures
            air.spec_trace_length() == trace_length,
    {
        MerkleAir { trace_length }
    }

    /// The number of rows of the traces this statement is about.
    pub fn trace_length(&self) -> (n: usize)
        ensures
            n == self.spec_trace_length(),
            n >= 1,
    {
        proof {
            use_type_invariant(self);
        }
        self.trace_length
    }

    /// The degrees of the nine transition constraints, all 2.
    pub fn transition_degrees(&self) -> (degrees: Vec<usize>)
        ensures
            degrees@ == Seq::new(9, |i: int| 2usize),
    {
        let degrees = vec![2usize, 2, 2, 2, 2, 2, 2, 2, 2];
        assert(degrees@ =~= Seq::new(9, |i: int| 2usize));
        degrees
    }

    /// The number of boundary assertions, one per word of the root.
    pub fn num_assertions(&self) -> (n: usize)
        ensures
            n == merkle_assertions(self.spec_trace_length()).len(),
    {
        8
    }

    /// Evaluates the transition constraints on a row and the next one.
    pub fn evaluate_transition(&self, current: &[Felt], next: &[Felt]) -> (out: Vec<Felt>)
        requires
            current@.len() >= 9,
            next@.len() >= 9,
        ensures
            row_values(out@) == merkle_transition(row_values(current@), row_values(next@)),
    {
        let one = Felt::one();
        let flag = current[8];
        let mut out: Vec<Felt> = Vec::new();
        let mut i: usize = 0;
        while i < 8
            invariant
                0 <= i <= 8,
                current@.len() >= 9,
                next@.len() >= 9,
                flag == current@[8],
                one@ == 1,
                out@.len() == i,
                forall|j: int|
                    0 <= j < i ==> #[trigger] out@[j]@ == fmul(
                        fsub(1, current@[8]@),
                        fsub(next@[j]@, current@[j]@),
                    ),
            decreases 8 - i,
        {
            out.push(one.sub(flag).mul(next[i].sub(current[i])));
            i = i + 1;
        }
        out.push(flag.mul(next[8]).sub(next[8]));
        assert(row_values(out@) =~= merkle_transition(row_values(current@), row_values(next@)));
        out
    }

    /// The boundary assertions: the last row holds the claimed root.
    pub fn get_assertions(&self) -> (asserts: Vec<BoundaryAssertion>)
        ensures
            assertion_views(asserts@) == merkle_assertions(self.spec_trace_length()),
            forall|k: int|
                0 <= k < asserts@.len() ==> (#[trigger] asserts@[k]).column == k
                    && asserts@[k].step == self.spec_trace_length() - 1
                    && asserts@[k].value@ == merkle_expected_words()[k] as int,
            asserts@.len() == merkle_assertions(self.spec_trace_length()).len(),
            forall|k: int|
                0 <= k < asserts@.len() ==> #[trigger] asserts@[k]@ == merkle_assertions(
                    self.spec_trace_length(),
                )[k],
    {
        let last_step = self.trace_length() - 1;
        let expected: [u32; 8] = [
            2979419580u32,
            3741653137u32,
            1409103455u32,
            1378847554u32,
            2286745112u32,
            1103954196u32,
            1149985725u32,
            320578323u32,
        ];
        assert(expected@ =~= merkle_expected_words());
        let mut asserts: Vec<BoundaryAssertion> = Vec::new();
        let mut i: usize = 0;
        while i < 8
            invariant
                0 <= i <= 8,
                expected@ == merkle_expected_words(),
                last_step == self.spec_trace_length() - 1,
                asserts@.len() == i,
                forall|j: int|
                    0 <= j < i ==> #[trigger] asserts@[j]@ == merkle_assertions(
                        self.spec_trace_length(),
                    )[j],
            decreases 8 - i,
        {
            proof {
                vstd::arithmetic::div_mod::lemma_small_mod(expected@[i as int] as nat, modulus() as nat);
            }
            asserts.push(BoundaryAssertion { column: i, step: last_step, value: Felt::new(expected[i] as u128) });
            i = i + 1;
        }
        assert(assertion_views(asserts@) =~= merkle_assertions(self.spec_trace_length()));
        proof {
            lemma_merkle_assertions_on_last_row(self.spec_trace_length());
            assert forall|k: int| 0 <= k < asserts@.len() implies (#[trigger] asserts@[k]).column
                == k && asserts@[k].step == self.spec_trace_length() - 1 && asserts@[k].value@
                == merkle_expected_words()[k] as int by {
                assert(asserts@[k]@ == merkle_assertions(self.spec_trace_length())[k]);
            }
        }
        asserts
    }
}

/// The Merkle trace holds the path from leaf "L2" to the root: row 0 the SHA-256
/// words of "L2", row 1 the pair hash of the words of "L1" and "L2", rows 2 to 7 the
/// pair hash of row 1 and of the pair hash of "L3" and "L4"; the flag is 1 on rows 0
/// to 2 and 0 after.
pub proof fn lemma_merkle_rows_hold_path()
    ensures
        merkle_rows().len() == TRACE_LENGTH,
        forall|s: int| 0 <= s < TRACE_LENGTH ==> (#[trigger] merkle_rows()[s]).len() == 9,
        forall|i: int|
            0 <= i < 8 ==> #[trigger] merkle_rows()[0][i] == digest_words(
                sha256_spec(seq![76u8, 50u8]),
            )[i] as int,
        forall|i: int|
            0 <= i < 8 ==> #[trigger] merkle_rows()[1][i] == hash_pair_spec(
                digest_words(sha256_spec(seq![76u8, 49u8])),
                digest_words(sha256_spec(seq![76u8, 50u8])),
            )[i] as int,
        forall|s: int, i: int|
            2 <= s < TRACE_LENGTH && 0 <= i < 8 ==> #[trigger] merkle_rows()[s][i] == hash_pair_spec(
                hash_pair_spec(
                    digest_words(sha256_spec(seq![76u8, 49u8])),
                    digest_words(sha256_spec(seq![76u8, 50u8])),
                ),
                hash_pair_spec(
                    digest_words(sha256_spec(seq![76u8, 51u8])),
                    digest_words(sha256_spec(seq![76u8, 52u8])),
                ),
            )[i] as int,
        forall|s: int|
            0 <= s < TRACE_LENGTH ==> #[trigger] merkle_rows()[s][8] == (if s <= 2 {
                1int
            } else {
                0int
            }),
{
    assert(label_bytes(1) == seq![76u8, 49u8]);
    assert(label_bytes(2) == seq![76u8, 50u8]);
    assert(label_bytes(3) == seq![76u8, 51u8]);
    assert(label_bytes(4) == seq![76u8, 52u8]);
}

/// For a trace of any length `n`, the assertions are one per word of the root, in
/// column `k`, on the last row `n - 1`, with the claimed word `k`.
pub proof fn lemma_merkle_assertions_on_last_row(n: int)
    requires
        n >= 1,
    ensures
        merkle_assertions(n).len() == 8,
        forall|k: int|
            0 <= k < 8 ==> #[trigger] merkle_assertions(n)[k] == (
                k,
                n - 1,
                merkle_expected_words()[k] as int,
            ),
{
}

/// What the transition constraints accept on canonical rows: while the current flag
/// is 1 every next row passes (the words may change, and the next flag may be
/// anything); once it is 0 only a copy of the current row passes.
pub proof fn lemma_merkle_transition_accepts(current: Seq<int>, next: Seq<int>)
    requires
        canonical_rows(seq![current, next], 9),
    ensures
        current[8] == 1 ==> all_zero(merkle_transition(current, next)),
        current[8] == 0 ==> (all_zero(merkle_transition(current, next)) <==> next == current),
{
    let t = seq![current, next];
    assert(t[0] == current && t[1] == next);
    assert(current.len() == 9 && next.len() == 9);
    let out = merkle_transition(current, next);
    assert(0 <= t[1][8] < modulus());
    lemma_unit_identities(0);
    lemma_unit_identities(1);
    lemma_unit_identities(next[8]);
    if current[8] == 1 {
        assert forall|i: int| 0 <= i < out.len() implies #[trigger] out[i] == 0 by {
            if i < 8 {
                lemma_ops_canonical(next[i], current[i]);
                lemma_unit_identities(fsub(next[i], current[i]));
            }
        }
    }
    if current[8] == 0 {
        if all_zero(out) {
            assert(out[8] == 0);
            lemma_sub_zero_equal(0, next[8]);
            assert forall|i: int| 0 <= i < 9 implies #[trigger] next[i] == current[i] by {
                if i < 8 {
                    assert(out[i] == 0);
                    assert(0 <= t[0][i] < modulus() && 0 <= t[1][i] < modulus());
                    lemma_ops_canonical(next[i], current[i]);
                    lemma_unit_identities(fsub(next[i], current[i]));
                    lemma_sub_zero_equal(next[i], current[i]);
                }
            }
            assert(next =~= current);
        }
        if next == current {
            assert forall|i: int| 0 <= i < out.len() implies #[trigger] out[i] == 0 by {
                if i < 8 {
                    assert(0 <= t[0][i] < modulus());
                    lemma_unit_identities(current[i]);
                }
            }
        }
    }
}

/// The Merkle trace meets the transition constraints at every step, whatever the
/// hashes.
pub proof fn lemma_merkle_trace_meets_transitions()
    ensures
        transitions_hold(merkle_rows(), |c: Seq<int>, n: Seq<int>| merkle_transition(c, n)),
{
    let rows = merkle_rows();
    lemma_unit_identities(0);
    lemma_unit_identities(1);
    assert forall|s: int| 0 <= s < rows.len() - 1 implies all_zero(
        #[trigger] merkle_transition(rows[s], rows[s + 1]),
    ) by {
        let cur = rows[s];
        let nxt = rows[s + 1];
        let out = merkle_transition(cur, nxt);
        assert forall|i: int| 0 <= i < out.len() implies #[trigger] out[i] == 0 by {
            if i < 8 {
                lemma_ops_canonical(nxt[i], cur[i]);
                lemma_unit_identities(fsub(nxt[i], cur[i]));
                if s >= 2 {
                    assert(nxt[i] == cur[i]);
                    assert(cur[i] < modulus());
                    lemma_unit_identities(cur[i]);
                }
            }
        }
    }
}

/// The Merkle trace meets the boundary assertions exactly when the root is the
/// claimed one.
pub proof fn lemma_merkle_assertions()
    ensures
        assertions_hold(merkle_rows(), merkle_assertions(TRACE_LENGTH as int))
            <==> merkle_root_words() == merkle_expected_words(),
{
    let rows = merkle_rows();
    let asserts = merkle_assertions(TRACE_LENGTH as int);
    let root = merkle_root_words();
    assert(rows[7] == words_row(root, 0));
    if root == merkle_expected_words() {
        assert forall|k: int| 0 <= k < asserts.len() implies assertion_holds(
            rows,
            #[trigger] asserts[k],
        ) by {}
    }
    if assertions_hold(rows, asserts) {
        assert forall|i: int| 0 <= i < 8 implies root[i] == merkle_expected_words()[i] by {
            assert(assertion_holds(rows, asserts[i]));
        }
        assert(root =~= merkle_expected_words());
    }
}

/// What the transition constraints enforce: in any trace of canonical values that
/// meets them, once a row's flag is 0 every later row holds the same words and a
/// zero flag.
pub proof fn lemma_merkle_constraints_keep_root(t: Seq<Seq<int>>, s0: int)
    requires
        0 <= s0 < t.len(),
        canonical_rows(t, 9),
        transitions_hold(t, |c: Seq<int>, n: Seq<int>| merkle_transition(c, n)),
        t[s0][8] == 0,
    ensures
        forall|s: int, i: int| s0 <= s < t.len() && 0 <= i < 8 ==> #[trigger] t[s][i] == t[s0][i],
        forall|s: int| s0 <= s < t.len() ==> #[trigger] t[s][8] == 0,
{
    assert forall|s: int, i: int| s0 <= s < t.len() && 0 <= i < 8 implies #[trigger] t[s][i]
        == t[s0][i] by {
        lemma_merkle_row(t, s0, s);
    }
    assert forall|s: int| s0 <= s < t.len() implies #[trigger] t[s][8] == 0 by {
        lemma_merkle_row(t, s0, s);
    }
}

/// Row `s` of a trace as in `lemma_merkle_constraints_keep_root`.
proof fn lemma_merkle_row(t: Seq<Seq<int>>, s0: int, s: int)
    requires
        0 <= s0 <= s < t.len(),
        canonical_rows(t, 9),
        transitions_hold(t, |c: Seq<int>, n: Seq<int>| merkle_transition(c, n)),
        t[s0][8] == 0,
    ensures
        forall|i: int| 0 <= i < 8 ==> #[trigger] t[s][i] == t[s0][i],
        t[s][8] == 0,
    decreases s - s0,
{
    if s > s0 {
        let k = s - 1;
        lemma_merkle_row(t, s0, k);
        let cur = t[k];
        let nxt = t[k + 1];
        assert(cur.len() == 9 && nxt.len() == 9);
        let f = |c: Seq<int>, n: Seq<int>| merkle_transition(c, n);
        assert(all_zero(f(t[k], t[k + 1])));
        let out = merkle_transition(cur, nxt);
        lemma_unit_identities(0);
        assert(0 <= nxt[8] < modulus());
        lemma_unit_identities(nxt[8]);
        assert(out[8] == fsub(0, nxt[8]));
        assert(out[8] == 0);
        lemma_sub_zero_equal(0, nxt[8]);
        assert forall|i: int| 0 <= i < 8 implies #[trigger] t[s][i] == t[s0][i] by {
            assert(out[i] == 0);
            assert(0 <= cur[i] < modulus() && 0 <= nxt[i] < modulus());
            lemma_ops_canonical(nxt[i], cur[i]);
            lemma_unit_identities(fsub(nxt[i], cur[i]));
            lemma_sub_zero_equal(nxt[i], cur[i]);
        }
    }
}

} // verus!
