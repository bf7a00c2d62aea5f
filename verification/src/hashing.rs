//! SHA-256 digests read as eight big-endian 32-bit words, and the hash of a pair
//! of such word arrays, as used to build the Merkle trace.

use vstd::prelude::*;
use vstd::utf8::*;
use sha2::{Digest, Sha256};

verus! {

broadcast use vstd::utf8::decode_utf8_encode_utf8;

/// The SHA-256 digest of a byte string, as computed by the `sha2` crate.
pub uninterp spec fn sha256_spec(data: Seq<u8>) -> Seq<u8>;

/// The characters that `String::from_utf8_lossy` makes of a byte string: the decoded
/// text, with each invalid sequence replaced by U+FFFD.
pub uninterp spec fn utf8_lossy_spec(bytes: Seq<u8>) -> Seq<char>;

/// The big-endian 32-bit word made of bytes `4 * i .. 4 * i + 4` of `bytes`.
pub open spec fn be_word(bytes: Seq<u8>, i: int) -> int {
    bytes[4 * i] * 0x1000000 + bytes[4 * i + 1] * 0x10000 + bytes[4 * i + 2] * 0x100 + bytes[4
        * i + 3]
}

/// A 32-byte digest read as eight big-endian words.
pub open spec fn digest_words(digest: Seq<u8>) -> Seq<u32> {
    Seq::new(8, |i: int| be_word(digest, i) as u32)
}

/// The eight words of the SHA-256 digest of `data`.
pub open spec fn sha256_words(data: Seq<u8>) -> Seq<u32> {
    digest_words(sha256_spec(data))
}

/// Byte `k` (0 is the most significant) of the big-endian encoding of `w`.
pub open spec fn word_byte(w: u32, k: int) -> u8 {
    if k == 0 {
        (w / 0x1000000) as u8
    } else if k == 1 {
        ((w / 0x10000) % 0x100) as u8
    } else if k == 2 {
        ((w / 0x100) % 0x100) as u8
    } else {
        (w % 0x100) as u8
    }
}

/// Words written one after the other, each as four big-endian bytes.
pub open spec fn words_bytes(words: Seq<u32>) -> Seq<u8> {
    Seq::new(4 * words.len(), |k: int| word_byte(words[k / 4], k % 4))
}

/// The 64 bytes that `hash_pair` hashes before text decoding: `left` then `right`,
/// big-endian.
pub open spec fn pair_bytes(left: Seq<u32>, right: Seq<u32>) -> Seq<u8> {
    words_bytes(left + right)
}

/// What `hash_pair` returns: the SHA-256 words of the UTF-8 encoding of the text that
/// lossy decoding makes of the pair's bytes.
pub open spec fn hash_pair_spec(left: Seq<u32>, right: Seq<u32>) -> Seq<u32> {
    sha256_words(encode_utf8(utf8_lossy_spec(pair_bytes(left, right))))
}

/// A word is rebuilt from its four big-endian bytes.
pub proof fn lemma_word_from_bytes(w: u32)
    ensures
        word_byte(w, 0) * 0x1000000 + word_byte(w, 1) * 0x10000 + word_byte(w, 2) * 0x100
            + word_byte(w, 3) == w,
{
    let b0: u32 = w / 0x1000000;
    let b1: u32 = (w / 0x10000) % 0x100;
    let b2: u32 = (w / 0x100) % 0x100;
    let b3: u32 = w % 0x100;
    assert(b0 * 0x1000000 + b1 * 0x10000 + b2 * 0x100 + b3 == w) by (bit_vector)
        requires
            b0 == w / 0x1000000,
            b1 == (w / 0x10000) % 0x100,
            b2 == (w / 0x100) % 0x100,
            b3 == w % 0x100,
    ;
    assert(b0 < 0x100) by (bit_vector)
        requires
            b0 == w / 0x1000000,
    ;
}

/// Reading the big-endian bytes of eight words gives the words back: the parsing
/// of `words_from_digest` undoes the writing of `pair_to_bytes`.
pub proof fn lemma_words_bytes_roundtrip(words: Seq<u32>)
    requires
        words.len() == 8,
    ensures
        words_bytes(words).len() == 32,
        digest_words(words_bytes(words)) == words,
{
    let bytes = words_bytes(words);
    assert forall|i: int| 0 <= i < 8 implies #[trigger] digest_words(bytes)[i] == words[i] by {
        assert(bytes[4 * i] == word_byte(words[i], 0));
        assert(bytes[4 * i + 1] == word_byte(words[i], 1));
        assert(bytes[4 * i + 2] == word_byte(words[i], 2));
        assert(bytes[4 * i + 3] == word_byte(words[i], 3));
        lemma_word_from_bytes(words[i]);
    }
    assert(digest_words(bytes) =~= words);
}

/// The words of a text's hash are those of the SHA-256 digest of all of its bytes,
/// whatever its length: word `i` is digest bytes `4 * i .. 4 * i + 4`, big-endian.
pub proof fn lemma_sha256_words_of_all_bytes(data: Seq<u8>)
    ensures
        sha256_words(data) == digest_words(sha256_spec(data)),
        sha256_words(data).len() == 8,
        forall|i: int|
            0 <= i < 8 ==> #[trigger] sha256_words(data)[i] as int == (be_word(
                sha256_spec(data),
                i,
            ) as u32) as int,
{
}

/// The bytes hashed by `hash_pair` are the 32 big-endian bytes of `left` followed by
/// those of `right`: byte `4 * i + k` of a half is byte `k` of its word `i`, and the
/// four bytes of a word put back together give the word.
pub proof fn lemma_pair_bytes_layout(left: Seq<u32>, right: Seq<u32>)
    requires
        left.len() == 8,
        right.len() == 8,
    ensures
        pair_bytes(left, right) == words_bytes(left) + words_bytes(right),
        pair_bytes(left, right).len() == 64,
        forall|i: int, k: int|
            0 <= i < 8 && 0 <= k < 4 ==> #[trigger] pair_bytes(left, right)[4 * i + k] == word_byte(
                left[i],
                k,
            ),
        forall|i: int, k: int|
            0 <= i < 8 && 0 <= k < 4 ==> #[trigger] pair_bytes(left, right)[32 + 4 * i + k]
                == word_byte(right[i], k),
        forall|w: u32|
            #![trigger word_byte(w, 0)]
            word_byte(w, 0) * 0x1000000 + word_byte(w, 1) * 0x10000 + word_byte(w, 2) * 0x100
                + word_byte(w, 3) == w,
{
    let all = left + right;
    let pb = pair_bytes(left, right);
    assert(pb =~= words_bytes(left) + words_bytes(right)) by {
        assert forall|k: int| 0 <= k < 64 implies #[trigger] pb[k] == (words_bytes(left)
            + words_bytes(right))[k] by {
            if k < 32 {
                assert(all[k / 4] == left[k / 4]);
            } else {
                assert((k - 32) / 4 == k / 4 - 8);
                assert((k - 32) % 4 == k % 4);
                assert(all[k / 4] == right[k / 4 - 8]);
            }
        }
    }
    assert forall|i: int, k: int| 0 <= i < 8 && 0 <= k < 4 implies #[trigger] pb[4 * i + k]
        == word_byte(left[i], k) by {
        assert((4 * i + k) / 4 == i);
        assert((4 * i + k) % 4 == k);
    }
    assert forall|i: int, k: int| 0 <= i < 8 && 0 <= k < 4 implies #[trigger] pb[32 + 4 * i + k]
        == word_byte(right[i], k) by {
        assert((32 + 4 * i + k) / 4 == 8 + i);
        assert((32 + 4 * i + k) % 4 == k);
        assert(all[8 + i] == right[i]);
    }
    assert forall|w: u32|
        #![trigger word_byte(w, 0)]
        word_byte(w, 0) * 0x1000000 + word_byte(w, 1) * 0x10000 + word_byte(w, 2) * 0x100
            + word_byte(w, 3) == w by {
        lemma_word_from_bytes(w);
    }
}

/// What `hash_pair` hashes, in terms of its inputs: the UTF-8 bytes of the lossy
/// decoding of the pair's 64 bytes; where those bytes are valid UTF-8, the bytes
/// themselves.
pub proof fn lemma_hash_pair_hashes_pair_bytes(left: Seq<u32>, right: Seq<u32>)
    requires
        left.len() == 8,
        right.len() == 8,
    ensures
        hash_pair_spec(left, right) == digest_words(
            sha256_spec(encode_utf8(utf8_lossy_spec(words_bytes(left) + words_bytes(right)))),
        ),
{
    lemma_pair_bytes_layout(left, right);
}

/// SHA-256 of `data`, by `sha2::Sha256::digest`, whose output is 32 bytes.
#[verifier::external_body]
fn sha256_digest(data: &[u8]) -> (digest: [u8; 32])
    ensures
        digest@ == sha256_spec(data@),
{
    Sha256::digest(data).into()
}

/// Text from bytes, by `String::from_utf8_lossy`. Its documentation says that valid
/// UTF-8 comes back as the same text; of other input nothing is stated here beyond
/// the name of the result.
#[verifier::external_body]
fn utf8_lossy(bytes: &[u8]) -> (text: String)
    ensures
        text@ == utf8_lossy_spec(bytes@),
        valid_utf8(bytes@) ==> text@ == decode_utf8(bytes@),
{
    String::from_utf8_lossy(bytes).into_owned()
}

/// Reads a 32-byte digest as eight big-endian 32-bit words.
pub fn words_from_digest(digest: &[u8; 32]) -> (words: [u32; 8])
    ensures
        words@ == digest_words(digest@),
{
    let mut words = [0u32; 8];
    let mut i: usize = 0;
    while i < 8
        invariant
            0 <= i <= 8,
            digest@.len() == 32,
            words@.len() == 8,
            forall|j: int| 0 <= j < i ==> words@[j] == be_word(digest@, j) as u32,
        decreases 8 - i,
    {
        let b0 = digest[4 * i] as u32;
        let b1 = digest[4 * i + 1] as u32;
        let b2 = digest[4 * i + 2] as u32;
        let b3 = digest[4 * i + 3] as u32;
        words[i] = b0 * 0x1000000 + b1 * 0x10000 + b2 * 0x100 + b3;
        i = i + 1;
    }
    assert(words@ =~= digest_words(digest@));
    words
}

/// The SHA-256 digest of the UTF-8 bytes of `data`, as eight big-endian words.
pub fn compute_sha256_words(data: &str) -> (words: [u32; 8])
    ensures
        words@ == sha256_words(encode_utf8(data@)),
        words@ == digest_words(sha256_spec(encode_utf8(data@))),
{
    let digest = sha256_digest(data.as_bytes());
    words_from_digest(&digest)
}

/// The four big-endian bytes of `w`.
fn push_word_bytes(bytes: &mut Vec<u8>, w: u32)
    ensures
        final(bytes)@ == old(bytes)@ + seq![word_byte(w, 0), word_byte(w, 1), word_byte(w, 2), word_byte(w, 3)],
{
    bytes.push((w / 0x1000000) as u8);
    bytes.push(((w / 0x10000) % 0x100) as u8);
    bytes.push(((w / 0x100) % 0x100) as u8);
    bytes.push((w % 0x100) as u8);
}

/// The big-endian bytes of `left` followed by those of `right`.
pub fn pair_to_bytes(left: &[u32; 8], right: &[u32; 8]) -> (bytes: Vec<u8>)
    ensures
        bytes@ == pair_bytes(left@, right@),
{
    let ghost all = left@ + right@;
    let mut bytes: Vec<u8> = Vec::new();
    let mut i: usize = 0;
    while i < 16
        invariant
            0 <= i <= 16,
            all == left@ + right@,
            left@.len() == 8,
            right@.len() == 8,
            bytes@ =~= words_bytes(all.take(i as int)),
        decreases 16 - i,
    {
        let w = if i < 8 { left[i] } else { right[i - 8] };
        assert(w == all[i as int]);
        let ghost before = bytes@;
        push_word_bytes(&mut bytes, w);
        assert(bytes@ =~= words_bytes(all.take(i + 1))) by {
            assert forall|k: int| 0 <= k < 4 * (i + 1) implies #[trigger] bytes@[k] == word_byte(
                all.take(i + 1)[k / 4],
                k % 4,
            ) by {
                if k < 4 * i {
                    assert(before[k] == word_byte(all.take(i as int)[k / 4], k % 4));
                } else {
                    assert(k / 4 == i);
                }
            }
        }
        i = i + 1;
    }
    assert(all.take(16) =~= all);
    bytes
}

/// Hashes two word arrays: their big-endian bytes, `left` first, are decoded as text
/// (invalid UTF-8 replaced by U+FFFD) and the SHA-256 words of that text's UTF-8 bytes
/// are returned. Where the 64 bytes are valid UTF-8, this is the SHA-256 of the bytes.
pub fn hash_pair(left: [u32; 8], right: [u32; 8]) -> (words: [u32; 8])
    ensures
        words@ == hash_pair_spec(left@, right@),
        words@ == digest_words(
            sha256_spec(encode_utf8(utf8_lossy_spec(words_bytes(left@) + words_bytes(right@)))),
        ),
        valid_utf8(pair_bytes(left@, right@)) ==> words@ == sha256_words(
            pair_bytes(left@, right@),
        ),
{
    proof {
        lemma_hash_pair_hashes_pair_bytes(left@, right@);
    }
    let bytes = pair_to_bytes(&left, &right);
    let text = utf8_lossy(bytes.as_slice());
    compute_sha256_words(text.as_str())
}

} // verus!
