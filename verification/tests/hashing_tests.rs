use sha2::{Digest, Sha256};
use zkproofs::hashing::{compute_sha256_words, hash_pair, pair_to_bytes, words_from_digest};

const HELLO_WORLD_WORDS: [u32; 8] = [
    0x7f83b165, 0x7ff1fc53, 0xb92dc181, 0x48a1d65d, 0xfc2d4b1f, 0xa3d67728, 0x4addd200, 0x126d9069,
];

#[test]
fn digest_is_read_big_endian() {
    let mut digest = [0u8; 32];
    for (i, b) in digest.iter_mut().enumerate() {
        *b = i as u8;
    }
    assert_eq!(
        words_from_digest(&digest),
        [66051, 67438087, 134810123, 202182159, 269554195, 336926231, 404298267, 471670303]
    );
}

#[test]
fn sha256_words_of_known_texts() {
    assert_eq!(compute_sha256_words("Hello World!"), HELLO_WORLD_WORDS);
    assert_eq!(
        compute_sha256_words("abc"),
        [3128432319, 2399260650, 1094795486, 1571693091, 2953011619, 2518121116, 3021012833, 4060091821]
    );
}

#[test]
fn pair_bytes_are_left_then_right_big_endian() {
    let left = [0x01020304u32, 0, 0, 0, 0, 0, 0, 0xa0b0c0d0];
    let right = [0xffeeddccu32, 1, 2, 3, 4, 5, 6, 7];
    let bytes = pair_to_bytes(&left, &right);
    assert_eq!(bytes.len(), 64);
    assert_eq!(&bytes[0..4], &[1, 2, 3, 4]);
    assert_eq!(&bytes[28..32], &[0xa0, 0xb0, 0xc0, 0xd0]);
    assert_eq!(&bytes[32..36], &[0xff, 0xee, 0xdd, 0xcc]);
    assert_eq!(&bytes[60..64], &[0, 0, 0, 7]);
}

#[test]
fn bytes_and_words_round_trip() {
    let left = [0x01020304u32, 5, 6, 7, 8, 9, 10, 0xa0b0c0d0];
    let right = [0u32; 8];
    let bytes = pair_to_bytes(&left, &right);
    let mut first = [0u8; 32];
    first.copy_from_slice(&bytes[0..32]);
    assert_eq!(words_from_digest(&first), left);
}

#[test]
fn hash_pair_of_ascii_words_is_plain_sha256() {
    let left = [0x41424344u32; 8];
    let right = [0x30313233u32; 8];
    let expected = [2276213667, 3977053374, 1851497175, 1756860867, 2613443280, 483985995, 1263156809, 3239680032];
    assert_eq!(hash_pair(left, right), expected);
    let mut bytes = Vec::new();
    for w in left.iter().chain(right.iter()) {
        bytes.extend_from_slice(&w.to_be_bytes());
    }
    let digest = Sha256::digest(&bytes);
    let mut d = [0u8; 32];
    d.copy_from_slice(&digest);
    assert_eq!(words_from_digest(&d), expected);
}

#[test]
fn hash_pair_decodes_invalid_utf8_lossily() {
    let l1 = compute_sha256_words("L1");
    let l2 = compute_sha256_words("L2");
    let result = hash_pair(l1, l2);
    assert_eq!(
        result,
        [2402832844, 1369119726, 904912907, 1859412798, 3431741478, 900903595, 3360578179, 2322918860]
    );
    // the plain SHA-256 of the 64 bytes differs: they are not valid UTF-8
    assert_ne!(
        result,
        [4131408403, 442577846, 1282686699, 3928417148, 762690775, 3471593776, 379830468, 1145781053]
    );
    let bytes = pair_to_bytes(&l1, &l2);
    let text = String::from_utf8_lossy(&bytes);
    assert_eq!(result, compute_sha256_words(&text));
}
