use bacy::crypto::md5::{
    compute_digest, compute_digest64, compute_hash, compute_hash_hmac, compute_hash_str, compute_hash_str_hmac,
    compute_head, to_hex_string,
};
use bacy::crypto::xor::{encrypt, encrypt_with_key, xor_exact, xor_inplace};
use bacy::hash::xxhash::{calculate_hash, calculate_hash64, calculate_hash64_str, calculate_hash_str, swap_u64};
use bacy::hash::{calculate_xxhash, encrypt_name};

#[test]
fn ranged_xor() {
    let mut d = [0u8; 5];
    encrypt(&mut d, 1, 2);
    assert_eq!(d, [0, 0xD9, 0xD9, 0, 0]);
    let mut d = [0u8; 3];
    encrypt(&mut d, 2, 100);
    assert_eq!(d, [0, 0, 0xD9]);
    let mut d = [1u8; 3];
    encrypt(&mut d, 3, 1);
    assert_eq!(d, [1, 1, 1]);
    encrypt(&mut d, 0, 0);
    assert_eq!(d, [1, 1, 1]);
}

#[test]
fn keyed_xor_variants() {
    assert_eq!(encrypt_with_key(&[], &[1]), None);
    assert_eq!(encrypt_with_key(&[1], &[]), None);
    assert_eq!(encrypt_with_key(&[1, 2, 3], &[3]), Some(vec![2, 1, 0]));
    assert_eq!(xor_exact(&[1, 2, 3], &[1]), vec![0]);
    let mut d = [1u8, 2];
    xor_inplace(&mut d, &[]);
    assert_eq!(d, [1, 2]);
    xor_inplace(&mut d, &[3, 3, 3]);
    assert_eq!(d, [2, 1]);
}

#[test]
fn md5_vectors() {
    assert_eq!(compute_hash_str(""), "d41d8cd98f00b204e9800998ecf8427e");
    assert_eq!(compute_hash_str("abc"), "900150983cd24fb0d6963f7d28e17f72");
    assert_eq!(to_hex_string(&compute_hash(b"abc")), "900150983cd24fb0d6963f7d28e17f72");
    assert_eq!(compute_head("abc"), "90");
    assert_eq!(compute_digest("abc"), u32::from_le_bytes([0x90, 0x01, 0x50, 0x98]));
    assert_eq!(compute_digest64("abc"), u64::from_le_bytes([0x90, 0x01, 0x50, 0x98, 0x3c, 0xd2, 0x4f, 0xb0]));
    assert_eq!(
        compute_hash_str_hmac("The quick brown fox jumps over the lazy dog", "key"),
        "80070713463e7749b90c2dc24911e275"
    );
    assert_eq!(to_hex_string(&compute_hash_hmac(b"The quick brown fox jumps over the lazy dog", b"key"))[..4], *"8007");
    assert_eq!(to_hex_string(&[0xde, 0xad, 0x01]), "dead01");
}

#[test]
fn xxhash_vectors() {
    assert_eq!(calculate_xxhash(b"", false, false), 0x02CC5D05);
    assert_eq!(calculate_xxhash(b"", true, false), 0xEF46DB3751D8E999);
    assert_eq!(calculate_xxhash(b"", true, true), 0xEF46DB3751D8E999u64.swap_bytes());
    assert_eq!(calculate_hash(b"", false), 0x02CC5D05);
    assert_eq!(calculate_hash(b"", true), 0);
    assert_eq!(calculate_hash64(b"", true), 0xEF46DB3751D8E999u64.swap_bytes());
    assert_eq!(calculate_hash_str("", false), 0);
    assert_eq!(calculate_hash64_str("", true), 0);
    assert_eq!(calculate_hash_str("abc", false), xxhash_rust::xxh32::xxh32(b"abc", 0));
    assert_eq!(calculate_hash64_str("abc", false), xxhash_rust::xxh64::xxh64(b"abc", 0));
    assert_eq!(swap_u64(0x0102030405060708), 0x0807060504030201);
}

#[test]
fn hashed_names() {
    let h = xxhash_rust::xxh64::xxh64(b"file.bundle", 0).swap_bytes();
    assert_eq!(encrypt_name("File.Bundle", 12345).unwrap(), format!("{}_{}", h, 12345));
    assert_eq!(encrypt_name("file.bundle", -9).unwrap(), format!("{}_-9", h));
    assert_eq!(encrypt_name("file.bundle", i64::MIN).unwrap(), format!("{}_{}", h, i64::MIN));
}
