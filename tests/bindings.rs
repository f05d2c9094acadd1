use bacy::bindings::{
    crc_compute_bytes, crc_evaluate, md5_compute_digest, md5_compute_digest64, md5_compute_digest64_hmac,
    md5_compute_digest_hmac, md5_compute_hash, md5_compute_hash_hmac, md5_compute_hash_str, md5_compute_hash_str_hmac,
    md5_compute_head, md5_to_hex_string, table_create_key, table_create_password, table_decrypt_i32,
    table_decrypt_i64, table_decrypt_string, table_decrypt_u32, table_decrypt_u64, table_encrypt_string, table_xor,
    xor_encrypt, xor_encrypt_with_key, xor_exact, xor_inplace_bytes,
};

#[test]
fn binding_checksums() {
    assert_eq!(crc_compute_bytes(b"123456789"), 0xCBF43926);
    let r = crc_evaluate(b"");
    assert_eq!(r.value, 0);
    assert_eq!(r.hex, "00000000");
}

#[test]
fn binding_md5() {
    assert_eq!(md5_to_hex_string(&md5_compute_hash(b"abc")), "900150983cd24fb0d6963f7d28e17f72");
    assert_eq!(md5_compute_hash_str("abc"), "900150983cd24fb0d6963f7d28e17f72");
    assert_eq!(md5_compute_head("abc"), "90");
    assert_eq!(md5_compute_digest("abc"), 0x98500190);
    assert_eq!(md5_compute_digest64("abc") & 0xFFFF_FFFF, 0x98500190);
    let tag = md5_compute_hash_hmac(b"The quick brown fox jumps over the lazy dog", b"key");
    assert_eq!(md5_to_hex_string(&tag), "80070713463e7749b90c2dc24911e275");
    assert_eq!(md5_compute_hash_str_hmac("The quick brown fox jumps over the lazy dog", "key"), "80070713463e7749b90c2dc24911e275");
    assert_eq!(md5_compute_digest_hmac("The quick brown fox jumps over the lazy dog", "key"), 0x13070780);
    assert_eq!(md5_compute_digest64_hmac("The quick brown fox jumps over the lazy dog", "key") & 0xFFFF_FFFF, 0x13070780);
}

#[test]
fn binding_xor() {
    assert_eq!(xor_encrypt(vec![0, 0, 0], 1, 5), vec![0, 0xD9, 0xD9]);
    assert_eq!(xor_encrypt_with_key(&[1, 2], &[1]), Some(vec![0, 3]));
    assert_eq!(xor_exact(&[1, 2], &[3, 3, 3]), vec![2, 1]);
    assert_eq!(xor_inplace_bytes(vec![1, 2, 3], &[1, 2]), vec![0, 0, 2]);
}

#[test]
fn binding_table() {
    let key = table_create_key("table_name");
    assert_eq!(key.len(), 8);
    assert_eq!(key, bacy::crypto::table::create_key("table_name").to_vec());
    assert_eq!(table_create_password("assets/x.bin", 20).len(), 20);
    let data = vec![9u8, 8, 7, 6, 5];
    assert_eq!(table_xor("n", table_xor("n", data.clone())), data);
    assert_eq!(table_decrypt_i32(table_decrypt_i32(-5, &key), &key), -5);
    assert_eq!(table_decrypt_i64(table_decrypt_i64(-5, &key), &key), -5);
    assert_eq!(table_decrypt_u32(table_decrypt_u32(5, &key), &key), 5);
    assert_eq!(table_decrypt_u64(table_decrypt_u64(5, &key), &key), 5);
    let enc = table_encrypt_string("binding string", &key);
    assert_eq!(table_decrypt_string(&enc, &key).unwrap(), "binding string");
}
