use base64::Engine;
use bacy::crypto::table::{calculate_multiplier, create_key, create_password, decrypt_string, encrypt_string, xor};
use bacy::error::TableEncryptionError;
use bacy::math::mersenne::MersenneTwister;
use bacy::table_encryption::{
    calculate_modulus, convert_int, convert_long, convert_string, convert_uint, convert_ulong, new_encrypt_string,
    next_bytes, xor_bytes, xor_int32, xor_int64, xor_str, xor_uint32, xor_uint64, EncryptionToggle,
};

#[test]
fn scenario_b_int32_round_trip() {
    let key = create_key("table_name");
    let encoded = xor_int32(1234, &key);
    assert_eq!(xor_int32(encoded, &key), 1234);
}

#[test]
fn int_codecs_round_trip_all_widths() {
    let key = bacy::table_encryption::create_key(b"CharacterExcel");
    for v in [1i32, -1, 1234, i32::MIN, i32::MAX] {
        assert_eq!(xor_int32(xor_int32(v, &key), &key), v);
        assert_eq!(convert_int(convert_int(v, &key), &key), v);
    }
    for v in [1i64, -77, i64::MIN, i64::MAX] {
        assert_eq!(xor_int64(xor_int64(v, &key), &key), v);
    }
    for v in [1u32, 99, u32::MAX] {
        assert_eq!(xor_uint32(xor_uint32(v, &key), &key), v);
    }
    for v in [1u64, 1 << 40, u64::MAX] {
        assert_eq!(xor_uint64(xor_uint64(v, &key), &key), v);
    }
}

#[test]
fn int_codec_exact_value() {
    let key = [1u8, 2, 3, 4, 5, 6, 7, 8];
    assert_eq!(xor_uint32(0, &key), u32::from_le_bytes([1, 2, 3, 4]));
    assert_eq!(xor_uint64(0, &key), u64::from_le_bytes(key));
    assert_eq!(xor_uint32(0x0403_0201, &key), 0);
    assert_eq!(xor_uint32(7, &[]), 7);
}

#[test]
fn sentinel_codecs_keep_zero() {
    let key = [0xAAu8; 8];
    assert_eq!(convert_int(0, &key), 0);
    assert_eq!(convert_long(0, &key), 0);
    assert_eq!(convert_uint(0, &key), 0);
    assert_eq!(convert_ulong(0, &key), 0);
    assert_eq!(convert_uint(1, &key), xor_uint32(1, &key));
}

#[test]
fn modulus_rules() {
    assert_eq!(calculate_modulus(&[]), 1);
    assert_eq!(calculate_modulus(&[0]), 7);
    assert_eq!(calculate_modulus(&[13]), -3);
    assert_eq!(calculate_modulus(&[21]), -7);
    assert_eq!(calculate_modulus(&[48]), 8);
    for b in 0u8..=255 {
        assert_eq!(calculate_multiplier(b), calculate_modulus(&[b]));
        assert_ne!(calculate_multiplier(b), 0);
    }
}

#[test]
fn keystream_same_seed_same_output() {
    let mut a = MersenneTwister::new(42);
    let mut b = MersenneTwister::new(42);
    for _ in 0..700 {
        assert_eq!(a.next_u32(), b.next_u32());
    }
    let mut x = [0u8; 13];
    let mut y = [0u8; 13];
    a.next_bytes(&mut x);
    b.next_bytes(&mut y);
    assert_eq!(x, y);
}

#[test]
fn keystream_known_vector() {
    let mut mt = MersenneTwister::new(5489);
    assert_eq!(mt.next_u32(), 3499211612);
    let mut mt = MersenneTwister::new(5489);
    assert_eq!(mt.next(), 3499211612 >> 1);
    let mut mt = MersenneTwister::new(5489);
    let first = 3499211612u64;
    let mut again = MersenneTwister::new(5489);
    again.next_u32();
    let second = again.next_u32() as u64;
    assert_eq!(mt.next_u64(), (first << 32) | second);
}

#[test]
fn next_bytes_partial_chunk() {
    let mut words = MersenneTwister::new(7);
    let w0 = words.next();
    let w1 = words.next();
    let mut rng = rand_mt::Mt::new(7);
    let mut buf = [0u8; 6];
    next_bytes(&mut rng, &mut buf);
    let mut expect = w0.to_le_bytes().to_vec();
    expect.extend_from_slice(&w1.to_le_bytes()[..2]);
    assert_eq!(buf.to_vec(), expect);
}

#[test]
fn scenario_c_password() {
    let password = create_password("assets/x.bin", 20);
    assert_eq!(password.len(), 20);
    let raw = base64::engine::general_purpose::STANDARD.decode(&password).unwrap();
    assert_eq!(raw.len(), 15);
}

#[test]
fn row_cipher_round_trip() {
    let data = b"row of table bytes".to_vec();
    let once = bacy::table_encryption::xor("ItemExcel", &data);
    assert_ne!(once, data);
    assert_eq!(bacy::table_encryption::xor("ItemExcel", &once), data);
    let mut buf = data.clone();
    xor("ItemExcel", &mut buf);
    assert_ne!(buf, data);
    xor("ItemExcel", &mut buf);
    assert_eq!(buf, data);
}

#[test]
fn string_codec_round_trip() {
    let key = create_key("StringTable");
    for s in ["Hello, table cipher!", "\u{00e9}t\u{00e9} \u{1F600} caf\u{00e9}!!", "exactly8"] {
        let enc = new_encrypt_string(s, &key).unwrap();
        assert_ne!(enc, s);
        assert_eq!(convert_string(&enc, &key).unwrap(), s);
        let enc2 = encrypt_string(s, &key);
        assert_eq!(enc2, enc);
        assert_eq!(decrypt_string(&enc2, &key).unwrap(), s);
    }
}

#[test]
fn short_strings_pass_through() {
    let key = create_key("k");
    assert_eq!(new_encrypt_string("short", &key).unwrap(), "short");
    assert_eq!(new_encrypt_string("", &key).unwrap(), "");
    assert_eq!(encrypt_string("", &key), "");
    assert_eq!(decrypt_string("", &key).unwrap(), "");
    assert_eq!(convert_string("", &key).unwrap(), "");
}

#[test]
fn gate_counts_utf16_code_units() {
    let key = create_key("gate units");
    // four supplementary-plane characters: 4 chars, 8 UTF-16 code units
    let s = "\u{1F600}\u{1F601}\u{1F602}\u{1F603}";
    let enc = new_encrypt_string(s, &key).unwrap();
    assert_ne!(enc, s);
    assert_eq!(convert_string(&enc, &key).unwrap(), s);
    // seven code units stay as they are
    assert_eq!(new_encrypt_string("\u{1F600}\u{1F601}\u{1F602}x", &key).unwrap(), "\u{1F600}\u{1F601}\u{1F602}x");
}

#[test]
fn cipher_text_length() {
    let key = [7u8; 8];
    for s in ["a", "ab", "abc", "\u{1F600}"] {
        let n = s.encode_utf16().count();
        assert_eq!(encrypt_string(s, &key).len(), 4 * ((2 * n + 2) / 3));
    }
}

#[test]
fn key_is_start_of_password_bytes() {
    let raw = base64::engine::general_purpose::STANDARD.decode(create_password("assets/x.bin", 20)).unwrap();
    assert_eq!(&raw[..8], &create_key("assets/x.bin")[..]);
    assert!(!create_password("assets/x.bin", 20).contains('='));
}

#[test]
fn string_codec_exact_ciphertext() {
    // "A" is one code unit 0x0041: bytes [0x41, 0x00], XOR [0x01, 0x02] -> [0x40, 0x02].
    let enc = encrypt_string("A", &[0x01, 0x02]);
    assert_eq!(enc, base64::engine::general_purpose::STANDARD.encode([0x40u8, 0x02]));
}

#[test]
fn convert_string_latin1_fallback() {
    let odd = base64::engine::general_purpose::STANDARD.encode([0x41u8, 0xE9, 0x42]);
    assert_eq!(convert_string(&odd, &[]).unwrap(), "A\u{e9}B");
    // a lone surrogate is not valid UTF-16
    let bad = base64::engine::general_purpose::STANDARD.encode([0x00u8, 0xD8]);
    assert_eq!(convert_string(&bad, &[]).unwrap(), "\u{0}\u{d8}");
    assert_eq!(decrypt_string(&bad, &[]).unwrap(), "\u{0}\u{d8}");
    assert_eq!(decrypt_string(&odd, &[]).unwrap(), "A\u{e9}B");
}

#[test]
fn invalid_base64_is_an_error() {
    assert!(matches!(convert_string("not base64!", &[1]), Err(TableEncryptionError::Base64Decode(_))));
    assert!(matches!(decrypt_string("%%%%", &[1]), Err(TableEncryptionError::Base64Decode(_))));
}

#[test]
fn xor_helpers() {
    assert_eq!(xor_str(&[1, 2, 3], &[1, 1]), vec![0, 3]);
    assert_eq!(xor_bytes(&[1, 2, 3], &[1, 1]), vec![0, 3, 2]);
    assert_eq!(xor_bytes(&[1, 2, 3], &[]), vec![1, 2, 3]);
    let mut d = [5u8, 6, 7];
    bacy::table_encryption::xor_inplace(&mut d, &[1]);
    assert_eq!(d, [4, 7, 6]);
}

#[test]
fn toggle_last_write_wins() {
    let mut t = EncryptionToggle::new();
    assert!(!t.use_encryption());
    t.set_use_encryption(true);
    assert!(t.use_encryption());
    t.set_use_encryption(false);
    assert!(!t.use_encryption());
}

#[test]
fn key_depends_on_name() {
    assert_eq!(create_key("a"), create_key("a"));
    assert_ne!(create_key("a"), create_key("b"));
    assert_eq!(bacy::table_encryption::create_key(b"a"), create_key("a"));
}

#[test]
fn toggle_gates_conversions() {
    let key = create_key("gate");
    let mut t = EncryptionToggle::new();
    assert_eq!(t.convert_int(1234, &key), 1234);
    assert_eq!(t.convert_ulong(9, &key), 9);
    assert_eq!(t.convert_string("plain text", &key).unwrap(), "plain text");
    t.set_use_encryption(true);
    assert_eq!(t.convert_int(1234, &key), convert_int(1234, &key));
    assert_eq!(t.convert_long(-3, &key), convert_long(-3, &key));
    assert_eq!(t.convert_uint(0, &key), 0);
    assert_eq!(t.convert_ulong(9, &key), convert_ulong(9, &key));
    let enc = new_encrypt_string("gated string", &key).unwrap();
    assert_eq!(t.convert_string(&enc, &key).unwrap(), "gated string");
}
