use bacy::crc_service::{
    bit_length, bytes_to_u32_be, calculate_gf_modular_inverse, gf_divide, gf_inverse, gf_mod, gf_modular_inverse,
    gf_multiply, gf_multiply_modular, hex_string_to_bytes, manipulate_crc, reverse_bits_in_bytes, u32_to_bytes_be,
};
use bacy::error::CrcServiceError;
use bacy::table_encryption::archive_password;
use bacy::utils::crc_manipulator::CrcManipulator;
use bacy::utils::strategy::storage_name;

#[test]
fn carry_less_products() {
    assert_eq!(gf_multiply(0b11, 0b11), 0b101);
    assert_eq!(gf_multiply(0b101, 0b110), 0b11110);
    assert_eq!(gf_multiply(0, 12345), 0);
    assert_eq!(gf_multiply(1 << 63, 2), 0);
}

#[test]
fn polynomial_division() {
    // (x^2 + 1) = (x + 1)(x + 1)
    assert_eq!(gf_divide(0b101, 0b11), 0b11);
    assert_eq!(gf_mod(0b101, 0b11, 64), 0);
    assert_eq!(gf_divide(0b111, 0b10), 0b11);
    assert_eq!(gf_mod(0b111, 0b10, 64), 1);
    assert_eq!(gf_divide(5, 0), 0);
    assert_eq!(gf_mod(5, 0, 64), 5);
    assert_eq!(gf_mod(0b1011, 0b10000, 2), 0b11);
    assert_eq!(bit_length(0), 0);
    assert_eq!(bit_length(0x8000_0000_0000_0000), 64);
}

#[test]
fn modular_inverse() {
    let poly = 0x104C11DB7u64;
    let inv = gf_modular_inverse(0x1_0000_0000, poly).unwrap();
    assert_eq!(inv, 0xCBF1ACDA);
    assert_eq!(gf_multiply_modular(0x1_0000_0000, inv, poly, 64), 1);
    assert_eq!(gf_modular_inverse(0, poly), Err(CrcServiceError::ZeroInverse));
    // x has no inverse modulo x^2 + x
    assert_eq!(gf_modular_inverse(0b10, 0b110), Err(CrcServiceError::ModularInverseUndefined));
    assert_eq!(gf_inverse(1, poly).unwrap(), 0xCBF1ACDA);
    for k in [0u32, 1, 0xDEAD_BEEF, 0xFFFF_FFFF] {
        assert_eq!(
            calculate_gf_modular_inverse(k).unwrap() as u64,
            CrcManipulator::gf2_multiply_mod(k as u64, 0xCBF1ACDA)
        );
    }
}

#[test]
fn general_solver_matches_target() {
    let original = b"the original asset bytes".to_vec();
    let modified = b"a modified asset".to_vec();
    let (ok, out) = manipulate_crc(&original, &modified).unwrap();
    assert!(ok);
    assert_eq!(out.len(), modified.len() + 4);
    assert_eq!(crc32fast::hash(&out), crc32fast::hash(&original));
    let fast = CrcManipulator::forge_data(&modified, crc32fast::hash(&original)).unwrap();
    assert_eq!(out, fast);
}

#[test]
fn hex_parsing() {
    assert_eq!(hex_string_to_bytes("DEADbeef").unwrap(), vec![0xDE, 0xAD, 0xBE, 0xEF]);
    assert_eq!(hex_string_to_bytes("").unwrap(), Vec::<u8>::new());
    assert_eq!(hex_string_to_bytes("+f").unwrap(), vec![0x0F]);
    assert_eq!(hex_string_to_bytes("ABC"), Err(CrcServiceError::OddHexLength));
    assert_eq!(hex_string_to_bytes("zz"), Err(CrcServiceError::InvalidHex));
}

#[test]
fn byte_order_helpers() {
    assert_eq!(bytes_to_u32_be(&[1, 2, 3, 4]), 0x0102_0304);
    assert_eq!(u32_to_bytes_be(0x0102_0304), vec![1, 2, 3, 4]);
    assert_eq!(reverse_bits_in_bytes(&[0, 0, 0, 1]), vec![0x80, 0, 0, 0]);
}

#[test]
fn storage_names() {
    assert_eq!(storage_name("a.bundle", 42, Some(-7), false), "42_-7");
    assert_eq!(storage_name("a.bundle", 42, None, true), "a.bundle");
    assert_eq!(storage_name("a.bundle", 18446744073709551615, None, false), "18446744073709551615");
    assert_eq!(storage_name("a.bundle", 0, Some(0), true), "0_0");
}

#[test]
fn archive_password_is_twenty_chars() {
    let p = archive_password(b"excel.zip");
    assert_eq!(p.len(), 20);
    assert_eq!(p, bacy::crypto::table::create_password("excel.zip", 20));
}
