use bacy::error::HashError;
use bacy::hash::crc::{compare, compute_bytes};
use bacy::hash::{evaluate_crc32, CrcResult};
use bacy::utils::crc_manipulator::{reverse_byte, reverse_word, CrcManipulator, GF2_INVERSE_X32};

#[test]
fn forge_scenario_a_reaches_target() {
    let buffer = [0x00u8, 0x01, 0x02, 0x03];
    let out = CrcManipulator::forge_data(&buffer, 0xDEADBEEF).unwrap();
    assert_eq!(out.len(), 8);
    assert_eq!(&out[..4], &buffer[..]);
    assert_eq!(crc32fast::hash(&out), 0xDEADBEEF);
}

#[test]
fn forge_many_targets() {
    let data: Vec<u8> = (0u8..=200).collect();
    for target in [0u32, 1, 0xFFFF_FFFF, 0x1234_5678, 0x8000_0000] {
        let out = CrcManipulator::forge_data(&data, target).unwrap();
        assert_eq!(crc32fast::hash(&out), target);
        assert_eq!(&out[..data.len()], &data[..]);
    }
}

#[test]
fn forge_empty_buffer() {
    let out = CrcManipulator::forge_data(&[], 0xCAFEBABE).unwrap();
    assert_eq!(out.len(), 4);
    assert_eq!(crc32fast::hash(&out), 0xCAFEBABE);
}

#[test]
fn forge_is_identity_when_already_matching() {
    let data = b"already right".to_vec();
    let crc = crc32fast::hash(&data);
    let out = CrcManipulator::forge_data(&data, crc).unwrap();
    assert_eq!(out, data);
}

#[test]
fn forge_patch_none_when_matching() {
    assert!(CrcManipulator::forge_patch(7, 9, 7).is_none());
    let data = b"stream".to_vec();
    let mut padded = data.clone();
    padded.extend_from_slice(&[0, 0, 0, 0]);
    let patch = CrcManipulator::forge_patch(crc32fast::hash(&data), crc32fast::hash(&padded), 0x0BADF00D).unwrap();
    let mut out = data.clone();
    out.extend_from_slice(&patch);
    assert_eq!(crc32fast::hash(&out), 0x0BADF00D);
}

#[test]
fn forge_bytes_matches_padded_formula() {
    let data = b"hello world".to_vec();
    let mut padded = data.clone();
    padded.extend_from_slice(&[0, 0, 0, 0]);
    let patch = CrcManipulator::forge_bytes(crc32fast::hash(&padded), 0x11223344);
    let mut out = data;
    out.extend_from_slice(&patch);
    assert_eq!(crc32fast::hash(&out), 0x11223344);
}

#[test]
fn gf2_inverse_constant_inverts_x32() {
    // x^32 mod P is the generator without its top term.
    assert_eq!(CrcManipulator::gf2_multiply_mod(0x04C11DB7, GF2_INVERSE_X32), 1);
    assert_eq!(CrcManipulator::gf2_multiply_mod(1, 0x1234_5678), 0x1234_5678);
    assert_eq!(CrcManipulator::gf2_multiply_mod(0x8000_0000, 2), 0x04C11DB7);
}

#[test]
fn bit_reversal_helpers() {
    assert_eq!(reverse_byte(0x01), 0x80);
    assert_eq!(reverse_byte(0xF0), 0x0F);
    assert_eq!(reverse_word(1), 0x8000_0000);
    assert_eq!(reverse_word(0x1234_5678), 0x1234_5678u32.reverse_bits());
    assert_eq!(CrcManipulator::reverse_bits(&[0x12, 0x34, 0x56, 0x78]), 0x1234_5678u32.reverse_bits().to_be_bytes());
}

#[test]
fn crc_result_hex_is_upper_and_padded() {
    let r = CrcResult::new(0xAB);
    assert_eq!(r.value, 0xAB);
    assert_eq!(r.hex, "000000AB");
    assert_eq!(CrcResult::new(0xDEADBEEF).hex, "DEADBEEF");
    let e = evaluate_crc32(b"123456789");
    assert_eq!(e.value, 0xCBF43926);
    assert_eq!(e.hex, "CBF43926");
}

#[test]
fn compute_bytes_with_suffix() {
    assert_eq!(compute_bytes(b"123456789", None), 0xCBF43926);
    assert_eq!(compute_bytes(b"12345", Some(b"6789")), 0xCBF43926);
}

#[test]
fn compare_reports_mismatch() {
    assert!(compare(5, 5).is_ok());
    assert_eq!(compare(5, 6), Err(HashError::Mismatch { expected: 6, actual: 5 }));
}

#[test]
fn manipulator_keeps_path() {
    let m = CrcManipulator::new("some/file.bin");
    assert_eq!(m.file_path, "some/file.bin");
}
