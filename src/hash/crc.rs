use vstd::prelude::*;
use crate::error::HashError;
use crate::foreign::crc32_of;
use crate::math::endian::bytes_to_vec;

verus! {

/// The bytes that `compute_bytes` checksums: the buffer, then the suffix if any.
pub open spec fn with_suffix(buffer: Seq<u8>, suffix: Option<Seq<u8>>) -> Seq<u8> {
    match suffix {
        Some(s) => buffer + s,
        None => buffer,
    }
}

/// The CRC-32 of `buffer` followed by `suffix`, when given.
pub fn compute_bytes(buffer: &[u8], suffix: Option<&[u8]>) -> (r: u32)
    requires
        suffix matches Some(s) ==> buffer@.len() + s@.len() <= usize::MAX,
    ensures
        r == crc32_of(with_suffix(buffer@, match suffix { Some(s) => Some(s@), None => None })),
{
    match suffix {
        None => crc32fast::hash(buffer),
        Some(s) => {
            let mut all = bytes_to_vec(buffer);
            let mut i: usize = 0;
            while i < s.len()
                invariant
                    i <= s@.len(),
                    all@ =~= buffer@ + s@.subrange(0, i as int),
                decreases s@.len() - i,
            {
                all.push(s[i]);
                i = i + 1;
            }
            assert(all@ =~= buffer@ + s@);
            crc32fast::hash(all.as_slice())
        },
    }
}

/// Compares a file's checksum with the expected one: `Ok` when they agree, else a
/// `Mismatch` that carries both.
pub fn compare(file_crc: u32, expected_crc: u32) -> (r: Result<(), HashError>)
    ensures
        file_crc == expected_crc ==> r is Ok,
        file_crc != expected_crc ==> r == Err::<(), HashError>(HashError::Mismatch { expected: expected_crc, actual: file_crc }),
{
    if file_crc == expected_crc {
        Ok(())
    } else {
        Err(HashError::Mismatch { expected: expected_crc, actual: file_crc })
    }
}

} // verus!
