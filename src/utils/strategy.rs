use vstd::prelude::*;
use crate::foreign::push_char;
use crate::text::{decimal, push_decimal, push_signed_decimal, signed_decimal};

verus! {

/// The stored name of an asset file: `<hash>_<crc>` when a CRC is given, the file
/// name itself when hashing is off, else the bare hash (numbers in decimal).
pub open spec fn storage_name_of(file_name: Seq<char>, hash: u64, crc: Option<i64>, no_hash: bool) -> Seq<char> {
    match crc {
        Some(c) => decimal(hash as nat) + seq!['_'] + signed_decimal(c as int),
        None => if no_hash { file_name } else { decimal(hash as nat) },
    }
}

/// The stored name of an asset file (see `storage_name_of`), given the xxHash64 of
/// its (possibly lower-cased) name.
pub fn storage_name(file_name: &str, hash: u64, crc: Option<i64>, no_hash: bool) -> (r: String)
    ensures
        r@ == storage_name_of(file_name@, hash, crc, no_hash),
{
    match crc {
        Some(c) => {
            let mut s = String::new();
            push_decimal(&mut s, hash);
            push_char(&mut s, '_');
            push_signed_decimal(&mut s, c);
            assert(s@ =~= storage_name_of(file_name@, hash, crc, no_hash));
            s
        },
        None => {
            if no_hash {
                file_name.to_owned()
            } else {
                let mut s = String::new();
                push_decimal(&mut s, hash);
                assert(s@ =~= storage_name_of(file_name@, hash, crc, no_hash));
                s
            }
        },
    }
}

} // verus!
