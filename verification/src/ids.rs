//! Identifier generation: asset identifiers and fresh shared-memory
//! segment names.

use vstd::prelude::*;

verus! {

/// Relies on `uuid`'s `Uuid::new_v4`: the sixteen raw bytes of a fresh
/// random version-4 identifier. Its source masks the version nibble of
/// byte 6 to 4 and the top two bits of byte 8 to the standard variant on
/// every outcome; the remaining 122 bits are random, so nothing more is
/// promised of them.
#[verifier::external_body]
pub fn generate_uuid_bytes() -> (r: [u8; 16])
    ensures
        r@[6] / 16 == 4,
        r@[8] / 64 == 2,
{
    *uuid::Uuid::new_v4().as_bytes()
}

/// Relies on `rand`'s `random_range`: a uniform draw from `0..16`, which
/// is documented to lie inside the given half-open range. Nothing else is
/// promised of the value.
#[verifier::external_body]
fn random_index16() -> (r: usize)
    ensures
        r < 16,
{
    rand::random_range(0usize..16)
}

/// The byte is a lowercase ASCII hexadecimal digit.
pub open spec fn is_ascii_hex_digit(b: u8) -> bool {
    (48 <= b <= 57) || (97 <= b <= 102)
}

/// A fresh 16-character lowercase hexadecimal name, used to name newly
/// created shared-memory segments.
pub fn new_uid16() -> (r: Vec<u8>)
    ensures
        r@.len() == 16,
        forall|i: int| 0 <= i < 16 ==> is_ascii_hex_digit(#[trigger] r@[i]),
{
    let mut out: Vec<u8> = Vec::new();
    let mut i: usize = 0;
    while i < 16
        invariant
            i <= 16,
            out@.len() == i,
            forall|j: int| 0 <= j < i ==> is_ascii_hex_digit(#[trigger] out@[j]),
        decreases 16 - i,
    {
        let idx = random_index16();
        let digit: u8 = if idx < 10 {
            48 + (idx as u8)
        } else {
            97 + ((idx as u8) - 10)
        };
        out.push(digit);
        i = i + 1;
    }
    out
}

} // verus!
