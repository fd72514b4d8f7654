//! Hexadecimal rendering of transaction hashes, for logs and displays.
use vstd::prelude::*;
use crate::transaction::Transaction;

verus! {

/// The lowercase hex digit of a nibble.
pub open spec fn spec_hex_char_lower(n: u8) -> char
    recommends
        n < 16,
{
    if n < 10 {
        (48 + n) as char
    } else {
        (87 + n) as char
    }
}

/// The uppercase hex digit of a nibble.
pub open spec fn spec_hex_char_upper(n: u8) -> char
    recommends
        n < 16,
{
    if n < 10 {
        (48 + n) as char
    } else {
        (55 + n) as char
    }
}

/// The lowercase hex rendering of a byte sequence: two digits per byte,
/// high nibble first.
pub open spec fn spec_hex_lower(bytes: Seq<u8>) -> Seq<char> {
    Seq::new(
        2 * bytes.len(),
        |i: int|
            if i % 2 == 0 {
                spec_hex_char_lower(bytes[i / 2] / 16)
            } else {
                spec_hex_char_lower(bytes[i / 2] % 16)
            },
    )
}

/// The uppercase hex rendering of a byte sequence.
pub open spec fn spec_hex_upper(bytes: Seq<u8>) -> Seq<char> {
    Seq::new(
        2 * bytes.len(),
        |i: int|
            if i % 2 == 0 {
                spec_hex_char_upper(bytes[i / 2] / 16)
            } else {
                spec_hex_char_upper(bytes[i / 2] % 16)
            },
    )
}

/// Relies on `hex::encode`: two lowercase hex digits for each byte, high
/// nibble first, so the result holds exactly twice as many characters as
/// the input holds bytes.
#[verifier::external_body]
fn hex_lower(bytes: &Vec<u8>) -> (r: String)
    ensures
        r@.len() == 2 * bytes@.len(),
        forall|i: int|
            0 <= i < bytes@.len() ==> r@[2 * i] == spec_hex_char_lower(#[trigger] bytes@[i] / 16)
                && r@[2 * i + 1] == spec_hex_char_lower(bytes@[i] % 16),
{
    hex::encode(bytes.as_slice())
}

/// Relies on `hex::encode_upper`: as `hex::encode`, with uppercase digits.
#[verifier::external_body]
fn hex_upper(bytes: &Vec<u8>) -> (r: String)
    ensures
        r@.len() == 2 * bytes@.len(),
        forall|i: int|
            0 <= i < bytes@.len() ==> r@[2 * i] == spec_hex_char_upper(#[trigger] bytes@[i] / 16)
                && r@[2 * i + 1] == spec_hex_char_upper(bytes@[i] % 16),
{
    hex::encode_upper(bytes.as_slice())
}

impl Transaction {
    /// The transaction hash as a lowercase hex string.
    pub fn hash_hex(&self) -> (r: String)
        ensures
            r@ == spec_hex_lower(self@.spec_hash().spec_bytes()),
    {
        let digest = self.hash();
        let bytes = digest.to_bytes();
        let r = hex_lower(&bytes);
        proof {
            assert(r@ =~= spec_hex_lower(self@.spec_hash().spec_bytes()));
        }
        r
    }

    /// The transaction hash as an uppercase hex string.
    pub fn hash_hex_upper(&self) -> (r: String)
        ensures
            r@ == spec_hex_upper(self@.spec_hash().spec_bytes()),
    {
        let digest = self.hash();
        let bytes = digest.to_bytes();
        let r = hex_upper(&bytes);
        proof {
            assert(r@ =~= spec_hex_upper(self@.spec_hash().spec_bytes()));
        }
        r
    }
}

} // verus!
