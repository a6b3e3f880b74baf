//! Base58, as the `bs58` crate computes it with its default alphabet.

use vstd::prelude::*;

verus! {

/// The Base58 text of `bytes`.
pub uninterp spec fn base58_text(bytes: Seq<u8>) -> Seq<char>;

/// The bytes that `text` is the Base58 text of; `None` where `text` holds a
/// character outside the alphabet.
pub uninterp spec fn base58_bytes(text: Seq<char>) -> Option<Seq<u8>>;

/// `bs58::encode(..).into_string()` gives the Base58 text of `bytes`, and
/// decoding that text gives `bytes` back. The bound keeps the length that
/// the encoder reserves, half as much again as the input, within `usize`.
#[verifier::external_body]
pub(crate) fn encode(bytes: &[u8]) -> (text: String)
    requires
        bytes@.len() <= 0x4000_0000,
    ensures
        text@ == base58_text(bytes@),
        base58_bytes(text@) == Some(bytes@),
{
    bs58::encode(bytes).into_string()
}

/// `bs58::decode(..).into_vec()` gives the bytes that `text` stands for, or
/// fails where `text` is not Base58. The failure comes back as what the
/// decoder's error says of itself through its `Display`, of which nothing
/// is claimed.
#[verifier::external_body]
pub(crate) fn decode(text: &str) -> (r: Result<Vec<u8>, String>)
    ensures
        match r {
            Ok(bytes) => base58_bytes(text@) == Some(bytes@),
            Err(_) => base58_bytes(text@) is None,
        },
{
    match bs58::decode(text).into_vec() {
        Ok(bytes) => Ok(bytes),
        Err(e) => Err(format!("{}", e)),
    }
}

} // verus!
