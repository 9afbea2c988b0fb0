//! Base58 (Bitcoin alphabet) text encoding of byte strings, through the `bs58` crate.
use vstd::prelude::*;

verus! {

/// The Base58 text that `bs58::encode(..).into_string()` produces for `bytes`.
pub uninterp spec fn bs58_text(bytes: Seq<u8>) -> Seq<char>;

/// The bytes that `bs58::decode(..).into_vec()` produces for `text`, or `None` when it
/// rejects the text.
pub uninterp spec fn bs58_value(text: Seq<char>) -> Option<Seq<u8>>;

/// A character of the Bitcoin Base58 alphabet: the digits 1 to 9 and the letters
/// other than `0`, `O`, `I` and `l`.
pub open spec fn b58_char(c: char) -> bool {
    ||| '1' <= c <= '9'
    ||| 'A' <= c <= 'H'
    ||| 'J' <= c <= 'N'
    ||| 'P' <= c <= 'Z'
    ||| 'a' <= c <= 'k'
    ||| 'm' <= c <= 'z'
}

/// `bs58::encode(bytes).into_string()`, with the default (Bitcoin) alphabet.
/// The contract names its result `bs58_text`, a function of the bytes alone, and
/// states that decoding the text gives back the bytes (the codec's round trip). The
/// encoder writes one `1` per leading zero byte and the base-58 digits of the rest (at
/// least as many digits as bytes, since 58 < 256), into a buffer of `len + (len + 1) / 2`
/// characters, hence the bounds on the length; every character is of the alphabet.
#[verifier::external_body]
pub(crate) fn bs58_encode(bytes: &[u8]) -> (s: String)
    ensures
        s@ == bs58_text(bytes@),
        bs58_value(s@) == Some(bytes@),
        bytes@.len() <= s@.len() <= bytes@.len() + (bytes@.len() + 1) / 2,
        forall|i: int| 0 <= i < s@.len() ==> b58_char(#[trigger] s@[i]),
{
    bs58::encode(bytes).into_string()
}

/// `bs58::decode(text).into_vec()`, with its error mapped to `None`.
/// The contract names its result `bs58_value`.
#[verifier::external_body]
pub(crate) fn bs58_decode(text: &str) -> (r: Option<Vec<u8>>)
    ensures
        r matches Some(v) ==> bs58_value(text@) == Some(v@),
        r is None ==> bs58_value(text@) is None,
{
    bs58::decode(text).into_vec().ok()
}

} // verus!
