//! Randomness and wall-clock time: values that no contract can predict.
use vstd::prelude::*;
use rand::RngCore;

verus! {

/// Fills 12 bytes from the operating system's random source (`rand::rngs::OsRng`).
#[verifier::external_body]
pub(crate) fn random_12() -> (b: [u8; 12]) {
    let mut b = [0u8; 12];
    rand::rngs::OsRng.fill_bytes(&mut b);
    b
}

/// Fills 16 bytes from the operating system's random source (`rand::rngs::OsRng`).
#[verifier::external_body]
pub(crate) fn random_16() -> (b: [u8; 16]) {
    let mut b = [0u8; 16];
    rand::rngs::OsRng.fill_bytes(&mut b);
    b
}

/// Fills 32 bytes from the operating system's random source (`rand::rngs::OsRng`).
#[verifier::external_body]
pub(crate) fn random_32() -> (b: [u8; 32]) {
    let mut b = [0u8; 32];
    rand::rngs::OsRng.fill_bytes(&mut b);
    b
}

/// A fresh random (version 4) UUID in its hyphenated text form (`uuid::Uuid::new_v4`).
#[verifier::external_body]
pub(crate) fn uuid_v4() -> (s: String) {
    uuid::Uuid::new_v4().to_string()
}

/// Seconds since the Unix epoch according to the system clock (0 if the clock is
/// set before the epoch).
#[verifier::external_body]
pub fn unix_now() -> (t: u64) {
    std::time::SystemTime::now()
        .duration_since(std::time::UNIX_EPOCH)
        .unwrap_or_default()
        .as_secs()
}

} // verus!
