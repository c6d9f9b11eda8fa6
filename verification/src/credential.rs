//! Salted-password derivation and verification.
//!
//! Derivation is delegated to the scrypt key derivation function of the
//! `crypto` crate, run with fixed cost parameters; its result is named
//! `digest_of` and every contract in the crate speaks of that name.
//! Comparison of digests is delegated to the crate's constant-time
//! equality, so verification leaks no partial-match timing.

use vstd::prelude::*;

verus! {

/// The digest that the scrypt key derivation function, with this module's
/// fixed cost parameters, produces for a given password and salt. It
/// depends on the two arguments alone.
pub uninterp spec fn digest_of(password: Seq<u8>, salt: Seq<u8>) -> Seq<u8>;

/// Relies on crypto::scrypt::scrypt: a deterministic function of the
/// password, the salt and the (here fixed) cost parameters, which fills
/// the caller's output buffer, here 32 bytes.
#[verifier::external_body]
fn kdf(password: &[u8], salt: &[u8]) -> (r: Vec<u8>)
    ensures
        r@ == digest_of(password@, salt@),
        r@.len() == 32,
{
    let params = crypto::scrypt::ScryptParams::new(8, 8, 1);
    let mut out: Vec<u8> = vec![0u8; 32];
    crypto::scrypt::scrypt(password, salt, &params, &mut out);
    out
}

/// Relies on crypto::util::fixed_time_eq: constant-time byte-slice
/// equality, false when the lengths differ, with no early exit.
#[verifier::external_body]
fn ct_eq(lhs: &[u8], rhs: &[u8]) -> (r: bool)
    ensures
        r == (lhs@ == rhs@),
{
    crypto::util::fixed_time_eq(lhs, rhs)
}

/// Derives the digest stored for a password: the same inputs always yield
/// the same digest.
pub fn derive(password: &[u8], salt: &[u8]) -> (digest: Vec<u8>)
    ensures
        digest@ == digest_of(password@, salt@),
        digest@.len() == 32,
{
    kdf(password, salt)
}

/// Recomputes the digest for `password` and `salt` and compares it with
/// `expected` in constant time: true exactly when `expected` is the digest
/// of this password under this salt.
pub fn verify(password: &[u8], salt: &[u8], expected: &[u8]) -> (r: bool)
    ensures
        r == (expected@ == digest_of(password@, salt@)),
{
    let digest = kdf(password, salt);
    ct_eq(expected, digest.as_slice())
}

/// For every password and salt, verifying the freshly derived digest
/// succeeds: `verify(password, salt, derive(password, salt))` holds.
pub fn derived_digest_verifies(password: &[u8], salt: &[u8]) -> (r: bool)
    ensures
        r,
{
    let digest = derive(password, salt);
    verify(password, salt, digest.as_slice())
}

} // verus!
