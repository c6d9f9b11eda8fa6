use xth_core::credential::verify;
use xth_core::credential;

#[test]
fn verify_accepts_derived_digest() {
    let digest = credential::derive(b"pw123", b"salt-a");
    assert_eq!(digest.len(), 32);
    assert!(verify(b"pw123", b"salt-a", &digest));
}

#[test]
fn derive_is_deterministic() {
    let a = credential::derive(b"pw123", b"salt-a");
    let b = credential::derive(b"pw123", b"salt-a");
    assert_eq!(a, b);
}

#[test]
fn verify_rejects_bit_flipped_password() {
    let digest = credential::derive(b"pw123", b"salt-a");
    // flip one bit of the password
    assert!(!verify(b"qw123", b"salt-a", &digest));
    assert!(!verify(b"pw122", b"salt-a", &digest));
}

#[test]
fn verify_rejects_bit_flipped_salt() {
    let digest = credential::derive(b"pw123", b"salt-a");
    assert!(!verify(b"pw123", b"salt-b", &digest));
    assert!(!verify(b"pw123", b"talt-a", &digest));
}

#[test]
fn verify_rejects_bit_flipped_digest() {
    let mut digest = credential::derive(b"pw123", b"salt-a");
    digest[0] ^= 1;
    assert!(!verify(b"pw123", b"salt-a", &digest));
}

#[test]
fn digest_is_not_the_password() {
    // the derivation really transforms its input
    assert!(!verify(b"pw123", b"salt-a", b"pw123"));
    let digest = credential::derive(b"pw123", b"salt-a");
    assert_ne!(&digest[..], b"pw123");
}

#[test]
fn round_trip_holds_on_samples() {
    assert!(credential::derived_digest_verifies(b"pw123", b"salt-a"));
    assert!(credential::derived_digest_verifies(b"", b""));
    assert!(credential::derived_digest_verifies(b"a longer passphrase with spaces", b"s"));
}

#[test]
fn empty_password_and_salt_work() {
    let digest = credential::derive(b"", b"");
    assert_eq!(digest.len(), 32);
    assert!(verify(b"", b"", &digest));
    assert!(!verify(b"x", b"", &digest));
}
