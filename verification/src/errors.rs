//! Error taxonomy of the core: domain errors are terminal for a request and
//! surfaced verbatim; none leaves the store half-updated. Transient
//! store failures and invariant violations have no variant here: the
//! store is held in memory and its invariants are proved, so neither can
//! arise; the surrounding program maps its own transport failures.

use vstd::prelude::*;

verus! {

/// Authentication failures. `InvalidCredential` is returned both for an
/// unknown email and for a wrong password, so callers cannot enumerate users.
#[derive(Clone, Copy, PartialEq, Eq, Structural, Debug)]
pub enum AuthError {
    /// Email unknown or password wrong (deliberately indistinguishable).
    InvalidCredential,
    /// No account holds the presented session token.
    Invalid,
    /// The session token was found but its expiration has passed.
    Expired,
    /// The fresh token collides with a token the store already holds
    /// (uniqueness of `Account.session_token` is enforced by the store).
    Conflict,
}

/// Failures of the registration (signup-confirmation) flow.
#[derive(Clone, Copy, PartialEq, Eq, Structural, Debug)]
pub enum RegistrationError {
    /// The email is already taken by an account or a pending registration.
    DuplicateEmail,
    /// The steam id is already taken by a user or a pending registration.
    DuplicateSteamId,
    /// The fresh registration token collides with a pending one.
    Conflict,
    /// No pending registration holds the presented token.
    NotFound,
    /// The registration was found but its TTL has passed.
    Expired,
}

/// Failures of event roster mutations.
#[derive(Clone, Copy, PartialEq, Eq, Structural, Debug)]
pub enum RosterError {
    /// The event id is unknown to the store.
    EventNotFound,
    /// The event no longer accepts roster mutations.
    EventInactive,
    /// The player is already on one of the event's two lists.
    AlreadyRegistered,
    /// The player is not on the unconfirmed list.
    NotPending,
    /// The player is on neither list.
    NotRegistered,
}

} // verus!
