//! Entities of the relational store: accounts, user profiles, pending
//! registrations, and events with their rosters.
//!
//! Timestamps are unix seconds held in an `i64`; the surrounding program
//! obtains the current time and hands it in, so every operation here is a
//! pure function of its arguments and the store.

use vstd::prelude::*;

verus! {

/// Row identifier shared by accounts, users and events.
pub type Id = i32;

/// A password-protected account. `session_token` is present only while a
/// session is active; `expiration` is meaningful only then, and is checked
/// lazily at the moment of use (no background sweep).
pub struct Account {
    pub id: Id,
    pub password_hash: Vec<u8>,
    pub password_salt: Vec<u8>,
    pub email: String,
    pub session_token: Option<String>,
    pub expiration: i64,
}

/// Profile data; one `User` corresponds 1:1 to an `Account` via the shared
/// `id`, created together when a registration is confirmed.
pub struct User {
    pub id: Id,
    pub steam_id: String,
    pub name: String,
    pub email: String,
    pub player_tag: Option<String>,
    pub rank: Option<String>,
}

/// A pending signup, keyed by an unguessable `token`, holding everything
/// needed to materialize a `User` + `Account` pair. It expires at
/// `expires_at` if never confirmed, and is consumed exactly once.
pub struct Registration {
    pub token: String,
    pub steam_id: String,
    pub name: String,
    pub email: String,
    pub player_tag: Option<String>,
    pub rank: Option<String>,
    pub password_hash: Vec<u8>,
    pub password_salt: Vec<u8>,
    pub expires_at: i64,
}

/// An event with its roster: `unconfirmed_players` in signup order, and
/// `confirmed_players` whose order carries no meaning. A player id appears
/// in at most one of the two lists; an inactive event accepts no new
/// roster mutations.
pub struct Event {
    pub id: Id,
    pub tournament: bool,
    pub title: String,
    pub date_time: i64,
    pub unconfirmed_players: Vec<Id>,
    pub confirmed_players: Vec<Id>,
    pub active: bool,
}

} // verus!
