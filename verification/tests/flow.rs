use xth_core::errors::{AuthError, RegistrationError};
use xth_core::registration::{confirm, request};
use xth_core::session::{login, logout, validate};
use xth_core::store::Store;

fn req(
    st: &mut Store,
    steam_id: &str,
    name: &str,
    email: &str,
    password: &[u8],
    salt: &[u8],
    token: &str,
    now: i64,
    ttl: i64,
) -> Result<String, RegistrationError> {
    request(
        st,
        &steam_id.to_owned(),
        &name.to_owned(),
        &email.to_owned(),
        None,
        None,
        password,
        salt.to_vec(),
        token.to_owned(),
        now,
        ttl,
    )
}

#[test]
fn end_to_end_request_confirm_login() {
    let mut st = Store::new(7);
    let t = req(
        &mut st,
        "76561197960287930",
        "Alice",
        "a@x.com",
        b"pw123",
        b"salt-1",
        "reg-token-1",
        0,
        3600,
    )
    .unwrap();
    assert_eq!(t, "reg-token-1");
    let id = confirm(&mut st, &t, 10).unwrap();
    assert_eq!(id, 7);
    // the paired rows exist
    assert_eq!(st.accounts.len(), 1);
    assert_eq!(st.users.len(), 1);
    assert_eq!(st.accounts[0].id, 7);
    assert_eq!(st.users[0].id, 7);
    assert_eq!(st.users[0].name, "Alice");
    assert_eq!(st.users[0].steam_id, "76561197960287930");
    // correct credentials log in
    let tok = login(&mut st, &"a@x.com".to_owned(), b"pw123", "sess-1".to_owned(), 100, 60);
    assert_eq!(tok, Ok("sess-1".to_owned()));
    // wrong password and unknown email both answer InvalidCredential
    let bad = login(&mut st, &"a@x.com".to_owned(), b"wrong", "sess-2".to_owned(), 100, 60);
    assert_eq!(bad, Err(AuthError::InvalidCredential));
    let unknown = login(&mut st, &"b@x.com".to_owned(), b"pw123", "sess-2".to_owned(), 100, 60);
    assert_eq!(unknown, Err(AuthError::InvalidCredential));
}

#[test]
fn confirm_twice_first_ok_then_not_found() {
    let mut st = Store::new(1);
    let t = req(&mut st, "s1", "N", "n@x.com", b"p", b"s", "tok-a", 0, 100).unwrap();
    let first = confirm(&mut st, &t, 10);
    assert_eq!(first, Ok(1));
    let second = confirm(&mut st, &t, 10);
    assert_eq!(second, Err(RegistrationError::NotFound));
    // exactly one account was created
    assert_eq!(st.accounts.len(), 1);
}

#[test]
fn serialized_confirms_of_one_token_create_one_account() {
    // two callers race on one token; the store serializes them, so one
    // order or the other runs — in either order only one succeeds
    let mut st = Store::new(1);
    let t = req(&mut st, "s1", "N", "n@x.com", b"p", b"s", "tok-a", 0, 100).unwrap();
    let outcomes = [confirm(&mut st, &t, 10), confirm(&mut st, &t, 10)];
    let oks = outcomes.iter().filter(|r| r.is_ok()).count();
    assert_eq!(oks, 1);
    assert_eq!(outcomes[1], Err(RegistrationError::NotFound));
    assert_eq!(st.accounts.len(), 1);
    assert_eq!(st.users.len(), 1);
}

#[test]
fn expired_registration_is_collected_and_unusable() {
    let mut st = Store::new(1);
    let t = req(&mut st, "s1", "N", "n@x.com", b"p", b"s", "tok-a", 0, 100).unwrap();
    // now == expires_at is already expired
    let r = confirm(&mut st, &t, 100);
    assert_eq!(r, Err(RegistrationError::Expired));
    // the row was deleted on sight: a retry answers NotFound
    let r2 = confirm(&mut st, &t, 100);
    assert_eq!(r2, Err(RegistrationError::NotFound));
    assert_eq!(st.registrations.len(), 0);
}

#[test]
fn duplicate_email_and_steam_id_are_refused() {
    let mut st = Store::new(1);
    req(&mut st, "s1", "N", "n@x.com", b"p", b"s", "tok-a", 0, 100).unwrap();
    // reserved by the pending registration
    let dup_email = req(&mut st, "s2", "M", "n@x.com", b"p", b"s", "tok-b", 0, 100);
    assert_eq!(dup_email, Err(RegistrationError::DuplicateEmail));
    let dup_steam = req(&mut st, "s1", "M", "m@x.com", b"p", b"s", "tok-b", 0, 100);
    assert_eq!(dup_steam, Err(RegistrationError::DuplicateSteamId));
    // a colliding fresh token is refused by the store's uniqueness
    let dup_token = req(&mut st, "s3", "O", "o@x.com", b"p", b"s", "tok-a", 0, 100);
    assert_eq!(dup_token, Err(RegistrationError::Conflict));
    // taken by the materialized account and user as well
    confirm(&mut st, &"tok-a".to_owned(), 10).unwrap();
    let dup_email2 = req(&mut st, "s4", "P", "n@x.com", b"p", b"s", "tok-c", 0, 100);
    assert_eq!(dup_email2, Err(RegistrationError::DuplicateEmail));
    let dup_steam2 = req(&mut st, "s1", "P", "p@x.com", b"p", b"s", "tok-c", 0, 100);
    assert_eq!(dup_steam2, Err(RegistrationError::DuplicateSteamId));
}

#[test]
fn expired_reservation_releases_email_and_steam_id() {
    let mut st = Store::new(1);
    req(&mut st, "s1", "N", "n@x.com", b"p", b"s", "tok-a", 0, 100).unwrap();
    // within the TTL window the reservation holds
    let blocked = req(&mut st, "s2", "M", "n@x.com", b"p", b"s", "tok-b", 50, 100);
    assert_eq!(blocked, Err(RegistrationError::DuplicateEmail));
    // past the window the stale row is collected and both keys are free
    let freed = req(&mut st, "s1", "M", "n@x.com", b"p", b"s", "tok-a", 100, 100);
    assert!(freed.is_ok());
    assert_eq!(st.registrations.len(), 1);
}

#[test]
fn collect_expired_keeps_pending_rows_in_order() {
    let mut st = Store::new(1);
    req(&mut st, "s1", "N1", "a@x.com", b"p", b"s", "tok-a", 0, 50).unwrap();
    req(&mut st, "s2", "N2", "b@x.com", b"p", b"s", "tok-b", 0, 200).unwrap();
    req(&mut st, "s3", "N3", "c@x.com", b"p", b"s", "tok-c", 0, 300).unwrap();
    xth_core::registration::collect_expired(&mut st, 100);
    assert_eq!(st.registrations.len(), 2);
    assert_eq!(st.registrations[0].token, "tok-b");
    assert_eq!(st.registrations[1].token, "tok-c");
}

#[test]
fn optional_profile_fields_carry_through() {
    let mut st = Store::new(1);
    let t = request(
        &mut st,
        &"steam-9".to_owned(),
        &"Bob".to_owned(),
        &"b@x.com".to_owned(),
        Some("tag".to_owned()),
        Some("gold".to_owned()),
        b"pw",
        b"salt".to_vec(),
        "tok-b".to_owned(),
        0,
        100,
    )
    .unwrap();
    confirm(&mut st, &t, 10).unwrap();
    assert_eq!(st.users[0].player_tag, Some("tag".to_owned()));
    assert_eq!(st.users[0].rank, Some("gold".to_owned()));
    assert_eq!(st.users[0].email, "b@x.com");
    assert_eq!(st.accounts[0].email, "b@x.com");
    assert_eq!(st.accounts[0].session_token, None);
}

fn store_with_account(first_id: i32) -> (Store, String) {
    let mut st = Store::new(first_id);
    let t = req(&mut st, "s1", "N", "n@x.com", b"pw", b"salt", "tok-a", 0, 100).unwrap();
    confirm(&mut st, &t, 10).unwrap();
    (st, "n@x.com".to_owned())
}

#[test]
fn second_login_invalidates_first_token() {
    let (mut st, email) = store_with_account(1);
    let t1 = login(&mut st, &email, b"pw", "sess-1".to_owned(), 100, 60).unwrap();
    let t2 = login(&mut st, &email, b"pw", "sess-2".to_owned(), 110, 60).unwrap();
    assert_ne!(t1, t2);
    // the first token is gone: validate answers Invalid
    assert_eq!(validate(&mut st, &t1, 120), Err(AuthError::Invalid));
    // the second token is live
    assert_eq!(validate(&mut st, &t2, 120), Ok(1));
}

#[test]
fn validate_after_expiry_then_invalid() {
    let (mut st, email) = store_with_account(3);
    let t = login(&mut st, &email, b"pw", "sess-1".to_owned(), 100, 60).unwrap();
    // before the expiration the session is live and the expiration
    // does not slide forward
    assert_eq!(validate(&mut st, &t, 159), Ok(3));
    // now >= expiration answers Expired and clears the token
    assert_eq!(validate(&mut st, &t, 160), Err(AuthError::Expired));
    assert_eq!(st.accounts[0].session_token, None);
    // a further validate answers Invalid
    assert_eq!(validate(&mut st, &t, 161), Err(AuthError::Invalid));
}

#[test]
fn logout_is_idempotent() {
    let (mut st, email) = store_with_account(1);
    let t = login(&mut st, &email, b"pw", "sess-1".to_owned(), 100, 60).unwrap();
    logout(&mut st, &t);
    assert_eq!(st.accounts[0].session_token, None);
    assert_eq!(validate(&mut st, &t, 101), Err(AuthError::Invalid));
    // a second logout of the same token is accepted and changes nothing
    logout(&mut st, &t);
    assert_eq!(st.accounts[0].session_token, None);
}

#[test]
fn colliding_session_token_is_refused() {
    let mut st = Store::new(1);
    let ta = req(&mut st, "s1", "N", "n@x.com", b"pw", b"salt", "tok-a", 0, 100).unwrap();
    confirm(&mut st, &ta, 10).unwrap();
    let tb = req(&mut st, "s2", "M", "m@x.com", b"pw", b"salt2", "tok-b", 0, 100).unwrap();
    confirm(&mut st, &tb, 10).unwrap();
    login(&mut st, &"n@x.com".to_owned(), b"pw", "sess-1".to_owned(), 100, 60).unwrap();
    let clash = login(&mut st, &"m@x.com".to_owned(), b"pw", "sess-1".to_owned(), 100, 60);
    assert_eq!(clash, Err(AuthError::Conflict));
}
