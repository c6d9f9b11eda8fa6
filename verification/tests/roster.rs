use xth_core::errors::RosterError;
use xth_core::roster::{confirm, signup, withdraw};
use xth_core::store::Store;

fn store_with_event(active: bool) -> (Store, i32) {
    let mut st = Store::new(0);
    let eid = st.add_event("league night".to_owned(), 1_700_000_000, true, active);
    (st, eid)
}

#[test]
fn signup_on_inactive_event_fails() {
    let (mut st, e) = store_with_event(false);
    assert_eq!(signup(&mut st, e, 41), Err(RosterError::EventInactive));
    assert_eq!(st.events[0].unconfirmed_players.len(), 0);
}

#[test]
fn confirm_before_signup_is_not_pending() {
    let (mut st, e) = store_with_event(true);
    assert_eq!(confirm(&mut st, e, 41), Err(RosterError::NotPending));
}

#[test]
fn signup_then_confirm_moves_player() {
    let (mut st, e) = store_with_event(true);
    assert_eq!(signup(&mut st, e, 41), Ok(()));
    assert_eq!(st.events[0].unconfirmed_players, vec![41]);
    assert_eq!(confirm(&mut st, e, 41), Ok(()));
    assert!(st.events[0].confirmed_players.contains(&41));
    assert!(!st.events[0].unconfirmed_players.contains(&41));
}

#[test]
fn signup_preserves_arrival_order() {
    let (mut st, e) = store_with_event(true);
    signup(&mut st, e, 3).unwrap();
    signup(&mut st, e, 1).unwrap();
    signup(&mut st, e, 2).unwrap();
    assert_eq!(st.events[0].unconfirmed_players, vec![3, 1, 2]);
    // confirming the middle arrival keeps the others in order
    confirm(&mut st, e, 1).unwrap();
    assert_eq!(st.events[0].unconfirmed_players, vec![3, 2]);
    assert_eq!(st.events[0].confirmed_players, vec![1]);
}

#[test]
fn double_signup_is_already_registered() {
    let (mut st, e) = store_with_event(true);
    signup(&mut st, e, 41).unwrap();
    assert_eq!(signup(&mut st, e, 41), Err(RosterError::AlreadyRegistered));
    // also once confirmed
    confirm(&mut st, e, 41).unwrap();
    assert_eq!(signup(&mut st, e, 41), Err(RosterError::AlreadyRegistered));
}

#[test]
fn withdraw_from_either_list() {
    let (mut st, e) = store_with_event(true);
    signup(&mut st, e, 1).unwrap();
    signup(&mut st, e, 2).unwrap();
    confirm(&mut st, e, 2).unwrap();
    // from the unconfirmed list
    assert_eq!(withdraw(&mut st, e, 1), Ok(()));
    assert!(!st.events[0].unconfirmed_players.contains(&1));
    // from the confirmed list
    assert_eq!(withdraw(&mut st, e, 2), Ok(()));
    assert!(!st.events[0].confirmed_players.contains(&2));
    // from neither
    assert_eq!(withdraw(&mut st, e, 1), Err(RosterError::NotRegistered));
}

#[test]
fn unknown_event_is_reported() {
    let (mut st, _) = store_with_event(true);
    assert_eq!(signup(&mut st, 99, 1), Err(RosterError::EventNotFound));
    assert_eq!(confirm(&mut st, 99, 1), Err(RosterError::EventNotFound));
    assert_eq!(withdraw(&mut st, 99, 1), Err(RosterError::EventNotFound));
}

#[test]
fn events_are_independent() {
    let mut st = Store::new(0);
    let e1 = st.add_event("one".to_owned(), 100, false, true);
    let e2 = st.add_event("two".to_owned(), 200, false, true);
    assert_ne!(e1, e2);
    signup(&mut st, e1, 7).unwrap();
    // the same player can sign up for a different event
    assert_eq!(signup(&mut st, e2, 7), Ok(()));
    assert_eq!(withdraw(&mut st, e1, 7), Ok(()));
    assert!(st.events[1].unconfirmed_players.contains(&7));
}
