//! The relational store: one value owning the durable rows of all four
//! entities, with the uniqueness and pairing invariants the core relies
//! on. Every operation of the crate runs against a `&mut Store`, the sole
//! synchronization point; callers serialize operations on it, so each
//! contract here describes one atomic transaction.

use vstd::prelude::*;
use crate::types::{Account, Event, Id, Registration, User};

verus! {

// ---- predicates over account rows ----

/// `a` currently holds session token `t`.
pub open spec fn holds_token(a: Account, t: Seq<char>) -> bool {
    match a.session_token {
        Some(s) => s@ == t,
        None => false,
    }
}

/// Some account holds session token `t`.
pub open spec fn has_session_token(s: Seq<Account>, t: Seq<char>) -> bool {
    exists|i: int| 0 <= i < s.len() && #[trigger] holds_token(s[i], t)
}

/// Two accounts both hold a session token, and the same one.
pub open spec fn same_token(a: Account, b: Account) -> bool {
    match (a.session_token, b.session_token) {
        (Some(x), Some(y)) => x@ == y@,
        _ => false,
    }
}

pub open spec fn unique_account_ids(s: Seq<Account>) -> bool {
    forall|i: int, j: int| #![trigger s[i], s[j]] 0 <= i < j < s.len() ==> s[i].id != s[j].id
}

pub open spec fn unique_emails(s: Seq<Account>) -> bool {
    forall|i: int, j: int| #![trigger s[i], s[j]] 0 <= i < j < s.len() ==> s[i].email@ != s[j].email@
}

pub open spec fn unique_session_tokens(s: Seq<Account>) -> bool {
    forall|i: int, j: int| #![trigger s[i], s[j]] 0 <= i < j < s.len() ==> !same_token(s[i], s[j])
}

pub open spec fn account_ids_below(s: Seq<Account>, n: int) -> bool {
    forall|i: int| 0 <= i < s.len() ==> (#[trigger] s[i]).id < n
}

// ---- predicates over user rows ----

/// Accounts and users are created together and correspond 1:1 by position
/// and id: an account never exists without its paired user.
pub open spec fn accounts_users_paired(accounts: Seq<Account>, users: Seq<User>) -> bool {
    &&& accounts.len() == users.len()
    &&& forall|i: int| #![trigger accounts[i], users[i]] 0 <= i < accounts.len()
        ==> accounts[i].id == users[i].id
}

pub open spec fn unique_steam_ids(s: Seq<User>) -> bool {
    forall|i: int, j: int| #![trigger s[i], s[j]] 0 <= i < j < s.len() ==> s[i].steam_id@ != s[j].steam_id@
}

pub open spec fn has_user_steam_id(s: Seq<User>, steam_id: Seq<char>) -> bool {
    exists|i: int| 0 <= i < s.len() && (#[trigger] s[i]).steam_id@ == steam_id
}

pub open spec fn has_account_email(s: Seq<Account>, email: Seq<char>) -> bool {
    exists|i: int| 0 <= i < s.len() && (#[trigger] s[i]).email@ == email
}

// ---- predicates over pending registrations ----

pub open spec fn has_registration_token(rs: Seq<Registration>, t: Seq<char>) -> bool {
    exists|i: int| 0 <= i < rs.len() && (#[trigger] rs[i]).token@ == t
}

pub open spec fn has_registration_email(rs: Seq<Registration>, email: Seq<char>) -> bool {
    exists|i: int| 0 <= i < rs.len() && (#[trigger] rs[i]).email@ == email
}

pub open spec fn has_registration_steam_id(rs: Seq<Registration>, steam_id: Seq<char>) -> bool {
    exists|i: int| 0 <= i < rs.len() && (#[trigger] rs[i]).steam_id@ == steam_id
}

pub open spec fn unique_reg_tokens(rs: Seq<Registration>) -> bool {
    forall|i: int, j: int| #![trigger rs[i], rs[j]] 0 <= i < j < rs.len() ==> rs[i].token@ != rs[j].token@
}

pub open spec fn unique_reg_emails(rs: Seq<Registration>) -> bool {
    forall|i: int, j: int| #![trigger rs[i], rs[j]] 0 <= i < j < rs.len() ==> rs[i].email@ != rs[j].email@
}

pub open spec fn unique_reg_steam_ids(rs: Seq<Registration>) -> bool {
    forall|i: int, j: int| #![trigger rs[i], rs[j]] 0 <= i < j < rs.len() ==> rs[i].steam_id@ != rs[j].steam_id@
}

/// A pending registration reserves its email for its TTL window: no
/// account may hold it meanwhile.
pub open spec fn reg_emails_free(rs: Seq<Registration>, accounts: Seq<Account>) -> bool {
    forall|i: int, j: int| #![trigger rs[i], accounts[j]]
        0 <= i < rs.len() && 0 <= j < accounts.len() ==> rs[i].email@ != accounts[j].email@
}

/// A pending registration reserves its steam id likewise.
pub open spec fn reg_steam_ids_free(rs: Seq<Registration>, users: Seq<User>) -> bool {
    forall|i: int, j: int| #![trigger rs[i], users[j]]
        0 <= i < rs.len() && 0 <= j < users.len() ==> rs[i].steam_id@ != users[j].steam_id@
}

// ---- predicates over events and rosters ----

pub open spec fn unique_event_ids(s: Seq<Event>) -> bool {
    forall|i: int, j: int| #![trigger s[i], s[j]] 0 <= i < j < s.len() ==> s[i].id != s[j].id
}

pub open spec fn event_ids_below(s: Seq<Event>, n: int) -> bool {
    forall|i: int| 0 <= i < s.len() ==> (#[trigger] s[i]).id < n
}

pub open spec fn no_dup_ids(ps: Seq<Id>) -> bool {
    forall|i: int, j: int| #![trigger ps[i], ps[j]] 0 <= i < j < ps.len() ==> ps[i] != ps[j]
}

/// A player id appears in at most one of the two lists, and at most once.
pub open spec fn roster_wf(e: Event) -> bool {
    &&& no_dup_ids(e.unconfirmed_players@)
    &&& no_dup_ids(e.confirmed_players@)
    &&& forall|i: int, j: int| #![trigger e.unconfirmed_players@[i], e.confirmed_players@[j]]
        0 <= i < e.unconfirmed_players@.len() && 0 <= j < e.confirmed_players@.len()
        ==> e.unconfirmed_players@[i] != e.confirmed_players@[j]
}

/// The player is on one of the event's two lists.
pub open spec fn roster_contains(e: Event, p: Id) -> bool {
    e.unconfirmed_players@.contains(p) || e.confirmed_players@.contains(p)
}

// ---- the store ----

pub struct Store {
    pub accounts: Vec<Account>,
    pub users: Vec<User>,
    pub registrations: Vec<Registration>,
    pub events: Vec<Event>,
    /// Next row id to allocate; every account, user and event id lies
    /// below it, so freshly allocated ids never collide.
    pub next_id: Id,
}

impl Store {
    /// Well-formedness: the uniqueness constraints the store enforces
    /// (`email`, `steam_id`, `token`, `session_token`, row ids), the 1:1
    /// account/user pairing, the email and steam-id reservations of
    /// pending registrations, and the per-event roster invariant.
    pub open spec fn wf(self) -> bool {
        &&& unique_account_ids(self.accounts@)
        &&& unique_emails(self.accounts@)
        &&& unique_session_tokens(self.accounts@)
        &&& account_ids_below(self.accounts@, self.next_id as int)
        &&& accounts_users_paired(self.accounts@, self.users@)
        &&& unique_steam_ids(self.users@)
        &&& unique_reg_tokens(self.registrations@)
        &&& unique_reg_emails(self.registrations@)
        &&& reg_emails_free(self.registrations@, self.accounts@)
        &&& unique_reg_steam_ids(self.registrations@)
        &&& reg_steam_ids_free(self.registrations@, self.users@)
        &&& unique_event_ids(self.events@)
        &&& event_ids_below(self.events@, self.next_id as int)
        &&& forall|i: int| 0 <= i < self.events@.len() ==> roster_wf(#[trigger] self.events@[i])
    }

    /// An empty store. `first_id` seeds row-id allocation; the bootstrap
    /// layer chooses it (for instance from a database sequence).
    pub fn new(first_id: Id) -> (st: Store)
        ensures
            st.wf(),
            st.accounts@.len() == 0,
            st.users@.len() == 0,
            st.registrations@.len() == 0,
            st.events@.len() == 0,
            st.next_id == first_id,
    {
        Store {
            accounts: Vec::new(),
            users: Vec::new(),
            registrations: Vec::new(),
            events: Vec::new(),
            next_id: first_id,
        }
    }

    /// Index of the first account with this email, if any.
    pub fn find_account_by_email(&self, email: &String) -> (r: Option<usize>)
        ensures
            match r {
                Some(i) => {
                    &&& i < self.accounts@.len()
                    &&& self.accounts@[i as int].email@ == email@
                    &&& forall|k: int| 0 <= k < i ==> (#[trigger] self.accounts@[k]).email@ != email@
                },
                None => !has_account_email(self.accounts@, email@),
            },
    {
        let mut i: usize = 0;
        while i < self.accounts.len()
            invariant
                i <= self.accounts@.len(),
                forall|k: int| 0 <= k < i ==> (#[trigger] self.accounts@[k]).email@ != email@,
            decreases self.accounts@.len() - i,
        {
            if self.accounts[i].email == *email {
                return Some(i);
            }
            i += 1;
        }
        None
    }

    /// Index of the account holding this session token, if any.
    pub fn find_account_by_token(&self, token: &String) -> (r: Option<usize>)
        ensures
            match r {
                Some(i) => {
                    &&& i < self.accounts@.len()
                    &&& holds_token(self.accounts@[i as int], token@)
                },
                None => !has_session_token(self.accounts@, token@),
            },
    {
        let mut i: usize = 0;
        while i < self.accounts.len()
            invariant
                i <= self.accounts@.len(),
                forall|k: int| 0 <= k < i ==> !(#[trigger] holds_token(self.accounts@[k], token@)),
            decreases self.accounts@.len() - i,
        {
            match &self.accounts[i].session_token {
                Some(t) => {
                    if *t == *token {
                        return Some(i);
                    }
                },
                None => {},
            }
            i += 1;
        }
        None
    }

    /// Index of the pending registration holding this token, if any.
    pub fn find_registration(&self, token: &String) -> (r: Option<usize>)
        ensures
            match r {
                Some(i) => {
                    &&& i < self.registrations@.len()
                    &&& self.registrations@[i as int].token@ == token@
                },
                None => !has_registration_token(self.registrations@, token@),
            },
    {
        let mut i: usize = 0;
        while i < self.registrations.len()
            invariant
                i <= self.registrations@.len(),
                forall|k: int| 0 <= k < i ==> (#[trigger] self.registrations@[k]).token@ != token@,
            decreases self.registrations@.len() - i,
        {
            if self.registrations[i].token == *token {
                return Some(i);
            }
            i += 1;
        }
        None
    }

    /// Index of the event row with this id, if any.
    pub fn find_event(&self, event_id: Id) -> (r: Option<usize>)
        ensures
            match r {
                Some(i) => i < self.events@.len() && self.events@[i as int].id == event_id,
                None => forall|k: int| 0 <= k < self.events@.len()
                    ==> (#[trigger] self.events@[k]).id != event_id,
            },
    {
        let mut i: usize = 0;
        while i < self.events.len()
            invariant
                i <= self.events@.len(),
                forall|k: int| 0 <= k < i ==> (#[trigger] self.events@[k]).id != event_id,
            decreases self.events@.len() - i,
        {
            if self.events[i].id == event_id {
                return Some(i);
            }
            i += 1;
        }
        None
    }

    /// Whether some account already uses this email.
    pub fn email_taken(&self, email: &String) -> (r: bool)
        ensures
            r == has_account_email(self.accounts@, email@),
    {
        let found = self.find_account_by_email(email);
        match found {
            Some(i) => {
                proof {
                    assert(has_account_email(self.accounts@, email@));
                }
                true
            },
            None => false,
        }
    }

    /// Whether some user already uses this steam id.
    pub fn steam_id_taken(&self, steam_id: &String) -> (r: bool)
        ensures
            r == has_user_steam_id(self.users@, steam_id@),
    {
        let mut i: usize = 0;
        while i < self.users.len()
            invariant
                i <= self.users@.len(),
                forall|k: int| 0 <= k < i ==> (#[trigger] self.users@[k]).steam_id@ != steam_id@,
            decreases self.users@.len() - i,
        {
            if self.users[i].steam_id == *steam_id {
                return true;
            }
            i += 1;
        }
        false
    }

    /// Whether some pending registration already reserves this email.
    pub fn reg_email_taken(&self, email: &String) -> (r: bool)
        ensures
            r == has_registration_email(self.registrations@, email@),
    {
        let mut i: usize = 0;
        while i < self.registrations.len()
            invariant
                i <= self.registrations@.len(),
                forall|k: int| 0 <= k < i ==> (#[trigger] self.registrations@[k]).email@ != email@,
            decreases self.registrations@.len() - i,
        {
            if self.registrations[i].email == *email {
                return true;
            }
            i += 1;
        }
        false
    }

    /// Whether some pending registration already reserves this steam id.
    pub fn reg_steam_id_taken(&self, steam_id: &String) -> (r: bool)
        ensures
            r == has_registration_steam_id(self.registrations@, steam_id@),
    {
        let mut i: usize = 0;
        while i < self.registrations.len()
            invariant
                i <= self.registrations@.len(),
                forall|k: int| 0 <= k < i ==> (#[trigger] self.registrations@[k]).steam_id@ != steam_id@,
            decreases self.registrations@.len() - i,
        {
            if self.registrations[i].steam_id == *steam_id {
                return true;
            }
            i += 1;
        }
        false
    }
}

/// Index of `p` in a list of player ids, if present.
pub fn find_player(ps: &Vec<Id>, p: Id) -> (r: Option<usize>)
    ensures
        match r {
            Some(i) => i < ps@.len() && ps@[i as int] == p,
            None => !ps@.contains(p),
        },
{
    let mut i: usize = 0;
    while i < ps.len()
        invariant
            i <= ps@.len(),
            forall|k: int| 0 <= k < i ==> ps@[k] != p,
        decreases ps@.len() - i,
    {
        if ps[i] == p {
            return Some(i);
        }
        i += 1;
    }
    proof {
        assert(forall|k: int| 0 <= k < ps@.len() ==> ps@[k] != p);
    }
    None
}

} // verus!
