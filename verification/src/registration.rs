//! The registration (signup-confirmation) flow:
//! `Requested -> Pending(token) -> {Confirmed | Expired}`. The terminal
//! states absorb: a consumed or expired token can never be used again.
//! A pending registration reserves its email and steam id for its TTL
//! window; confirmation materializes the `Account` + `User` pair in one
//! transaction and deletes the row, so confirmation is exactly-once.
//!
//! The fresh salt and the fresh unguessable token are random; the
//! surrounding program draws them from its entropy source and passes them
//! in, so every function here is deterministic in its arguments.

use vstd::prelude::*;
use crate::credential::digest_of;
use crate::errors::RegistrationError;
use crate::store::{
    Store, has_account_email, has_registration_email, has_registration_steam_id,
    has_registration_token, has_user_steam_id, same_token, unique_reg_emails,
    unique_reg_steam_ids, unique_reg_tokens,
};
use crate::types::{Account, Id, Registration, User};

verus! {

/// The registration is still pending at time `now`: its TTL window has
/// not closed.
pub open spec fn pending_at(g: Registration, now: i64) -> bool {
    now < g.expires_at
}

/// The email is taken at time `now`, by an account or by a registration
/// that is still pending — a pending row reserves its email only for its
/// TTL window.
pub open spec fn email_reserved(st: Store, email: Seq<char>, now: i64) -> bool {
    has_account_email(st.accounts@, email) || exists|i: int|
        0 <= i < st.registrations@.len() && (#[trigger] st.registrations@[i]).email@ == email
            && pending_at(st.registrations@[i], now)
}

/// The steam id is taken at time `now`, by a user or by a still-pending
/// registration.
pub open spec fn steam_id_reserved(st: Store, steam_id: Seq<char>, now: i64) -> bool {
    has_user_steam_id(st.users@, steam_id) || exists|i: int|
        0 <= i < st.registrations@.len() && (#[trigger] st.registrations@[i]).steam_id@ == steam_id
            && pending_at(st.registrations@[i], now)
}

/// A still-pending registration already holds this token.
pub open spec fn token_reserved(st: Store, token: Seq<char>, now: i64) -> bool {
    exists|i: int|
        0 <= i < st.registrations@.len() && (#[trigger] st.registrations@[i]).token@ == token
            && pending_at(st.registrations@[i], now)
}

/// The registration table with every expired row collected: the rows
/// still pending at `now`, in their original order.
pub open spec fn purge(rs: Seq<Registration>, now: i64) -> Seq<Registration>
    decreases rs.len(),
{
    if rs.len() == 0 {
        rs
    } else {
        let p = purge(rs.drop_last(), now);
        if pending_at(rs.last(), now) {
            p.push(rs.last())
        } else {
            p
        }
    }
}

proof fn lemma_purge_members(rs: Seq<Registration>, now: i64)
    ensures
        forall|k: int| 0 <= k < purge(rs, now).len() ==> pending_at(
            #[trigger] purge(rs, now)[k],
            now,
        ),
        forall|k: int| 0 <= k < purge(rs, now).len() ==> rs.contains(#[trigger] purge(rs, now)[k]),
        forall|j: int| 0 <= j < rs.len() && pending_at(#[trigger] rs[j], now) ==> purge(
            rs,
            now,
        ).contains(rs[j]),
    decreases rs.len(),
{
    if rs.len() > 0 {
        let s = rs.drop_last();
        lemma_purge_members(s, now);
        let p = purge(s, now);
        let t = purge(rs, now);
        assert forall|k: int| 0 <= k < t.len() implies rs.contains(#[trigger] t[k]) by {
            if k < p.len() {
                assert(t[k] == p[k]);
                let m = choose|m: int| 0 <= m < s.len() && s[m] == p[k];
                assert(rs[m] == p[k]);
            } else {
                assert(t[k] == rs[rs.len() - 1]);
            }
        }
        assert forall|j: int| 0 <= j < rs.len() && pending_at(#[trigger] rs[j], now) implies t
            .contains(rs[j]) by {
            if j < rs.len() - 1 {
                assert(s[j] == rs[j]);
                assert(p.contains(rs[j]));
                let m = choose|m: int| 0 <= m < p.len() && p[m] == rs[j];
                assert(t[m] == rs[j]);
            } else {
                assert(t[t.len() - 1] == rs[j]);
            }
        }
    }
}

proof fn lemma_purge_unique(rs: Seq<Registration>, now: i64)
    requires
        unique_reg_tokens(rs),
        unique_reg_emails(rs),
        unique_reg_steam_ids(rs),
    ensures
        unique_reg_tokens(purge(rs, now)),
        unique_reg_emails(purge(rs, now)),
        unique_reg_steam_ids(purge(rs, now)),
    decreases rs.len(),
{
    if rs.len() > 0 {
        let s = rs.drop_last();
        assert forall|a: int, b: int| 0 <= a < b < s.len() implies s[a] == rs[a] && s[b]
            == rs[b] by {}
        lemma_purge_unique(s, now);
        lemma_purge_members(s, now);
        let p = purge(s, now);
        let t = purge(rs, now);
        if pending_at(rs.last(), now) {
            assert forall|a: int, b: int| 0 <= a < b < t.len() implies t[a].token@ != t[b].token@
                && t[a].email@ != t[b].email@ && t[a].steam_id@ != t[b].steam_id@ by {
                if b == p.len() {
                    assert(t[a] == p[a]);
                    let m = choose|m: int| 0 <= m < s.len() && s[m] == p[a];
                    assert(rs[m] == p[a]);
                    assert(t[b] == rs[rs.len() - 1]);
                } else {
                    assert(t[a] == p[a] && t[b] == p[b]);
                }
            }
        }
    }
}

proof fn lemma_purge_keys(
    rs: Seq<Registration>,
    now: i64,
    email: Seq<char>,
    steam_id: Seq<char>,
    token: Seq<char>,
)
    ensures
        has_registration_email(purge(rs, now), email) <==> exists|j: int|
            0 <= j < rs.len() && (#[trigger] rs[j]).email@ == email && pending_at(rs[j], now),
        has_registration_steam_id(purge(rs, now), steam_id) <==> exists|j: int|
            0 <= j < rs.len() && (#[trigger] rs[j]).steam_id@ == steam_id && pending_at(rs[j], now),
        has_registration_token(purge(rs, now), token) <==> exists|j: int|
            0 <= j < rs.len() && (#[trigger] rs[j]).token@ == token && pending_at(rs[j], now),
{
    lemma_purge_members(rs, now);
    let t = purge(rs, now);
    if has_registration_email(t, email) {
        let k = choose|k: int| 0 <= k < t.len() && (#[trigger] t[k]).email@ == email;
        let m = choose|m: int| 0 <= m < rs.len() && rs[m] == t[k];
        assert(rs[m].email@ == email && pending_at(rs[m], now));
    }
    if exists|j: int| 0 <= j < rs.len() && (#[trigger] rs[j]).email@ == email && pending_at(
        rs[j],
        now,
    ) {
        let j = choose|j: int|
            0 <= j < rs.len() && (#[trigger] rs[j]).email@ == email && pending_at(rs[j], now);
        assert(t.contains(rs[j]));
        let k = choose|k: int| 0 <= k < t.len() && t[k] == rs[j];
        assert(has_registration_email(t, email));
    }
    if has_registration_steam_id(t, steam_id) {
        let k = choose|k: int| 0 <= k < t.len() && (#[trigger] t[k]).steam_id@ == steam_id;
        let m = choose|m: int| 0 <= m < rs.len() && rs[m] == t[k];
        assert(rs[m].steam_id@ == steam_id && pending_at(rs[m], now));
    }
    if exists|j: int| 0 <= j < rs.len() && (#[trigger] rs[j]).steam_id@ == steam_id && pending_at(
        rs[j],
        now,
    ) {
        let j = choose|j: int|
            0 <= j < rs.len() && (#[trigger] rs[j]).steam_id@ == steam_id && pending_at(rs[j], now);
        assert(t.contains(rs[j]));
        let k = choose|k: int| 0 <= k < t.len() && t[k] == rs[j];
        assert(has_registration_steam_id(t, steam_id));
    }
    if has_registration_token(t, token) {
        let k = choose|k: int| 0 <= k < t.len() && (#[trigger] t[k]).token@ == token;
        let m = choose|m: int| 0 <= m < rs.len() && rs[m] == t[k];
        assert(rs[m].token@ == token && pending_at(rs[m], now));
    }
    if exists|j: int| 0 <= j < rs.len() && (#[trigger] rs[j]).token@ == token && pending_at(
        rs[j],
        now,
    ) {
        let j = choose|j: int|
            0 <= j < rs.len() && (#[trigger] rs[j]).token@ == token && pending_at(rs[j], now);
        assert(t.contains(rs[j]));
        let k = choose|k: int| 0 <= k < t.len() && t[k] == rs[j];
        assert(has_registration_token(t, token));
    }
}

proof fn lemma_purge_wf(pre: Store, post: Store, now: i64)
    requires
        pre.wf(),
        post.registrations@ == purge(pre.registrations@, now),
        post.accounts@ == pre.accounts@,
        post.users@ == pre.users@,
        post.events@ == pre.events@,
        post.next_id == pre.next_id,
    ensures
        post.wf(),
{
    lemma_purge_unique(pre.registrations@, now);
    lemma_purge_members(pre.registrations@, now);
    let t = post.registrations@;
    assert forall|k: int, j: int|
        0 <= k < t.len() && 0 <= j < post.accounts@.len() implies (#[trigger] t[k]).email@ != (
    #[trigger] post.accounts@[j]).email@ by {
        let m = choose|m: int|
            0 <= m < pre.registrations@.len() && pre.registrations@[m] == t[k];
        assert(pre.registrations@[m].email@ != pre.accounts@[j].email@);
    }
    assert forall|k: int, j: int|
        0 <= k < t.len() && 0 <= j < post.users@.len() implies (#[trigger] t[k]).steam_id@ != (
    #[trigger] post.users@[j]).steam_id@ by {
        let m = choose|m: int|
            0 <= m < pre.registrations@.len() && pre.registrations@[m] == t[k];
        assert(pre.registrations@[m].steam_id@ != pre.users@[j].steam_id@);
    }
}

/// Collects every expired registration row: afterwards the table holds
/// exactly the rows still pending at `now`, in their original order. Run
/// lazily by `request`; harmless to run at any time.
pub fn collect_expired(st: &mut Store, now: i64)
    requires
        old(st).wf(),
    ensures
        final(st).wf(),
        final(st).registrations@ == purge(old(st).registrations@, now),
        final(st).accounts@ == old(st).accounts@,
        final(st).users@ == old(st).users@,
        final(st).events@ == old(st).events@,
        final(st).next_id == old(st).next_id,
{
    let ghost pre = *st;
    let ghost orig = st.registrations@;
    let mut kept: Vec<Registration> = Vec::new();
    while st.registrations.len() > 0
        invariant
            st.registrations@.len() <= orig.len(),
            st.registrations@ == orig.subrange(
                orig.len() - st.registrations@.len(),
                orig.len() as int,
            ),
            kept@ == purge(orig.take(orig.len() - st.registrations@.len()), now),
            st.accounts@ == old(st).accounts@,
            st.users@ == old(st).users@,
            st.events@ == old(st).events@,
            st.next_id == old(st).next_id,
        decreases st.registrations@.len(),
    {
        let ghost k = orig.len() - st.registrations@.len();
        let g = st.registrations.remove(0);
        proof {
            assert(g == orig[k as int]);
            assert(st.registrations@ =~= orig.subrange(k as int + 1, orig.len() as int));
            assert(orig.take(k as int + 1).drop_last() =~= orig.take(k as int));
            assert(orig.take(k as int + 1).last() == orig[k as int]);
        }
        if now < g.expires_at {
            kept.push(g);
        }
        proof {
            assert(kept@ == purge(orig.take(k as int + 1), now));
        }
    }
    proof {
        assert(orig.take(orig.len() as int) =~= orig);
    }
    st.registrations = kept;
    proof {
        lemma_purge_wf(pre, *st, now);
    }
}

/// The registration row that `request` stores: the caller's profile
/// fields, the digest of the password under the fresh salt, and the
/// implicit expiry.
pub open spec fn reg_built(
    g: Registration,
    token: Seq<char>,
    steam_id: Seq<char>,
    name: Seq<char>,
    email: Seq<char>,
    player_tag: Option<String>,
    rank: Option<String>,
    password: Seq<u8>,
    salt: Seq<u8>,
    expires_at: i64,
) -> bool {
    &&& g.token@ == token
    &&& g.steam_id@ == steam_id
    &&& g.name@ == name
    &&& g.email@ == email
    &&& g.player_tag == player_tag
    &&& g.rank == rank
    &&& g.password_hash@ == digest_of(password, salt)
    &&& g.password_salt@ == salt
    &&& g.expires_at == expires_at
}

/// The account row that `confirm` materializes from a registration.
pub open spec fn account_from_reg(a: Account, g: Registration, id: Id) -> bool {
    &&& a.id == id
    &&& a.password_hash@ == g.password_hash@
    &&& a.password_salt@ == g.password_salt@
    &&& a.email@ == g.email@
    &&& a.session_token is None
}

/// The user row that `confirm` materializes from a registration.
pub open spec fn user_from_reg(u: User, g: Registration, id: Id) -> bool {
    &&& u.id == id
    &&& u.steam_id@ == g.steam_id@
    &&& u.name@ == g.name@
    &&& u.email@ == g.email@
    &&& u.player_tag == g.player_tag
    &&& u.rank == g.rank
}

proof fn lemma_request_wf(pre: Store, post: Store, g: Registration)
    requires
        pre.wf(),
        !has_account_email(pre.accounts@, g.email@),
        !has_registration_email(pre.registrations@, g.email@),
        !has_user_steam_id(pre.users@, g.steam_id@),
        !has_registration_steam_id(pre.registrations@, g.steam_id@),
        !has_registration_token(pre.registrations@, g.token@),
        post.registrations@ == pre.registrations@.push(g),
        post.accounts@ == pre.accounts@,
        post.users@ == pre.users@,
        post.events@ == pre.events@,
        post.next_id == pre.next_id,
    ensures
        post.wf(),
{
    let rs = pre.registrations@;
    let ts = post.registrations@;
    assert(ts[rs.len() as int] == g);
    assert forall|k: int| 0 <= k < rs.len() implies ts[k] == rs[k] by {}
}

proof fn lemma_remove_reg_wf(pre: Store, post: Store, i: int)
    requires
        pre.wf(),
        0 <= i < pre.registrations@.len(),
        post.registrations@ == pre.registrations@.remove(i),
        post.accounts@ == pre.accounts@,
        post.users@ == pre.users@,
        post.events@ == pre.events@,
        post.next_id == pre.next_id,
    ensures
        post.wf(),
{
    let rs = pre.registrations@;
    let ts = post.registrations@;
    assert forall|k: int| 0 <= k < ts.len() implies ts[k] == rs[if k < i {
        k
    } else {
        k + 1
    }] by {}
}

proof fn lemma_confirm_wf(pre: Store, post: Store, i: int, a: Account, u: User)
    requires
        pre.wf(),
        pre.next_id < i32::MAX,
        0 <= i < pre.registrations@.len(),
        account_from_reg(a, pre.registrations@[i], pre.next_id),
        user_from_reg(u, pre.registrations@[i], pre.next_id),
        post.registrations@ == pre.registrations@.remove(i),
        post.accounts@ == pre.accounts@.push(a),
        post.users@ == pre.users@.push(u),
        post.events@ == pre.events@,
        post.next_id == pre.next_id + 1,
    ensures
        post.wf(),
{
    let g = pre.registrations@[i];
    let rs = pre.registrations@;
    let ts = post.registrations@;
    assert forall|k: int| 0 <= k < ts.len() implies ts[k] == rs[if k < i {
        k
    } else {
        k + 1
    }] by {}
    let sa = pre.accounts@;
    let ta = post.accounts@;
    assert(ta[sa.len() as int] == a);
    assert forall|k: int| 0 <= k < sa.len() implies ta[k] == sa[k] by {}
    let su = pre.users@;
    let tu = post.users@;
    assert(tu[su.len() as int] == u);
    assert forall|k: int| 0 <= k < su.len() implies tu[k] == su[k] by {}
    assert forall|x: int, y: int| 0 <= x < y < ta.len() implies !same_token(ta[x], ta[y]) by {
        if y == sa.len() {
            assert(ta[y].session_token is None);
        }
    }
}

/// Requests a signup. The email and the steam id must be taken by no
/// account, user, or still-pending registration — a pending row reserves
/// both only for its TTL window, and expired rows are collected here on
/// sight — and the fresh token must collide with no pending row. On
/// success the registration is stored, expiring at `now + ttl`, holding
/// the digest of the password under the fresh salt, and the token is
/// returned, for the caller to transmit out of band.
pub fn request(
    st: &mut Store,
    steam_id: &String,
    name: &String,
    email: &String,
    player_tag: Option<String>,
    rank: Option<String>,
    password: &[u8],
    fresh_salt: Vec<u8>,
    fresh_token: String,
    now: i64,
    ttl: i64,
) -> (r: Result<String, RegistrationError>)
    requires
        old(st).wf(),
        0 <= ttl,
        now + ttl <= i64::MAX,
    ensures
        final(st).wf(),
        final(st).accounts@ == old(st).accounts@,
        final(st).users@ == old(st).users@,
        final(st).events@ == old(st).events@,
        final(st).next_id == old(st).next_id,
        r == Err::<String, RegistrationError>(RegistrationError::DuplicateEmail) <==> email_reserved(
            *old(st),
            email@,
            now,
        ),
        r == Err::<String, RegistrationError>(RegistrationError::DuplicateSteamId) <==> (!email_reserved(
            *old(st),
            email@,
            now,
        ) && steam_id_reserved(*old(st), steam_id@, now)),
        r == Err::<String, RegistrationError>(RegistrationError::Conflict) <==> (!email_reserved(
            *old(st),
            email@,
            now,
        ) && !steam_id_reserved(*old(st), steam_id@, now) && token_reserved(
            *old(st),
            fresh_token@,
            now,
        )),
        r is Ok <==> (!email_reserved(*old(st), email@, now) && !steam_id_reserved(
            *old(st),
            steam_id@,
            now,
        ) && !token_reserved(*old(st), fresh_token@, now)),
        r is Err ==> final(st).registrations@ == purge(old(st).registrations@, now),
        r is Ok ==> r == Ok::<String, RegistrationError>(fresh_token) && final(st).registrations@
            == purge(old(st).registrations@, now).push(final(st).registrations@.last())
            && reg_built(
            final(st).registrations@.last(),
            fresh_token@,
            steam_id@,
            name@,
            email@,
            player_tag,
            rank,
            password@,
            fresh_salt@,
            (now + ttl) as i64,
        ),
{
    collect_expired(st, now);
    let ghost pre = *st;
    proof {
        lemma_purge_members(old(st).registrations@, now);
        lemma_purge_keys(old(st).registrations@, now, email@, steam_id@, fresh_token@);
    }
    if st.email_taken(email) || st.reg_email_taken(email) {
        return Err(RegistrationError::DuplicateEmail);
    }
    if st.steam_id_taken(steam_id) || st.reg_steam_id_taken(steam_id) {
        return Err(RegistrationError::DuplicateSteamId);
    }
    match st.find_registration(&fresh_token) {
        Some(_) => {
            return Err(RegistrationError::Conflict);
        },
        None => {},
    }
    let digest = crate::credential::derive(password, fresh_salt.as_slice());
    let reg = Registration {
        token: fresh_token.clone(),
        steam_id: steam_id.clone(),
        name: name.clone(),
        email: email.clone(),
        player_tag,
        rank,
        password_hash: digest,
        password_salt: fresh_salt,
        expires_at: now + ttl,
    };
    let ghost stored = reg;
    st.registrations.push(reg);
    proof {
        assert(st.registrations@ == pre.registrations@.push(stored));
        lemma_request_wf(pre, *st, stored);
        assert(st.registrations@.last() == stored);
    }
    Ok(fresh_token)
}

/// Confirms a pending registration. `NotFound` when no pending row holds
/// the token — in particular after the token was already consumed.
/// `Expired` when its TTL has passed, in which case the stale row is
/// deleted on sight (lazy garbage collection). Otherwise, in one
/// transaction, the `Account` and `User` pair is created under one newly
/// allocated id, the registration row is deleted, and the new id is
/// returned.
pub fn confirm(st: &mut Store, token: &String, now: i64) -> (r: Result<Id, RegistrationError>)
    requires
        old(st).wf(),
        old(st).next_id < i32::MAX,
    ensures
        final(st).wf(),
        final(st).events@ == old(st).events@,
        !has_registration_token(old(st).registrations@, token@) ==> r == Err::<
            Id,
            RegistrationError,
        >(RegistrationError::NotFound) && *final(st) == *old(st),
        has_registration_token(old(st).registrations@, token@) ==> exists|i: int|
            0 <= i < old(st).registrations@.len() && (#[trigger] old(st).registrations@[i]).token@
                == token@ && if now >= old(st).registrations@[i].expires_at {
                r == Err::<Id, RegistrationError>(RegistrationError::Expired)
                    && final(st).registrations@ == old(st).registrations@.remove(i)
                    && final(st).accounts@ == old(st).accounts@ && final(st).users@
                    == old(st).users@ && final(st).next_id == old(st).next_id
            } else {
                r == Ok::<Id, RegistrationError>(old(st).next_id) && final(st).registrations@
                    == old(st).registrations@.remove(i) && final(st).next_id == old(st).next_id + 1
                    && final(st).accounts@.len() == old(st).accounts@.len() + 1
                    && final(st).accounts@.drop_last() == old(st).accounts@
                    && final(st).users@.len() == old(st).users@.len() + 1
                    && final(st).users@.drop_last() == old(st).users@ && account_from_reg(
                    final(st).accounts@.last(),
                    old(st).registrations@[i],
                    old(st).next_id,
                ) && user_from_reg(
                    final(st).users@.last(),
                    old(st).registrations@[i],
                    old(st).next_id,
                )
            },
{
    let ghost pre = *st;
    let idx = match st.find_registration(token) {
        None => {
            return Err(RegistrationError::NotFound);
        },
        Some(i) => i,
    };
    proof {
        assert(has_registration_token(pre.registrations@, token@));
    }
    if now >= st.registrations[idx].expires_at {
        let _stale = st.registrations.remove(idx);
        proof {
            lemma_remove_reg_wf(pre, *st, idx as int);
        }
        return Err(RegistrationError::Expired);
    }
    let g = st.registrations.remove(idx);
    let Registration {
        token: _,
        steam_id,
        name,
        email,
        player_tag,
        rank,
        password_hash,
        password_salt,
        expires_at: _,
    } = g;
    let id = st.next_id;
    st.next_id = id + 1;
    let account = Account {
        id,
        password_hash,
        password_salt,
        email: email.clone(),
        session_token: None,
        expiration: 0,
    };
    let user = User { id, steam_id, name, email, player_tag, rank };
    let ghost ga = account;
    let ghost gu = user;
    st.accounts.push(account);
    st.users.push(user);
    proof {
        assert(account_from_reg(ga, pre.registrations@[idx as int], pre.next_id));
        assert(user_from_reg(gu, pre.registrations@[idx as int], pre.next_id));
        lemma_confirm_wf(pre, *st, idx as int, ga, gu);
        assert(st.accounts@.drop_last() =~= pre.accounts@);
        assert(st.users@.drop_last() =~= pre.users@);
    }
    Ok(id)
}

/// Consuming a registration token absorbs: the row that held the token is
/// deleted, and with registration tokens unique, no pending row holds the
/// token afterwards — a second `confirm` of the same token answers
/// `NotFound`. The same removal happens on `Expired`, so of two
/// serialized `confirm` calls on one token at most the first can succeed
/// and the second answers `NotFound`, never creating a second account.
pub proof fn lemma_confirm_consumes_token(rs: Seq<Registration>, i: int, t: Seq<char>)
    requires
        unique_reg_tokens(rs),
        0 <= i < rs.len(),
        rs[i].token@ == t,
    ensures
        !has_registration_token(rs.remove(i), t),
{
    let post = rs.remove(i);
    assert forall|k: int| 0 <= k < post.len() implies (#[trigger] post[k]).token@ != t by {
        if k < i {
            assert(post[k] == rs[k]);
        } else {
            assert(post[k] == rs[k + 1]);
        }
    }
}

} // verus!
