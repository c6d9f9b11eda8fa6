//! Session-token lifecycle: `NoSession -> Active -> Expired -> NoSession`
//! per account. At most one session per account is active; a new login
//! overwrites the previous token. Expiry is lazy: `validate` compares the
//! stored expiration to the caller's `now` and clears a stale token on
//! sight. The expiration is fixed at login time; validation does not
//! slide it forward (fixed-window policy, chosen once for the whole
//! crate).
//!
//! Fresh session tokens are random and unguessable; the surrounding
//! program draws them from its entropy source and passes them in, so
//! every function here is deterministic in its arguments.

use vstd::prelude::*;
use crate::credential::digest_of;
use crate::errors::AuthError;
use crate::store::{
    Store, has_account_email, has_session_token, holds_token, same_token, unique_emails,
    unique_session_tokens,
};
use crate::types::{Account, Id};

verus! {

/// Some account row matches `email` and its stored digest is the digest
/// of `password` under that row's salt.
pub open spec fn credentials_match(s: Seq<Account>, email: Seq<char>, password: Seq<u8>) -> bool {
    exists|i: int|
        0 <= i < s.len() && (#[trigger] s[i]).email@ == email && s[i].password_hash@ == digest_of(
            password,
            s[i].password_salt@,
        )
}

/// Account row `i` with a fresh session: token set, expiration set, every
/// other field and row unchanged.
pub open spec fn set_session(s: Seq<Account>, i: int, token: String, exp: i64) -> Seq<Account> {
    s.update(
        i,
        Account {
            id: s[i].id,
            password_hash: s[i].password_hash,
            password_salt: s[i].password_salt,
            email: s[i].email,
            session_token: Some(token),
            expiration: exp,
        },
    )
}

/// Account row `i` with its session token cleared, everything else
/// unchanged.
pub open spec fn clear_session(s: Seq<Account>, i: int) -> Seq<Account> {
    s.update(
        i,
        Account {
            id: s[i].id,
            password_hash: s[i].password_hash,
            password_salt: s[i].password_salt,
            email: s[i].email,
            session_token: None,
            expiration: s[i].expiration,
        },
    )
}

/// All rows but the accounts, and the id counter, are untouched.
pub open spec fn same_but_accounts(pre: Store, post: Store) -> bool {
    &&& post.users@ == pre.users@
    &&& post.registrations@ == pre.registrations@
    &&& post.events@ == pre.events@
    &&& post.next_id == pre.next_id
}

proof fn lemma_set_session_wf(pre: Store, post: Store, i: int, token: String, exp: i64)
    requires
        pre.wf(),
        0 <= i < pre.accounts@.len(),
        !has_session_token(pre.accounts@, token@),
        post.accounts@ == set_session(pre.accounts@, i, token, exp),
        same_but_accounts(pre, post),
    ensures
        post.wf(),
{
    let s = pre.accounts@;
    let t = post.accounts@;
    assert forall|k: int| 0 <= k < t.len() implies (#[trigger] t[k]).id == s[k].id
        && t[k].email@ == s[k].email@ && t[k].password_hash@ == s[k].password_hash@ by {}
    assert forall|a: int, b: int| 0 <= a < b < t.len() implies !same_token(t[a], t[b]) by {
        if a != i && b != i {
            assert(t[a] == s[a] && t[b] == s[b]);
        } else {
            let o = if a == i { b } else { a };
            assert(t[o] == s[o]);
            assert(!holds_token(s[o], token@));
        }
    }
}

proof fn lemma_clear_session_wf(pre: Store, post: Store, i: int)
    requires
        pre.wf(),
        0 <= i < pre.accounts@.len(),
        post.accounts@ == clear_session(pre.accounts@, i),
        same_but_accounts(pre, post),
    ensures
        post.wf(),
{
    let s = pre.accounts@;
    let t = post.accounts@;
    assert forall|k: int| 0 <= k < t.len() implies (#[trigger] t[k]).id == s[k].id
        && t[k].email@ == s[k].email@ by {}
    assert forall|a: int, b: int| 0 <= a < b < t.len() implies !same_token(t[a], t[b]) by {
        if a != i && b != i {
            assert(t[a] == s[a] && t[b] == s[b]);
        }
    }
}

/// Logs an account in. On success the account identified by `email` holds
/// exactly the caller-supplied fresh token, expiring at `now + ttl`, and
/// the token is returned; a previous session of the same account is
/// overwritten. Unknown email and wrong password both answer
/// `InvalidCredential`, so callers cannot tell users apart. A fresh token
/// already held by some account is refused as `Conflict` (the store's
/// uniqueness constraint on session tokens).
pub fn login(
    st: &mut Store,
    email: &String,
    password: &[u8],
    fresh_token: String,
    now: i64,
    ttl: i64,
) -> (r: Result<String, AuthError>)
    requires
        old(st).wf(),
        0 <= ttl,
        now + ttl <= i64::MAX,
    ensures
        final(st).wf(),
        same_but_accounts(*old(st), *final(st)),
        r is Ok <==> credentials_match(old(st).accounts@, email@, password@)
            && !has_session_token(old(st).accounts@, fresh_token@),
        !credentials_match(old(st).accounts@, email@, password@) ==> r == Err::<
            String,
            AuthError,
        >(AuthError::InvalidCredential),
        credentials_match(old(st).accounts@, email@, password@) && has_session_token(
            old(st).accounts@,
            fresh_token@,
        ) ==> r == Err::<String, AuthError>(AuthError::Conflict),
        r is Err ==> *final(st) == *old(st),
        r is Ok ==> r == Ok::<String, AuthError>(fresh_token) && exists|i: int|
            0 <= i < old(st).accounts@.len() && (#[trigger] old(st).accounts@[i]).email@ == email@
                && final(st).accounts@ == set_session(
                old(st).accounts@,
                i,
                fresh_token,
                (now + ttl) as i64,
            ),
{
    let ghost pre = *st;
    let idx = match st.find_account_by_email(email) {
        None => {
            proof {
                assert(!credentials_match(pre.accounts@, email@, password@)) by {
                    if credentials_match(pre.accounts@, email@, password@) {
                        let j = choose|j: int|
                            0 <= j < pre.accounts@.len() && (#[trigger] pre.accounts@[j]).email@
                                == email@ && pre.accounts@[j].password_hash@ == digest_of(
                                password@,
                                pre.accounts@[j].password_salt@,
                            );
                        assert(has_account_email(pre.accounts@, email@));
                    }
                }
            }
            return Err(AuthError::InvalidCredential);
        },
        Some(i) => i,
    };
    let ok = crate::credential::verify(
        password,
        st.accounts[idx].password_salt.as_slice(),
        st.accounts[idx].password_hash.as_slice(),
    );
    if !ok {
        proof {
            assert(!credentials_match(pre.accounts@, email@, password@)) by {
                if credentials_match(pre.accounts@, email@, password@) {
                    let j = choose|j: int|
                        0 <= j < pre.accounts@.len() && (#[trigger] pre.accounts@[j]).email@
                            == email@ && pre.accounts@[j].password_hash@ == digest_of(
                            password@,
                            pre.accounts@[j].password_salt@,
                        );
                    if j < idx {
                        assert(pre.accounts@[j].email@ != email@);
                    } else if idx < j {
                        assert(pre.accounts@[idx as int].email@ != pre.accounts@[j].email@);
                    }
                }
            }
        }
        return Err(AuthError::InvalidCredential);
    }
    proof {
        assert(credentials_match(pre.accounts@, email@, password@));
    }
    match st.find_account_by_token(&fresh_token) {
        Some(_) => {
            return Err(AuthError::Conflict);
        },
        None => {},
    }
    let exp: i64 = now + ttl;
    let mut acct = st.accounts.remove(idx);
    acct.session_token = Some(fresh_token.clone());
    acct.expiration = exp;
    st.accounts.insert(idx, acct);
    proof {
        assert(st.accounts@ =~= set_session(pre.accounts@, idx as int, fresh_token, exp));
        lemma_set_session_wf(pre, *st, idx as int, fresh_token, exp);
    }
    Ok(fresh_token)
}

/// Validates a presented session token: `Invalid` when no account holds
/// it, `Expired` when it is held but `now` has reached its expiration (in
/// which case the stale token is cleared on the spot — lazy expiry),
/// otherwise the id of the account that holds it. The expiration is not
/// slid forward on use.
pub fn validate(st: &mut Store, token: &String, now: i64) -> (r: Result<Id, AuthError>)
    requires
        old(st).wf(),
    ensures
        final(st).wf(),
        same_but_accounts(*old(st), *final(st)),
        !has_session_token(old(st).accounts@, token@) ==> r == Err::<Id, AuthError>(
            AuthError::Invalid,
        ) && *final(st) == *old(st),
        has_session_token(old(st).accounts@, token@) ==> exists|i: int|
            0 <= i < old(st).accounts@.len() && #[trigger] holds_token(old(st).accounts@[i], token@)
                && if now >= old(st).accounts@[i].expiration {
                r == Err::<Id, AuthError>(AuthError::Expired) && final(st).accounts@
                    == clear_session(old(st).accounts@, i)
            } else {
                r == Ok::<Id, AuthError>(old(st).accounts@[i].id) && *final(st) == *old(st)
            },
{
    let ghost pre = *st;
    let idx = match st.find_account_by_token(token) {
        None => {
            return Err(AuthError::Invalid);
        },
        Some(i) => i,
    };
    if now >= st.accounts[idx].expiration {
        let mut acct = st.accounts.remove(idx);
        acct.session_token = None;
        st.accounts.insert(idx, acct);
        proof {
            assert(st.accounts@ =~= clear_session(pre.accounts@, idx as int));
            lemma_clear_session_wf(pre, *st, idx as int);
            assert(has_session_token(pre.accounts@, token@));
        }
        Err(AuthError::Expired)
    } else {
        proof {
            assert(has_session_token(pre.accounts@, token@));
        }
        Ok(st.accounts[idx].id)
    }
}

/// Clears the session token presented, wherever it is stored:
/// unconditional and idempotent — afterwards no account holds `token`,
/// and a token nobody holds leaves the store unchanged.
pub fn logout(st: &mut Store, token: &String)
    requires
        old(st).wf(),
    ensures
        final(st).wf(),
        same_but_accounts(*old(st), *final(st)),
        !has_session_token(final(st).accounts@, token@),
        !has_session_token(old(st).accounts@, token@) ==> *final(st) == *old(st),
        has_session_token(old(st).accounts@, token@) ==> exists|i: int|
            0 <= i < old(st).accounts@.len() && #[trigger] holds_token(old(st).accounts@[i], token@)
                && final(st).accounts@ == clear_session(old(st).accounts@, i),
{
    let ghost pre = *st;
    let idx = match st.find_account_by_token(token) {
        None => {
            return ;
        },
        Some(i) => i,
    };
    let mut acct = st.accounts.remove(idx);
    acct.session_token = None;
    st.accounts.insert(idx, acct);
    proof {
        assert(st.accounts@ =~= clear_session(pre.accounts@, idx as int));
        lemma_clear_session_wf(pre, *st, idx as int);
        assert(has_session_token(pre.accounts@, token@));
        lemma_clear_session_drops_token(pre.accounts@, idx as int, token@);
    }
}

/// Clearing the one row that holds a token leaves the token held by
/// nobody: with session tokens unique, no other row held it.
pub proof fn lemma_clear_session_drops_token(s: Seq<Account>, i: int, t: Seq<char>)
    requires
        unique_session_tokens(s),
        0 <= i < s.len(),
        holds_token(s[i], t),
    ensures
        !has_session_token(clear_session(s, i), t),
{
    let post = clear_session(s, i);
    assert forall|k: int| 0 <= k < post.len() implies !(#[trigger] holds_token(post[k], t)) by {
        if k != i {
            assert(post[k] == s[k]);
            if holds_token(s[k], t) {
                if k < i {
                    assert(!same_token(s[k], s[i]));
                } else {
                    assert(!same_token(s[i], s[k]));
                }
            }
        }
    }
}

/// A second login to the same account invalidates the token the first
/// login issued: after setting the session of row `i1` to `t1` and then
/// the session of row `i2` (the same account, identified by its email) to
/// a different token `t2`, no account holds `t1` any more — `validate`
/// answers `Invalid` for it.
pub proof fn lemma_second_login_invalidates_first(
    s: Seq<Account>,
    i1: int,
    i2: int,
    t1: String,
    t2: String,
    e1: i64,
    e2: i64,
)
    requires
        unique_emails(s),
        0 <= i1 < s.len(),
        0 <= i2 < s.len(),
        set_session(s, i1, t1, e1)[i2].email@ == s[i1].email@,
        !has_session_token(s, t1@),
        t1@ != t2@,
    ensures
        !has_session_token(set_session(set_session(s, i1, t1, e1), i2, t2, e2), t1@),
{
    let mid = set_session(s, i1, t1, e1);
    assert(mid[i2].email@ == s[i2].email@);
    if i1 < i2 {
        assert(s[i1].email@ != s[i2].email@);
    } else if i2 < i1 {
        assert(s[i2].email@ != s[i1].email@);
    }
    assert(i1 == i2);
    let post = set_session(mid, i2, t2, e2);
    assert forall|k: int| 0 <= k < post.len() implies !(#[trigger] holds_token(post[k], t1@)) by {
        if k != i2 {
            assert(post[k] == s[k]);
            assert(!holds_token(s[k], t1@));
        }
    }
}

/// After an expired token is cleared by `validate`, a further `validate`
/// of the same token answers `Invalid`: the cleared store holds the token
/// nowhere. Stated over the store to connect the two calls.
pub proof fn lemma_expired_then_invalid(pre: Store, post: Store, i: int, t: Seq<char>)
    requires
        pre.wf(),
        0 <= i < pre.accounts@.len(),
        holds_token(pre.accounts@[i], t),
        post.accounts@ == clear_session(pre.accounts@, i),
    ensures
        !has_session_token(post.accounts@, t),
{
    lemma_clear_session_drops_token(pre.accounts@, i, t);
}

} // verus!
