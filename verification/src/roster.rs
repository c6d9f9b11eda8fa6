//! Event roster management: the ordered list of unconfirmed players and
//! the set of confirmed ones, with the transitions between them. A player
//! id is on at most one of the two lists. The `active` flag gates new
//! signups; confirming or withdrawing a player already on the roster
//! remains possible, and their failure cases are exactly the ones their
//! contracts list. Mutations on one event are serialized by the caller
//! through the `&mut Store`; each call is one atomic transaction.

use vstd::prelude::*;
use crate::errors::RosterError;
use crate::store::{find_player, no_dup_ids, roster_contains, roster_wf, Store};
use crate::types::{Event, Id};

verus! {

/// Some event row carries this id.
pub open spec fn has_event(s: Seq<Event>, event_id: Id) -> bool {
    exists|k: int| 0 <= k < s.len() && (#[trigger] s[k]).id == event_id
}

/// Everything but the event rows is untouched.
pub open spec fn same_but_events(pre: Store, post: Store) -> bool {
    &&& post.accounts@ == pre.accounts@
    &&& post.users@ == pre.users@
    &&& post.registrations@ == pre.registrations@
    &&& post.next_id == pre.next_id
}

/// The event's identity and metadata are unchanged.
pub open spec fn same_event_header(a: Event, b: Event) -> bool {
    &&& b.id == a.id
    &&& b.tournament == a.tournament
    &&& b.title@ == a.title@
    &&& b.date_time == a.date_time
    &&& b.active == a.active
}

/// Exactly row `j` of the event table changed.
pub open spec fn events_updated_at(pre: Seq<Event>, post: Seq<Event>, j: int) -> bool {
    &&& post.len() == pre.len()
    &&& 0 <= j < pre.len()
    &&& forall|k: int| #![trigger post[k]] 0 <= k < pre.len() && k != j ==> post[k] == pre[k]
}

/// A signup: the player appended to the unconfirmed list, preserving
/// arrival order; the confirmed list untouched.
pub open spec fn signup_rel(pre: Event, post: Event, p: Id) -> bool {
    &&& same_event_header(pre, post)
    &&& post.unconfirmed_players@ == pre.unconfirmed_players@.push(p)
    &&& post.confirmed_players@ == pre.confirmed_players@
}

/// A confirmation: the player moved atomically from position `i` of the
/// unconfirmed list into the confirmed list.
pub open spec fn confirm_rel(pre: Event, post: Event, p: Id, i: int) -> bool {
    &&& same_event_header(pre, post)
    &&& 0 <= i < pre.unconfirmed_players@.len()
    &&& pre.unconfirmed_players@[i] == p
    &&& post.unconfirmed_players@ == pre.unconfirmed_players@.remove(i)
    &&& post.confirmed_players@ == pre.confirmed_players@.push(p)
}

/// A withdrawal: the player removed from whichever list held it.
pub open spec fn withdraw_rel(pre: Event, post: Event, p: Id) -> bool {
    &&& same_event_header(pre, post)
    &&& if pre.unconfirmed_players@.contains(p) {
        exists|i: int|
            0 <= i < pre.unconfirmed_players@.len() && pre.unconfirmed_players@[i] == p
                && post.unconfirmed_players@ == pre.unconfirmed_players@.remove(i)
                && post.confirmed_players@ == pre.confirmed_players@
    } else {
        exists|i: int|
            0 <= i < pre.confirmed_players@.len() && pre.confirmed_players@[i] == p
                && post.confirmed_players@ == pre.confirmed_players@.remove(i)
                && post.unconfirmed_players@ == pre.unconfirmed_players@
    }
}

proof fn lemma_no_dup_remove(ps: Seq<Id>, i: int)
    requires
        no_dup_ids(ps),
        0 <= i < ps.len(),
    ensures
        no_dup_ids(ps.remove(i)),
        forall|q: Id| ps.remove(i).contains(q) ==> ps.contains(q),
        !ps.remove(i).contains(ps[i]),
{
    let t = ps.remove(i);
    assert forall|k: int| 0 <= k < t.len() implies t[k] == ps[if k < i {
        k
    } else {
        k + 1
    }] by {}
    assert forall|q: Id| t.contains(q) implies ps.contains(q) by {
        let k = choose|k: int| 0 <= k < t.len() && t[k] == q;
        if k < i {
            assert(ps[k] == q);
        } else {
            assert(ps[k + 1] == q);
        }
    }
    assert forall|k: int| 0 <= k < t.len() implies t[k] != ps[i] by {}
}

proof fn lemma_event_update_wf(pre: Store, post: Store, j: int)
    requires
        pre.wf(),
        same_but_events(pre, post),
        events_updated_at(pre.events@, post.events@, j),
        post.events@[j].id == pre.events@[j].id,
        roster_wf(post.events@[j]),
    ensures
        post.wf(),
{
    assert forall|k: int| 0 <= k < post.events@.len() implies (#[trigger] post.events@[k]).id
        == pre.events@[k].id by {}
    assert forall|k: int| 0 <= k < post.events@.len() implies roster_wf(
        #[trigger] post.events@[k],
    ) by {}
}

impl Store {
    /// Creates an event with empty rosters under a newly allocated id,
    /// and returns the id.
    pub fn add_event(
        &mut self,
        title: String,
        date_time: i64,
        tournament: bool,
        active: bool,
    ) -> (r: Id)
        requires
            old(self).wf(),
            old(self).next_id < i32::MAX,
        ensures
            final(self).wf(),
            final(self).accounts@ == old(self).accounts@,
            final(self).users@ == old(self).users@,
            final(self).registrations@ == old(self).registrations@,
            final(self).next_id == old(self).next_id + 1,
            r == old(self).next_id,
            final(self).events@.len() == old(self).events@.len() + 1,
            final(self).events@.drop_last() == old(self).events@,
            ({
                let e = final(self).events@.last();
                &&& e.id == r
                &&& e.title@ == title@
                &&& e.date_time == date_time
                &&& e.tournament == tournament
                &&& e.active == active
                &&& e.unconfirmed_players@.len() == 0
                &&& e.confirmed_players@.len() == 0
            }),
    {
        let ghost pre = *self;
        let id = self.next_id;
        self.next_id = id + 1;
        let ev = Event {
            id,
            tournament,
            title,
            date_time,
            unconfirmed_players: Vec::new(),
            confirmed_players: Vec::new(),
            active,
        };
        let ghost ge = ev;
        self.events.push(ev);
        proof {
            let s = pre.events@;
            let t = self.events@;
            assert(t[s.len() as int] == ge);
            assert forall|k: int| 0 <= k < s.len() implies t[k] == s[k] by {}
            assert(t.drop_last() =~= s);
            assert(roster_wf(ge));
        }
        id
    }
}

/// Signs a player up for an event: appended to the unconfirmed list in
/// arrival order. Fails with `EventNotFound` for an unknown event id,
/// `EventInactive` when the event no longer accepts signups, and
/// `AlreadyRegistered` when the player is already on either list.
pub fn signup(st: &mut Store, event_id: Id, player_id: Id) -> (r: Result<(), RosterError>)
    requires
        old(st).wf(),
    ensures
        final(st).wf(),
        same_but_events(*old(st), *final(st)),
        !has_event(old(st).events@, event_id) ==> r == Err::<(), RosterError>(
            RosterError::EventNotFound,
        ) && *final(st) == *old(st),
        has_event(old(st).events@, event_id) ==> exists|j: int|
            0 <= j < old(st).events@.len() && (#[trigger] old(st).events@[j]).id == event_id
                && if !old(st).events@[j].active {
                r == Err::<(), RosterError>(RosterError::EventInactive) && *final(st) == *old(st)
            } else if roster_contains(old(st).events@[j], player_id) {
                r == Err::<(), RosterError>(RosterError::AlreadyRegistered) && *final(st)
                    == *old(st)
            } else {
                r == Ok::<(), RosterError>(()) && events_updated_at(
                    old(st).events@,
                    final(st).events@,
                    j,
                ) && signup_rel(old(st).events@[j], final(st).events@[j], player_id)
            },
{
    let ghost pre = *st;
    let j = match st.find_event(event_id) {
        None => {
            return Err(RosterError::EventNotFound);
        },
        Some(j) => j,
    };
    proof {
        assert(has_event(pre.events@, event_id));
    }
    if !st.events[j].active {
        return Err(RosterError::EventInactive);
    }
    match find_player(&st.events[j].unconfirmed_players, player_id) {
        Some(_) => {
            proof {
                assert(roster_contains(pre.events@[j as int], player_id));
            }
            return Err(RosterError::AlreadyRegistered);
        },
        None => {},
    }
    match find_player(&st.events[j].confirmed_players, player_id) {
        Some(_) => {
            proof {
                assert(roster_contains(pre.events@[j as int], player_id));
            }
            return Err(RosterError::AlreadyRegistered);
        },
        None => {},
    }
    let mut ev = st.events.remove(j);
    ev.unconfirmed_players.push(player_id);
    let ghost ge = ev;
    st.events.insert(j, ev);
    proof {
        let e0 = pre.events@[j as int];
        assert(st.events@ =~= pre.events@.update(j as int, ge));
        assert(roster_wf(e0));
        let u1 = ge.unconfirmed_players@;
        assert forall|a: int, b: int| 0 <= a < b < u1.len() implies u1[a] != u1[b] by {
            if b == u1.len() - 1 {
                assert(u1[a] == e0.unconfirmed_players@[a]);
            }
        }
        assert forall|a: int, b: int|
            0 <= a < u1.len() && 0 <= b < ge.confirmed_players@.len() implies u1[a]
            != ge.confirmed_players@[b] by {
            if a == u1.len() - 1 {
                assert(!e0.confirmed_players@.contains(player_id));
            } else {
                assert(u1[a] == e0.unconfirmed_players@[a]);
            }
        }
        assert(roster_wf(ge));
        lemma_event_update_wf(pre, *st, j as int);
    }
    Ok(())
}

/// Confirms a player on an event: moved atomically from the unconfirmed
/// into the confirmed list. Fails with `EventNotFound` for an unknown
/// event id and `NotPending` when the player is not on the unconfirmed
/// list.
pub fn confirm(st: &mut Store, event_id: Id, player_id: Id) -> (r: Result<(), RosterError>)
    requires
        old(st).wf(),
    ensures
        final(st).wf(),
        same_but_events(*old(st), *final(st)),
        !has_event(old(st).events@, event_id) ==> r == Err::<(), RosterError>(
            RosterError::EventNotFound,
        ) && *final(st) == *old(st),
        has_event(old(st).events@, event_id) ==> exists|j: int|
            0 <= j < old(st).events@.len() && (#[trigger] old(st).events@[j]).id == event_id
                && if !old(st).events@[j].unconfirmed_players@.contains(player_id) {
                r == Err::<(), RosterError>(RosterError::NotPending) && *final(st) == *old(st)
            } else {
                r == Ok::<(), RosterError>(()) && events_updated_at(
                    old(st).events@,
                    final(st).events@,
                    j,
                ) && exists|i: int|
                    confirm_rel(old(st).events@[j], final(st).events@[j], player_id, i)
            },
{
    let ghost pre = *st;
    let j = match st.find_event(event_id) {
        None => {
            return Err(RosterError::EventNotFound);
        },
        Some(j) => j,
    };
    proof {
        assert(has_event(pre.events@, event_id));
    }
    let i = match find_player(&st.events[j].unconfirmed_players, player_id) {
        None => {
            return Err(RosterError::NotPending);
        },
        Some(i) => i,
    };
    proof {
        assert(pre.events@[j as int].unconfirmed_players@.contains(player_id));
    }
    let mut ev = st.events.remove(j);
    let _moved = ev.unconfirmed_players.remove(i);
    ev.confirmed_players.push(player_id);
    let ghost ge = ev;
    st.events.insert(j, ev);
    proof {
        let e0 = pre.events@[j as int];
        assert(st.events@ =~= pre.events@.update(j as int, ge));
        assert(roster_wf(e0));
        lemma_no_dup_remove(e0.unconfirmed_players@, i as int);
        let u1 = ge.unconfirmed_players@;
        let c1 = ge.confirmed_players@;
        assert forall|a: int, b: int| 0 <= a < b < c1.len() implies c1[a] != c1[b] by {
            if b == c1.len() - 1 {
                assert(e0.unconfirmed_players@[i as int] == player_id);
                assert(c1[a] == e0.confirmed_players@[a]);
            }
        }
        assert forall|a: int, b: int| 0 <= a < u1.len() && 0 <= b < c1.len() implies u1[a]
            != c1[b] by {
            assert(u1.contains(u1[a]));
            assert(e0.unconfirmed_players@.contains(u1[a]));
            let k = choose|k: int|
                0 <= k < e0.unconfirmed_players@.len() && e0.unconfirmed_players@[k] == u1[a];
            if b == c1.len() - 1 {
                assert(!u1.contains(player_id));
            } else {
                assert(c1[b] == e0.confirmed_players@[b]);
                assert(e0.unconfirmed_players@[k] != e0.confirmed_players@[b]);
            }
        }
        assert(roster_wf(ge));
        lemma_event_update_wf(pre, *st, j as int);
        assert(confirm_rel(e0, ge, player_id, i as int));
    }
    Ok(())
}

/// Withdraws a player from an event: removed from whichever list holds
/// it. Fails with `EventNotFound` for an unknown event id and
/// `NotRegistered` when the player is on neither list.
pub fn withdraw(st: &mut Store, event_id: Id, player_id: Id) -> (r: Result<(), RosterError>)
    requires
        old(st).wf(),
    ensures
        final(st).wf(),
        same_but_events(*old(st), *final(st)),
        !has_event(old(st).events@, event_id) ==> r == Err::<(), RosterError>(
            RosterError::EventNotFound,
        ) && *final(st) == *old(st),
        has_event(old(st).events@, event_id) ==> exists|j: int|
            0 <= j < old(st).events@.len() && (#[trigger] old(st).events@[j]).id == event_id
                && if !roster_contains(old(st).events@[j], player_id) {
                r == Err::<(), RosterError>(RosterError::NotRegistered) && *final(st) == *old(st)
            } else {
                r == Ok::<(), RosterError>(()) && events_updated_at(
                    old(st).events@,
                    final(st).events@,
                    j,
                ) && withdraw_rel(old(st).events@[j], final(st).events@[j], player_id)
            },
{
    let ghost pre = *st;
    let j = match st.find_event(event_id) {
        None => {
            return Err(RosterError::EventNotFound);
        },
        Some(j) => j,
    };
    proof {
        assert(has_event(pre.events@, event_id));
    }
    let ghost e0 = pre.events@[j as int];
    match find_player(&st.events[j].unconfirmed_players, player_id) {
        Some(i) => {
            let mut ev = st.events.remove(j);
            let _moved = ev.unconfirmed_players.remove(i);
            let ghost ge = ev;
            st.events.insert(j, ev);
            proof {
                assert(st.events@ =~= pre.events@.update(j as int, ge));
                assert(roster_wf(e0));
                assert(e0.unconfirmed_players@.contains(player_id));
                lemma_no_dup_remove(e0.unconfirmed_players@, i as int);
                assert forall|a: int, b: int|
                    0 <= a < ge.unconfirmed_players@.len() && 0 <= b
                        < ge.confirmed_players@.len() implies ge.unconfirmed_players@[a]
                    != ge.confirmed_players@[b] by {
                    assert(ge.unconfirmed_players@.contains(ge.unconfirmed_players@[a]));
                    assert(e0.unconfirmed_players@.contains(ge.unconfirmed_players@[a]));
                    let k = choose|k: int|
                        0 <= k < e0.unconfirmed_players@.len() && e0.unconfirmed_players@[k]
                            == ge.unconfirmed_players@[a];
                    assert(e0.unconfirmed_players@[k] != e0.confirmed_players@[b]);
                }
                assert(roster_wf(ge));
                lemma_event_update_wf(pre, *st, j as int);
                assert(withdraw_rel(e0, ge, player_id));
            }
            return Ok(());
        },
        None => {},
    }
    match find_player(&st.events[j].confirmed_players, player_id) {
        Some(i) => {
            let mut ev = st.events.remove(j);
            let _moved = ev.confirmed_players.remove(i);
            let ghost ge = ev;
            st.events.insert(j, ev);
            proof {
                assert(st.events@ =~= pre.events@.update(j as int, ge));
                assert(roster_wf(e0));
                assert(e0.confirmed_players@.contains(player_id));
                lemma_no_dup_remove(e0.confirmed_players@, i as int);
                assert forall|a: int, b: int|
                    0 <= a < ge.unconfirmed_players@.len() && 0 <= b
                        < ge.confirmed_players@.len() implies ge.unconfirmed_players@[a]
                    != ge.confirmed_players@[b] by {
                    assert(ge.confirmed_players@.contains(ge.confirmed_players@[b]));
                    assert(e0.confirmed_players@.contains(ge.confirmed_players@[b]));
                    let k = choose|k: int|
                        0 <= k < e0.confirmed_players@.len() && e0.confirmed_players@[k]
                            == ge.confirmed_players@[b];
                    assert(e0.unconfirmed_players@[a] != e0.confirmed_players@[k]);
                }
                assert(roster_wf(ge));
                lemma_event_update_wf(pre, *st, j as int);
                assert(!e0.unconfirmed_players@.contains(player_id));
                assert(withdraw_rel(e0, ge, player_id));
            }
            return Ok(());
        },
        None => {},
    }
    proof {
        assert(!roster_contains(e0, player_id));
    }
    Err(RosterError::NotRegistered)
}

/// On a roster that does not yet hold the player, a signup followed by a
/// confirmation leaves the player on the confirmed list and off the
/// unconfirmed list.
pub proof fn lemma_signup_then_confirm(e0: Event, e1: Event, e2: Event, p: Id, i: int)
    requires
        roster_wf(e0),
        !roster_contains(e0, p),
        signup_rel(e0, e1, p),
        confirm_rel(e1, e2, p, i),
    ensures
        e2.confirmed_players@.contains(p),
        !e2.unconfirmed_players@.contains(p),
{
    let u0 = e0.unconfirmed_players@;
    let u1 = e1.unconfirmed_players@;
    assert(u1[u0.len() as int] == p);
    assert forall|k: int| 0 <= k < u0.len() implies u1[k] != p by {
        assert(u1[k] == u0[k]);
        assert(!u0.contains(p));
    }
    assert(i == u0.len() as int);
    assert forall|a: int, b: int| 0 <= a < b < u1.len() implies u1[a] != u1[b] by {
        if b == u1.len() - 1 {
            assert(u1[a] != p);
        } else {
            assert(u1[a] == u0[a] && u1[b] == u0[b]);
        }
    }
    lemma_no_dup_remove(u1, i);
    assert(e2.unconfirmed_players@ == u1.remove(i));
    assert(e2.confirmed_players@[e1.confirmed_players@.len() as int] == p);
}

} // verus!
