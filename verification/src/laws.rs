//! What holds of the session lifecycle and of the request workflow across
//! calls, proved of their transitions.

use vstd::prelude::*;
use crate::callback_result::Result;
use crate::request::RequestView;
use crate::dish::{lemma_split_on_nonempty, size_options};
use crate::request::{selection_fits, size_fits};
use crate::store::{
    first, lemma_first_holds, lemma_first_is, open_at, open_session_with, request_with,
    session_with, Tables,
};

verus! {

/// An open session with a given id is a session with that id.
pub proof fn lemma_open_session_is_stored(store: Tables, session: i32)
    requires
        store.open_session(session) is Some,
    ensures
        store.has_session(session),
        store.open_session(session).unwrap().id == session,
        store.open_session(session).unwrap().is_open(),
        0 <= store.session_index(session) < store.sessions.len(),
        store.wf() ==> store.sessions[store.session_index(session)] == store.open_session(
            session,
        ).unwrap(),
{
    reveal(Tables::wf);
    lemma_first_holds(store.sessions, open_session_with(session));
    let at = first(store.sessions, open_session_with(session));
    assert(session_with(session)(store.sessions[at]));
    lemma_first_holds(store.sessions, session_with(session));
}

/// The open session found at a desk is stored under its own id, sits at that
/// desk and is open.
pub proof fn lemma_open_session_for_is_stored(store: Tables, desk: Seq<char>)
    requires
        store.occupied(desk),
    ensures
        store.has_session(store.open_session_for(desk).unwrap().id),
        store.open_session_for(desk).unwrap().desk == desk,
        store.open_session_for(desk).unwrap().is_open(),
        0 <= store.session_index(store.open_session_for(desk).unwrap().id) < store.sessions.len(),
        store.wf() ==> store.sessions[store.session_index(store.open_session_for(desk).unwrap().id)]
            == store.open_session_for(desk).unwrap(),
{
    reveal(Tables::wf);
    lemma_first_holds(store.sessions, open_at(desk));
    let at = first(store.sessions, open_at(desk));
    let id = store.sessions[at].id;
    assert(session_with(id)(store.sessions[at]));
    lemma_first_holds(store.sessions, session_with(id));
}

/// Opening a session keeps at most one open session at any desk.
pub proof fn law_start_keeps_exclusive(store: Tables, desk: Seq<char>, now: i32)
    requires
        store.exclusive(),
    ensures
        store.start(desk, now).exclusive(),
{
    // The new session is the only one that is added, and the desk was free.
}

/// Closing a session by its id keeps at most one open session at any desk.
pub proof fn law_end_keeps_exclusive(store: Tables, session: i32, now: i32)
    requires
        store.exclusive(),
    ensures
        store.end(session, now).exclusive(),
{
    // No session is opened, and no open session changes its desk.
    if store.open_session(session) is Some {
        lemma_open_session_is_stored(store, session);
    }
}

/// Closing the session at a desk keeps at most one open session at any desk.
pub proof fn law_end_by_desk_keeps_exclusive(store: Tables, desk: Seq<char>, now: i32)
    requires
        store.exclusive(),
    ensures
        store.end_by_desk(desk, now).exclusive(),
{
    // No session is opened, and no open session changes its desk.
    if store.end_by_desk_outcome(desk) == Result::Success {
        lemma_open_session_for_is_stored(store, desk);
    }
}

/// Moving the session of one desk to a desk that is free keeps at most one
/// open session at any desk.
pub proof fn law_change_desk_by_desk_keeps_exclusive(
    store: Tables,
    from: Seq<char>,
    to: Seq<char>,
)
    requires
        store.exclusive(),
    ensures
        store.change_desk_by_desk(from, to).exclusive(),
{
    // The one session that changes its desk moves to a desk that was free.
    if store.change_desk_by_desk_outcome(from, to) == Result::Success {
        lemma_open_session_for_is_stored(store, from);
    }
}

/// Moving a session by its id keeps at most one open session at any desk,
/// provided that the desk it moves to is free or is the one it sits at.
pub proof fn law_change_desk_keeps_exclusive(store: Tables, session: i32, to: Seq<char>)
    requires
        store.wf(),
        store.exclusive(),
        store.open_session_for(to) matches Some(sitting) ==> sitting.id == session,
    ensures
        store.change_desk(session, to).exclusive(),
{
    reveal(Tables::wf);
    if store.open_session(session) is Some {
        lemma_open_session_is_stored(store, session);
        let moved = store.session_index(session);
        let after = store.change_desk(session, to);
        assert forall|i: int, j: int|
            0 <= i < j < after.sessions.len() && (#[trigger] after.sessions[i]).is_open() && (
            #[trigger] after.sessions[j]).is_open() implies after.sessions[i].desk
            != after.sessions[j].desk by {
            if i == moved || j == moved {
                let other = if i == moved {
                    j
                } else {
                    i
                };
                if open_at(to)(store.sessions[other]) {
                    lemma_first_holds(store.sessions, open_at(to));
                    let sitting = first(store.sessions, open_at(to));
                    assert(store.sessions[sitting].is_open() && store.sessions[other].is_open());
                    assert(sitting == other);
                }
            } else {
                assert(store.sessions[i].is_open() && store.sessions[j].is_open());
            }
        }
    }
}

/// One transition of the session lifecycle.
pub enum Transition {
    /// Open a session at the desk `desk` at the time `now`.
    Start { desk: Seq<char>, now: i32 },
    /// Close the session with id `session` at the time `now`.
    End { session: i32, now: i32 },
    /// Close the open session at the desk `desk` at the time `now`.
    EndByDesk { desk: Seq<char>, now: i32 },
    /// Move the open session at the desk `from` to the desk `to`.
    ChangeDeskByDesk { from: Seq<char>, to: Seq<char> },
}

impl Tables {
    /// The store after one transition of the session lifecycle.
    pub open spec fn step(self, transition: Transition) -> Tables {
        match transition {
            Transition::Start { desk, now } => self.start(desk, now),
            Transition::End { session, now } => self.end(session, now),
            Transition::EndByDesk { desk, now } => self.end_by_desk(desk, now),
            Transition::ChangeDeskByDesk { from, to } => self.change_desk_by_desk(from, to),
        }
    }

    /// The store after the transitions `transitions`, one after another.
    pub open spec fn run(self, transitions: Seq<Transition>) -> Tables
        decreases transitions.len(),
    {
        if transitions.len() == 0 {
            self
        } else {
            self.run(transitions.drop_last()).step(transitions.last())
        }
    }
}

/// Whatever transitions of the session lifecycle follow one another, and
/// whether each succeeds or is refused, at most one open session sits at any
/// desk after them, as long as that held before the first. Moving a session
/// by its id is no such transition: it does not look at the desk it moves to.
pub proof fn law_exclusive_always(store: Tables, transitions: Seq<Transition>)
    requires
        store.exclusive(),
    ensures
        store.run(transitions).exclusive(),
    decreases transitions.len(),
{
    if transitions.len() > 0 {
        law_exclusive_always(store, transitions.drop_last());
        let before = store.run(transitions.drop_last());
        match transitions.last() {
            Transition::Start { desk, now } => law_start_keeps_exclusive(before, desk, now),
            Transition::End { session, now } => law_end_keeps_exclusive(before, session, now),
            Transition::EndByDesk { desk, now } => law_end_by_desk_keeps_exclusive(
                before,
                desk,
                now,
            ),
            Transition::ChangeDeskByDesk { from, to } => law_change_desk_by_desk_keeps_exclusive(
                before,
                from,
                to,
            ),
        }
    }
}

/// A desk at which a session was opened is occupied: opening another one
/// there is refused.
pub proof fn law_start_twice(store: Tables, desk: Seq<char>, first_time: i32, second_time: i32)
    requires
        store.start_outcome(desk) == Result::Success,
    ensures
        store.start(desk, first_time).start_outcome(desk) == Result::TableOccupied,
        store.start(desk, first_time).start(desk, second_time) == store.start(desk, first_time),
{
    let after = store.start(desk, first_time);
    assert(open_at(desk)(after.sessions[store.sessions.len() as int]));
}

/// While at most one open session sits at any desk, a desk whose session was
/// closed is free: closing its session once more reports that none is open.
pub proof fn law_end_by_desk_twice(
    store: Tables,
    desk: Seq<char>,
    first_time: i32,
    second_time: i32,
)
    requires
        store.wf(),
        store.exclusive(),
        store.end_by_desk_outcome(desk) == Result::Success,
    ensures
        store.end_by_desk(desk, first_time).end_by_desk_outcome(desk) == Result::TableUnoccupied,
        store.end_by_desk(desk, first_time).end_by_desk(desk, second_time) == store.end_by_desk(
            desk,
            first_time,
        ),
{
    reveal(Tables::wf);
    lemma_open_session_for_is_stored(store, desk);
    let closed = store.session_index(store.open_session_for(desk).unwrap().id);
    let after = store.end_by_desk(desk, first_time);
    assert forall|i: int| 0 <= i < after.sessions.len() implies !open_at(desk)(
        #[trigger] after.sessions[i],
    ) by {
        if i != closed && open_at(desk)(store.sessions[i]) {
            assert(store.sessions[i].is_open() && store.sessions[closed].is_open());
        }
    }
}

/// A move between two occupied desks is refused and changes nothing.
pub proof fn law_change_desk_by_desk_conflict(store: Tables, from: Seq<char>, to: Seq<char>)
    requires
        store.occupied(from),
        store.occupied(to),
    ensures
        store.change_desk_by_desk_outcome(from, to) == Result::TableOccupied,
        store.change_desk_by_desk(from, to) == store,
{
}

/// A request that was just stored is the one found under the id it received,
/// with the fields it was stored with.
pub proof fn law_create_then_fetch(
    store: Tables,
    session: i32,
    dish: i32,
    variant: Seq<char>,
    size: i32,
    comment: Seq<char>,
    state: i32,
)
    requires
        store.wf(),
        store.last_request < i32::MAX,
    ensures
        store.insert_request(session, dish, variant, size, comment, state).request(
            store.next_request_id(),
        ) == Some(
            RequestView {
                id: store.next_request_id(),
                session,
                dish,
                variant,
                size,
                comment,
                state,
            },
        ),
{
    reveal(Tables::wf);
    let after = store.insert_request(session, dish, variant, size, comment, state);
    let id = store.next_request_id();
    assert forall|j: int| 0 <= j < store.requests.len() implies !request_with(id)(
        #[trigger] after.requests[j],
    ) by {
        assert(store.requests[j].id <= store.last_request);
    }
    lemma_first_is(after.requests, request_with(id), store.requests.len() as int);
}

/// Whether a selection fits does not depend on the order of the groups:
/// exchanging two groups together with their choices changes nothing.
pub proof fn law_selection_order(
    groups: Seq<(bool, Seq<Seq<char>>)>,
    selection: Seq<Option<usize>>,
    i: int,
    j: int,
)
    requires
        0 <= i < groups.len(),
        0 <= j < groups.len(),
        groups.len() == selection.len(),
    ensures
        selection_fits(
            groups.update(i, groups[j]).update(j, groups[i]),
            selection.update(i, selection[j]).update(j, selection[i]),
        ) == selection_fits(groups, selection),
{
    let swapped_groups = groups.update(i, groups[j]).update(j, groups[i]);
    let swapped = selection.update(i, selection[j]).update(j, selection[i]);
    let back = |k: int|
        if k == i {
            j
        } else if k == j {
            i
        } else {
            k
        };
    if selection_fits(groups, selection) {
        assert forall|k: int| 0 <= k < swapped_groups.len() implies ((
        #[trigger] swapped[k]) matches Some(option) ==> option < swapped_groups[k].1.len()) by {
            assert(swapped[k] == selection[back(k)]);
            assert(swapped_groups[k] == groups[back(k)]);
        }
    }
    if selection_fits(swapped_groups, swapped) {
        assert forall|k: int| 0 <= k < groups.len() implies ((
        #[trigger] selection[k]) matches Some(option) ==> option < groups[k].1.len()) by {
            assert(swapped[back(k)] == selection[k]);
            assert(swapped_groups[back(k)] == groups[k]);
        }
    }
}

/// A size fits exactly from 0 up to the last label: no negative size fits,
/// none from the number of labels on, and the one before that number does.
pub proof fn law_size_bound(sizes: Seq<char>, size: i32)
    ensures
        size_options(sizes).len() >= 1,
        size < 0 ==> !size_fits(sizes, size),
        size >= size_options(sizes).len() ==> !size_fits(sizes, size),
        size == size_options(sizes).len() - 1 ==> size_fits(sizes, size),
{
    lemma_split_on_nonempty(sizes, ',');
}

} // verus!
