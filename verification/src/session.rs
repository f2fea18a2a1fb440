//! Sessions: the occupancy periods of desks and the transitions between them.

use vstd::prelude::*;
use crate::callback_result::Result;
use crate::desk::Desk;
use crate::laws::{
    law_change_desk_by_desk_keeps_exclusive, law_change_desk_keeps_exclusive,
    law_end_by_desk_keeps_exclusive, law_end_keeps_exclusive, law_start_keeps_exclusive,
    lemma_open_session_for_is_stored, lemma_open_session_is_stored,
};
use crate::request::Request;
use crate::store::{
    is_open_session, lemma_first_holds, open_session_with, request_of, session_with, Store,
    Tables,
};

verus! {

/// The state of an open session.
pub const OPEN: i32 = 1;

/// The state of a closed session.
pub const CLOSED: i32 = 0;

/// The end time of a session that has not ended.
pub const NOT_ENDED: i32 = -1;

/// One occupancy of a desk. `end` is [`NOT_ENDED`] while the session is open;
/// `state` is [`OPEN`] or [`CLOSED`].
#[derive(Debug, PartialEq, Eq)]
pub struct Session {
    pub id: i32,
    pub start: i32,
    pub end: i32,
    pub desk: String,
    pub state: i32,
}

/// The mathematical value of a [`Session`].
pub struct SessionView {
    pub id: i32,
    pub start: i32,
    pub end: i32,
    pub desk: Seq<char>,
    pub state: i32,
}

impl SessionView {
    /// Whether the session is open. Every state but [`OPEN`] counts as
    /// closed.
    pub open spec fn is_open(self) -> bool {
        self.state == OPEN
    }
}

impl View for Session {
    type V = SessionView;

    open spec fn view(&self) -> SessionView {
        SessionView {
            id: self.id,
            start: self.start,
            end: self.end,
            desk: self.desk@,
            state: self.state,
        }
    }
}

impl DeepView for Session {
    type V = SessionView;

    open spec fn deep_view(&self) -> SessionView {
        self@
    }
}

impl Clone for Session {
    fn clone(&self) -> (copy: Self)
        ensures
            copy@ == self@,
    {
        Session {
            id: self.id,
            start: self.start,
            end: self.end,
            desk: self.desk.clone(),
            state: self.state,
        }
    }
}

/// The transitions of the session lifecycle, as functions of the store.
impl Tables {
    /// The outcome of opening a session at `desk`.
    pub open spec fn start_outcome(self, desk: Seq<char>) -> Result {
        if !self.has_desk(desk) {
            Result::DoesntExist
        } else if self.occupied(desk) {
            Result::TableOccupied
        } else {
            Result::Success
        }
    }

    /// The store after opening a session at `desk` at the time `now`.
    pub open spec fn start(self, desk: Seq<char>, now: i32) -> Tables {
        if self.start_outcome(desk) == Result::Success {
            self.insert_session(now, NOT_ENDED, desk, OPEN)
        } else {
            self
        }
    }

    /// The outcome of closing, or of moving, the session with id `session`.
    pub open spec fn open_outcome(self, session: i32) -> Result {
        if self.open_session(session) is Some {
            Result::Success
        } else {
            Result::DoesntExist
        }
    }

    /// The store after closing the session with id `session` at the time
    /// `now`.
    pub open spec fn end(self, session: i32, now: i32) -> Tables {
        match self.open_session(session) {
            Some(s) => self.update_session(s.id, s.start, now, s.desk, CLOSED),
            None => self,
        }
    }

    /// The outcome of closing the open session at `desk`.
    pub open spec fn end_by_desk_outcome(self, desk: Seq<char>) -> Result {
        if !self.has_desk(desk) {
            Result::DoesntExist
        } else if !self.occupied(desk) {
            Result::TableUnoccupied
        } else {
            Result::Success
        }
    }

    /// The store after closing the open session at `desk` at the time `now`.
    pub open spec fn end_by_desk(self, desk: Seq<char>, now: i32) -> Tables {
        if self.end_by_desk_outcome(desk) == Result::Success {
            let s = self.open_session_for(desk).unwrap();
            self.update_session(s.id, s.start, now, desk, CLOSED)
        } else {
            self
        }
    }

    /// The store after moving the session with id `session` to the desk
    /// `to`. Whether `to` is occupied, or stored at all, is not looked at.
    pub open spec fn change_desk(self, session: i32, to: Seq<char>) -> Tables {
        match self.open_session(session) {
            Some(s) => self.update_session(s.id, s.start, s.end, to, s.state),
            None => self,
        }
    }

    /// The outcome of moving the open session at `from` to the desk `to`.
    pub open spec fn change_desk_by_desk_outcome(self, from: Seq<char>, to: Seq<char>) -> Result {
        if !self.occupied(from) {
            Result::DoesntExist
        } else if self.occupied(to) {
            Result::TableOccupied
        } else {
            Result::Success
        }
    }

    /// The store after moving the open session at `from` to the desk `to`.
    pub open spec fn change_desk_by_desk(self, from: Seq<char>, to: Seq<char>) -> Tables {
        if self.change_desk_by_desk_outcome(from, to) == Result::Success {
            let s = self.open_session_for(from).unwrap();
            self.update_session(s.id, s.start, s.end, to, s.state)
        } else {
            self
        }
    }
}

impl Session {
    /// Stores a new session under the next id. Neither the desk nor its
    /// occupancy is looked at: that is the part of [`start`].
    pub fn create(
        store: &mut Store,
        start: i32,
        end: i32,
        desk: String,
        state: i32,
    ) -> (outcome: Result)
        requires
            old(store)@.wf(),
            old(store)@.last_session < i32::MAX,
        ensures
            final(store)@.wf(),
            outcome == Result::Success,
            final(store)@ == old(store)@.insert_session(start, end, desk@, state),
    {
        proof {
            reveal(Tables::wf);
        }
        let ghost before = store@;
        let id = store.last_session + 1;
        store.last_session = id;
        store.sessions.push(Session { id, start, end, desk, state });
        proof {
            let after = before.insert_session(start, end, desk@, state);
            assert(store@ =~= after);
        }
        Result::Success
    }

    /// Replaces every field but the id of the session with id `session`.
    pub fn edit(
        store: &mut Store,
        session: i32,
        start: i32,
        end: i32,
        desk: String,
        state: i32,
    ) -> (outcome: Result)
        requires
            old(store)@.wf(),
        ensures
            final(store)@.wf(),
            outcome == if old(store)@.has_session(session) {
                Result::Success
            } else {
                Result::DoesntExist
            },
            final(store)@ == if old(store)@.has_session(session) {
                old(store)@.update_session(session, start, end, desk@, state)
            } else {
                old(store)@
            },
    {
        proof {
            reveal(Tables::wf);
        }
        match store.find_session(session) {
            Some(at) => {
                proof {
                    lemma_first_holds(store@.sessions, session_with(session));
                }
                let ghost before = store@;
                store.sessions.set(at, Session { id: session, start, end, desk, state });
                proof {
                    let after = before.update_session(session, start, end, desk@, state);
                    assert(store@ =~= after);
                }
                Result::Success
            },
            None => Result::DoesntExist,
        }
    }

    /// The session with id `session`, if it is stored.
    pub fn fetch(store: &Store, session: i32) -> (found: Option<Session>)
        ensures
            found.deep_view() == store@.session(session),
    {
        match store.find_session(session) {
            Some(at) => {
                proof {
                    lemma_first_holds(store@.sessions, session_with(session));
                }
                Some(store.sessions[at].clone())
            },
            None => None,
        }
    }

    /// The session with id `session`, if it is stored and open.
    pub fn fetch_only_open(store: &Store, session: i32) -> (found: Option<Session>)
        ensures
            found.deep_view() == store@.open_session(session),
    {
        match store.find_open_session(session) {
            Some(at) => {
                proof {
                    lemma_first_holds(store@.sessions, open_session_with(session));
                }
                Some(store.sessions[at].clone())
            },
            None => None,
        }
    }

    /// Every session, in the order of the table.
    pub fn fetch_all(store: &Store) -> (sessions: Vec<Session>)
        ensures
            sessions.deep_view() == store@.sessions,
    {
        let mut sessions: Vec<Session> = Vec::new();
        let mut i: usize = 0;
        while i < store.sessions.len()
            invariant
                i <= store.sessions.len(),
                sessions.len() == i,
                forall|k: int| 0 <= k < i ==> (#[trigger] sessions[k])@ == store.sessions[k]@,
            decreases store.sessions.len() - i,
        {
            sessions.push(store.sessions[i].clone());
            i += 1;
        }
        sessions
    }

    /// Every open session, in the order of the table.
    pub fn fetch_all_open(store: &Store) -> (sessions: Vec<Session>)
        ensures
            sessions.deep_view() == store@.sessions.filter(is_open_session()),
    {
        let mut sessions: Vec<Session> = Vec::new();
        let mut i: usize = 0;
        while i < store.sessions.len()
            invariant
                i <= store.sessions.len(),
                sessions.deep_view() == store@.sessions.take(i as int).filter(is_open_session()),
            decreases store.sessions.len() - i,
        {
            if store.sessions[i].state == OPEN {
                sessions.push(store.sessions[i].clone());
            }
            proof {
                reveal(Seq::filter);
                assert(store@.sessions.take(i + 1).drop_last() =~= store@.sessions.take(i as int));
            }
            i += 1;
        }
        assert(store@.sessions.take(i as int) =~= store@.sessions);
        sessions
    }

    /// Every request placed in the session with id `session`, in the order of
    /// the table.
    pub fn fetch_all_requests(store: &Store, session: i32) -> (requests: Vec<Request>)
        ensures
            requests.deep_view() == store@.requests.filter(request_of(session)),
    {
        let mut requests: Vec<Request> = Vec::new();
        let mut i: usize = 0;
        while i < store.requests.len()
            invariant
                i <= store.requests.len(),
                requests.deep_view() == store@.requests.take(i as int).filter(request_of(session)),
            decreases store.requests.len() - i,
        {
            if store.requests[i].session == session {
                requests.push(store.requests[i].clone());
            }
            proof {
                reveal(Seq::filter);
                assert(store@.requests.take(i + 1).drop_last() =~= store@.requests.take(i as int));
            }
            i += 1;
        }
        assert(store@.requests.take(i as int) =~= store@.requests);
        requests
    }
}

/// Opens a session at the desk named `desk` at the time `now`. The desk has to
/// be stored and free. Where a session is to be opened, an id has to be left
/// for it.
pub fn start(store: &mut Store, desk: String, now: i32) -> (outcome: Result)
    requires
        old(store)@.wf(),
        old(store)@.start_outcome(desk@) == Result::Success ==> old(store)@.last_session
            < i32::MAX,
    ensures
        final(store)@.wf(),
        outcome == old(store)@.start_outcome(desk@),
        final(store)@ == old(store)@.start(desk@, now),
        old(store)@.exclusive() ==> final(store)@.exclusive(),
{
    proof {
        if store@.exclusive() {
            law_start_keeps_exclusive(store@, desk@, now);
        }
    }
    match Desk::fetch(store, &desk) {
        Some(_) => match Desk::fetch_open_session(store, &desk) {
            Some(_) => Result::TableOccupied,
            None => Session::create(store, now, NOT_ENDED, desk, OPEN),
        },
        None => Result::DoesntExist,
    }
}

/// Closes the session with id `session` at the time `now`. The session has to
/// be stored and open.
pub fn end(store: &mut Store, session: i32, now: i32) -> (outcome: Result)
    requires
        old(store)@.wf(),
    ensures
        final(store)@.wf(),
        outcome == old(store)@.open_outcome(session),
        final(store)@ == old(store)@.end(session, now),
        old(store)@.exclusive() ==> final(store)@.exclusive(),
{
    proof {
        if store@.exclusive() {
            law_end_keeps_exclusive(store@, session, now);
        }
    }
    match Session::fetch_only_open(store, session) {
        Some(s) => {
            proof {
                lemma_open_session_is_stored(store@, session);
            }
            Session::edit(store, s.id, s.start, now, s.desk, CLOSED)
        },
        None => Result::DoesntExist,
    }
}

/// Closes the open session at the desk named `desk` at the time `now`. The
/// desk has to be stored and occupied.
pub fn end_by_desk(store: &mut Store, desk: String, now: i32) -> (outcome: Result)
    requires
        old(store)@.wf(),
    ensures
        final(store)@.wf(),
        outcome == old(store)@.end_by_desk_outcome(desk@),
        final(store)@ == old(store)@.end_by_desk(desk@, now),
        old(store)@.exclusive() ==> final(store)@.exclusive(),
{
    proof {
        if store@.exclusive() {
            law_end_by_desk_keeps_exclusive(store@, desk@, now);
        }
    }
    match Desk::fetch(store, &desk) {
        Some(_) => match Desk::fetch_open_session(store, &desk) {
            Some(s) => {
                proof {
                    lemma_open_session_for_is_stored(store@, desk@);
                }
                Session::edit(store, s.id, s.start, now, desk, CLOSED)
            },
            None => Result::TableUnoccupied,
        },
        None => Result::DoesntExist,
    }
}

/// Moves the session with id `session` to the desk named `to`. The session
/// has to be stored and open. Whether `to` is occupied is not looked at, so
/// the caller answers for it: only where `to` is free, or is the desk that the
/// session sits at, does the move keep at most one open session at any desk.
pub fn change_desk(store: &mut Store, session: i32, to: String) -> (outcome: Result)
    requires
        old(store)@.wf(),
    ensures
        final(store)@.wf(),
        outcome == old(store)@.open_outcome(session),
        final(store)@ == old(store)@.change_desk(session, to@),
        old(store)@.exclusive() && (old(store)@.open_session_for(to@) matches Some(sitting)
            ==> sitting.id == session) ==> final(store)@.exclusive(),
{
    proof {
        if store@.exclusive() && (store@.open_session_for(to@) matches Some(sitting) ==> sitting.id
            == session) {
            law_change_desk_keeps_exclusive(store@, session, to@);
        }
    }
    match Session::fetch_only_open(store, session) {
        Some(s) => {
            proof {
                lemma_open_session_is_stored(store@, session);
            }
            Session::edit(store, s.id, s.start, s.end, to, s.state);
            Result::Success
        },
        None => Result::DoesntExist,
    }
}

/// Moves the open session at the desk named `from` to the desk named `to`.
/// The desk `from` has to be occupied and the desk `to` free.
pub fn change_desk_by_desk(store: &mut Store, from: String, to: String) -> (outcome: Result)
    requires
        old(store)@.wf(),
    ensures
        final(store)@.wf(),
        outcome == old(store)@.change_desk_by_desk_outcome(from@, to@),
        final(store)@ == old(store)@.change_desk_by_desk(from@, to@),
        old(store)@.exclusive() ==> final(store)@.exclusive(),
{
    proof {
        if store@.exclusive() {
            law_change_desk_by_desk_keeps_exclusive(store@, from@, to@);
        }
    }
    match Desk::fetch_open_session(store, &from) {
        Some(s) => match Desk::fetch_open_session(store, &to) {
            Some(_) => Result::TableOccupied,
            None => {
                proof {
                    lemma_open_session_for_is_stored(store@, from@);
                }
                Session::edit(store, s.id, s.start, s.end, to, s.state)
            },
        },
        None => Result::DoesntExist,
    }
}

} // verus!
