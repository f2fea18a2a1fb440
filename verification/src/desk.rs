//! Desks: the named tables of the restaurant and their seating capacity.

use vstd::prelude::*;
use crate::callback_result::Result;
use crate::session::Session;
use crate::store::{desk_named, lemma_first_holds, open_at, Store, Tables};

verus! {

/// A physical table, identified by its name.
#[derive(Debug, PartialEq, Eq)]
pub struct Desk {
    pub name: String,
    pub capacity: i32,
}

/// The mathematical value of a [`Desk`].
pub struct DeskView {
    pub name: Seq<char>,
    pub capacity: i32,
}

impl View for Desk {
    type V = DeskView;

    open spec fn view(&self) -> DeskView {
        DeskView { name: self.name@, capacity: self.capacity }
    }
}

impl DeepView for Desk {
    type V = DeskView;

    open spec fn deep_view(&self) -> DeskView {
        self@
    }
}

impl Clone for Desk {
    fn clone(&self) -> (copy: Self)
        ensures
            copy@ == self@,
    {
        Desk { name: self.name.clone(), capacity: self.capacity }
    }
}

impl Desk {
    /// Stores a new desk, unless one of that name is stored already.
    pub fn create(store: &mut Store, name: String, capacity: i32) -> (outcome: Result)
        requires
            old(store)@.wf(),
        ensures
            final(store)@.wf(),
            outcome == if old(store)@.has_desk(name@) {
                Result::Exists
            } else {
                Result::Success
            },
            final(store)@ == if old(store)@.has_desk(name@) {
                old(store)@
            } else {
                old(store)@.insert_desk(name@, capacity)
            },
    {
        proof {
            reveal(Tables::wf);
        }
        match store.find_desk(&name) {
            Some(_) => Result::Exists,
            None => {
                let ghost before = store@;
                store.desks.push(Desk { name, capacity });
                proof {
                    assert(store@ =~= before.insert_desk(name@, capacity));
                }
                Result::Success
            },
        }
    }

    /// Removes the desk named `name`. Whether the desk is occupied is not
    /// looked at here.
    pub fn delete(store: &mut Store, name: String) -> (outcome: Result)
        requires
            old(store)@.wf(),
        ensures
            final(store)@.wf(),
            outcome == if old(store)@.has_desk(name@) {
                Result::Success
            } else {
                Result::DoesntExist
            },
            final(store)@ == if old(store)@.has_desk(name@) {
                old(store)@.remove_desk(name@)
            } else {
                old(store)@
            },
    {
        proof {
            reveal(Tables::wf);
        }
        match store.find_desk(&name) {
            Some(i) => {
                let ghost before = store@;
                store.desks.remove(i);
                proof {
                    assert(store@ =~= before.remove_desk(name@));
                }
                Result::Success
            },
            None => Result::DoesntExist,
        }
    }

    /// The desk named `name`, if it is stored.
    pub fn fetch(store: &Store, name: &String) -> (desk: Option<Desk>)
        ensures
            desk.deep_view() == store@.desk(name@),
    {
        match store.find_desk(name) {
            Some(i) => {
                proof {
                    lemma_first_holds(store@.desks, desk_named(name@));
                }
                Some(store.desks[i].clone())
            },
            None => None,
        }
    }

    /// The first open session at the desk named `desk`, if the desk is
    /// occupied. While at most one open session sits at any desk, it is the
    /// only one.
    pub fn fetch_open_session(store: &Store, desk: &String) -> (session: Option<Session>)
        ensures
            session.deep_view() == store@.open_session_for(desk@),
    {
        match store.find_open_at(desk) {
            Some(at) => {
                proof {
                    lemma_first_holds(store@.sessions, open_at(desk@));
                }
                Some(store.sessions[at].clone())
            },
            None => None,
        }
    }

    /// Every desk, in the order of the table.
    pub fn fetch_all(store: &Store) -> (desks: Vec<Desk>)
        ensures
            desks.deep_view() == store@.desks,
    {
        let mut desks: Vec<Desk> = Vec::new();
        let mut i: usize = 0;
        while i < store.desks.len()
            invariant
                i <= store.desks.len(),
                desks.len() == i,
                forall|k: int| 0 <= k < i ==> (#[trigger] desks[k])@ == store.desks[k]@,
            decreases store.desks.len() - i,
        {
            desks.push(store.desks[i].clone());
            i += 1;
        }
        desks
    }
}

} // verus!
