//! The relational store that every component reads and writes.
//!
//! The store holds one table per kind of row. Each table keeps its rows in the
//! order in which they were inserted. Rows of the tables with a numeric key
//! receive their ids from a counter that only ever grows, so an id is never
//! handed out twice.

use vstd::prelude::*;
use crate::desk::{Desk, DeskView};
use crate::dish::{Dish, DishView};
use crate::request::{Request, RequestView};
use crate::session::{Session, SessionView, OPEN};
use crate::species::{Species, SpeciesView};
use crate::validation::{Admin, AdminView};

verus! {

/// Whether some element of `s` satisfies `p`.
pub open spec fn any<A>(s: Seq<A>, p: spec_fn(A) -> bool) -> bool {
    exists|i: int| 0 <= i < s.len() && p(#[trigger] s[i])
}

/// The position of the first element of `s` that satisfies `p`, where there is
/// one.
#[verifier::opaque]
pub open spec fn first<A>(s: Seq<A>, p: spec_fn(A) -> bool) -> int {
    choose|i: int|
        0 <= i < s.len() && p(#[trigger] s[i]) && forall|j: int|
            0 <= j < i ==> !p(#[trigger] s[j])
}

/// The first element of `s` that satisfies `p`, if there is one.
pub open spec fn find<A>(s: Seq<A>, p: spec_fn(A) -> bool) -> Option<A> {
    if any(s, p) {
        Some(s[first(s, p)])
    } else {
        None
    }
}

/// An element that satisfies `p` and has none before it that does is the
/// first one.
pub proof fn lemma_first_is<A>(s: Seq<A>, p: spec_fn(A) -> bool, i: int)
    requires
        0 <= i < s.len(),
        p(s[i]),
        forall|j: int| 0 <= j < i ==> !p(#[trigger] s[j]),
    ensures
        any(s, p),
        first(s, p) == i,
        find(s, p) == Some(s[i]),
{
    reveal(first);
}

/// Before an element that satisfies `p` stands a first one that does.
proof fn lemma_least<A>(s: Seq<A>, p: spec_fn(A) -> bool, i: int)
    requires
        0 <= i < s.len(),
        p(s[i]),
    ensures
        exists|k: int|
            0 <= k < s.len() && p(#[trigger] s[k]) && forall|j: int|
                0 <= j < k ==> !p(#[trigger] s[j]),
    decreases i,
{
    if exists|j: int| 0 <= j < i && p(#[trigger] s[j]) {
        let j = choose|j: int| 0 <= j < i && p(#[trigger] s[j]);
        lemma_least(s, p, j);
    }
}

/// Where some element satisfies `p`, the first one does, and none before it.
pub proof fn lemma_first_holds<A>(s: Seq<A>, p: spec_fn(A) -> bool)
    requires
        any(s, p),
    ensures
        0 <= first(s, p) < s.len(),
        p(s[first(s, p)]),
        forall|j: int| 0 <= j < first(s, p) ==> !p(#[trigger] s[j]),
{
    reveal(first);
    let i = choose|i: int| 0 <= i < s.len() && p(#[trigger] s[i]);
    lemma_least(s, p, i);
}

/// The largest of `ids`, or 0 where none is above it.
pub open spec fn largest(ids: Seq<i32>) -> i32
    decreases ids.len(),
{
    if ids.len() == 0 {
        0
    } else if ids.last() > largest(ids.drop_last()) {
        ids.last()
    } else {
        largest(ids.drop_last())
    }
}

/// No id is above the largest, and the largest is not below 0.
proof fn lemma_largest_bounds(ids: Seq<i32>)
    ensures
        0 <= largest(ids),
        forall|i: int| 0 <= i < ids.len() ==> #[trigger] ids[i] <= largest(ids),
    decreases ids.len(),
{
    if ids.len() > 0 {
        lemma_largest_bounds(ids.drop_last());
        assert forall|i: int| 0 <= i < ids.len() implies #[trigger] ids[i] <= largest(ids) by {
            if i < ids.len() - 1 {
                assert(ids.drop_last()[i] == ids[i]);
            }
        }
    }
}

/// Rows are told apart by a key exactly when their keys, listed on their own,
/// are all different; and no key is above the largest of them.
proof fn lemma_keys<A>(rows: Seq<A>, key: spec_fn(A) -> i32)
    ensures
        (forall|i: int, j: int|
            0 <= i < j < rows.len() ==> #[trigger] rows.map_values(key)[i]
                != #[trigger] rows.map_values(key)[j]) == (forall|i: int, j: int|
            0 <= i < j < rows.len() ==> key(#[trigger] rows[i]) != key(#[trigger] rows[j])),
        forall|i: int|
            0 <= i < rows.len() ==> key(#[trigger] rows[i]) <= largest(rows.map_values(key)),
        0 <= largest(rows.map_values(key)),
{
    let ids = rows.map_values(key);
    lemma_largest_bounds(ids);
    assert forall|i: int| 0 <= i < rows.len() implies key(#[trigger] rows[i]) <= largest(ids) by {
        assert(ids[i] == key(rows[i]));
    }
    if forall|i: int, j: int| 0 <= i < j < rows.len() ==> #[trigger] ids[i] != #[trigger] ids[j] {
        assert forall|i: int, j: int| 0 <= i < j < rows.len() implies key(#[trigger] rows[i])
            != key(#[trigger] rows[j]) by {
            assert(ids[i] != ids[j]);
        }
    }
}

/// The mathematical value of a [`Store`]: its tables as sequences of rows, and
/// for each table with numeric ids the largest id handed out so far.
#[verifier::ext_equal]
pub struct Tables {
    pub desks: Seq<DeskView>,
    pub dishes: Seq<DishView>,
    pub species: Seq<SpeciesView>,
    pub sessions: Seq<SessionView>,
    pub requests: Seq<RequestView>,
    pub admins: Seq<AdminView>,
    pub last_dish: i32,
    pub last_species: i32,
    pub last_session: i32,
    pub last_request: i32,
}

/// Holds of the desk named `name`.
pub open spec fn desk_named(name: Seq<char>) -> spec_fn(DeskView) -> bool {
    |d: DeskView| d.name == name
}

/// Holds of the dish with id `id`.
pub open spec fn dish_with(id: i32) -> spec_fn(DishView) -> bool {
    |d: DishView| d.id == id
}

/// Holds of the species with id `id`.
pub open spec fn species_with(id: i32) -> spec_fn(SpeciesView) -> bool {
    |s: SpeciesView| s.id == id
}

/// Holds of a species named `name`.
pub open spec fn species_named(name: Seq<char>) -> spec_fn(SpeciesView) -> bool {
    |s: SpeciesView| s.name == name
}

/// Holds of the session with id `id`.
pub open spec fn session_with(id: i32) -> spec_fn(SessionView) -> bool {
    |s: SessionView| s.id == id
}

/// Holds of the session with id `id` while it is open.
pub open spec fn open_session_with(id: i32) -> spec_fn(SessionView) -> bool {
    |s: SessionView| s.id == id && s.is_open()
}

/// Holds of an open session at the desk named `desk`.
pub open spec fn open_at(desk: Seq<char>) -> spec_fn(SessionView) -> bool {
    |s: SessionView| s.desk == desk && s.is_open()
}

/// Holds of every open session.
pub open spec fn is_open_session() -> spec_fn(SessionView) -> bool {
    |s: SessionView| s.is_open()
}

/// Holds of the request with id `id`.
pub open spec fn request_with(id: i32) -> spec_fn(RequestView) -> bool {
    |r: RequestView| r.id == id
}

/// Holds of the requests placed in session `session`.
pub open spec fn request_of(session: i32) -> spec_fn(RequestView) -> bool {
    |r: RequestView| r.session == session
}

/// Holds of the administrator `id` with secret `secret`.
pub open spec fn admin_with(id: Seq<char>, secret: Seq<char>) -> spec_fn(AdminView) -> bool {
    |a: AdminView| a.id == id && a.secret == secret
}

impl Tables {
    /// The store that holds the rows given, with the largest id of each table
    /// as the last one handed out.
    pub open spec fn of_rows(
        desks: Seq<DeskView>,
        dishes: Seq<DishView>,
        species: Seq<SpeciesView>,
        sessions: Seq<SessionView>,
        requests: Seq<RequestView>,
        admins: Seq<AdminView>,
    ) -> Tables {
        Tables {
            desks,
            dishes,
            species,
            sessions,
            requests,
            admins,
            last_dish: largest(dishes.map_values(|row: DishView| row.id)),
            last_species: largest(species.map_values(|row: SpeciesView| row.id)),
            last_session: largest(sessions.map_values(|row: SessionView| row.id)),
            last_request: largest(requests.map_values(|row: RequestView| row.id)),
        }
    }

    /// The store without any row, before any id was handed out.
    pub open spec fn empty() -> Tables {
        Tables {
            desks: Seq::empty(),
            dishes: Seq::empty(),
            species: Seq::empty(),
            sessions: Seq::empty(),
            requests: Seq::empty(),
            admins: Seq::empty(),
            last_dish: 0,
            last_species: 0,
            last_session: 0,
            last_request: 0,
        }
    }

    /// Whether a desk named `name` is stored.
    pub open spec fn has_desk(self, name: Seq<char>) -> bool {
        any(self.desks, desk_named(name))
    }

    /// The position of the desk named `name`.
    pub open spec fn desk_index(self, name: Seq<char>) -> int {
        first(self.desks, desk_named(name))
    }

    /// The desk named `name`, if it is stored.
    pub open spec fn desk(self, name: Seq<char>) -> Option<DeskView> {
        find(self.desks, desk_named(name))
    }

    /// Whether a dish with id `id` is stored.
    pub open spec fn has_dish(self, id: i32) -> bool {
        any(self.dishes, dish_with(id))
    }

    /// The position of the dish with id `id`.
    pub open spec fn dish_index(self, id: i32) -> int {
        first(self.dishes, dish_with(id))
    }

    /// The dish with id `id`, if it is stored.
    pub open spec fn dish(self, id: i32) -> Option<DishView> {
        find(self.dishes, dish_with(id))
    }

    /// Whether a species with id `id` is stored.
    pub open spec fn has_species(self, id: i32) -> bool {
        any(self.species, species_with(id))
    }

    /// The position of the species with id `id`.
    pub open spec fn species_index(self, id: i32) -> int {
        first(self.species, species_with(id))
    }

    /// The species with id `id`, if it is stored.
    pub open spec fn species_by_id(self, id: i32) -> Option<SpeciesView> {
        find(self.species, species_with(id))
    }

    /// Whether a species named `name` is stored.
    pub open spec fn has_species_named(self, name: Seq<char>) -> bool {
        any(self.species, species_named(name))
    }

    /// The first species named `name`, if one is stored.
    pub open spec fn species_by_name(self, name: Seq<char>) -> Option<SpeciesView> {
        find(self.species, species_named(name))
    }

    /// Whether a session with id `id` is stored.
    pub open spec fn has_session(self, id: i32) -> bool {
        any(self.sessions, session_with(id))
    }

    /// The position of the session with id `id`.
    pub open spec fn session_index(self, id: i32) -> int {
        first(self.sessions, session_with(id))
    }

    /// The session with id `id`, if it is stored.
    pub open spec fn session(self, id: i32) -> Option<SessionView> {
        find(self.sessions, session_with(id))
    }

    /// The session with id `id`, if it is stored and open.
    pub open spec fn open_session(self, id: i32) -> Option<SessionView> {
        find(self.sessions, open_session_with(id))
    }

    /// Whether the desk named `desk` is occupied: some open session sits at it.
    pub open spec fn occupied(self, desk: Seq<char>) -> bool {
        any(self.sessions, open_at(desk))
    }

    /// The first open session at the desk named `desk`, if the desk is
    /// occupied.
    pub open spec fn open_session_for(self, desk: Seq<char>) -> Option<SessionView> {
        find(self.sessions, open_at(desk))
    }

    /// Whether a request with id `id` is stored.
    pub open spec fn has_request(self, id: i32) -> bool {
        any(self.requests, request_with(id))
    }

    /// The position of the request with id `id`.
    pub open spec fn request_index(self, id: i32) -> int {
        first(self.requests, request_with(id))
    }

    /// The request with id `id`, if it is stored.
    pub open spec fn request(self, id: i32) -> Option<RequestView> {
        find(self.requests, request_with(id))
    }

    /// No two desks share a name.
    pub open spec fn desk_names_distinct(self) -> bool {
        forall|i: int, j: int|
            0 <= i < j < self.desks.len() ==> (#[trigger] self.desks[i]).name != (
            #[trigger] self.desks[j]).name
    }

    /// No two dishes share an id, and no id is beyond the last one handed out.
    pub open spec fn dish_ids_distinct(self) -> bool {
        &&& 0 <= self.last_dish
        &&& forall|i: int|
            0 <= i < self.dishes.len() ==> (#[trigger] self.dishes[i]).id <= self.last_dish
        &&& forall|i: int, j: int|
            0 <= i < j < self.dishes.len() ==> (#[trigger] self.dishes[i]).id != (
            #[trigger] self.dishes[j]).id
    }

    /// No two species share an id, and no id is beyond the last one handed out.
    pub open spec fn species_ids_distinct(self) -> bool {
        &&& 0 <= self.last_species
        &&& forall|i: int|
            0 <= i < self.species.len() ==> (#[trigger] self.species[i]).id <= self.last_species
        &&& forall|i: int, j: int|
            0 <= i < j < self.species.len() ==> (#[trigger] self.species[i]).id != (
            #[trigger] self.species[j]).id
    }

    /// No two sessions share an id, and no id is beyond the last one handed
    /// out.
    pub open spec fn session_ids_distinct(self) -> bool {
        &&& 0 <= self.last_session
        &&& forall|i: int|
            0 <= i < self.sessions.len() ==> (#[trigger] self.sessions[i]).id <= self.last_session
        &&& forall|i: int, j: int|
            0 <= i < j < self.sessions.len() ==> (#[trigger] self.sessions[i]).id != (
            #[trigger] self.sessions[j]).id
    }

    /// No two requests share an id, and no id is beyond the last one handed
    /// out.
    pub open spec fn request_ids_distinct(self) -> bool {
        &&& 0 <= self.last_request
        &&& forall|i: int|
            0 <= i < self.requests.len() ==> (#[trigger] self.requests[i]).id <= self.last_request
        &&& forall|i: int, j: int|
            0 <= i < j < self.requests.len() ==> (#[trigger] self.requests[i]).id != (
            #[trigger] self.requests[j]).id
    }

    /// The store is well formed: every table honours its primary key.
    #[verifier::opaque]
    pub open spec fn wf(self) -> bool {
        &&& self.desk_names_distinct()
        &&& self.dish_ids_distinct()
        &&& self.species_ids_distinct()
        &&& self.session_ids_distinct()
        &&& self.request_ids_distinct()
    }

    /// At most one open session sits at any desk.
    pub open spec fn exclusive(self) -> bool {
        forall|i: int, j: int|
            0 <= i < j < self.sessions.len() && (#[trigger] self.sessions[i]).is_open() && (
            #[trigger] self.sessions[j]).is_open() ==> self.sessions[i].desk
                != self.sessions[j].desk
    }
}

/// What the writes of the components do to the tables.
impl Tables {
    /// The store with a new desk at the end of its table.
    pub open spec fn insert_desk(self, name: Seq<char>, capacity: i32) -> Tables {
        Tables { desks: self.desks.push(DeskView { name, capacity }), ..self }
    }

    /// The store without the desk named `name`.
    pub open spec fn remove_desk(self, name: Seq<char>) -> Tables {
        Tables { desks: self.desks.remove(self.desk_index(name)), ..self }
    }
}

/// What the writes of the request workflow do to the tables.
impl Tables {
    /// The id that the next request receives.
    pub open spec fn next_request_id(self) -> i32 {
        (self.last_request + 1) as i32
    }

    /// The store with a new request at the end of its table, under the next
    /// id.
    pub open spec fn insert_request(
        self,
        session: i32,
        dish: i32,
        variant: Seq<char>,
        size: i32,
        comment: Seq<char>,
        state: i32,
    ) -> Tables {
        Tables {
            requests: self.requests.push(
                RequestView {
                    id: self.next_request_id(),
                    session,
                    dish,
                    variant,
                    size,
                    comment,
                    state,
                },
            ),
            last_request: self.next_request_id(),
            ..self
        }
    }

    /// The store in which the request with id `id` has a new selection, size,
    /// comment and state, and keeps its session and dish.
    pub open spec fn update_request(
        self,
        id: i32,
        variant: Seq<char>,
        size: i32,
        comment: Seq<char>,
        state: i32,
    ) -> Tables {
        let at = self.request_index(id);
        Tables {
            requests: self.requests.update(
                at,
                RequestView { variant, size, comment, state, ..self.requests[at] },
            ),
            ..self
        }
    }

    /// The store without the request with id `id`.
    pub open spec fn remove_request(self, id: i32) -> Tables {
        Tables { requests: self.requests.remove(self.request_index(id)), ..self }
    }
}

/// What the writes of the session lifecycle do to the tables.
impl Tables {
    /// The id that the next session receives.
    pub open spec fn next_session_id(self) -> i32 {
        (self.last_session + 1) as i32
    }

    /// The store with a new session at the end of its table, under the next
    /// id.
    pub open spec fn insert_session(
        self,
        start: i32,
        end: i32,
        desk: Seq<char>,
        state: i32,
    ) -> Tables {
        Tables {
            sessions: self.sessions.push(
                SessionView { id: self.next_session_id(), start, end, desk, state },
            ),
            last_session: self.next_session_id(),
            ..self
        }
    }

    /// The store in which the session with id `id` has the fields given.
    pub open spec fn update_session(
        self,
        id: i32,
        start: i32,
        end: i32,
        desk: Seq<char>,
        state: i32,
    ) -> Tables {
        Tables {
            sessions: self.sessions.update(
                self.session_index(id),
                SessionView { id, start, end, desk, state },
            ),
            ..self
        }
    }
}

/// What the writes of the menu do to the tables.
impl Tables {
    /// The id that the next dish receives.
    pub open spec fn next_dish_id(self) -> i32 {
        (self.last_dish + 1) as i32
    }

    /// The store with a new dish at the end of its table, under the next id.
    pub open spec fn insert_dish(
        self,
        name: Seq<char>,
        variants: Seq<char>,
        sizes: Seq<char>,
        species: i32,
    ) -> Tables {
        Tables {
            dishes: self.dishes.push(
                DishView { id: self.next_dish_id(), name, variants, sizes, species },
            ),
            last_dish: self.next_dish_id(),
            ..self
        }
    }

    /// The store in which the dish with id `id` has the fields given.
    pub open spec fn update_dish(
        self,
        id: i32,
        name: Seq<char>,
        variants: Seq<char>,
        sizes: Seq<char>,
        species: i32,
    ) -> Tables {
        Tables {
            dishes: self.dishes.update(
                self.dish_index(id),
                DishView { id, name, variants, sizes, species },
            ),
            ..self
        }
    }

    /// The store without the dish with id `id`.
    pub open spec fn remove_dish(self, id: i32) -> Tables {
        Tables { dishes: self.dishes.remove(self.dish_index(id)), ..self }
    }

    /// The id that the next species receives.
    pub open spec fn next_species_id(self) -> i32 {
        (self.last_species + 1) as i32
    }

    /// The store with a new species at the end of its table, under the next
    /// id.
    pub open spec fn insert_species(self, name: Seq<char>) -> Tables {
        Tables {
            species: self.species.push(SpeciesView { id: self.next_species_id(), name }),
            last_species: self.next_species_id(),
            ..self
        }
    }

    /// The store in which the species with id `id` is named `name`.
    pub open spec fn rename_species(self, id: i32, name: Seq<char>) -> Tables {
        Tables {
            species: self.species.update(self.species_index(id), SpeciesView { id, name }),
            ..self
        }
    }

    /// The store without the species with id `id`, in which every dish that
    /// was filed under it is filed under none.
    pub open spec fn remove_species(self, id: i32) -> Tables {
        Tables {
            species: self.species.remove(self.species_index(id)),
            dishes: self.dishes.map_values(|dish: DishView| dish.without_species(id)),
            ..self
        }
    }
}

/// The contents of the store.
pub struct Store {
    pub(crate) desks: Vec<Desk>,
    pub(crate) dishes: Vec<Dish>,
    pub(crate) species: Vec<Species>,
    pub(crate) sessions: Vec<Session>,
    pub(crate) requests: Vec<Request>,
    pub(crate) admins: Vec<Admin>,
    pub(crate) last_dish: i32,
    pub(crate) last_species: i32,
    pub(crate) last_session: i32,
    pub(crate) last_request: i32,
}

impl View for Store {
    type V = Tables;

    open(crate) spec fn view(&self) -> Tables {
        Tables {
            desks: self.desks.deep_view(),
            dishes: self.dishes.deep_view(),
            species: self.species.deep_view(),
            sessions: self.sessions.deep_view(),
            requests: self.requests.deep_view(),
            admins: self.admins.deep_view(),
            last_dish: self.last_dish,
            last_species: self.last_species,
            last_session: self.last_session,
            last_request: self.last_request,
        }
    }
}

impl Store {
    /// Creates a store without any row.
    pub fn new() -> (store: Store)
        ensures
            store@ == Tables::empty(),
            store@.wf(),
            store@.exclusive(),
    {
        let store = Store {
            desks: Vec::new(),
            dishes: Vec::new(),
            species: Vec::new(),
            sessions: Vec::new(),
            requests: Vec::new(),
            admins: Vec::new(),
            last_dish: 0,
            last_species: 0,
            last_session: 0,
            last_request: 0,
        };
        proof {
            reveal(Tables::wf);
        }
        store
    }

    /// Whether no two of `desks` share a name.
    fn names_distinct(desks: &Vec<Desk>) -> (distinct: bool)
        ensures
            distinct == forall|i: int, j: int|
                0 <= i < j < desks.len() ==> (#[trigger] desks.deep_view()[i]).name != (
                #[trigger] desks.deep_view()[j]).name,
    {
        let mut j: usize = 0;
        while j < desks.len()
            invariant
                j <= desks.len(),
                forall|a: int, b: int|
                    0 <= a < b < j ==> (#[trigger] desks.deep_view()[a]).name != (
                    #[trigger] desks.deep_view()[b]).name,
            decreases desks.len() - j,
        {
            let mut i: usize = 0;
            while i < j
                invariant
                    i <= j < desks.len(),
                    forall|a: int|
                        0 <= a < i ==> (#[trigger] desks.deep_view()[a]).name
                            != desks.deep_view()[j as int].name,
                decreases j - i,
            {
                if desks[i].name == desks[j].name {
                    assert(desks.deep_view()[i as int].name == desks.deep_view()[j as int].name);
                    return false;
                }
                i += 1;
            }
            j += 1;
        }
        true
    }

    /// Whether no two of `ids` are equal.
    fn ids_distinct(ids: &Vec<i32>) -> (distinct: bool)
        ensures
            distinct == forall|i: int, j: int|
                0 <= i < j < ids.len() ==> #[trigger] ids[i] != #[trigger] ids[j],
    {
        let mut j: usize = 0;
        while j < ids.len()
            invariant
                j <= ids.len(),
                forall|a: int, b: int| 0 <= a < b < j ==> #[trigger] ids[a] != #[trigger] ids[b],
            decreases ids.len() - j,
        {
            let mut i: usize = 0;
            while i < j
                invariant
                    i <= j < ids.len(),
                    forall|a: int| 0 <= a < i ==> #[trigger] ids[a] != ids[j as int],
                decreases j - i,
            {
                if ids[i] == ids[j] {
                    return false;
                }
                i += 1;
            }
            j += 1;
        }
        true
    }

    /// The largest of `ids`, or 0 where none is above it.
    fn largest_id(ids: &Vec<i32>) -> (last: i32)
        ensures
            last == largest(ids@),
    {
        let mut last: i32 = 0;
        let mut i: usize = 0;
        while i < ids.len()
            invariant
                i <= ids.len(),
                last == largest(ids@.take(i as int)),
            decreases ids.len() - i,
        {
            proof {
                assert(ids@.take(i + 1).drop_last() =~= ids@.take(i as int));
            }
            if ids[i] > last {
                last = ids[i];
            }
            i += 1;
        }
        proof {
            assert(ids@.take(i as int) =~= ids@);
        }
        last
    }

    /// The ids of `dishes`, in order.
    fn dish_ids(dishes: &Vec<Dish>) -> (ids: Vec<i32>)
        ensures
            ids@ == dishes.deep_view().map_values(|row: DishView| row.id),
    {
        let mut ids: Vec<i32> = Vec::new();
        let mut i: usize = 0;
        while i < dishes.len()
            invariant
                i <= dishes.len(),
                ids.len() == i,
                forall|k: int| 0 <= k < i ==> #[trigger] ids[k] == dishes[k].id,
            decreases dishes.len() - i,
        {
            ids.push(dishes[i].id);
            i += 1;
        }
        ids
    }

    /// The ids of `species`, in order.
    fn species_ids(species: &Vec<Species>) -> (ids: Vec<i32>)
        ensures
            ids@ == species.deep_view().map_values(|row: SpeciesView| row.id),
    {
        let mut ids: Vec<i32> = Vec::new();
        let mut i: usize = 0;
        while i < species.len()
            invariant
                i <= species.len(),
                ids.len() == i,
                forall|k: int| 0 <= k < i ==> #[trigger] ids[k] == species[k].id,
            decreases species.len() - i,
        {
            ids.push(species[i].id);
            i += 1;
        }
        ids
    }

    /// The ids of `sessions`, in order.
    fn session_ids(sessions: &Vec<Session>) -> (ids: Vec<i32>)
        ensures
            ids@ == sessions.deep_view().map_values(|row: SessionView| row.id),
    {
        let mut ids: Vec<i32> = Vec::new();
        let mut i: usize = 0;
        while i < sessions.len()
            invariant
                i <= sessions.len(),
                ids.len() == i,
                forall|k: int| 0 <= k < i ==> #[trigger] ids[k] == sessions[k].id,
            decreases sessions.len() - i,
        {
            ids.push(sessions[i].id);
            i += 1;
        }
        ids
    }

    /// The ids of `requests`, in order.
    fn request_ids(requests: &Vec<Request>) -> (ids: Vec<i32>)
        ensures
            ids@ == requests.deep_view().map_values(|row: RequestView| row.id),
    {
        let mut ids: Vec<i32> = Vec::new();
        let mut i: usize = 0;
        while i < requests.len()
            invariant
                i <= requests.len(),
                ids.len() == i,
                forall|k: int| 0 <= k < i ==> #[trigger] ids[k] == requests[k].id,
            decreases requests.len() - i,
        {
            ids.push(requests[i].id);
            i += 1;
        }
        ids
    }

    /// Builds a store from the rows of its tables, as long as every table
    /// honours its primary key: no two desks share a name, and within the
    /// dishes, the species, the sessions and the requests no two rows share an
    /// id. The next id of each table follows the largest one present.
    pub fn from_rows(
        desks: Vec<Desk>,
        dishes: Vec<Dish>,
        species: Vec<Species>,
        sessions: Vec<Session>,
        requests: Vec<Request>,
        admins: Vec<Admin>,
    ) -> (store: Option<Store>)
        ensures
            store is Some == Tables::of_rows(
                desks.deep_view(),
                dishes.deep_view(),
                species.deep_view(),
                sessions.deep_view(),
                requests.deep_view(),
                admins.deep_view(),
            ).wf(),
            store matches Some(built) ==> built@ == Tables::of_rows(
                desks.deep_view(),
                dishes.deep_view(),
                species.deep_view(),
                sessions.deep_view(),
                requests.deep_view(),
                admins.deep_view(),
            ),
    {
        let ghost rows = Tables::of_rows(
            desks.deep_view(),
            dishes.deep_view(),
            species.deep_view(),
            sessions.deep_view(),
            requests.deep_view(),
            admins.deep_view(),
        );
        proof {
            reveal(Tables::wf);
            lemma_keys(rows.dishes, |row: DishView| row.id);
            lemma_keys(rows.species, |row: SpeciesView| row.id);
            lemma_keys(rows.sessions, |row: SessionView| row.id);
            lemma_keys(rows.requests, |row: RequestView| row.id);
        }
        let dish_ids = Store::dish_ids(&dishes);
        let species_ids = Store::species_ids(&species);
        let session_ids = Store::session_ids(&sessions);
        let request_ids = Store::request_ids(&requests);
        if !Store::names_distinct(&desks) {
            assert(rows.desks == desks.deep_view());
            return None;
        }
        if !Store::ids_distinct(&dish_ids) {
            return None;
        }
        if !Store::ids_distinct(&species_ids) {
            return None;
        }
        if !Store::ids_distinct(&session_ids) {
            return None;
        }
        if !Store::ids_distinct(&request_ids) {
            return None;
        }
        let built = Store {
            desks,
            dishes,
            species,
            sessions,
            requests,
            admins,
            last_dish: Store::largest_id(&dish_ids),
            last_species: Store::largest_id(&species_ids),
            last_session: Store::largest_id(&session_ids),
            last_request: Store::largest_id(&request_ids),
        };
        Some(built)
    }

    /// The id that the next dish receives, or `None` where none is left.
    pub fn next_dish_id(&self) -> (id: Option<i32>)
        ensures
            id == if self@.last_dish < i32::MAX {
                Some(self@.next_dish_id())
            } else {
                None
            },
    {
        self.last_dish.checked_add(1)
    }

    /// The id that the next species receives, or `None` where none is left.
    pub fn next_species_id(&self) -> (id: Option<i32>)
        ensures
            id == if self@.last_species < i32::MAX {
                Some(self@.next_species_id())
            } else {
                None
            },
    {
        self.last_species.checked_add(1)
    }

    /// The id that the next session receives, or `None` where none is left.
    pub fn next_session_id(&self) -> (id: Option<i32>)
        ensures
            id == if self@.last_session < i32::MAX {
                Some(self@.next_session_id())
            } else {
                None
            },
    {
        self.last_session.checked_add(1)
    }

    /// The id that the next request receives, or `None` where none is left.
    pub fn next_request_id(&self) -> (id: Option<i32>)
        ensures
            id == if self@.last_request < i32::MAX {
                Some(self@.next_request_id())
            } else {
                None
            },
    {
        self.last_request.checked_add(1)
    }

    /// Whether at most one open session sits at any desk.
    pub fn exclusive(&self) -> (holds: bool)
        ensures
            holds == self@.exclusive(),
    {
        let mut j: usize = 0;
        while j < self.sessions.len()
            invariant
                j <= self.sessions.len(),
                forall|a: int, b: int|
                    0 <= a < b < j && (#[trigger] self@.sessions[a]).is_open() && (
                    #[trigger] self@.sessions[b]).is_open() ==> self@.sessions[a].desk
                        != self@.sessions[b].desk,
            decreases self.sessions.len() - j,
        {
            if self.sessions[j].state == OPEN {
                let mut i: usize = 0;
                while i < j
                    invariant
                        i <= j < self.sessions.len(),
                        self@.sessions[j as int].is_open(),
                        forall|a: int|
                            0 <= a < i && (#[trigger] self@.sessions[a]).is_open()
                                ==> self@.sessions[a].desk != self@.sessions[j as int].desk,
                    decreases j - i,
                {
                    if self.sessions[i].state == OPEN && self.sessions[i].desk
                        == self.sessions[j].desk {
                        assert(self@.sessions[i as int].is_open());
                        return false;
                    }
                    i += 1;
                }
            }
            j += 1;
        }
        true
    }

    /// The position of the desk named `name`.
    pub(crate) fn find_desk(&self, name: &String) -> (found: Option<usize>)
        ensures
            found is Some == any(self@.desks, desk_named(name@)),
            found matches Some(i) ==> i == first(self@.desks, desk_named(name@)) && i
                < self.desks.len(),
    {
        let mut i: usize = 0;
        while i < self.desks.len()
            invariant
                i <= self.desks.len(),
                forall|j: int| 0 <= j < i ==> !desk_named(name@)(#[trigger] self@.desks[j]),
            decreases self.desks.len() - i,
        {
            if self.desks[i].name == *name {
                proof {
                    lemma_first_is(self@.desks, desk_named(name@), i as int);
                }
                return Some(i);
            }
            i += 1;
        }
        None
    }
    /// The position of the dish with id `id`.
    pub(crate) fn find_dish(&self, id: i32) -> (found: Option<usize>)
        ensures
            found is Some == any(self@.dishes, dish_with(id)),
            found matches Some(i) ==> i == first(self@.dishes, dish_with(id)) && i
                < self.dishes.len(),
    {
        let mut i: usize = 0;
        while i < self.dishes.len()
            invariant
                i <= self.dishes.len(),
                forall|j: int| 0 <= j < i ==> !dish_with(id)(#[trigger] self@.dishes[j]),
            decreases self.dishes.len() - i,
        {
            if self.dishes[i].id == id {
                proof {
                    lemma_first_is(self@.dishes, dish_with(id), i as int);
                }
                return Some(i);
            }
            i += 1;
        }
        None
    }

    /// The position of the species with id `id`.
    pub(crate) fn find_species(&self, id: i32) -> (found: Option<usize>)
        ensures
            found is Some == any(self@.species, species_with(id)),
            found matches Some(i) ==> i == first(self@.species, species_with(id)) && i
                < self.species.len(),
    {
        let mut i: usize = 0;
        while i < self.species.len()
            invariant
                i <= self.species.len(),
                forall|j: int| 0 <= j < i ==> !species_with(id)(#[trigger] self@.species[j]),
            decreases self.species.len() - i,
        {
            if self.species[i].id == id {
                proof {
                    lemma_first_is(self@.species, species_with(id), i as int);
                }
                return Some(i);
            }
            i += 1;
        }
        None
    }

    /// The position of the first species named `name`.
    pub(crate) fn find_species_named(&self, name: &String) -> (found: Option<usize>)
        ensures
            found is Some == any(self@.species, species_named(name@)),
            found matches Some(i) ==> i == first(self@.species, species_named(name@)) && i
                < self.species.len(),
    {
        let mut i: usize = 0;
        while i < self.species.len()
            invariant
                i <= self.species.len(),
                forall|j: int| 0 <= j < i ==> !species_named(name@)(#[trigger] self@.species[j]),
            decreases self.species.len() - i,
        {
            if self.species[i].name == *name {
                proof {
                    lemma_first_is(self@.species, species_named(name@), i as int);
                }
                return Some(i);
            }
            i += 1;
        }
        None
    }

    /// The position of the session with id `id`.
    pub(crate) fn find_session(&self, id: i32) -> (found: Option<usize>)
        ensures
            found is Some == any(self@.sessions, session_with(id)),
            found matches Some(i) ==> i == first(self@.sessions, session_with(id)) && i
                < self.sessions.len(),
    {
        let mut i: usize = 0;
        while i < self.sessions.len()
            invariant
                i <= self.sessions.len(),
                forall|j: int| 0 <= j < i ==> !session_with(id)(#[trigger] self@.sessions[j]),
            decreases self.sessions.len() - i,
        {
            if self.sessions[i].id == id {
                proof {
                    lemma_first_is(self@.sessions, session_with(id), i as int);
                }
                return Some(i);
            }
            i += 1;
        }
        None
    }

    /// The position of the session with id `id`, if it is open.
    pub(crate) fn find_open_session(&self, id: i32) -> (found: Option<usize>)
        ensures
            found is Some == any(self@.sessions, open_session_with(id)),
            found matches Some(i) ==> i == first(self@.sessions, open_session_with(id)) && i
                < self.sessions.len(),
    {
        let mut i: usize = 0;
        while i < self.sessions.len()
            invariant
                i <= self.sessions.len(),
                forall|j: int| 0 <= j < i ==> !open_session_with(id)(#[trigger] self@.sessions[j]),
            decreases self.sessions.len() - i,
        {
            if self.sessions[i].id == id && self.sessions[i].state == OPEN {
                proof {
                    lemma_first_is(self@.sessions, open_session_with(id), i as int);
                }
                return Some(i);
            }
            i += 1;
        }
        None
    }

    /// The position of the first open session at the desk named `desk`.
    pub(crate) fn find_open_at(&self, desk: &String) -> (found: Option<usize>)
        ensures
            found is Some == any(self@.sessions, open_at(desk@)),
            found matches Some(i) ==> i == first(self@.sessions, open_at(desk@)) && i
                < self.sessions.len(),
    {
        let mut i: usize = 0;
        while i < self.sessions.len()
            invariant
                i <= self.sessions.len(),
                forall|j: int| 0 <= j < i ==> !open_at(desk@)(#[trigger] self@.sessions[j]),
            decreases self.sessions.len() - i,
        {
            if self.sessions[i].state == OPEN && self.sessions[i].desk == *desk {
                proof {
                    lemma_first_is(self@.sessions, open_at(desk@), i as int);
                }
                return Some(i);
            }
            i += 1;
        }
        None
    }

    /// The position of the request with id `id`.
    pub(crate) fn find_request(&self, id: i32) -> (found: Option<usize>)
        ensures
            found is Some == any(self@.requests, request_with(id)),
            found matches Some(i) ==> i == first(self@.requests, request_with(id)) && i
                < self.requests.len(),
    {
        let mut i: usize = 0;
        while i < self.requests.len()
            invariant
                i <= self.requests.len(),
                forall|j: int| 0 <= j < i ==> !request_with(id)(#[trigger] self@.requests[j]),
            decreases self.requests.len() - i,
        {
            if self.requests[i].id == id {
                proof {
                    lemma_first_is(self@.requests, request_with(id), i as int);
                }
                return Some(i);
            }
            i += 1;
        }
        None
    }

    /// The position of the first administrator `id` with secret `secret`.
    pub(crate) fn find_admin(&self, id: &String, secret: &String) -> (found: Option<usize>)
        ensures
            found is Some == any(self@.admins, admin_with(id@, secret@)),
            found matches Some(i) ==> i == first(self@.admins, admin_with(id@, secret@)) && i
                < self.admins.len(),
    {
        let mut i: usize = 0;
        while i < self.admins.len()
            invariant
                i <= self.admins.len(),
                forall|j: int| 0 <= j < i ==> !admin_with(id@, secret@)(#[trigger] self@.admins[j]),
            decreases self.admins.len() - i,
        {
            if self.admins[i].id == *id && self.admins[i].secret == *secret {
                proof {
                    lemma_first_is(self@.admins, admin_with(id@, secret@), i as int);
                }
                return Some(i);
            }
            i += 1;
        }
        None
    }
}

} // verus!
