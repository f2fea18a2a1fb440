//! Requests: the orders placed during a session and their validation.

use vstd::prelude::*;
use crate::callback_result::Result;
use crate::codec::{
    json_of_selection, percent_decoded, selection_from_json, selection_of_json,
    selection_to_json, variants_from_json, variants_of_json,
};
use crate::desk::Desk;
use crate::laws::law_create_then_fetch;
use crate::utils::decode_uri;
use crate::dish::{size_options, Dish};
use crate::store::{dish_with, lemma_first_holds, request_with, Store, Tables};

verus! {

/// Whether `selection` fits the variant groups `groups`: it has one choice per
/// group, and each choice that is present names an option of its group. An
/// absent choice fits any group, exclusive or not.
pub open spec fn selection_fits(
    groups: Seq<(bool, Seq<Seq<char>>)>,
    selection: Seq<Option<usize>>,
) -> bool {
    &&& selection.len() == groups.len()
    &&& forall|i: int|
        0 <= i < groups.len() ==> ((#[trigger] selection[i]) matches Some(option) ==> option
            < groups[i].1.len())
}

/// Whether `size` names one of the size labels listed in `sizes`.
pub open spec fn size_fits(sizes: Seq<char>, size: i32) -> bool {
    0 <= size < size_options(sizes).len()
}

/// What the catalog says of a request.
impl Tables {
    /// Whether the catalog entry of `dish` can be read: the dish is stored
    /// and its variant groups are well-formed JSON.
    pub open spec fn catalog_readable(self, dish: i32) -> bool {
        self.dish(dish) matches Some(entry) && variants_of_json(entry.variants) is Some
    }

    /// The variant groups of `dish`.
    pub open spec fn variant_groups(self, dish: i32) -> Seq<(bool, Seq<Seq<char>>)> {
        variants_of_json(self.dish(dish).unwrap().variants).unwrap()
    }

    /// Whether `selection` fits the variant groups of `dish`.
    pub open spec fn selection_valid(self, dish: i32, selection: Seq<Option<usize>>) -> bool {
        selection_fits(self.variant_groups(dish), selection)
    }

    /// Whether `size` names one of the sizes of `dish`.
    pub open spec fn size_valid(self, dish: i32, size: i32) -> bool {
        size_fits(self.dish(dish).unwrap().sizes, size)
    }

    /// The outcome of admitting a request for `dish` with `selection` and
    /// `size`. The selection is judged first.
    pub open spec fn admission(
        self,
        dish: i32,
        selection: Seq<Option<usize>>,
        size: i32,
    ) -> Result {
        if !self.selection_valid(dish, selection) {
            Result::VariantDoesntExist
        } else if !self.size_valid(dish, size) {
            Result::SizeDoesntExist
        } else {
            Result::Success
        }
    }
}

/// The state of a request that waits for the kitchen.
pub const PENDING: i32 = 0;

/// The state of a request that the kitchen works on.
pub const IN_KITCHEN: i32 = 1;

/// The state of a request that was served.
pub const COMPLETED: i32 = 2;

/// A diner's order of one dish. `variant` holds the JSON text of the selection,
/// one optional option index per variant group of the dish. `state` is
/// [`PENDING`], [`IN_KITCHEN`] or [`COMPLETED`]; the engine stores the state
/// that it is given and enforces no order among them.
#[derive(Debug, PartialEq, Eq)]
pub struct Request {
    pub id: i32,
    pub session: i32,
    pub dish: i32,
    pub variant: String,
    pub size: i32,
    pub comment: String,
    pub state: i32,
}

/// The mathematical value of a [`Request`].
pub struct RequestView {
    pub id: i32,
    pub session: i32,
    pub dish: i32,
    pub variant: Seq<char>,
    pub size: i32,
    pub comment: Seq<char>,
    pub state: i32,
}

impl View for Request {
    type V = RequestView;

    open spec fn view(&self) -> RequestView {
        RequestView {
            id: self.id,
            session: self.session,
            dish: self.dish,
            variant: self.variant@,
            size: self.size,
            comment: self.comment@,
            state: self.state,
        }
    }
}

impl DeepView for Request {
    type V = RequestView;

    open spec fn deep_view(&self) -> RequestView {
        self@
    }
}

impl Clone for Request {
    fn clone(&self) -> (copy: Self)
        ensures
            copy@ == self@,
    {
        Request {
            id: self.id,
            session: self.session,
            dish: self.dish,
            variant: self.variant.clone(),
            size: self.size,
            comment: self.comment.clone(),
            state: self.state,
        }
    }
}

/// The requests that a desk sends: each is heard only if the desk is stored,
/// and is given up where the store cannot carry it out.
impl Tables {
    /// The outcome of placing an order from the desk `table`: `None` where
    /// the order is given up, because the selection is not JSON, the comment
    /// does not decode, the catalog entry of the dish cannot be read, or the
    /// request is valid and no id is left for it; otherwise `NoSession` where
    /// the desk is not stored or no session is open at it, and else what the
    /// catalog says of the selection and the size.
    pub open spec fn order_outcome(
        self,
        table: Seq<char>,
        dish: i32,
        variant: Seq<char>,
        size: i32,
        comment: Seq<char>,
    ) -> Option<Result> {
        if selection_of_json(variant) is None {
            None
        } else if !self.has_desk(table) || !self.occupied(table) {
            Some(Result::NoSession)
        } else if percent_decoded(comment) is None || !self.catalog_readable(dish) {
            None
        } else if self.admission(dish, selection_of_json(variant).unwrap(), size)
            == Result::Success && self.last_request >= i32::MAX {
            None
        } else {
            Some(self.admission(dish, selection_of_json(variant).unwrap(), size))
        }
    }

    /// The store after placing an order from the desk `table`.
    pub open spec fn order(
        self,
        table: Seq<char>,
        dish: i32,
        variant: Seq<char>,
        size: i32,
        comment: Seq<char>,
        state: i32,
    ) -> Tables {
        if self.order_outcome(table, dish, variant, size, comment) == Some(Result::Success) {
            self.insert_request(
                self.open_session_for(table).unwrap().id,
                dish,
                json_of_selection(selection_of_json(variant).unwrap()),
                size,
                percent_decoded(comment).unwrap(),
                state,
            )
        } else {
            self
        }
    }

    /// The outcome of changing the request with id `request` from the desk
    /// `table`: `None` where the change is given up, because the selection is
    /// not JSON, the comment does not decode or the catalog entry of the
    /// request's dish cannot be read; otherwise `NoSession` where the desk is
    /// not stored, `DoesntExist` where the request is not stored, and else
    /// what the catalog says of the selection and the size.
    pub open spec fn amend_outcome(
        self,
        table: Seq<char>,
        request: i32,
        variant: Seq<char>,
        size: i32,
        comment: Seq<char>,
    ) -> Option<Result> {
        if selection_of_json(variant) is None {
            None
        } else if !self.has_desk(table) {
            Some(Result::NoSession)
        } else if percent_decoded(comment) is None {
            None
        } else {
            match self.request(request) {
                None => Some(Result::DoesntExist),
                Some(stored) => if self.catalog_readable(stored.dish) {
                    Some(self.admission(stored.dish, selection_of_json(variant).unwrap(), size))
                } else {
                    None
                },
            }
        }
    }

    /// The store after changing the request with id `request` from the desk
    /// `table`.
    pub open spec fn amend(
        self,
        table: Seq<char>,
        request: i32,
        variant: Seq<char>,
        size: i32,
        comment: Seq<char>,
        state: i32,
    ) -> Tables {
        if self.amend_outcome(table, request, variant, size, comment) == Some(Result::Success) {
            self.update_request(
                request,
                json_of_selection(selection_of_json(variant).unwrap()),
                size,
                percent_decoded(comment).unwrap(),
                state,
            )
        } else {
            self
        }
    }
}

impl Request {
    /// Whether the catalog entry of `dish` can be read: the dish is stored
    /// and its variant groups are well-formed JSON.
    pub fn catalog_readable(store: &Store, dish: i32) -> (readable: bool)
        ensures
            readable == store@.catalog_readable(dish),
    {
        match store.find_dish(dish) {
            Some(at) => {
                proof {
                    lemma_first_holds(store@.dishes, dish_with(dish));
                }
                Request::parse_variants(&store.dishes[at].variants).is_some()
            },
            None => false,
        }
    }

    /// Reads variant groups from their JSON text, or `None` where the text is
    /// not the JSON of a list of pairs of a flag and a list of labels.
    pub fn parse_variants(v: &String) -> (groups: Option<Vec<(bool, Vec<String>)>>)
        ensures
            groups.deep_view() == variants_of_json(v@),
    {
        match variants_from_json(v.as_str()) {
            Ok(groups) => Some(groups),
            Err(_) => None,
        }
    }

    /// Reads a selection from its JSON text, or `None` where the text is not
    /// the JSON of a list of optional indices.
    pub fn parse_variant_selection(v: &String) -> (selection: Option<Vec<Option<usize>>>)
        ensures
            match selection {
                Some(choices) => selection_of_json(v@) == Some(choices@),
                None => selection_of_json(v@) is None,
            },
    {
        match selection_from_json(v.as_str()) {
            Ok(choices) => Some(choices),
            Err(_) => None,
        }
    }

    /// Whether `selection` fits the variant groups `groups`.
    pub fn selection_fits(
        groups: &Vec<(bool, Vec<String>)>,
        selection: &Vec<Option<usize>>,
    ) -> (fits: bool)
        ensures
            fits == selection_fits(groups.deep_view(), selection@),
    {
        if groups.len() != selection.len() {
            return false;
        }
        let mut i: usize = 0;
        while i < groups.len()
            invariant
                i <= groups.len(),
                groups.len() == selection.len(),
                forall|k: int|
                    0 <= k < i ==> ((#[trigger] selection@[k]) matches Some(option) ==> option
                        < groups.deep_view()[k].1.len()),
            decreases groups.len() - i,
        {
            match selection[i] {
                Some(option) => {
                    if option >= groups[i].1.len() {
                        return false;
                    }
                },
                None => {},
            }
            i += 1;
        }
        true
    }

    /// Whether `variant` fits the variant groups of `dish`.
    pub fn check_variant(store: &Store, dish: i32, variant: &Vec<Option<usize>>) -> (valid: bool)
        requires
            store@.catalog_readable(dish),
        ensures
            valid == store@.selection_valid(dish, variant@),
    {
        proof {
            lemma_first_holds(store@.dishes, dish_with(dish));
        }
        let at = store.find_dish(dish).unwrap();
        let groups = Request::parse_variants(&store.dishes[at].variants).unwrap();
        Request::selection_fits(&groups, variant)
    }

    /// Whether `size` names one of the sizes of `dish`.
    pub fn check_size(store: &Store, dish: i32, size: i32) -> (valid: bool)
        requires
            store@.has_dish(dish),
        ensures
            valid == store@.size_valid(dish, size),
    {
        proof {
            lemma_first_holds(store@.dishes, dish_with(dish));
        }
        let at = store.find_dish(dish).unwrap();
        if size < 0 {
            return false;
        }
        let last = Dish::last_size(store.dishes[at].sizes.as_str());
        size as usize <= last
    }

    /// Whether `selection` and `size` are both valid for `dish`, or `None`
    /// where the catalog entry of the dish cannot be read: the dish is not
    /// stored, or its variant groups are not well-formed JSON.
    pub fn validate_selection(
        store: &Store,
        dish: i32,
        selection: &Vec<Option<usize>>,
        size: i32,
    ) -> (valid: Option<bool>)
        ensures
            valid == if store@.catalog_readable(dish) {
                Some(store@.selection_valid(dish, selection@) && store@.size_valid(dish, size))
            } else {
                None
            },
            valid == Some(true) <==> store@.catalog_readable(dish) && store@.admission(
                dish,
                selection@,
                size,
            ) == Result::Success,
    {
        if !Request::catalog_readable(store, dish) {
            return None;
        }
        let fits = Request::check_variant(store, dish, selection);
        Some(fits && Request::check_size(store, dish, size))
    }

    /// Admits a request into `session`: validates the selection and the size
    /// against the catalog entry of `dish` and, where both are valid, stores
    /// the request under the next id with the state given.
    pub fn create(
        store: &mut Store,
        session: i32,
        dish: i32,
        variant: Vec<Option<usize>>,
        size: i32,
        comment: String,
        state: i32,
    ) -> (outcome: Result)
        requires
            old(store)@.wf(),
            old(store)@.catalog_readable(dish),
            old(store)@.admission(dish, variant@, size) == Result::Success
                ==> old(store)@.last_request < i32::MAX,
        ensures
            final(store)@.wf(),
            outcome == old(store)@.admission(dish, variant@, size),
            final(store)@ == if outcome == Result::Success {
                old(store)@.insert_request(
                    session,
                    dish,
                    json_of_selection(variant@),
                    size,
                    comment@,
                    state,
                )
            } else {
                old(store)@
            },
            outcome == Result::Success ==> (final(store)@.request(
                old(store)@.next_request_id(),
            ) matches Some(stored) && stored.session == session && stored.dish == dish
                && selection_of_json(stored.variant) == Some(variant@) && stored.size == size
                && stored.comment == comment@ && stored.state == state),
    {
        proof {
            reveal(Tables::wf);
        }
        if !Request::check_variant(store, dish, &variant) {
            return Result::VariantDoesntExist;
        }
        if !Request::check_size(store, dish, size) {
            return Result::SizeDoesntExist;
        }
        let text = match selection_to_json(&variant) {
            Ok(text) => text,
            Err(_) => vstd::pervasive::unreached(),
        };
        let ghost before = store@;
        proof {
            law_create_then_fetch(before, session, dish, text@, size, comment@, state);
        }
        let id = store.last_request + 1;
        store.last_request = id;
        store.requests.push(Request { id, session, dish, variant: text, size, comment, state });
        proof {
            let after = before.insert_request(
                session,
                dish,
                json_of_selection(variant@),
                size,
                comment@,
                state,
            );
            assert(store@ =~= after);
        }
        Result::Success
    }

    /// Replaces the selection, size, comment and state of the request with id
    /// `request_id`, after validating the new selection and size against the
    /// catalog entry of the dish that the request was placed for.
    pub fn edit(
        store: &mut Store,
        request_id: i32,
        variant: Vec<Option<usize>>,
        size: i32,
        comment: String,
        state: i32,
    ) -> (outcome: Result)
        requires
            old(store)@.wf(),
            old(store)@.request(request_id) matches Some(request) ==> old(store)@.catalog_readable(
                request.dish,
            ),
        ensures
            final(store)@.wf(),
            outcome == match old(store)@.request(request_id) {
                Some(request) => old(store)@.admission(request.dish, variant@, size),
                None => Result::DoesntExist,
            },
            final(store)@ == if outcome == Result::Success {
                old(store)@.update_request(
                    request_id,
                    json_of_selection(variant@),
                    size,
                    comment@,
                    state,
                )
            } else {
                old(store)@
            },
    {
        proof {
            reveal(Tables::wf);
        }
        let at = match store.find_request(request_id) {
            Some(at) => at,
            None => {
                return Result::DoesntExist;
            },
        };
        proof {
            lemma_first_holds(store@.requests, request_with(request_id));
        }
        let dish = store.requests[at].dish;
        if !Request::check_variant(store, dish, &variant) {
            return Result::VariantDoesntExist;
        }
        if !Request::check_size(store, dish, size) {
            return Result::SizeDoesntExist;
        }
        let text = match selection_to_json(&variant) {
            Ok(text) => text,
            Err(_) => vstd::pervasive::unreached(),
        };
        let ghost before = store@;
        let session = store.requests[at].session;
        store.requests.set(
            at,
            Request { id: request_id, session, dish, variant: text, size, comment, state },
        );
        proof {
            let after = before.update_request(
                request_id,
                json_of_selection(variant@),
                size,
                comment@,
                state,
            );
            assert(store@ =~= after);
        }
        Result::Success
    }

    /// The request with id `request_id`, if it is stored.
    pub fn fetch(store: &Store, request_id: i32) -> (request: Option<Request>)
        ensures
            request.deep_view() == store@.request(request_id),
    {
        match store.find_request(request_id) {
            Some(at) => {
                proof {
                    lemma_first_holds(store@.requests, request_with(request_id));
                }
                Some(store.requests[at].clone())
            },
            None => None,
        }
    }

    /// Every request, in the order of the table.
    pub fn fetch_all(store: &Store) -> (requests: Vec<Request>)
        ensures
            requests.deep_view() == store@.requests,
    {
        let mut requests: Vec<Request> = Vec::new();
        let mut i: usize = 0;
        while i < store.requests.len()
            invariant
                i <= store.requests.len(),
                requests.len() == i,
                forall|k: int| 0 <= k < i ==> (#[trigger] requests[k])@ == store.requests[k]@,
            decreases store.requests.len() - i,
        {
            requests.push(store.requests[i].clone());
            i += 1;
        }
        requests
    }

    /// Removes the request with id `request_id`.
    pub fn delete(store: &mut Store, request_id: i32) -> (outcome: Result)
        requires
            old(store)@.wf(),
        ensures
            final(store)@.wf(),
            outcome == if old(store)@.has_request(request_id) {
                Result::Success
            } else {
                Result::DoesntExist
            },
            final(store)@ == if old(store)@.has_request(request_id) {
                old(store)@.remove_request(request_id)
            } else {
                old(store)@
            },
    {
        proof {
            reveal(Tables::wf);
        }
        match store.find_request(request_id) {
            Some(at) => {
                let ghost before = store@;
                store.requests.remove(at);
                proof {
                    assert(store@ =~= before.remove_request(request_id));
                }
                Result::Success
            },
            None => Result::DoesntExist,
        }
    }
}

/// Places an order from the desk named `table` into the session that is open
/// there. The desk has to be stored and occupied. `variant` is the JSON text
/// of the selection and `comment` a percent-encoded text. Returns `None`, and
/// leaves the store as it is, where the order has to be given up.
pub fn create(
    store: &mut Store,
    table: String,
    dish: i32,
    variant: String,
    size: i32,
    comment: String,
    state: i32,
) -> (outcome: Option<Result>)
    requires
        old(store)@.wf(),
    ensures
        final(store)@.wf(),
        outcome == old(store)@.order_outcome(table@, dish, variant@, size, comment@),
        final(store)@ == old(store)@.order(table@, dish, variant@, size, comment@, state),
{
    let selection = match Request::parse_variant_selection(&variant) {
        Some(selection) => selection,
        None => {
            return None;
        },
    };
    if Desk::fetch(store, &table).is_none() {
        return Some(Result::NoSession);
    }
    let session = match Desk::fetch_open_session(store, &table) {
        Some(session) => session,
        None => {
            return Some(Result::NoSession);
        },
    };
    let plain = match decode_uri(&comment) {
        Some(plain) => plain,
        None => {
            return None;
        },
    };
    if !Request::catalog_readable(store, dish) {
        return None;
    }
    if store.last_request == i32::MAX && Request::check_variant(store, dish, &selection)
        && Request::check_size(store, dish, size) {
        return None;
    }
    Some(Request::create(store, session.id, dish, selection, size, plain, state))
}

/// Changes the request with id `request_id` on behalf of the desk named
/// `table`, which has to be stored. `variant` is the JSON text of the
/// selection and `comment` a percent-encoded text. Returns `None`, and leaves
/// the store as it is, where the change has to be given up.
pub fn edit(
    store: &mut Store,
    table: String,
    request_id: i32,
    variant: String,
    size: i32,
    comment: String,
    state: i32,
) -> (outcome: Option<Result>)
    requires
        old(store)@.wf(),
    ensures
        final(store)@.wf(),
        outcome == old(store)@.amend_outcome(table@, request_id, variant@, size, comment@),
        final(store)@ == old(store)@.amend(table@, request_id, variant@, size, comment@, state),
{
    let selection = match Request::parse_variant_selection(&variant) {
        Some(selection) => selection,
        None => {
            return None;
        },
    };
    if Desk::fetch(store, &table).is_none() {
        return Some(Result::NoSession);
    }
    let plain = match decode_uri(&comment) {
        Some(plain) => plain,
        None => {
            return None;
        },
    };
    match Request::fetch(store, request_id) {
        Some(stored) => {
            if !Request::catalog_readable(store, stored.dish) {
                return None;
            }
        },
        None => {},
    }
    Some(Request::edit(store, request_id, selection, size, plain, state))
}

/// The request with id `request_id`, on behalf of the desk named `table`, or
/// `NoSession` where the desk is not stored.
pub fn fetch(store: &Store, table: String, request_id: i32) -> (found: core::result::Result<
    Option<Request>,
    Result,
>)
    ensures
        match found {
            Ok(request) => store@.has_desk(table@) && request.deep_view() == store@.request(
                request_id,
            ),
            Err(outcome) => !store@.has_desk(table@) && outcome == Result::NoSession,
        },
{
    match Desk::fetch(store, &table) {
        Some(_) => Ok(Request::fetch(store, request_id)),
        None => Err(Result::NoSession),
    }
}

/// Removes the request with id `request_id` on behalf of the desk named
/// `table`, which has to be stored.
pub fn delete(store: &mut Store, table: String, request_id: i32) -> (outcome: Result)
    requires
        old(store)@.wf(),
    ensures
        final(store)@.wf(),
        outcome == if !old(store)@.has_desk(table@) {
            Result::NoSession
        } else if old(store)@.has_request(request_id) {
            Result::Success
        } else {
            Result::DoesntExist
        },
        final(store)@ == if outcome == Result::Success {
            old(store)@.remove_request(request_id)
        } else {
            old(store)@
        },
{
    match Desk::fetch(store, &table) {
        Some(_) => Request::delete(store, request_id),
        None => Result::NoSession,
    }
}

} // verus!
