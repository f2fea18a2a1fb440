use demeter::callback_result::Result;
use demeter::desk::Desk;
use demeter::session::{
    change_desk, change_desk_by_desk, end, end_by_desk, start, Session, CLOSED, NOT_ENDED, OPEN,
};
use demeter::store::Store;

fn text(s: &str) -> String {
    s.to_string()
}

fn two_desks() -> Store {
    let mut store = Store::new();
    Desk::create(&mut store, text("T1"), 4);
    Desk::create(&mut store, text("T2"), 2);
    store
}

#[test]
fn session_states_and_the_open_end_have_their_numbers() {
    assert_eq!(OPEN, 1);
    assert_eq!(CLOSED, 0);
    assert_eq!(NOT_ENDED, -1);
}

#[test]
fn start_opens_a_session_at_a_free_desk() {
    let mut store = two_desks();
    assert_eq!(start(&mut store, text("T1"), 1000), Result::Success);
    assert_eq!(
        Session::fetch_all(&store),
        vec![Session { id: 1, start: 1000, end: -1, desk: text("T1"), state: 1 }]
    );
}

#[test]
fn start_at_an_unknown_desk_does_not_exist() {
    let mut store = two_desks();
    assert_eq!(start(&mut store, text("T9"), 1000), Result::DoesntExist);
    assert!(Session::fetch_all(&store).is_empty());
}

#[test]
fn start_twice_in_sequence_is_refused_the_second_time() {
    let mut store = two_desks();
    assert_eq!(start(&mut store, text("T1"), 1000), Result::Success);
    assert_eq!(start(&mut store, text("T1"), 1001), Result::TableOccupied);
    assert_eq!(Session::fetch_all(&store).len(), 1);
    assert!(store.exclusive());
}

#[test]
fn start_hands_out_ids_in_sequence() {
    let mut store = two_desks();
    assert_eq!(store.next_session_id(), Some(1));
    start(&mut store, text("T1"), 10);
    assert_eq!(store.next_session_id(), Some(2));
    start(&mut store, text("T2"), 11);
    assert_eq!(store.next_session_id(), Some(3));
    assert_eq!(Session::fetch(&store, 2).map(|s| s.desk), Some(text("T2")));
}

#[test]
fn start_after_end_reuses_the_desk_but_not_the_id() {
    let mut store = two_desks();
    start(&mut store, text("T1"), 10);
    assert_eq!(end(&mut store, 1, 20), Result::Success);
    assert_eq!(start(&mut store, text("T1"), 30), Result::Success);
    assert_eq!(
        Session::fetch_all(&store),
        vec![
            Session { id: 1, start: 10, end: 20, desk: text("T1"), state: 0 },
            Session { id: 2, start: 30, end: -1, desk: text("T1"), state: 1 },
        ]
    );
    assert!(store.exclusive());
}

#[test]
fn end_closes_an_open_session() {
    let mut store = two_desks();
    start(&mut store, text("T1"), 10);
    assert_eq!(end(&mut store, 1, 25), Result::Success);
    assert_eq!(
        Session::fetch(&store, 1),
        Some(Session { id: 1, start: 10, end: 25, desk: text("T1"), state: 0 })
    );
    assert_eq!(Desk::fetch_open_session(&store, &text("T1")), None);
}

#[test]
fn end_of_an_unknown_session_does_not_exist() {
    let mut store = two_desks();
    start(&mut store, text("T1"), 10);
    assert_eq!(end(&mut store, 7, 25), Result::DoesntExist);
    assert_eq!(Session::fetch_all_open(&store).len(), 1);
}

#[test]
fn end_of_a_closed_session_does_not_exist() {
    let mut store = two_desks();
    start(&mut store, text("T1"), 10);
    assert_eq!(end(&mut store, 1, 25), Result::Success);
    assert_eq!(end(&mut store, 1, 30), Result::DoesntExist);
    assert_eq!(Session::fetch(&store, 1).map(|s| s.end), Some(25));
}

#[test]
fn end_by_desk_closes_the_session_at_the_desk() {
    let mut store = two_desks();
    start(&mut store, text("T1"), 10);
    start(&mut store, text("T2"), 11);
    assert_eq!(end_by_desk(&mut store, text("T2"), 40), Result::Success);
    assert_eq!(
        Session::fetch_all(&store),
        vec![
            Session { id: 1, start: 10, end: -1, desk: text("T1"), state: 1 },
            Session { id: 2, start: 11, end: 40, desk: text("T2"), state: 0 },
        ]
    );
}

#[test]
fn end_by_desk_twice_is_unoccupied_the_second_time() {
    let mut store = two_desks();
    start(&mut store, text("T1"), 10);
    assert_eq!(end_by_desk(&mut store, text("T1"), 20), Result::Success);
    assert_eq!(end_by_desk(&mut store, text("T1"), 21), Result::TableUnoccupied);
    assert_eq!(Session::fetch(&store, 1).map(|s| s.end), Some(20));
}

#[test]
fn end_by_desk_at_a_free_desk_is_unoccupied() {
    let mut store = two_desks();
    assert_eq!(end_by_desk(&mut store, text("T1"), 20), Result::TableUnoccupied);
}

#[test]
fn end_by_desk_at_an_unknown_desk_does_not_exist() {
    let mut store = two_desks();
    assert_eq!(end_by_desk(&mut store, text("T9"), 20), Result::DoesntExist);
}

#[test]
fn change_desk_moves_an_open_session() {
    let mut store = two_desks();
    start(&mut store, text("T1"), 10);
    assert_eq!(change_desk(&mut store, 1, text("T2")), Result::Success);
    assert_eq!(
        Session::fetch(&store, 1),
        Some(Session { id: 1, start: 10, end: -1, desk: text("T2"), state: 1 })
    );
    assert!(store.exclusive());
}

#[test]
fn change_desk_of_a_closed_or_unknown_session_does_not_exist() {
    let mut store = two_desks();
    start(&mut store, text("T1"), 10);
    end(&mut store, 1, 20);
    assert_eq!(change_desk(&mut store, 1, text("T2")), Result::DoesntExist);
    assert_eq!(change_desk(&mut store, 5, text("T2")), Result::DoesntExist);
    assert_eq!(Session::fetch(&store, 1).map(|s| s.desk), Some(text("T1")));
}

#[test]
fn change_desk_does_not_look_at_the_occupancy_of_the_target() {
    let mut store = two_desks();
    start(&mut store, text("T1"), 10);
    start(&mut store, text("T2"), 11);
    assert!(store.exclusive());
    assert_eq!(change_desk(&mut store, 1, text("T2")), Result::Success);
    assert_eq!(Session::fetch(&store, 1).map(|s| s.desk), Some(text("T2")));
    assert!(!store.exclusive());
}

#[test]
fn change_desk_to_its_own_desk_keeps_the_desks_exclusive() {
    let mut store = two_desks();
    start(&mut store, text("T1"), 10);
    assert_eq!(change_desk(&mut store, 1, text("T1")), Result::Success);
    assert!(store.exclusive());
}

#[test]
fn change_desk_by_desk_moves_to_a_free_desk() {
    let mut store = two_desks();
    start(&mut store, text("T1"), 10);
    assert_eq!(change_desk_by_desk(&mut store, text("T1"), text("T2")), Result::Success);
    assert_eq!(
        Session::fetch_all(&store),
        vec![Session { id: 1, start: 10, end: -1, desk: text("T2"), state: 1 }]
    );
    assert_eq!(Desk::fetch_open_session(&store, &text("T1")), None);
    assert!(store.exclusive());
}

#[test]
fn change_desk_by_desk_between_occupied_desks_is_refused() {
    let mut store = two_desks();
    start(&mut store, text("T1"), 10);
    start(&mut store, text("T2"), 11);
    assert_eq!(
        change_desk_by_desk(&mut store, text("T1"), text("T2")),
        Result::TableOccupied
    );
    assert_eq!(Session::fetch(&store, 1).map(|s| s.desk), Some(text("T1")));
    assert_eq!(Session::fetch(&store, 2).map(|s| s.desk), Some(text("T2")));
    assert!(store.exclusive());
}

#[test]
fn change_desk_by_desk_from_a_free_desk_does_not_exist() {
    let mut store = two_desks();
    start(&mut store, text("T2"), 11);
    assert_eq!(
        change_desk_by_desk(&mut store, text("T1"), text("T2")),
        Result::DoesntExist
    );
    assert_eq!(
        change_desk_by_desk(&mut store, text("T9"), text("T1")),
        Result::DoesntExist
    );
}

#[test]
fn change_desk_by_desk_onto_itself_is_refused() {
    let mut store = two_desks();
    start(&mut store, text("T1"), 10);
    assert_eq!(
        change_desk_by_desk(&mut store, text("T1"), text("T1")),
        Result::TableOccupied
    );
}

#[test]
fn session_create_stores_what_it_is_given() {
    let mut store = Store::new();
    assert_eq!(Session::create(&mut store, 3, 9, text("anywhere"), 0), Result::Success);
    assert_eq!(
        Session::fetch(&store, 1),
        Some(Session { id: 1, start: 3, end: 9, desk: text("anywhere"), state: 0 })
    );
}

#[test]
fn session_edit_replaces_every_field_but_the_id() {
    let mut store = two_desks();
    start(&mut store, text("T1"), 10);
    start(&mut store, text("T2"), 11);
    assert_eq!(Session::edit(&mut store, 2, 5, 6, text("T1"), 0), Result::Success);
    assert_eq!(
        Session::fetch_all(&store),
        vec![
            Session { id: 1, start: 10, end: -1, desk: text("T1"), state: 1 },
            Session { id: 2, start: 5, end: 6, desk: text("T1"), state: 0 },
        ]
    );
}

#[test]
fn session_edit_of_an_unknown_session_does_not_exist() {
    let mut store = two_desks();
    assert_eq!(Session::edit(&mut store, 1, 5, 6, text("T1"), 0), Result::DoesntExist);
    assert!(Session::fetch_all(&store).is_empty());
}

#[test]
fn session_fetch_only_open_hides_closed_sessions() {
    let mut store = two_desks();
    start(&mut store, text("T1"), 10);
    start(&mut store, text("T2"), 11);
    end(&mut store, 1, 20);
    assert_eq!(Session::fetch_only_open(&store, 1), None);
    assert_eq!(Session::fetch_only_open(&store, 3), None);
    assert_eq!(
        Session::fetch_only_open(&store, 2),
        Some(Session { id: 2, start: 11, end: -1, desk: text("T2"), state: 1 })
    );
    assert!(Session::fetch(&store, 1).is_some());
}

#[test]
fn session_fetch_all_open_lists_the_open_sessions_in_order() {
    let mut store = two_desks();
    Desk::create(&mut store, text("T3"), 8);
    start(&mut store, text("T1"), 10);
    start(&mut store, text("T2"), 11);
    start(&mut store, text("T3"), 12);
    end(&mut store, 2, 20);
    let open = Session::fetch_all_open(&store);
    assert_eq!(
        open,
        vec![
            Session { id: 1, start: 10, end: -1, desk: text("T1"), state: 1 },
            Session { id: 3, start: 12, end: -1, desk: text("T3"), state: 1 },
        ]
    );
    assert_eq!(Session::fetch_all(&store).len(), 3);
}

#[test]
fn a_state_other_than_one_counts_as_closed() {
    let mut store = Store::new();
    Session::create(&mut store, 1, -1, text("T1"), 2);
    assert_eq!(Session::fetch_only_open(&store, 1), None);
    assert!(Session::fetch_all_open(&store).is_empty());
    assert_eq!(Desk::fetch_open_session(&store, &text("T1")), None);
}

#[test]
fn the_transitions_keep_the_desks_exclusive() {
    let mut store = two_desks();
    Desk::create(&mut store, text("T3"), 8);
    start(&mut store, text("T1"), 1);
    assert!(store.exclusive());
    start(&mut store, text("T1"), 2);
    assert!(store.exclusive());
    start(&mut store, text("T2"), 3);
    assert!(store.exclusive());
    change_desk_by_desk(&mut store, text("T1"), text("T2"));
    assert!(store.exclusive());
    change_desk_by_desk(&mut store, text("T1"), text("T3"));
    assert!(store.exclusive());
    end_by_desk(&mut store, text("T3"), 4);
    assert!(store.exclusive());
    start(&mut store, text("T3"), 5);
    assert!(store.exclusive());
    end(&mut store, 2, 6);
    assert!(store.exclusive());
    assert_eq!(
        Session::fetch_all_open(&store)
            .iter()
            .map(|s| s.desk.clone())
            .collect::<Vec<String>>(),
        vec![text("T3")]
    );
}

#[test]
fn start_is_refused_without_an_id_where_none_is_needed() {
    let mut store = Store::from_rows(
        vec![Desk { name: text("T1"), capacity: 4 }],
        vec![],
        vec![],
        vec![Session { id: i32::MAX, start: 1, end: NOT_ENDED, desk: text("T1"), state: OPEN }],
        vec![],
        vec![],
    )
    .unwrap();
    assert_eq!(store.next_session_id(), None);
    assert_eq!(start(&mut store, text("T1"), 2), Result::TableOccupied);
    assert_eq!(start(&mut store, text("T9"), 2), Result::DoesntExist);
    assert_eq!(end_by_desk(&mut store, text("T1"), 3), Result::Success);
    assert_eq!(
        Session::fetch(&store, i32::MAX),
        Some(Session { id: i32::MAX, start: 1, end: 3, desk: text("T1"), state: CLOSED })
    );
}
