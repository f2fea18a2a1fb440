use demeter::callback_result::Result;
use demeter::desk::Desk;
use demeter::index;
use demeter::session::{start, Session};
use demeter::store::Store;

fn text(s: &str) -> String {
    s.to_string()
}

#[test]
fn index_returns_the_greeting() {
    assert_eq!(index(), "demeter at your service");
}

#[test]
fn every_outcome_is_named_after_its_tag() {
    assert_eq!(Result::Success.to_string(), "Success");
    assert_eq!(Result::DoesntExist.to_string(), "DoesntExist");
    assert_eq!(Result::Exists.to_string(), "Exists");
    assert_eq!(Result::TableOccupied.to_string(), "TableOccupied");
    assert_eq!(Result::TableUnoccupied.to_string(), "TableUnoccupied");
    assert_eq!(Result::VariantDoesntExist.to_string(), "VariantDoesntExist");
    assert_eq!(Result::SizeDoesntExist.to_string(), "SizeDoesntExist");
    assert_eq!(Result::NoPermission.to_string(), "NoPermission");
    assert_eq!(Result::NoSession.to_string(), "NoSession");
}

#[test]
fn a_new_store_is_empty() {
    let store = Store::new();
    assert!(Desk::fetch_all(&store).is_empty());
    assert!(Session::fetch_all(&store).is_empty());
    assert!(store.exclusive());
    assert_eq!(store.next_session_id(), Some(1));
    assert_eq!(store.next_dish_id(), Some(1));
    assert_eq!(store.next_species_id(), Some(1));
    assert_eq!(store.next_request_id(), Some(1));
}

#[test]
fn desk_create_stores_the_desk() {
    let mut store = Store::new();
    assert_eq!(Desk::create(&mut store, text("T1"), 4), Result::Success);
    assert_eq!(
        Desk::fetch(&store, &text("T1")),
        Some(Desk { name: text("T1"), capacity: 4 })
    );
}

#[test]
fn desk_create_refuses_a_name_twice() {
    let mut store = Store::new();
    assert_eq!(Desk::create(&mut store, text("T1"), 4), Result::Success);
    assert_eq!(Desk::create(&mut store, text("T1"), 8), Result::Exists);
    assert_eq!(
        Desk::fetch_all(&store),
        vec![Desk { name: text("T1"), capacity: 4 }]
    );
}

#[test]
fn desk_fetch_of_an_unknown_name_is_absent() {
    let mut store = Store::new();
    Desk::create(&mut store, text("T1"), 4);
    assert_eq!(Desk::fetch(&store, &text("T2")), None);
    assert_eq!(Desk::fetch(&store, &text("t1")), None);
}

#[test]
fn desk_fetch_all_keeps_the_order_of_creation() {
    let mut store = Store::new();
    Desk::create(&mut store, text("window"), 2);
    Desk::create(&mut store, text("bar"), 6);
    Desk::create(&mut store, text("corner"), 4);
    assert_eq!(
        Desk::fetch_all(&store),
        vec![
            Desk { name: text("window"), capacity: 2 },
            Desk { name: text("bar"), capacity: 6 },
            Desk { name: text("corner"), capacity: 4 },
        ]
    );
}

#[test]
fn desk_delete_removes_only_the_desk_named() {
    let mut store = Store::new();
    Desk::create(&mut store, text("window"), 2);
    Desk::create(&mut store, text("bar"), 6);
    Desk::create(&mut store, text("corner"), 4);
    assert_eq!(Desk::delete(&mut store, text("bar")), Result::Success);
    assert_eq!(
        Desk::fetch_all(&store),
        vec![
            Desk { name: text("window"), capacity: 2 },
            Desk { name: text("corner"), capacity: 4 },
        ]
    );
}

#[test]
fn desk_delete_of_an_unknown_name_changes_nothing() {
    let mut store = Store::new();
    Desk::create(&mut store, text("window"), 2);
    assert_eq!(Desk::delete(&mut store, text("bar")), Result::DoesntExist);
    assert_eq!(Desk::fetch_all(&store).len(), 1);
}

#[test]
fn desk_delete_does_not_look_at_occupancy() {
    let mut store = Store::new();
    Desk::create(&mut store, text("T1"), 4);
    assert_eq!(start(&mut store, text("T1"), 100), Result::Success);
    assert_eq!(Desk::delete(&mut store, text("T1")), Result::Success);
    assert_eq!(Desk::fetch(&store, &text("T1")), None);
    assert_eq!(Session::fetch_all_open(&store).len(), 1);
}

#[test]
fn desk_open_session_is_absent_for_a_free_desk() {
    let mut store = Store::new();
    Desk::create(&mut store, text("T1"), 4);
    assert_eq!(Desk::fetch_open_session(&store, &text("T1")), None);
    assert_eq!(Desk::fetch_open_session(&store, &text("nowhere")), None);
}

#[test]
fn desk_open_session_is_the_session_started_there() {
    let mut store = Store::new();
    Desk::create(&mut store, text("T1"), 4);
    Desk::create(&mut store, text("T2"), 2);
    start(&mut store, text("T2"), 7);
    start(&mut store, text("T1"), 9);
    assert_eq!(
        Desk::fetch_open_session(&store, &text("T1")),
        Some(Session { id: 2, start: 9, end: -1, desk: text("T1"), state: 1 })
    );
}

#[test]
fn desk_open_session_skips_closed_sessions() {
    let mut store = Store::new();
    Session::create(&mut store, 1, 5, text("T1"), 0);
    Session::create(&mut store, 6, -1, text("T1"), 1);
    assert_eq!(
        Desk::fetch_open_session(&store, &text("T1")),
        Some(Session { id: 2, start: 6, end: -1, desk: text("T1"), state: 1 })
    );
}
