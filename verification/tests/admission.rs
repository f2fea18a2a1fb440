use demeter::desk::Desk;
use demeter::dish::Dish;
use demeter::request::Request;
use demeter::session::Session;
use demeter::species::Species;
use demeter::store::Store;
use demeter::utils::decode_uri;
use demeter::validation::{Admin, Validation};
use sha2::{Digest, Sha256};

fn text(s: &str) -> String {
    s.to_string()
}

fn desk(name: &str) -> Desk {
    Desk { name: text(name), capacity: 2 }
}

fn session(id: i32, desk: &str, state: i32) -> Session {
    Session { id, start: 0, end: -1, desk: text(desk), state }
}

fn only_desks(desks: Vec<Desk>) -> Store {
    Store::from_rows(desks, vec![], vec![], vec![], vec![], vec![]).unwrap()
}

#[test]
fn hex_text_drops_leading_zeros_of_each_byte() {
    assert_eq!(Validation::hex_text(&vec![]), "");
    assert_eq!(Validation::hex_text(&vec![0]), "0");
    assert_eq!(Validation::hex_text(&vec![0x0a, 0xff, 0x10, 0x00, 0x0f]), "aff100f");
    assert_eq!(Validation::hex_text(&vec![0x9a, 0xbc, 0xde, 0x01]), "9abcde1");
}

#[test]
fn hex_text_agrees_with_the_formatter_on_every_byte() {
    for byte in 0..=255u8 {
        assert_eq!(Validation::hex_text(&vec![byte]), format!("{:x}", byte));
    }
}

#[test]
fn table_hash_finds_the_desk_by_its_token() {
    let store = only_desks(vec![desk("T1"), desk("abc"), desk("T2")]);
    assert_eq!(
        Validation::table_hash(
            &store,
            text("ba7816bf8f1cfea414140de5dae2223b0361a396177a9cb410ff61f2015ad")
        ),
        Some(text("abc"))
    );
    assert_eq!(
        Validation::table_hash(
            &store,
            text("f617ba98e6af426517e51aff86858da592399abcde80b1b5995a6db71a055")
        ),
        Some(text("T2"))
    );
}

#[test]
fn table_hash_agrees_with_the_digest_of_the_name() {
    let store = only_desks(vec![desk("window"), desk("bar")]);
    let token: String = Sha256::digest("bar".as_bytes())
        .iter()
        .map(|byte| format!("{:x}", byte))
        .collect();
    assert_eq!(Validation::table_hash(&store, token), Some(text("bar")));
}

#[test]
fn table_hash_refuses_other_tokens() {
    let store = only_desks(vec![desk("T1"), desk("abc")]);
    assert_eq!(Validation::table_hash(&store, text("abc")), None);
    assert_eq!(Validation::table_hash(&store, text("")), None);
    assert_eq!(
        Validation::table_hash(
            &store,
            text("ba7816bf8f01cfea414140de5dae2223b00361a396177a9cb410ff61f20015ad")
        ),
        None
    );
    assert_eq!(
        Validation::table_hash(
            &store,
            text("BA7816BF8F1CFEA414140DE5DAE2223B0361A396177A9CB410FF61F2015AD")
        ),
        None
    );
}

#[test]
fn verify_admin_asks_for_id_and_secret_together() {
    let admins = vec![
        Admin { id: text("root"), secret: text("hunter2") },
        Admin { id: text("chef"), secret: text("salt") },
    ];
    let store = Store::from_rows(vec![], vec![], vec![], vec![], vec![], admins).unwrap();
    assert!(Validation::verify_admin(&store, text("root"), text("hunter2")));
    assert!(Validation::verify_admin(&store, text("chef"), text("salt")));
    assert!(!Validation::verify_admin(&store, text("root"), text("salt")));
    assert!(!Validation::verify_admin(&store, text("chef"), text("")));
    assert!(!Validation::verify_admin(&store, text("guest"), text("hunter2")));
    assert!(!Validation::verify_admin(&Store::new(), text("root"), text("hunter2")));
}

#[test]
fn decode_uri_decodes_percent_escapes() {
    assert_eq!(decode_uri(&text("no%20ice")), Some(text("no ice")));
    assert_eq!(decode_uri(&text("%E4%BD%A0%E5%A5%BD")), Some(text("你好")));
    assert_eq!(decode_uri(&text("a%2Fb%3fc")), Some(text("a/b?c")));
}

#[test]
fn decode_uri_leaves_plain_text_as_it_is() {
    assert_eq!(decode_uri(&text("")), Some(text("")));
    assert_eq!(decode_uri(&text("window seat")), Some(text("window seat")));
    assert_eq!(decode_uri(&text("a+b")), Some(text("a+b")));
    assert_eq!(decode_uri(&text("größe")), Some(text("größe")));
}

#[test]
fn decode_uri_keeps_a_percent_sign_that_starts_no_escape() {
    assert_eq!(decode_uri(&text("100%")), Some(text("100%")));
    assert_eq!(decode_uri(&text("%zz")), Some(text("%zz")));
}

#[test]
fn decode_uri_refuses_bytes_that_are_not_utf8() {
    assert_eq!(decode_uri(&text("%FF")), None);
    assert_eq!(decode_uri(&text("ok%C3%28")), None);
}

#[test]
fn from_rows_takes_rows_with_distinct_keys() {
    let store = Store::from_rows(
        vec![desk("T1"), desk("T2")],
        vec![Dish {
            id: 4,
            name: text("tea"),
            variants: text("[]"),
            sizes: text("cup"),
            species: 2,
        }],
        vec![Species { id: 2, name: text("drinks") }],
        vec![session(7, "T1", 1), session(3, "T2", 0)],
        vec![Request {
            id: 12,
            session: 7,
            dish: 4,
            variant: text("[]"),
            size: 0,
            comment: text(""),
            state: 0,
        }],
        vec![],
    )
    .unwrap();
    assert_eq!(Desk::fetch_all(&store), vec![desk("T1"), desk("T2")]);
    assert_eq!(Session::fetch_all(&store), vec![session(7, "T1", 1), session(3, "T2", 0)]);
    assert_eq!(Dish::fetch(&store, 4).unwrap().name, "tea");
    assert_eq!(Species::fetch(&store, 2).unwrap().name, "drinks");
    assert_eq!(Request::fetch(&store, 12).unwrap().session, 7);
}

#[test]
fn from_rows_continues_after_the_largest_id() {
    let store = Store::from_rows(
        vec![],
        vec![Dish {
            id: 4,
            name: text("tea"),
            variants: text("[]"),
            sizes: text("cup"),
            species: 2,
        }],
        vec![Species { id: -5, name: text("drinks") }],
        vec![session(7, "T1", 1), session(30, "T2", 0), session(9, "T3", 0)],
        vec![],
        vec![],
    )
    .unwrap();
    assert_eq!(store.next_dish_id(), Some(5));
    assert_eq!(store.next_species_id(), Some(1));
    assert_eq!(store.next_session_id(), Some(31));
    assert_eq!(store.next_request_id(), Some(1));
}

#[test]
fn from_rows_refuses_a_key_twice() {
    assert!(Store::from_rows(
        vec![desk("T1"), desk("T2"), desk("T1")],
        vec![],
        vec![],
        vec![],
        vec![],
        vec![]
    )
    .is_none());
    assert!(Store::from_rows(
        vec![],
        vec![],
        vec![],
        vec![session(1, "T1", 1), session(1, "T2", 1)],
        vec![],
        vec![]
    )
    .is_none());
    assert!(Store::from_rows(
        vec![],
        vec![],
        vec![Species { id: 2, name: text("a") }, Species { id: 2, name: text("b") }],
        vec![],
        vec![],
        vec![]
    )
    .is_none());
}

#[test]
fn from_rows_takes_two_species_of_one_name() {
    assert!(Store::from_rows(
        vec![],
        vec![],
        vec![Species { id: 1, name: text("a") }, Species { id: 2, name: text("a") }],
        vec![],
        vec![],
        vec![]
    )
    .is_some());
}

#[test]
fn no_id_is_left_after_the_largest_integer() {
    let store = Store::from_rows(
        vec![],
        vec![],
        vec![],
        vec![session(i32::MAX, "T1", 0)],
        vec![],
        vec![],
    )
    .unwrap();
    assert_eq!(store.next_session_id(), None);
    assert_eq!(store.next_request_id(), Some(1));
}

#[test]
fn exclusive_tells_two_open_sessions_at_one_desk() {
    let shared = Store::from_rows(
        vec![],
        vec![],
        vec![],
        vec![session(1, "T1", 1), session(2, "T2", 1), session(3, "T1", 1)],
        vec![],
        vec![],
    )
    .unwrap();
    assert!(!shared.exclusive());
    let apart = Store::from_rows(
        vec![],
        vec![],
        vec![],
        vec![session(1, "T1", 1), session(2, "T2", 1), session(3, "T1", 0)],
        vec![],
        vec![],
    )
    .unwrap();
    assert!(apart.exclusive());
}
