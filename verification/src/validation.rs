//! Validation: who may act on the store.

use vstd::prelude::*;
use vstd::utf8::encode_utf8;
use crate::codec::{sha256, sha256_of};
use crate::desk::DeskView;
use crate::store::{admin_with, any, find, lemma_first_is, Store};

verus! {

/// The lowercase hexadecimal digit for `n`, which is below 16.
pub open spec fn hex_digit(n: u8) -> char {
    seq!['0', '1', '2', '3', '4', '5', '6', '7', '8', '9', 'a', 'b', 'c', 'd', 'e', 'f'][n as int]
}

/// The lowercase hexadecimal digits of `byte` without a leading zero: one
/// digit below 16, two from there on.
pub open spec fn byte_hex(byte: u8) -> Seq<char> {
    if byte < 16 {
        seq![hex_digit(byte)]
    } else {
        seq![hex_digit(byte / 16), hex_digit(byte % 16)]
    }
}

/// The digits of every byte of `bytes`, one after another.
pub open spec fn hex_text(bytes: Seq<u8>) -> Seq<char>
    decreases bytes.len(),
{
    if bytes.len() == 0 {
        Seq::empty()
    } else {
        hex_text(bytes.drop_last()) + byte_hex(bytes.last())
    }
}

/// The token of the desk named `name`: the SHA-256 digest of the UTF-8 bytes
/// of the name, in the digits of [`hex_text`].
pub open spec fn desk_token(name: Seq<char>) -> Seq<char> {
    hex_text(sha256_of(encode_utf8(name)))
}

/// Holds of the desks whose token is `token`.
pub open spec fn desk_with_token(token: Seq<char>) -> spec_fn(DeskView) -> bool {
    |desk: DeskView| desk_token(desk.name) == token
}

/// The credentials of one administrator.
#[derive(Debug, PartialEq, Eq)]
pub struct Admin {
    pub id: String,
    pub secret: String,
}

/// The mathematical value of an [`Admin`].
pub struct AdminView {
    pub id: Seq<char>,
    pub secret: Seq<char>,
}

impl View for Admin {
    type V = AdminView;

    open spec fn view(&self) -> AdminView {
        AdminView { id: self.id@, secret: self.secret@ }
    }
}

impl DeepView for Admin {
    type V = AdminView;

    open spec fn deep_view(&self) -> AdminView {
        self@
    }
}

impl Clone for Admin {
    fn clone(&self) -> (copy: Self)
        ensures
            copy@ == self@,
    {
        Admin { id: self.id.clone(), secret: self.secret.clone() }
    }
}

/// The checks that admit a caller.
#[derive(Debug, Clone, Copy)]
pub struct Validation;

impl Validation {
    /// The lowercase hexadecimal digit for `n`.
    fn hex_digit(n: u8) -> (digit: char)
        requires
            n < 16,
        ensures
            digit == hex_digit(n),
    {
        if n < 10 {
            (48u8 + n) as char
        } else {
            (97u8 + (n - 10)) as char
        }
    }

    /// Writes `bytes` in lowercase hexadecimal digits, each byte without a
    /// leading zero.
    pub fn hex_text(bytes: &Vec<u8>) -> (text: String)
        ensures
            text@ == hex_text(bytes@),
    {
        let mut text = String::new();
        let mut i: usize = 0;
        while i < bytes.len()
            invariant
                i <= bytes.len(),
                text@ == hex_text(bytes@.take(i as int)),
            decreases bytes.len() - i,
        {
            let byte = bytes[i];
            proof {
                assert(bytes@.take(i + 1).drop_last() =~= bytes@.take(i as int));
            }
            if byte >= 16 {
                text.push(Validation::hex_digit(byte / 16));
            }
            text.push(Validation::hex_digit(byte % 16));
            i += 1;
        }
        assert(bytes@.take(i as int) =~= bytes@);
        text
    }

    /// The name of the first desk whose token is `id`, if there is one.
    pub fn table_hash(store: &Store, id: String) -> (name: Option<String>)
        ensures
            name.deep_view() == match find(store@.desks, desk_with_token(id@)) {
                Some(desk) => Some(desk.name),
                None => None,
            },
    {
        let mut i: usize = 0;
        while i < store.desks.len()
            invariant
                i <= store.desks.len(),
                forall|j: int| 0 <= j < i ==> !desk_with_token(id@)(#[trigger] store@.desks[j]),
            decreases store.desks.len() - i,
        {
            let digest = sha256(store.desks[i].name.as_str().as_bytes());
            let token = Validation::hex_text(&digest);
            if token == id {
                proof {
                    lemma_first_is(store@.desks, desk_with_token(id@), i as int);
                }
                return Some(store.desks[i].name.clone());
            }
            i += 1;
        }
        None
    }

    /// Whether an administrator `id` with the secret `secret` is stored.
    pub fn verify_admin(store: &Store, id: String, secret: String) -> (verified: bool)
        ensures
            verified == any(store@.admins, admin_with(id@, secret@)),
    {
        store.find_admin(&id, &secret).is_some()
    }
}

} // verus!
