//! The text formats that the engine reads and writes with the help of other
//! crates: JSON for variant groups and selections, percent-encoding for path
//! segments, and SHA-256 for desk tokens.
//!
//! Nothing in this file is proved. Each function below hands its argument to
//! one function of another crate, and its contract is what the rest of the
//! library believes of that function.

use vstd::prelude::*;
use sha2::{Digest, Sha256};

verus! {

/// The error that `serde_json` reports.
#[verifier::external_type_specification]
#[verifier::external_body]
pub struct ExJsonError(serde_json::Error);

/// The selection that `serde_json::from_str` reads from `text` as a list of
/// optional indices, or `None` where it reports an error.
pub uninterp spec fn selection_of_json(text: Seq<char>) -> Option<Seq<Option<usize>>>;

/// The variant groups that `serde_json::from_str` reads from `text` as a list
/// of pairs of a flag and a list of strings, or `None` where it reports an
/// error.
pub uninterp spec fn variants_of_json(text: Seq<char>) -> Option<Seq<(bool, Seq<Seq<char>>)>>;

/// The text that `serde_json::to_string` writes for `selection`.
pub uninterp spec fn json_of_selection(selection: Seq<Option<usize>>) -> Seq<char>;

/// The digest that SHA-256 gives for `data`.
pub uninterp spec fn sha256_of(data: Seq<u8>) -> Seq<u8>;

/// What `urlencoding::decode` makes of `text`, or `None` where it reports an
/// error.
pub uninterp spec fn percent_decoded(text: Seq<char>) -> Option<Seq<char>>;

/// `String::push` of the standard library appends one character to the text.
pub assume_specification[ String::push ](text: &mut String, c: char)
    ensures
        final(text)@ == old(text)@.push(c),
;

/// Calls `serde_json::from_str` to read a list of optional indices. The
/// contract claims that the outcome depends on the text alone: it is `Ok` with
/// the value of [`selection_of_json`] where that is `Some`, and an error
/// otherwise.
#[verifier::external_body]
pub(crate) fn selection_from_json(text: &str) -> (parsed: core::result::Result<
    Vec<Option<usize>>,
    serde_json::Error,
>)
    ensures
        parsed is Ok == selection_of_json(text@) is Some,
        parsed matches Ok(selection) ==> selection_of_json(text@) == Some(selection@),
{
    serde_json::from_str(text)
}

/// Calls `serde_json::from_str` to read a list of pairs of a flag and a list
/// of strings. The contract claims that the outcome depends on the text alone:
/// it is `Ok` with the value of [`variants_of_json`] where that is `Some`, and
/// an error otherwise.
#[verifier::external_body]
pub(crate) fn variants_from_json(text: &str) -> (parsed: core::result::Result<
    Vec<(bool, Vec<String>)>,
    serde_json::Error,
>)
    ensures
        parsed is Ok == variants_of_json(text@) is Some,
        parsed matches Ok(groups) ==> variants_of_json(text@) == Some(groups.deep_view()),
{
    serde_json::from_str(text)
}

/// Calls `serde_json::to_string` on a list of optional indices. The contract
/// claims three things. The call succeeds: `serde_json` documents failure only
/// for a value whose own serializer fails or that holds a map with keys other
/// than strings, and a list of optional integers is neither. The text depends
/// on the selection alone. And `serde_json::from_str` reads the same selection
/// back from that text: integers are written in decimal, an absent choice as
/// `null`, and the list between brackets with commas, which is what the reader
/// accepts for this type.
#[verifier::external_body]
pub(crate) fn selection_to_json(selection: &Vec<Option<usize>>) -> (text: core::result::Result<
    String,
    serde_json::Error,
>)
    ensures
        text is Ok,
        text matches Ok(t) ==> t@ == json_of_selection(selection@),
        text matches Ok(t) ==> selection_of_json(t@) == Some(selection@),
{
    serde_json::to_string(selection)
}

/// Feeds `data` to a fresh `sha2::Sha256` and takes the digest. The contract
/// claims that the digest depends on the data alone.
#[verifier::external_body]
pub(crate) fn sha256(data: &[u8]) -> (digest: Vec<u8>)
    ensures
        digest@ == sha256_of(data@),
{
    let mut hasher = Sha256::new();
    hasher.update(data);
    hasher.finalize().to_vec()
}

/// Calls `urlencoding::decode`. The contract claims that the outcome depends
/// on the text alone, and that a text without a percent sign comes back as it
/// is: the decoder returns its input untouched when it finds no `%` in it.
#[verifier::external_body]
pub(crate) fn percent_decode(text: &str) -> (decoded: Option<String>)
    ensures
        decoded.deep_view() == percent_decoded(text@),
        !text@.contains('%') ==> decoded.deep_view() == Some(text@),
{
    match urlencoding::decode(text) {
        Ok(plain) => Some(plain.into_owned()),
        Err(_) => None,
    }
}

} // verus!
