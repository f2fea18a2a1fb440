//! Helpers for the text that reaches the engine from a request path.

use vstd::prelude::*;
use crate::codec::{percent_decode, percent_decoded};

verus! {

/// Decodes a percent-encoded path segment, or `None` where the decoded bytes
/// are not UTF-8. A segment without a percent sign is returned as it is.
pub fn decode_uri(text: &String) -> (plain: Option<String>)
    ensures
        plain.deep_view() == percent_decoded(text@),
        !text@.contains('%') ==> plain.deep_view() == Some(text@),
{
    percent_decode(text.as_str())
}

} // verus!
