//! HTTP status codes of provider replies.

use vstd::prelude::*;

verus! {

/// The text that `reqwest::StatusCode`'s `Display` gives for `code`: the three digits, a
/// space, and the canonical reason phrase (or `<unknown status code>`).
pub uninterp spec fn status_display(code: u16) -> Seq<char>;

/// `StatusCode::from_u16(code)` formatted with `Display`. Trusted: the result is
/// `status_display(code)`, a name for what `reqwest` (the `http` crate) writes.
#[verifier::external_body]
pub(crate) fn status_text(code: u16) -> (t: String)
    requires
        100 <= code <= 999,
    ensures
        t@ == status_display(code),
{
    match reqwest::StatusCode::from_u16(code) {
        Ok(status) => format!("{}", status),
        Err(_) => String::new(),
    }
}

} // verus!
