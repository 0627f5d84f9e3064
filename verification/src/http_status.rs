//! HTTP status codes as the panel shows them.
use vstd::prelude::*;

use crate::number::{decimal_spec, push_decimal};
use crate::text::{push_str, string_of};

verus! {

/// The reason phrase that `http`'s table gives a status code, if any.
pub uninterp spec fn canonical_reason_of(code: u16) -> Option<Seq<char>>;

/// `reqwest::StatusCode::canonical_reason` (the `http` crate's table of
/// reason phrases) for a status code. Every `StatusCode` lies in 100..=999,
/// so `from_u16` accepts the code; the phrase is named, not written out.
#[verifier::external_body]
fn canonical_reason(code: u16) -> (r: Option<&'static str>)
    requires
        100 <= code <= 999,
    ensures
        match r {
            Some(s) => canonical_reason_of(code) == Some(s@),
            None => canonical_reason_of(code) is None,
        },
{
    match reqwest::StatusCode::from_u16(code) {
        Ok(status) => status.canonical_reason(),
        Err(_) => None,
    }
}

/// Whether a status code means success: 200 to 299, as
/// `StatusCode::is_success` has it.
pub open spec fn is_success_spec(code: u16) -> bool {
    200 <= code <= 299
}

pub fn is_success(code: u16) -> (r: bool)
    ensures
        r == is_success_spec(code),
{
    200 <= code && code <= 299
}

/// The code, a space and the reason phrase (`fallback` when the table has
/// none).
pub open spec fn status_text_spec(code: u16, fallback: Seq<char>) -> Seq<char> {
    decimal_spec(code as nat) + " "@ + match canonical_reason_of(code) {
        Some(r) => r,
        None => fallback,
    }
}

fn status_text(code: u16, fallback: &str) -> (r: String)
    requires
        100 <= code <= 999,
    ensures
        r@ == status_text_spec(code, fallback@),
{
    let mut v: Vec<char> = Vec::new();
    push_decimal(&mut v, code as u64);
    push_str(&mut v, " ");
    match canonical_reason(code) {
        Some(reason) => push_str(&mut v, reason),
        None => push_str(&mut v, fallback),
    }
    proof {
        reveal_strlit(" ");
    }
    assert(v@ =~= status_text_spec(code, fallback@));
    string_of(&v)
}

/// The status as the web module shows it: the code and the reason phrase
/// (nothing after the space when there is none).
pub fn status_line(code: u16) -> (r: String)
    requires
        100 <= code <= 999,
    ensures
        r@ == status_text_spec(code, ""@),
{
    status_text(code, "")
}

/// The `Display` form of a `StatusCode`: the code and the reason phrase, or
/// `<unknown status code>`.
pub fn status_display(code: u16) -> (r: String)
    requires
        100 <= code <= 999,
    ensures
        r@ == status_text_spec(code, "<unknown status code>"@),
{
    status_text(code, "<unknown status code>")
}

} // verus!
