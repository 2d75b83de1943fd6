//! HTTP status codes: which numbers are registered codes, and how a code is
//! written out with its reason phrase. Both are taken from `hyper`'s
//! `StatusCode`.

use crate::text::decimal;
use vstd::prelude::*;

verus! {

/// The reason phrase that `hyper::StatusCode::canonical_reason` gives for the
/// code `code`, or `None` where it knows none.
pub uninterp spec fn canonical_reason(code: u16) -> Option<Seq<char>>;

/// The numbers that `hyper::StatusCode` can hold.
pub open spec fn in_status_range(code: u16) -> bool {
    100 <= code <= 999
}

/// Whether `code` is a registered HTTP status code: a number that a status
/// code can hold and that has a reason phrase.
pub open spec fn is_registered(code: u16) -> bool {
    in_status_range(code) && canonical_reason(code) is Some
}

/// A status code written out: the number in decimal, a space, and the reason
/// phrase, or a fixed text in its place where there is none.
pub open spec fn status_text(code: u16) -> Seq<char> {
    decimal(code as nat) + seq![' '] + match canonical_reason(code) {
        Some(phrase) => phrase,
        None => "<unknown status code>"@,
    }
}

/// Asks `hyper::StatusCode::from_u16` whether it takes `code`. It takes the
/// numbers from 100 to 999 and refuses the others.
#[verifier::external_body]
fn status_code_accepts(code: u16) -> (ok: bool)
    ensures
        ok == in_status_range(code),
{
    hyper::StatusCode::from_u16(code).is_ok()
}

/// Calls `hyper::StatusCode::canonical_reason` on the status code made from
/// `code`. The result is a function of the number alone and goes by the name
/// `canonical_reason`; nothing is claimed about which phrase it is.
#[verifier::external_body]
fn reason_phrase(code: u16) -> (r: Option<&'static str>)
    requires
        in_status_range(code),
    ensures
        canonical_reason(code) == match r {
            Some(phrase) => Some(phrase@),
            None => None::<Seq<char>>,
        },
{
    match hyper::StatusCode::from_u16(code) {
        Ok(status) => status.canonical_reason(),
        Err(_) => None,
    }
}

/// Formats the status code made from `code` by its `Display` impl, which
/// writes the number, a space, and the canonical reason phrase or, where
/// there is none, `<unknown status code>`.
#[verifier::external_body]
fn display_status(code: u16) -> (text: String)
    requires
        in_status_range(code),
    ensures
        text@ == status_text(code),
{
    match hyper::StatusCode::from_u16(code) {
        Ok(status) => status.to_string(),
        Err(_) => String::new(),
    }
}

/// Decides whether `code` is a registered HTTP status code.
pub fn is_status_code(code: u16) -> (ok: bool)
    ensures
        ok == is_registered(code),
{
    status_code_accepts(code) && reason_phrase(code).is_some()
}

/// Writes out a registered status code, such as `404 Not Found`; `None` for
/// a number that is no registered status code.
pub fn status_line(code: u16) -> (r: Option<String>)
    ensures
        r is Some <==> is_registered(code),
        r matches Some(text) ==> text@ == status_text(code),
{
    if is_status_code(code) {
        Some(display_status(code))
    } else {
        None
    }
}

} // verus!
