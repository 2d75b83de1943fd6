//! The request handler: from a request path to the response.

use crate::assets::{holds_name, payload_of, AssetStore};
use crate::response::{
    basic_response, format_response, image_tag, lemma_page_holds, occurs_in, page_response,
    page_text, simple_file_send, Response,
};
use crate::status::{in_status_range, is_registered, status_line, status_text};
use crate::text::{
    decimal, is_digit, lemma_decimal_digits, lemma_decimal_round_trip, lemma_trimmed_fixed,
    parse_u16, parse_u16_spec, same_text, trim, trimmed,
};
use vstd::prelude::*;
use vstd::string::*;

verus! {

/// The name under which browsers ask for a site's icon.
pub const FAVICON: &'static str = "favicon.ico";

/// What a request path asks for: the path without its first character and
/// without surrounding whitespace.
pub open spec fn request_key(path: Seq<char>) -> Seq<char> {
    trimmed(path.skip(1))
}

/// The path by which a client asks for `key`.
pub open spec fn path_to(key: Seq<char>) -> Seq<char> {
    seq!['/'] + key
}

/// Whether `r` is the response to a request for `path`, given the assets
/// `entries`, when the picture of a status page is the asset at `image`.
///
/// The icon path is answered with a bare 404, before anything else. The name
/// of an asset is answered with the asset. Of the rest, a registered status
/// code is answered with its page under that status, another number that
/// fits 16 bits with a bare 500, and all else with a bare 200.
pub open spec fn answers(
    entries: Seq<(Seq<char>, Seq<u8>)>,
    path: Seq<char>,
    image: int,
    r: Response,
) -> bool {
    let key = request_key(path);
    if key == FAVICON@ {
        r.is_bare(404)
    } else if holds_name(entries, key) {
        r.is_file(payload_of(entries, key))
    } else {
        match parse_u16_spec(key) {
            None => r.is_bare(200),
            Some(code) => if is_registered(code) {
                r.is_page(code, page_text(status_text(code), entries[image].0))
            } else {
                r.is_bare(500)
            },
        }
    }
}

/// The page response for the status code `code`, written out as `status`,
/// with the asset named `image` as its picture.
pub fn status_page(code: u16, status: &str, image: &str) -> (r: Response)
    ensures
        r.is_page(code, page_text(status@, image@)),
{
    let page = format_response(status, image);
    page_response(code, page.as_str())
}

/// The status code whose page a request for `path` is answered with, if it
/// is answered with a page.
pub open spec fn page_code(entries: Seq<(Seq<char>, Seq<u8>)>, path: Seq<char>) -> Option<u16> {
    let key = request_key(path);
    if key == FAVICON@ || holds_name(entries, key) {
        None
    } else {
        match parse_u16_spec(key) {
            Some(code) if is_registered(code) => Some(code),
            _ => None,
        }
    }
}

/// What the handler has decided once it has read the path.
pub enum Route {
    /// The response is this one.
    Fixed(Response),
    /// The response is the page of this status code, written out as the
    /// text beside it; the page's picture is still to be chosen.
    Page(u16, String),
}

/// Decides what a request for the number `code` is answered with, given the
/// number written out as a status code, or `None` where it is no registered
/// one: the page in the first case, a bare 500 in the second.
pub fn route_number(code: u16, status: Option<String>) -> (r: Route)
    ensures
        match status {
            Some(text) => r == Route::Page(code, text),
            None => r matches Route::Fixed(response) && response.is_bare(500),
        },
{
    match status {
        Some(text) => Route::Page(code, text),
        None => Route::Fixed(basic_response(500)),
    }
}

/// Reads `path` and decides what the request is answered with, as far as
/// that does not depend on the picture. A path has at least one character,
/// the slash it starts with.
pub fn route(store: &AssetStore, path: &str) -> (r: Route)
    requires
        store.wf(),
        path@.len() > 0,
    ensures
        match r {
            Route::Fixed(response) => {
                &&& page_code(store@, path@) is None
                &&& in_status_range(response.status)
                &&& forall|image: int| answers(store@, path@, image, response)
            },
            Route::Page(code, status) => {
                &&& page_code(store@, path@) == Some(code)
                &&& status@ == status_text(code)
            },
        },
{
    let n: usize = path.unicode_len();
    let rest = path.substring_char(1, n);
    proof {
        assert(rest@ =~= path@.skip(1));
    }
    let key = trim(rest);
    if same_text(key, FAVICON) {
        return Route::Fixed(basic_response(404));
    }
    if store.find(key).is_some() {
        return Route::Fixed(simple_file_send(store, key));
    }
    match parse_u16(key) {
        None => Route::Fixed(Response::default()),
        Some(code) => route_number(code, status_line(code)),
    }
}

/// Answers a request for `path` with the asset at `image` as the picture of
/// a status page. A path has at least one character, the slash it starts
/// with.
pub fn respond(store: &AssetStore, path: &str, image: usize) -> (r: Response)
    requires
        store.wf(),
        path@.len() > 0,
        image < store@.len(),
    ensures
        answers(store@, path@, image as int, r),
        in_status_range(r.status),
{
    match route(store, path) {
        Route::Fixed(response) => response,
        Route::Page(code, status) => status_page(
            code,
            status.as_str(),
            store.identifier_at(image),
        ),
    }
}

/// Answers a request for `path`. The picture of a status page is drawn at
/// random among the assets, anew for each such page. A path has at least one
/// character, the slash it starts with.
pub fn status_code_handler(store: &AssetStore, path: &str) -> (r: Response)
    requires
        store.wf(),
        path@.len() > 0,
    ensures
        exists|image: int| 0 <= image < store@.len() && answers(store@, path@, image, r),
        in_status_range(r.status),
{
    match route(store, path) {
        Route::Fixed(response) => {
            assert(answers(store@, path@, 0, response));
            response
        },
        Route::Page(code, status) => {
            let image: usize = store.random_place();
            let response = status_page(code, status.as_str(), store.identifier_at(image));
            assert(answers(store@, path@, image as int, response));
            response
        },
    }
}

/// A path and a picture leave one response only: two responses to the same
/// request agree in status, content type and body.
pub proof fn response_is_determined(
    entries: Seq<(Seq<char>, Seq<u8>)>,
    path: Seq<char>,
    image: int,
    r1: Response,
    r2: Response,
)
    requires
        answers(entries, path, image, r1),
        answers(entries, path, image, r2),
    ensures
        r1.status == r2.status,
        r1.content_type == r2.content_type,
        r1.body@ == r2.body@,
{
    assert(r1.body@ =~= r2.body@);
}

/// A request for the name of an asset is answered with status 200 and the
/// asset's bytes, provided the name has no whitespace at its ends and is not
/// the icon's.
pub proof fn asset_is_served(
    entries: Seq<(Seq<char>, Seq<u8>)>,
    name: Seq<char>,
    image: int,
    r: Response,
)
    requires
        holds_name(entries, name),
        trimmed(name) == name,
        name != FAVICON@,
        answers(entries, path_to(name), image, r),
    ensures
        r.is_file(payload_of(entries, name)),
{
    assert(path_to(name).skip(1) =~= name);
}

/// A request for the icon is answered with a bare 404, whatever the assets.
pub proof fn favicon_is_not_found(entries: Seq<(Seq<char>, Seq<u8>)>, image: int, r: Response)
    requires
        answers(entries, path_to(FAVICON@), image, r),
    ensures
        r.is_bare(404),
{
    lemma_favicon_key();
}

/// The icon's path asks for the icon's name, which is no number.
pub proof fn lemma_favicon_key()
    ensures
        request_key(path_to(FAVICON@)) == FAVICON@,
        FAVICON@.len() == 11,
        FAVICON@[0] == 'f',
{
    reveal_strlit("favicon.ico");
    assert(path_to(FAVICON@).skip(1) =~= FAVICON@);
    lemma_trimmed_fixed(FAVICON@);
}

/// The decimal rendering of a number asks for that number: the path made of
/// it is read back as the number, and is not the icon's.
pub proof fn lemma_number_key(n: u16)
    ensures
        request_key(path_to(decimal(n as nat))) == decimal(n as nat),
        parse_u16_spec(decimal(n as nat)) == Some(n),
        decimal(n as nat) != FAVICON@,
{
    let text = decimal(n as nat);
    assert(path_to(text).skip(1) =~= text);
    lemma_decimal_round_trip(n);
    lemma_decimal_digits(n as nat);
    lemma_favicon_key();
    assert(is_digit(text[0]));
}

/// A request for a registered status code, written in decimal, is answered
/// with that status and an HTML page that holds the number and the tag of
/// one of the assets, unless an asset goes by that very name.
pub proof fn registered_code_gets_page(
    entries: Seq<(Seq<char>, Seq<u8>)>,
    n: u16,
    image: int,
    r: Response,
)
    requires
        0 <= image < entries.len(),
        !holds_name(entries, decimal(n as nat)),
        answers(entries, path_to(decimal(n as nat)), image, r),
    ensures
        is_registered(n) ==> {
            let page = page_text(status_text(n), entries[image].0);
            &&& r.is_page(n, page)
            &&& occurs_in(decimal(n as nat), page)
            &&& occurs_in(image_tag(entries[image].0), page)
            &&& holds_name(entries, entries[image].0)
        },
{
    lemma_number_key(n);
    if is_registered(n) {
        let status = status_text(n);
        let page = page_text(status, entries[image].0);
        lemma_page_holds(status, entries[image].0);
        let at = choose|at: int|
            0 <= at && at + status.len() <= page.len() && #[trigger] page.subrange(
                at,
                at + status.len(),
            ) == status;
        let number = decimal(n as nat);
        assert(status.subrange(0, number.len() as int) =~= number);
        assert(page.subrange(at, at + number.len()) =~= number);
    }
}

/// A request for a number that fits 16 bits and is no registered status
/// code is answered with a bare 500, unless an asset goes by that very name.
pub proof fn unregistered_code_gets_error(
    entries: Seq<(Seq<char>, Seq<u8>)>,
    n: u16,
    image: int,
    r: Response,
)
    requires
        !holds_name(entries, decimal(n as nat)),
        answers(entries, path_to(decimal(n as nat)), image, r),
    ensures
        !is_registered(n) ==> r.is_bare(500),
{
    lemma_number_key(n);
}

/// A request for anything that is neither the icon, nor an asset, nor a
/// number that fits 16 bits is answered with a bare 200.
pub proof fn unknown_path_gets_empty(
    entries: Seq<(Seq<char>, Seq<u8>)>,
    path: Seq<char>,
    image: int,
    r: Response,
)
    requires
        request_key(path) != FAVICON@,
        !holds_name(entries, request_key(path)),
        parse_u16_spec(request_key(path)) is None,
        answers(entries, path, image, r),
    ensures
        r.is_bare(200),
{
}

} // verus!
