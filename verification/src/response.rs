//! Responses, and the page that shows a status code.

use crate::assets::{holds_name, payload_of, AssetStore};
use vstd::prelude::*;
use vstd::string::*;
use vstd::utf8::encode_utf8;

verus! {

/// The content type that a response names.
#[derive(Debug, Clone, Copy, PartialEq, Eq, Structural)]
pub enum ContentType {
    /// None named: the transport's default applies.
    Unset,
    /// `text/html`.
    TextHtml,
}

impl ContentType {
    /// The value of the `Content-Type` header, where the response sets one.
    pub fn header_value(&self) -> (r: Option<&'static str>)
        ensures
            *self == ContentType::Unset <==> r is None,
            r matches Some(value) ==> value@ == "text/html"@,
    {
        match self {
            ContentType::Unset => None,
            ContentType::TextHtml => Some("text/html"),
        }
    }
}

/// What goes back to the client.
#[derive(Debug, Clone)]
pub struct Response {
    pub status: u16,
    pub content_type: ContentType,
    pub body: Vec<u8>,
}

impl Response {
    /// Whether the response is the bare one with status `status`: no content
    /// type and an empty body.
    pub open spec fn is_bare(&self, status: u16) -> bool {
        self.status == status && self.content_type == ContentType::Unset && self.body@.len() == 0
    }

    /// Whether the response is an HTML page with status `status` whose body
    /// is `page` in UTF-8.
    pub open spec fn is_page(&self, status: u16, page: Seq<char>) -> bool {
        self.status == status && self.content_type == ContentType::TextHtml && self.body@
            == encode_utf8(page)
    }

    /// Whether the response hands out `bytes` as they are, with status 200
    /// and no content type.
    pub open spec fn is_file(&self, bytes: Seq<u8>) -> bool {
        self.status == 200 && self.content_type == ContentType::Unset && self.body@ == bytes
    }
}

impl Default for Response {
    /// The response to a request that asks for nothing known: status 200 and
    /// nothing else.
    fn default() -> (r: Response)
        ensures
            r.is_bare(200),
    {
        basic_response(200)
    }
}

/// The page up to the status in its title.
pub const PAGE_HEAD: &'static str =
    "<!DOCTYPE html>\n    <head>\n        <meta charset=\"utf-8\">\n        <meta name=\"viewport\" content=\"width=device-width, initial-scale=1\">\n        <title>";

/// The page between the status in its title and the one in its heading.
pub const PAGE_TITLE_END: &'static str = "</title>\n    </head>\n    <body>\n        <h1>";

/// The page between the status in its heading and the picture's tag.
pub const PAGE_HEADING_END: &'static str = "</h1>\n        ";

/// The picture's tag up to the asset's name.
pub const IMAGE_TAG_START: &'static str = "<img src=\"/";

/// The picture's tag after the asset's name.
pub const IMAGE_TAG_END: &'static str = "\">";

/// The page after the picture's tag.
pub const PAGE_END: &'static str = "\n    </body>\n</html>";

/// The tag that shows the asset named `image`.
pub open spec fn image_tag(image: Seq<char>) -> Seq<char> {
    IMAGE_TAG_START@ + image + IMAGE_TAG_END@
}

/// The page for a status code written out as `status`, showing the asset
/// named `image`.
pub open spec fn page_text(status: Seq<char>, image: Seq<char>) -> Seq<char> {
    PAGE_HEAD@ + status + PAGE_TITLE_END@ + status + PAGE_HEADING_END@ + image_tag(image)
        + PAGE_END@
}

/// Whether `needle` stands somewhere in `text`.
pub open spec fn occurs_in(needle: Seq<char>, text: Seq<char>) -> bool {
    exists|at: int|
        0 <= at && at + needle.len() <= text.len() && #[trigger] text.subrange(
            at,
            at + needle.len(),
        ) == needle
}

/// Writes the page for a status code written out as `status`, with the asset
/// named `image` as its picture.
pub fn format_response(status: &str, image: &str) -> (page: String)
    ensures
        page@ == page_text(status@, image@),
{
    let mut page = String::from_str(PAGE_HEAD);
    page.append(status);
    page.append(PAGE_TITLE_END);
    page.append(status);
    page.append(PAGE_HEADING_END);
    page.append(IMAGE_TAG_START);
    page.append(image);
    page.append(IMAGE_TAG_END);
    page.append(PAGE_END);
    proof {
        assert(page@ =~= page_text(status@, image@));
    }
    page
}

/// The bare response with status `status`.
pub fn basic_response(status: u16) -> (r: Response)
    ensures
        r.is_bare(status),
{
    Response { status, content_type: ContentType::Unset, body: Vec::new() }
}

/// The response that hands out the asset named `file` byte for byte.
pub fn simple_file_send(store: &AssetStore, file: &str) -> (r: Response)
    requires
        store.wf(),
        holds_name(store@, file@),
    ensures
        r.is_file(payload_of(store@, file@)),
{
    file_response(store.lookup(file).unwrap())
}

/// The response that hands out `bytes` as they are.
pub fn file_response(bytes: &Vec<u8>) -> (r: Response)
    ensures
        r.is_file(bytes@),
{
    let body = bytes.clone();
    proof {
        assert(body@ =~= bytes@);
    }
    Response { status: 200, content_type: ContentType::Unset, body }
}

/// The response that carries `page` as HTML under the status `status`.
pub fn page_response(status: u16, page: &str) -> (r: Response)
    ensures
        r.is_page(status, page@),
{
    Response { status, content_type: ContentType::TextHtml, body: page.as_bytes_vec() }
}

/// A page holds the status that it was written for, and the tag of its
/// picture.
pub proof fn lemma_page_holds(status: Seq<char>, image: Seq<char>)
    ensures
        occurs_in(status, page_text(status, image)),
        occurs_in(image_tag(image), page_text(status, image)),
{
    let page = page_text(status, image);
    let at = PAGE_HEAD@.len() as int;
    assert(page.subrange(at, at + status.len()) =~= status);
    let tag = image_tag(image);
    let at_tag = at + status.len() + PAGE_TITLE_END@.len() + status.len() + PAGE_HEADING_END@.len();
    assert(page.subrange(at_tag, at_tag + tag.len()) =~= tag);
}

} // verus!
