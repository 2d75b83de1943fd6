//! The request-handling core of a small HTTP service that answers a numeric
//! path with a page bearing that status code and a picture from a fixed set
//! of bundled assets.
//!
//! The crate works on plain values: a path comes in as text, a [`Response`]
//! goes out as a status number, an optional content type and the body bytes.
//! Binding a socket and speaking HTTP is left to the program around it.

pub mod assets;
pub mod handler;
pub mod response;
pub mod status;
pub mod text;

pub use assets::{Asset, AssetStore};
pub use handler::{
    respond, route, route_number, status_code_handler, status_page, Route, FAVICON,
};
pub use response::{
    basic_response, file_response, format_response, page_response, simple_file_send, ContentType,
    Response,
};
