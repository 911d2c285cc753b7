//! A typed client library for a sports-statistics REST API.
//!
//! Every accessor follows one pathway: build a resource URL from the client
//! configuration, hand the URL to an HTTP layer, and map what came back —
//! a status code and a body, or a transport failure — to either a decoded,
//! typed collection or a single numeric error code. The JSON decoding and
//! the in-memory lookups over fetched collections are verified; the HTTP
//! call itself lives outside this crate and hands in plain values.

use vstd::prelude::*;

pub mod awards;
pub mod client;
pub mod conferences;
pub mod country;
pub mod franchise;
pub mod game;
pub mod glossary;
pub mod http;
pub mod json;
pub mod metadata;
pub mod ping;
pub mod scan;
pub mod season;
pub mod text;

pub use client::Client;
pub use client::ClientBuilder;

verus! {

/// The HTTP status code treated as success.
pub const STATUS_OK: u16 = 200;

/// The error code used for transport failures without a status and for
/// bodies that do not decode into the expected shape.
pub const STATUS_BAD_REQUEST: u16 = 400;

/// The views of a sequence's elements, element by element.
pub open spec fn seq_view<T: View>(s: Seq<T>) -> Seq<T::V> {
    Seq::new(s.len(), |i: int| s[i]@)
}

/// The view of an optional value.
pub open spec fn opt_view<T: View>(o: Option<T>) -> Option<T::V> {
    match o {
        Some(t) => Some(t@),
        None => None,
    }
}

} // verus!
