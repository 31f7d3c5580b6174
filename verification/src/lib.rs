//! Generates human-readable API documentation from an OpenAPI-style
//! description: a canonical model of services and endpoints is built from the
//! raw document, then filtered, grouped, sorted and rendered to Markdown
//! under a caller-supplied configuration.

pub mod builder;
pub mod config;
pub mod laws;
pub mod markdown;
pub mod models;
pub mod strutil;

use vstd::prelude::*;

verus! {

/// The eight canonical HTTP verbs, in the order path entries are scanned.
pub open spec fn canonical_methods() -> Seq<Seq<char>> {
    seq!["GET"@, "POST"@, "PUT"@, "DELETE"@, "OPTIONS"@, "HEAD"@, "PATCH"@, "TRACE"@]
}

/// A method string is canonical when it is one of the eight verbs.
pub open spec fn is_canonical_method(m: Seq<char>) -> bool {
    canonical_methods().contains(m)
}

} // verus!
