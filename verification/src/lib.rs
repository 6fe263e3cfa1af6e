//! A small library for collecting "weekly update" entries: structured text
//! fragments are parsed into entries, entries sharing a name are merged by
//! field-wise concatenation, and the merged set is rendered as a Markdown
//! report.

use vstd::prelude::*;

pub mod collection;
pub mod entry;
pub mod laws;
pub mod extract;
pub mod lines;
pub mod render;

verus! {

/// The error taxonomy of the library. Only `IOErr` is produced by the
/// surrounding I/O code; the other kinds belong to callers that fetch or
/// configure the input fragments.
pub enum Error {
    ConfigErr,
    RequestErr,
    FetchErr,
    JsonParseErr,
    IOErr,
}

/// Concatenation of optional text fields: `b` when `a` is absent, `a` when
/// `b` is absent, and `a + b` (no separator) when both are present.
pub open spec fn combine(a: Option<Seq<char>>, b: Option<Seq<char>>) -> Option<Seq<char>> {
    match b {
        None => a,
        Some(sb) => match a {
            None => Some(sb),
            Some(sa) => Some(sa + sb),
        },
    }
}

} // verus!
