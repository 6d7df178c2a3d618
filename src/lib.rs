//! Troubleshooting suggestions served as web pages and chat replies.
//!
//! The suggestion list is an ordered sequence of markdown strings, parsed once
//! from YAML. A request either names a position in that list (through the
//! `item` query parameter) or asks for a random one; the chosen suggestion is
//! rendered as an HTML page, with links to another random suggestion and to
//! this one, or as a JSON chat message.
//!
//! Positions are the permanent identity of a suggestion: shared links embed
//! them, so suggestions are only ever appended to the list.

use vstd::prelude::*;

pub mod query;
pub mod render;
pub mod service;
pub mod things;

verus! {

} // verus!
