//! Verified core of a package-manager front end: a line-oriented output
//! parser, a fuzzy package resolver, an index-based selection engine, and
//! the recovery state machine that drives install and remove operations.
pub mod charon;
pub mod charon_index;
pub mod commands;
pub mod fuzzy;
pub mod pager;
pub mod parser;
pub mod queries;
pub mod query;
pub mod querycmd;
pub mod records;
pub mod remove;
pub mod selector;
pub mod selection;
pub mod strutil;

use vstd::prelude::*;

verus! {

/// Raw bytes captured from a backend process, decoded byte-for-byte as
/// characters and trimmed of leading and trailing ASCII whitespace.
pub fn parse_output(output: Vec<u8>) -> (r: String)
    ensures
        r@ == crate::strutil::trim_spec(crate::strutil::bytes_as_chars(output@)),
{
    let chars = crate::strutil::bytes_to_chars(&output);
    crate::strutil::trim_chars(&chars)
}

} // verus!
