//! The library's error taxonomy.

use vstd::prelude::*;

verus! {

/// Why a library operation could not produce a result.
#[derive(Clone, Debug, PartialEq)]
pub enum ChatError {
    /// No API token was supplied when building the client state.
    MissingApiToken,
    /// The reply bytes, after newline stripping, do not parse into the
    /// response envelope shape; carries the offending text for diagnostics.
    Decode(String),
    /// The response envelope decoded but holds no choice at all.
    MissingChoice,
}

} // verus!
