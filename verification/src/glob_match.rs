//! Trusted interface to the `glob` crate's pattern matching.

use vstd::prelude::*;

verus! {

/// What compiling glob pattern `pat` and matching it against `path`
/// yields: `None` when `pat` is not a valid glob pattern, otherwise
/// `Some` of whether it matches.
pub uninterp spec fn spec_glob_match(pat: Seq<char>, path: Seq<char>) -> Option<bool>;

/// Relies on `glob::Pattern::new` for compiling the pattern and
/// `glob::Pattern::matches` for matching it; both are deterministic in
/// their arguments, so the combined outcome is a function of the pattern
/// and the path alone.
#[verifier::external_body]
pub fn glob_match(pat: &str, path: &str) -> (r: Option<bool>)
    ensures
        r == spec_glob_match(pat@, path@),
{
    match glob::Pattern::new(pat) {
        Ok(p) => Some(p.matches(path)),
        Err(_) => None,
    }
}

} // verus!
