//! Pattern compilation, at the boundary to the regular-expression engine.
//!
//! The engine is an external capability: all this crate needs from it is
//! "compile this pattern, or fail with a reportable error". Whether a given
//! pattern compiles is a fixed function of the pattern text, named here by
//! the uninterpreted `pattern_valid`.

use vstd::prelude::*;

verus! {

/// Whether the regular-expression engine accepts a pattern.
pub uninterp spec fn pattern_valid(pattern: Seq<char>) -> bool;

/// A configuration error: an embedded pattern that the regular-expression
/// engine rejected, together with the engine's description of the problem.
#[derive(Debug)]
pub struct PiiConfigError {
    pub pattern: String,
    pub message: String,
}

/// Relies on `regex::Regex::new`: it accepts or rejects a pattern as a
/// function of the pattern string alone.
#[verifier::external_body]
pub fn compile_pattern(pattern: &str) -> (r: Result<(), String>)
    ensures
        r is Ok <==> pattern_valid(pattern@),
{
    match regex::Regex::new(pattern) {
        Ok(_) => Ok(()),
        Err(e) => Err(e.to_string()),
    }
}

} // verus!
