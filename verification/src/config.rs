//! The name of the integration branch where none is asked for.

use vstd::prelude::*;
use crate::failure::Failure;
use crate::text::{answer_of, decode_answer};

verus! {

/// Reads the answer to the question for the configured default branch name:
/// the output without the whitespace around it. The question itself names
/// `master` as what to answer where nothing is configured.
pub fn default_branch_name(output: &[u8]) -> (r: Result<String, Failure>)
    ensures
        match r {
            Ok(name) => answer_of(output@) == Some(name@),
            Err(failure) => answer_of(output@) is None && failure == Failure::NotUtf8,
        },
{
    match decode_answer(output) {
        Some(name) => Ok(name),
        None => Err(Failure::NotUtf8),
    }
}

} // verus!
