//! A verified model of a commit-squash engine: walking a bounded stretch of
//! commit history, resolving the boundary commit, and rewriting the most
//! recent commits into a single one while preserving the staged content.
//!
//! The engine assumes exclusive access to the repository for the duration of
//! one invocation and does no locking of its own; concurrent mutation of the
//! repository by another process is a known limitation, not tolerated
//! silently.

pub mod commit;
pub mod error;
pub mod repo;
pub mod selection;
pub mod render;

use vstd::prelude::*;

verus! {

/// Upper bound, in characters, on a commit message accepted by the engine.
pub const MAX_MESSAGE_LENGTH: usize = 80;

/// Rejects a commit message that is longer than [`MAX_MESSAGE_LENGTH`]
/// characters; any shorter message (the empty one as well) is accepted.
pub fn validate_input(input: &String) -> (r: Result<(), error::SquashError>)
    ensures
        r is Ok <==> input@.len() <= MAX_MESSAGE_LENGTH,
        r is Err ==> r->Err_0 == error::SquashError::MessageTooLong,
{
    if input.as_str().unicode_len() > MAX_MESSAGE_LENGTH {
        Err(error::SquashError::MessageTooLong)
    } else {
        Ok(())
    }
}

} // verus!
