//! The contract between the engine and an interactive chooser.
//!
//! The chooser is shown one line per walked commit, preceded by an entry for
//! a free-form message, and hands back a single zero-based index: index 0
//! stands for "supply a custom message", index `n` in `1..=M` for the `n`-th
//! commit of the walk.  Resolving the index never renders anything: it
//! either asks for free-form input, reuses the chosen commit's message, or
//! rejects the index.  The message length bound applies uniformly, to typed
//! input and to reused commit messages alike.

use vstd::prelude::*;
use vstd::string::*;
use crate::commit::{Commit, CommitView, spec_format};
use crate::error::SquashError;
use crate::repo::spec_walk;

verus! {

/// Where the final squash message comes from.
pub enum MessageSource {
    /// The user types the message; it still has to pass
    /// [`accept_custom_message`].
    Custom,
    /// The message of the chosen commit is reused as it is.
    Existing(String),
}

/// The display lines for a walked list of commits, one per commit and in
/// walk order, each rendered against the same current time.
pub fn candidate_lines(commits: &Vec<Commit>, now: i64) -> (r: Vec<String>)
    requires
        forall|j: int|
            0 <= j < commits@.len() ==> i64::MIN <= now - (#[trigger] commits@[j]).timestamp
                <= i64::MAX,
    ensures
        r@.len() == commits@.len(),
        forall|j: int| 0 <= j < r@.len() ==> (#[trigger] r@[j])@ == spec_format(
            commits@[j]@,
            now as int,
        ),
{
    let mut r: Vec<String> = Vec::new();
    let mut i: usize = 0;
    while i < commits.len()
        invariant
            i <= commits@.len(),
            r@.len() == i,
            forall|j: int|
                0 <= j < commits@.len() ==> i64::MIN <= now - (#[trigger] commits@[j]).timestamp
                    <= i64::MAX,
            forall|j: int| 0 <= j < i ==> (#[trigger] r@[j])@ == spec_format(
                commits@[j]@,
                now as int,
            ),
        decreases commits@.len() - i,
    {
        r.push(commits[i].format(now));
        i = i + 1;
    }
    r
}

/// Resolves a chooser's index over `candidates`, the walked commits in walk
/// order.  Index 0 asks for a custom message; an index into the list reuses
/// that commit's message, provided it is within the length bound; any other
/// index is invalid.
pub fn resolve_selection(candidates: &Vec<Commit>, selection: usize) -> (r: Result<
    MessageSource,
    SquashError,
>)
    ensures
        selection == 0 ==> r is Ok && r->Ok_0 is Custom,
        1 <= selection <= candidates@.len() ==> (if candidates@[selection - 1]@.message.len()
            <= crate::MAX_MESSAGE_LENGTH {
            r is Ok && r->Ok_0 is Existing && r->Ok_0->Existing_0@ == candidates@[selection
                - 1]@.message
        } else {
            r is Err && r->Err_0 == SquashError::MessageTooLong
        }),
        selection > candidates@.len() ==> r is Err && r->Err_0 == SquashError::InvalidSelection,
{
    if selection == 0 {
        Ok(MessageSource::Custom)
    } else if selection <= candidates.len() {
        let msg = &candidates[selection - 1].message;
        if msg.as_str().unicode_len() > crate::MAX_MESSAGE_LENGTH {
            Err(SquashError::MessageTooLong)
        } else {
            Ok(MessageSource::Existing(msg.clone()))
        }
    } else {
        Err(SquashError::InvalidSelection)
    }
}

/// Validates a free-form message: it must be non-empty and within the
/// length bound, and is returned unchanged.
pub fn accept_custom_message(input: &String) -> (r: Result<String, SquashError>)
    ensures
        r is Ok <==> 1 <= input@.len() <= crate::MAX_MESSAGE_LENGTH,
        r is Ok ==> r->Ok_0@ == input@,
        input@.len() == 0 ==> r is Err && r->Err_0 == SquashError::EmptyMessage,
        input@.len() > crate::MAX_MESSAGE_LENGTH ==> r is Err && r->Err_0
            == SquashError::MessageTooLong,
{
    if input.as_str().unicode_len() == 0 {
        Err(SquashError::EmptyMessage)
    } else {
        match crate::validate_input(input) {
            Ok(()) => Ok(input.clone()),
            Err(e) => Err(e),
        }
    }
}

/// The selection round trip: a re-walk of the same history with the same
/// bound is the identical sequence, so the commit behind index `k` of the
/// candidate list — and with it the message that resolving `k` reuses — is
/// exactly commit `k - 1` of an independent walk of the same bounded size.
pub proof fn lemma_selection_round_trip(h: Seq<CommitView>, limit: nat, k: nat)
    requires
        1 <= k <= spec_walk(h, limit).len(),
    ensures
        spec_walk(h, limit)[k as int - 1] == h[k as int - 1],
        spec_walk(h, limit)[k as int - 1].message == h[k as int - 1].message,
{
}

} // verus!
