//! Error kinds of the squash engine.

use vstd::prelude::*;

verus! {

/// Everything that can go wrong while preparing or performing a squash.
///
/// The engine itself raises [`SquashError::InsufficientHistory`],
/// [`SquashError::InvalidSelection`], [`SquashError::MessageTooLong`] and
/// [`SquashError::EmptyMessage`]; the remaining kinds name the failures of
/// the storage layer, for the surrounding program to report under one
/// taxonomy.
#[derive(Clone, Copy, Debug, PartialEq, Eq, Structural)]
pub enum SquashError {
    /// The repository cannot be opened or located.
    RepositoryUnavailable,
    /// The history walk cannot be initialized or the tip cannot be resolved.
    GraphTraversalFailure,
    /// Fewer commits exist than the squash needs (the boundary is missing).
    InsufficientHistory,
    /// A selection index outside the candidate list.
    InvalidSelection,
    /// A commit message longer than the accepted maximum.
    MessageTooLong,
    /// An empty free-form commit message.
    EmptyMessage,
    /// A tree, signature or commit object could not be written.
    CommitConstructionFailure,
}

impl SquashError {
    /// A short human-readable description of the error kind.
    pub fn describe(&self) -> String {
        match self {
            SquashError::RepositoryUnavailable => String::from_str("failed to open the repository"),
            SquashError::GraphTraversalFailure => String::from_str("failed to walk the commit history"),
            SquashError::InsufficientHistory => String::from_str("not enough commits to squash"),
            SquashError::InvalidSelection => String::from_str("selection is out of range"),
            SquashError::MessageTooLong => String::from_str("message is too long, max is 80"),
            SquashError::EmptyMessage => String::from_str("message is empty"),
            SquashError::CommitConstructionFailure => String::from_str("failed to write the new commit"),
        }
    }
}

} // verus!
