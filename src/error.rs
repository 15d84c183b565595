use vstd::prelude::*;

verus! {

/// Every way an operation on the marketplace can fail. A failing operation
/// leaves the marketplace unchanged.
#[derive(Debug, Clone, Copy, PartialEq, Eq, Structural)]
pub enum ErrorCode {
    /// The fee rate is above 10000 basis points.
    InvalidFeeBps,
    /// An agent name longer than 50 characters.
    NameTooLong,
    /// A skill URI longer than 200 characters.
    UriTooLong,
    /// A task description longer than 500 characters.
    TaskTooLong,
    /// A review comment longer than 200 characters.
    CommentTooLong,
    /// An agent price of zero.
    InvalidPrice,
    /// The agent does not accept new jobs.
    AgentNotActive,
    /// The job is not in the `Created` state.
    InvalidJobStatus,
    /// The job is not in the `Completed` state.
    JobNotCompleted,
    /// A rating outside 1..=5.
    InvalidRating,
    /// A holding account lacks the value that should leave it.
    InsufficientFunds,
    /// The client cannot pay the agent's price.
    InsufficientClientFunds,
    /// The caller is not the identity the record names.
    Unauthorized,
    /// A record with the same key already exists.
    DuplicateKey,
    /// The platform registry has not been created yet.
    NotInitialized,
    /// No agent is registered under the given owner.
    AgentNotFound,
    /// No job exists under the given key.
    JobNotFound,
    /// The destination of a transfer cannot hold the value.
    TransferFailure,
    /// A counter or aggregate would exceed its range.
    Overflow,
}

} // verus!
