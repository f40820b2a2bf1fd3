use vstd::prelude::*;

verus! {

/// The stable, enumerable error taxonomy of the governance core.
///
/// Validation errors (an input exceeds a size bound): `NameTooLong`,
/// `DescriptionTooLong`. Authorization errors (the caller lacks the required
/// relationship to the record): `Unauthorized`. State errors (the operation is
/// invalid for the record's current lifecycle state): `ProposalNotActive`,
/// `ProposalAlreadyClosed`, `AlreadyVoted`. Resource errors (a bounded counter
/// would overflow): `ProposalLimitReached`.
///
/// Every error is terminal for the requested operation: no operation performs
/// a partial mutation on failure.
#[derive(Clone, Copy, Debug, PartialEq, Eq)]
pub enum ErrorCode {
    /// The proposal has been closed (or never existed) and cannot accept votes.
    ProposalNotActive,
    /// The proposal is already closed (or its record no longer exists).
    ProposalAlreadyClosed,
    /// The caller is not the organization's administrator, or the proposal is
    /// not recognized as live by its parent organization.
    Unauthorized,
    /// The organization name exceeds 32 bytes.
    NameTooLong,
    /// The proposal description exceeds 256 bytes.
    DescriptionTooLong,
    /// The organization already holds 255 proposals; one more would overflow
    /// the one-byte counter.
    ProposalLimitReached,
    /// The caller has already cast a vote on this proposal.
    AlreadyVoted,
}

} // verus!
