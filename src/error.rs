use vstd::prelude::*;

use crate::AccountId;

verus! {

/// Every way a governance call can be rejected.
#[derive(Clone, Copy, Debug, PartialEq, Eq, Structural)]
pub enum Error {
    /// The proposal is already finished. Do not retry.
    ProposalIsFinished,
    /// Invalid parameters were provided to the finalization process.
    InvalidProposalFinalizationParameters,
    /// Invalid parameters were provided to the voting process.
    InvalidProposalVotingParameters,
    /// A governance configuration with a zero proposal cost.
    InvalidProposalCost,
    /// A governance configuration with a zero expiration window.
    InvalidProposalExpiration,
    /// The proposer does not hold the proposal cost.
    NotEnoughBalanceToPropose,
    /// Proposal data is empty.
    ProposalDataTooSmall,
    /// Proposal data is longer than 256 bytes.
    ProposalDataTooLarge,
    /// The staked module is already delegating for 2 ^ 32 keys.
    ModuleDelegatingForMaxStakers,
    /// No proposal has the given id.
    ProposalNotFound,
    /// The proposal was accepted, refused or expired and takes no votes.
    ProposalClosed,
    /// Proposal data is not valid UTF-8.
    InvalidProposalData,
    /// An amount could not be represented by the currency.
    InvalidCurrencyConversionValue,
    /// The DAO treasury cannot cover a transfer.
    InsufficientDaoTreasuryFunds,
    /// The subnet is in authority mode.
    NotVoteMode,
    /// The account has already voted on the proposal.
    AlreadyVoted,
    /// The account has not voted on the proposal.
    NotVoted,
    /// The account has no stake to vote with.
    InsufficientStake,
    /// The voter delegates its voting power to the modules it stakes on.
    VoterIsDelegatingVotingPower,
    /// The network vote mode must be authority for changes to be imposed.
    VoteModeIsNotAuthority,
    /// A bounded collection is full, or an identifier space is exhausted.
    InternalError,
    /// Application data is empty.
    ApplicationTooSmall,
    /// Application data is longer than 256 bytes.
    ApplicationTooLarge,
    /// The application was already accepted or refused.
    ApplicationNotPending,
    /// Application data is not valid UTF-8.
    InvalidApplication,
    /// The applicant does not hold the application cost.
    NotEnoughtBalnceToApply,
    /// A recommended weight outside `1..=100`.
    InvalidRecommendedWeight,
    /// The caller is not the curator.
    NotCurator,
    /// No application has the given id.
    ApplicationNotFound,
    /// The module is already whitelisted.
    AlreadyWhitelisted,
    /// The module is not whitelisted.
    NotWhitelisted,
    /// An amount could not be converted to a balance.
    CouldNotConvertToBalance,
}

/// Notifications produced for observers of the governance state.
#[derive(Clone, Copy, Debug, PartialEq, Eq, Structural)]
pub enum Event {
    ProposalCreated(u64),
    ProposalAccepted(u64),
    ProposalRefused(u64),
    ProposalExpired(u64),
    ProposalVoted(u64, AccountId, bool),
    ProposalVoteUnregistered(u64, AccountId),
    WhitelistModuleAdded(AccountId),
    WhitelistModuleRemoved(AccountId),
    ApplicationCreated(u64),
    /// An accepted proposal's effect could not be carried out; the
    /// acceptance itself stands.
    ProposalExecutionFailed(u64, Error),
    /// The deferred reward bookkeeping of an accepted proposal was settled.
    ProposalRewarded(u64),
}

} // verus!
