use vstd::prelude::*;

use crate::error::Error;

verus! {

/// Proposal cost given to a subnet that has no configuration of its own.
pub const DEFAULT_PROPOSAL_COST: u64 = 10_000_000_000_000;

/// Expiration window, in blocks, given to a subnet that has no configuration
/// of its own.
pub const DEFAULT_PROPOSAL_EXPIRATION: u32 = 130_000;

/// Who decides the outcome of proposals.
#[derive(Clone, Copy, Debug, PartialEq, Eq, Structural)]
pub enum VoteMode {
    /// A designated authority decides; stake votes do not resolve proposals.
    Authority,
    /// Stake-weighted majority decides.
    Vote,
}

/// How proposals are priced, how long they stay open, and who decides them.
#[derive(Clone, Copy, Debug, PartialEq, Eq, Structural)]
pub struct GovernanceConfiguration {
    pub vote_mode: VoteMode,
    pub proposal_cost: u64,
    pub proposal_expiration: u32,
}

impl GovernanceConfiguration {
    /// Both the cost and the expiration window are positive.
    pub open spec fn is_valid(&self) -> bool {
        self.proposal_cost > 0 && self.proposal_expiration > 0
    }
}

/// The outcome of validating a configuration.
pub open spec fn validation_result(config: GovernanceConfiguration) -> Result<GovernanceConfiguration, Error> {
    if config.proposal_cost == 0 {
        Err(Error::InvalidProposalCost)
    } else if config.proposal_expiration == 0 {
        Err(Error::InvalidProposalExpiration)
    } else {
        Ok(config)
    }
}

/// The configuration of a subnet that has none of its own: authority mode
/// with the default cost and expiration window.
#[allow(non_snake_case)]
pub fn DefaultSubnetGovernanceConfig() -> (r: GovernanceConfiguration)
    ensures
        r == default_subnet_config(),
        r.is_valid(),
{
    GovernanceConfiguration {
        vote_mode: VoteMode::Authority,
        proposal_cost: DEFAULT_PROPOSAL_COST,
        proposal_expiration: DEFAULT_PROPOSAL_EXPIRATION,
    }
}

pub open spec fn default_subnet_config() -> GovernanceConfiguration {
    GovernanceConfiguration {
        vote_mode: VoteMode::Authority,
        proposal_cost: DEFAULT_PROPOSAL_COST,
        proposal_expiration: DEFAULT_PROPOSAL_EXPIRATION,
    }
}

} // verus!
