use vstd::prelude::*;

use crate::config::GovernanceConfiguration;
use crate::error::Error;
use crate::{AccountId, SubnetId};

verus! {

/// Longest proposal or application payload, in bytes.
pub const MAX_DATA_LEN: usize = 256;

/// Identifier of a proposal.
pub type ProposalId = u64;

/// Network-wide parameters, written wholesale to the parameter store when a
/// global-params proposal is accepted.
#[derive(Clone, Copy, Debug, PartialEq, Eq, Structural)]
pub struct GlobalParams {
    pub max_name_length: u16,
    pub min_name_length: u16,
    pub max_allowed_subnets: u16,
    pub max_allowed_modules: u16,
    pub max_registrations_per_block: u16,
    pub max_allowed_weights: u16,
    pub max_burn: u64,
    pub min_burn: u64,
    /// A percentage.
    pub floor_delegation_fee: u8,
    pub floor_founder_share: u8,
    pub min_weight_stake: u64,
    pub curator: AccountId,
    /// A percentage.
    pub subnet_stake_threshold: u8,
    pub governance_config: GovernanceConfiguration,
    pub general_subnet_application_cost: u64,
}

/// Parameters of one subnet, written wholesale to the parameter store when a
/// subnet-params proposal is accepted.
#[derive(Clone, Copy, Debug, PartialEq, Eq, Structural)]
pub struct SubnetParams {
    pub founder: AccountId,
    pub founder_share: u16,
    pub immunity_period: u16,
    pub incentive_ratio: u16,
    pub max_allowed_uids: u16,
    pub max_allowed_weights: u16,
    pub min_allowed_weights: u16,
    pub min_stake: u64,
    pub max_weight_age: u64,
    pub tempo: u16,
    pub trust_ratio: u16,
    pub maximum_set_weight_calls_per_epoch: u16,
    pub governance_config: GovernanceConfiguration,
    pub bonds_ma: u64,
    pub target_registrations_interval: u16,
    pub target_registrations_per_interval: u16,
    pub max_registrations_per_interval: u16,
    pub adjustment_alpha: u64,
}

/// What a proposal asks for.
#[derive(Clone, Copy, Debug, PartialEq, Eq, Structural)]
pub enum ProposalData {
    GlobalCustom,
    GlobalParams(GlobalParams),
    SubnetCustom { subnet_id: SubnetId },
    SubnetParams { subnet_id: SubnetId, params: SubnetParams },
    TransferDaoTreasury { account: AccountId, amount: u64 },
}

impl ProposalData {
    /// The subnet whose configuration governs the proposal, if any.
    pub open spec fn scope(&self) -> Option<SubnetId> {
        match *self {
            ProposalData::SubnetCustom { subnet_id } => Some(subnet_id),
            ProposalData::SubnetParams { subnet_id, .. } => Some(subnet_id),
            _ => None,
        }
    }

    pub fn subnet_id(&self) -> (r: Option<SubnetId>)
        ensures
            r == self.scope(),
    {
        match *self {
            ProposalData::SubnetCustom { subnet_id } => Some(subnet_id),
            ProposalData::SubnetParams { subnet_id, .. } => Some(subnet_id),
            _ => None,
        }
    }
}

/// Where a proposal stands; every status but `Open` is final.
#[derive(Clone, Copy, Debug, PartialEq, Eq, Structural)]
pub enum ProposalStatus {
    Open,
    Accepted,
    Refused,
    Expired,
}

/// A proposal and the accounts that voted on it.
#[derive(Debug)]
pub struct Proposal {
    pub id: ProposalId,
    pub proposer: AccountId,
    pub creation_block: u64,
    pub expiration_block: u64,
    pub data: ProposalData,
    pub metadata: Vec<u8>,
    pub proposal_cost: u64,
    pub status: ProposalStatus,
    pub votes_for: Vec<AccountId>,
    pub votes_against: Vec<AccountId>,
    pub finalization_block: Option<u64>,
}

impl Proposal {
    /// No account sits in both vote sets.
    pub open spec fn votes_disjoint(&self) -> bool {
        forall|a: AccountId| !(#[trigger] self.votes_for@.contains(a) && self.votes_against@.contains(a))
    }

    pub open spec fn has_voted(&self, a: AccountId) -> bool {
        self.votes_for@.contains(a) || self.votes_against@.contains(a)
    }
}

/// An accepted proposal whose reward bookkeeping is still due.
#[derive(Clone, Copy, Debug, PartialEq, Eq, Structural)]
pub struct UnrewardedProposal {
    pub proposal_id: ProposalId,
    /// The block from which the entry may be settled.
    pub block: u64,
}

/// Where a curated-module application stands.
#[derive(Clone, Copy, Debug, PartialEq, Eq, Structural)]
pub enum ApplicationStatus {
    Pending,
    Accepted,
    Refused,
}

/// A request to admit a module into the curated subnet.
#[derive(Debug)]
pub struct CuratorApplication {
    pub id: u64,
    pub user_id: AccountId,
    pub paying_for: AccountId,
    pub data: Vec<u8>,
    pub status: ApplicationStatus,
}

/// The governance configuration that a params proposal would install.
pub open spec fn embedded_config(kind: ProposalData) -> Option<GovernanceConfiguration> {
    match kind {
        ProposalData::GlobalParams(p) => Some(p.governance_config),
        ProposalData::SubnetParams { params, .. } => Some(params.governance_config),
        _ => None,
    }
}

/// Every configuration that the proposal would install is valid.
pub open spec fn embedded_config_is_valid(kind: ProposalData) -> bool {
    embedded_config(kind) is Some ==> embedded_config(kind)->Some_0.is_valid()
}

/// Whether `std::str::from_utf8` accepts the bytes.
pub uninterp spec fn is_valid_utf8(b: Seq<u8>) -> bool;

/// Relies on `std::str::from_utf8`: it succeeds exactly on well-formed UTF-8,
/// which depends on the bytes alone.
#[verifier::external_body]
fn utf8_ok(b: &[u8]) -> (r: bool)
    ensures
        r == is_valid_utf8(b@),
{
    std::str::from_utf8(b).is_ok()
}

/// The verdict on a proposal payload of `len` bytes, given whether it is UTF-8.
pub open spec fn proposal_data_verdict(len: int, utf8: bool) -> Result<(), Error> {
    if len == 0 {
        Err(Error::ProposalDataTooSmall)
    } else if len > MAX_DATA_LEN {
        Err(Error::ProposalDataTooLarge)
    } else if !utf8 {
        Err(Error::InvalidProposalData)
    } else {
        Ok(())
    }
}

/// The verdict on an application payload of `len` bytes, given whether it is UTF-8.
pub open spec fn application_data_verdict(len: int, utf8: bool) -> Result<(), Error> {
    if len == 0 {
        Err(Error::ApplicationTooSmall)
    } else if len > MAX_DATA_LEN {
        Err(Error::ApplicationTooLarge)
    } else if !utf8 {
        Err(Error::InvalidApplication)
    } else {
        Ok(())
    }
}

/// Judges a proposal payload from its length and its UTF-8 validity.
pub fn judge_proposal_data(len: usize, utf8: bool) -> (r: Result<(), Error>)
    ensures
        r == proposal_data_verdict(len as int, utf8),
{
    if len == 0 {
        Err(Error::ProposalDataTooSmall)
    } else if len > MAX_DATA_LEN {
        Err(Error::ProposalDataTooLarge)
    } else if !utf8 {
        Err(Error::InvalidProposalData)
    } else {
        Ok(())
    }
}

/// Judges an application payload from its length and its UTF-8 validity.
pub fn judge_application_data(len: usize, utf8: bool) -> (r: Result<(), Error>)
    ensures
        r == application_data_verdict(len as int, utf8),
{
    if len == 0 {
        Err(Error::ApplicationTooSmall)
    } else if len > MAX_DATA_LEN {
        Err(Error::ApplicationTooLarge)
    } else if !utf8 {
        Err(Error::InvalidApplication)
    } else {
        Ok(())
    }
}

/// Checks a proposal payload: 1 to 256 bytes of UTF-8.
pub fn check_proposal_data(data: &Vec<u8>) -> (r: Result<(), Error>)
    ensures
        r == proposal_data_verdict(data@.len() as int, is_valid_utf8(data@)),
{
    let len = data.len();
    if len == 0 || len > MAX_DATA_LEN {
        return judge_proposal_data(len, true);
    }
    let utf8 = utf8_ok(data.as_slice());
    judge_proposal_data(len, utf8)
}

/// Checks an application payload: 1 to 256 bytes of UTF-8.
pub fn check_application_data(data: &Vec<u8>) -> (r: Result<(), Error>)
    ensures
        r == application_data_verdict(data@.len() as int, is_valid_utf8(data@)),
{
    let len = data.len();
    if len == 0 || len > MAX_DATA_LEN {
        return judge_application_data(len, true);
    }
    let utf8 = utf8_ok(data.as_slice());
    judge_application_data(len, utf8)
}

/// Whether `a` occurs in `v`.
pub fn contains_account(v: &Vec<AccountId>, a: AccountId) -> (r: bool)
    ensures
        r == v@.contains(a),
{
    let mut i: usize = 0;
    while i < v.len()
        invariant
            i <= v@.len(),
            forall|j: int| 0 <= j < i ==> v@[j] != a,
        decreases v@.len() - i,
    {
        if v[i] == a {
            assert(v@[i as int] == a);
            return true;
        }
        i += 1;
    }
    false
}

} // verus!
