use std::collections::HashMap;
use std::collections::HashSet;

use vstd::prelude::*;

use crate::config::{
    default_subnet_config, validation_result, DefaultSubnetGovernanceConfig,
    GovernanceConfiguration, VoteMode,
};
use crate::error::{Error, Event};
use crate::proposal::{
    check_proposal_data, embedded_config, is_valid_utf8, proposal_data_verdict, CuratorApplication, GlobalParams,
    Proposal, ProposalData, ProposalStatus, SubnetParams, UnrewardedProposal,
};
use crate::{AccountId, SubnetId};

verus! {

/// Highest block height the engine accepts, so that a block plus an
/// expiration window always fits in a `u64`.
pub const MAX_BLOCK: u64 = 18_446_744_069_414_584_320;

/// Largest number of accounts that may vote directly.
pub const MAX_DIRECT_VOTERS: usize = 4_294_967_295;

/// Share of treasury-bound inflows, in percent, that a new engine assigns.
#[allow(non_snake_case)]
pub fn DefaultDaoTreasuryDistribution() -> (r: u8)
    ensures
        r == 5,
{
    5
}

/// Cost of a curated-module application that a new engine assigns.
#[allow(non_snake_case)]
pub fn DefaultGeneralSubnetApplicationCost() -> (r: u64)
    ensures
        r == 1_000_000_000_000,
{
    1_000_000_000_000
}

/// The whole governance state, together with the currency and stake ledgers
/// that it reads and the parameter store that accepted proposals write.
pub struct Pallet {
    /// The current block height.
    pub block: u64,
    pub global_governance_config: GovernanceConfiguration,
    pub subnet_governance_config: HashMap<SubnetId, GovernanceConfiguration>,
    /// The proposal with id `k` sits at index `k - 1`.
    pub proposals: Vec<Proposal>,
    /// Indices of the open proposals, oldest first, so that a tick costs
    /// time in the number of open proposals only.
    pub open_proposals: Vec<usize>,
    /// Accounts that vote directly instead of delegating their voting power.
    pub not_delegating_voting_power: HashSet<AccountId>,
    pub unrewarded_proposals: Vec<UnrewardedProposal>,
    pub dao_treasury_address: AccountId,
    /// A percentage.
    pub dao_treasury_distribution: u8,
    pub general_subnet_application_cost: u64,
    /// The application with id `k` sits at index `k`.
    pub curator_applications: Vec<CuratorApplication>,
    pub legit_whitelist: HashMap<AccountId, u8>,
    pub curator: AccountId,
    /// Currency ledger.
    pub balances: HashMap<AccountId, u64>,
    /// Stake ledger for network-wide proposals.
    pub global_stake: HashMap<AccountId, u64>,
    /// Stake ledger per subnet.
    pub subnet_stake: HashMap<SubnetId, HashMap<AccountId, u64>>,
    /// Parameter store.
    pub global_params: GlobalParams,
    pub subnet_params: HashMap<SubnetId, SubnetParams>,
    /// Notifications, oldest first.
    pub events: Vec<Event>,
}

/// Sum of the voting power of `voters`.
pub open spec fn weight(p: Pallet, voters: Seq<AccountId>, scope: Option<SubnetId>) -> int
    decreases voters.len(),
{
    if voters.len() == 0 {
        0
    } else {
        weight(p, voters.drop_last(), scope) + p.power(voters.last(), scope)
    }
}

/// Everything but the vote sets is as in `o`.
pub open spec fn same_but_votes(p: Proposal, o: Proposal) -> bool {
    &&& p.id == o.id
    &&& p.proposer == o.proposer
    &&& p.creation_block == o.creation_block
    &&& p.expiration_block == o.expiration_block
    &&& p.data == o.data
    &&& p.metadata@ == o.metadata@
    &&& p.proposal_cost == o.proposal_cost
    &&& p.status == o.status
    &&& p.finalization_block == o.finalization_block
}

/// Whether `j` occurs among the first `k` entries of `s`.
pub open spec fn listed_before(s: Seq<usize>, k: int, j: int) -> bool {
    exists|q: int| 0 <= q < k && s[q] == j
}

/// The entries of a reward queue that are not yet due at block `height`, in order.
pub open spec fn pending_after(q: Seq<UnrewardedProposal>, height: u64) -> Seq<UnrewardedProposal>
    decreases q.len(),
{
    if q.len() == 0 {
        q
    } else if q.last().block > height {
        pending_after(q.drop_last(), height).push(q.last())
    } else {
        pending_after(q.drop_last(), height)
    }
}

/// One `ProposalRewarded` event for each entry of a reward queue that is due
/// at block `height`, in order.
pub open spec fn reward_events(q: Seq<UnrewardedProposal>, height: u64) -> Seq<Event>
    decreases q.len(),
{
    if q.len() == 0 {
        Seq::empty()
    } else if q.last().block <= height {
        reward_events(q.drop_last(), height).push(Event::ProposalRewarded(q.last().proposal_id))
    } else {
        reward_events(q.drop_last(), height)
    }
}

/// Everything but the status and the finalization block is as in `o`.
pub open spec fn same_but_status(p: Proposal, o: Proposal) -> bool {
    &&& p.id == o.id
    &&& p.proposer == o.proposer
    &&& p.creation_block == o.creation_block
    &&& p.expiration_block == o.expiration_block
    &&& p.data == o.data
    &&& p.metadata@ == o.metadata@
    &&& p.proposal_cost == o.proposal_cost
    &&& p.votes_for@ == o.votes_for@
    &&& p.votes_against@ == o.votes_against@
}

/// Only the proposal at index `idx` may differ between the two lists.
pub open spec fn others_unchanged(new: Seq<Proposal>, old: Seq<Proposal>, idx: int) -> bool {
    &&& new.len() == old.len()
    &&& forall|j: int| 0 <= j < old.len() && j != idx ==> new[j] == old[j]
}

impl Pallet {
    pub open spec fn balance(self, a: AccountId) -> int {
        if self.balances@.contains_key(a) {
            self.balances@[a] as int
        } else {
            0
        }
    }

    pub open spec fn stake(self, a: AccountId, scope: Option<SubnetId>) -> int {
        match scope {
            None => if self.global_stake@.contains_key(a) {
                self.global_stake@[a] as int
            } else {
                0
            },
            Some(s) => if self.subnet_stake@.contains_key(s) && self.subnet_stake@[s]@.contains_key(
                a,
            ) {
                self.subnet_stake@[s]@[a] as int
            } else {
                0
            },
        }
    }

    pub open spec fn delegating(self, a: AccountId) -> bool {
        !self.not_delegating_voting_power@.contains(a)
    }

    /// What an account's vote weighs: nothing while it delegates, else its stake.
    pub open spec fn power(self, a: AccountId, scope: Option<SubnetId>) -> int {
        if self.delegating(a) {
            0
        } else {
            self.stake(a, scope)
        }
    }

    /// The configuration that governs proposals of the given scope.
    pub open spec fn config_for(self, scope: Option<SubnetId>) -> GovernanceConfiguration {
        match scope {
            None => self.global_governance_config,
            Some(s) => if self.subnet_governance_config@.contains_key(s) {
                self.subnet_governance_config@[s]
            } else {
                default_subnet_config()
            },
        }
    }

    pub open spec fn has_proposal(self, id: u64) -> bool {
        1 <= id <= self.proposals@.len()
    }

    pub open spec fn proposal(self, id: u64) -> Proposal {
        self.proposals@[id - 1]
    }

    /// The index of open proposals lists each open proposal once, and
    /// nothing else.
    pub open spec fn open_index_ok(self) -> bool {
        &&& self.open_proposals@.no_duplicates()
        &&& forall|k: int|
            0 <= k < self.open_proposals@.len() ==> {
                &&& (#[trigger] self.open_proposals@[k]) < self.proposals@.len()
                &&& self.proposals@[self.open_proposals@[k] as int].status == ProposalStatus::Open
            }
        &&& forall|i: int|
            0 <= i < self.proposals@.len() && (#[trigger] self.proposals@[i]).status
                == ProposalStatus::Open ==> self.open_proposals@.contains(i as usize)
    }

    pub open spec fn wf(self) -> bool {
        &&& self.wf_core()
        &&& self.open_index_ok()
    }

    /// Well-formedness of everything but the index of open proposals.
    pub open spec fn wf_core(self) -> bool {
        &&& self.block <= MAX_BLOCK
        &&& self.global_governance_config.is_valid()
        &&& forall|s: SubnetId| #[trigger]
            self.subnet_governance_config@.contains_key(s)
                ==> self.subnet_governance_config@[s].is_valid()
        &&& forall|i: int|
            0 <= i < self.proposals@.len() ==> {
                &&& (#[trigger] self.proposals@[i]).id == i + 1
                &&& self.proposals@[i].votes_disjoint()
                &&& self.proposals@[i].votes_for@.no_duplicates()
                &&& self.proposals@[i].votes_against@.no_duplicates()
                &&& embedded_config(self.proposals@[i].data) is Some
                    ==> embedded_config(self.proposals@[i].data)->Some_0.is_valid()
            }
        &&& forall|i: int|
            0 <= i < self.curator_applications@.len() ==> (#[trigger] self.curator_applications@[
                i
            ]).id == i
    }

    /// Ledgers, configuration and parameter store are as in `o`.
    pub open spec fn same_ledgers_and_config(self, o: Pallet) -> bool {
        &&& self.block == o.block
        &&& self.balances@ == o.balances@
        &&& self.global_stake@ == o.global_stake@
        &&& self.subnet_stake@ == o.subnet_stake@
        &&& self.global_governance_config == o.global_governance_config
        &&& self.subnet_governance_config@ == o.subnet_governance_config@
        &&& self.global_params == o.global_params
        &&& self.subnet_params@ == o.subnet_params@
    }

    /// The DAO state (treasury settings, applications, whitelist, curator) is as in `o`.
    pub open spec fn same_dao(self, o: Pallet) -> bool {
        &&& self.dao_treasury_address == o.dao_treasury_address
        &&& self.dao_treasury_distribution == o.dao_treasury_distribution
        &&& self.general_subnet_application_cost == o.general_subnet_application_cost
        &&& self.curator_applications@ == o.curator_applications@
        &&& self.legit_whitelist@ == o.legit_whitelist@
        &&& self.curator == o.curator
    }

    /// Proposals, the reward queue and the delegation set are as in `o`.
    pub open spec fn same_votes(self, o: Pallet) -> bool {
        &&& self.proposals@ == o.proposals@
        &&& self.open_proposals@ == o.open_proposals@
        &&& self.unrewarded_proposals@ == o.unrewarded_proposals@
        &&& self.not_delegating_voting_power@ == o.not_delegating_voting_power@
    }

    /// Checks that the cost and the expiration window are positive, cost first.
    pub fn validate(config: GovernanceConfiguration) -> (r: Result<GovernanceConfiguration, Error>)
        ensures
            r == validation_result(config),
            r is Ok ==> config.is_valid(),
    {
        if config.proposal_cost == 0 {
            return Err(Error::InvalidProposalCost);
        }
        if config.proposal_expiration == 0 {
            return Err(Error::InvalidProposalExpiration);
        }
        Ok(config)
    }

    /// A fresh engine at block 0: no proposals, every account delegating,
    /// empty ledgers.
    pub fn new(
        global_config: GovernanceConfiguration,
        global_params: GlobalParams,
        dao_treasury_address: AccountId,
        curator: AccountId,
    ) -> (r: Result<Pallet, Error>)
        ensures
            global_config.is_valid() <==> r is Ok,
            !global_config.is_valid() ==> r == Err::<Pallet, Error>(
                validation_result(global_config)->Err_0,
            ),
            r matches Ok(p) ==> {
                &&& p.wf()
                &&& p.block == 0
                &&& p.global_governance_config == global_config
                &&& p.subnet_governance_config@.is_empty()
                &&& p.proposals@.len() == 0
                &&& p.open_proposals@.len() == 0
                &&& p.not_delegating_voting_power@.is_empty()
                &&& p.unrewarded_proposals@.len() == 0
                &&& p.dao_treasury_address == dao_treasury_address
                &&& p.dao_treasury_distribution == 5
                &&& p.general_subnet_application_cost == 1_000_000_000_000
                &&& p.curator_applications@.len() == 0
                &&& p.legit_whitelist@.is_empty()
                &&& p.curator == curator
                &&& p.balances@.is_empty()
                &&& p.global_stake@.is_empty()
                &&& p.subnet_stake@.is_empty()
                &&& p.global_params == global_params
                &&& p.subnet_params@.is_empty()
                &&& p.events@.len() == 0
            },
    {
        let global_governance_config = match Self::validate(global_config) {
            Ok(c) => c,
            Err(e) => return Err(e),
        };
        Ok(Pallet {
            block: 0,
            global_governance_config,
            subnet_governance_config: HashMap::new(),
            proposals: Vec::new(),
            open_proposals: Vec::new(),
            not_delegating_voting_power: HashSet::new(),
            unrewarded_proposals: Vec::new(),
            dao_treasury_address,
            dao_treasury_distribution: DefaultDaoTreasuryDistribution(),
            general_subnet_application_cost: DefaultGeneralSubnetApplicationCost(),
            curator_applications: Vec::new(),
            legit_whitelist: HashMap::new(),
            curator,
            balances: HashMap::new(),
            global_stake: HashMap::new(),
            subnet_stake: HashMap::new(),
            global_params,
            subnet_params: HashMap::new(),
            events: Vec::new(),
        })
    }

    /// The account's balance in the currency ledger.
    pub fn balance_of(&self, a: AccountId) -> (r: u64)
        ensures
            r == self.balance(a),
    {
        match self.balances.get(&a) {
            Some(b) => *b,
            None => 0,
        }
    }

    /// The account's stake in the given scope, as the stake ledger reports it.
    pub fn stake_of(&self, a: AccountId, scope: Option<SubnetId>) -> (r: u64)
        ensures
            r == self.stake(a, scope),
    {
        match scope {
            None => match self.global_stake.get(&a) {
                Some(s) => *s,
                None => 0,
            },
            Some(s) => match self.subnet_stake.get(&s) {
                Some(m) => match m.get(&a) {
                    Some(v) => *v,
                    None => 0,
                },
                None => 0,
            },
        }
    }

    /// Whether the account delegates its voting power.
    pub fn is_delegating_voting_power(&self, delegator: AccountId) -> (r: bool)
        ensures
            r == self.delegating(delegator),
    {
        !self.not_delegating_voting_power.contains(&delegator)
    }

    /// The account's effective voting power in the given scope.
    pub fn effective_voting_power(&self, a: AccountId, scope: Option<SubnetId>) -> (r: u64)
        ensures
            r == self.power(a, scope),
    {
        if self.is_delegating_voting_power(a) {
            0
        } else {
            self.stake_of(a, scope)
        }
    }

    /// The configuration that governs proposals of the given scope.
    pub fn governance_config(&self, scope: Option<SubnetId>) -> (r: GovernanceConfiguration)
        ensures
            r == self.config_for(scope),
            self.wf() ==> r.is_valid(),
    {
        match scope {
            None => self.global_governance_config,
            Some(s) => match self.subnet_governance_config.get(&s) {
                Some(c) => *c,
                None => DefaultSubnetGovernanceConfig(),
            },
        }
    }
    /// Records the account's balance in the currency ledger.
    pub fn set_balance(&mut self, a: AccountId, amount: u64)
        requires
            old(self).wf(),
        ensures
            final(self).wf(),
            final(self).balances@ == old(self).balances@.insert(a, amount),
            final(self).global_stake@ == old(self).global_stake@,
            final(self).subnet_stake@ == old(self).subnet_stake@,
            final(self).same_votes(*old(self)),
            final(self).same_dao(*old(self)),
            final(self).events@ == old(self).events@,
    {
        self.balances.insert(a, amount);
    }

    /// Records the account's stake in the given scope, as the stake ledger
    /// reports it.
    pub fn set_stake(&mut self, a: AccountId, scope: Option<SubnetId>, amount: u64)
        requires
            old(self).wf(),
        ensures
            final(self).wf(),
            forall|b: AccountId, sc: Option<SubnetId>|
                #[trigger] final(self).stake(b, sc) == if b == a && sc == scope {
                    amount as int
                } else {
                    old(self).stake(b, sc)
                },
            final(self).balances@ == old(self).balances@,
            final(self).same_votes(*old(self)),
            final(self).same_dao(*old(self)),
            final(self).events@ == old(self).events@,
    {
        match scope {
            None => {
                self.global_stake.insert(a, amount);
            },
            Some(s) => {
                let mut inner = match self.subnet_stake.remove(&s) {
                    Some(m) => m,
                    None => HashMap::new(),
                };
                inner.insert(a, amount);
                self.subnet_stake.insert(s, inner);
            },
        }
    }

    /// Adds the account to, or takes it out of, the set of direct voters.
    /// Becoming a direct voter fails with `InternalError` only when the set
    /// is full and the account is not in it yet.
    pub fn update_delegating_voting_power(&mut self, delegator: AccountId, delegating: bool) -> (r:
        Result<(), Error>)
        requires
            old(self).wf(),
        ensures
            final(self).wf(),
            final(self).same_ledgers_and_config(*old(self)),
            final(self).same_dao(*old(self)),
            final(self).proposals@ == old(self).proposals@,
            final(self).unrewarded_proposals@ == old(self).unrewarded_proposals@,
            final(self).events@ == old(self).events@,
            delegating ==> r is Ok && final(self).not_delegating_voting_power@
                == old(self).not_delegating_voting_power@.remove(delegator),
            !delegating ==> (r is Ok <==> (old(self).not_delegating_voting_power@.contains(
                delegator,
            ) || old(self).not_delegating_voting_power@.len() < MAX_DIRECT_VOTERS)),
            !delegating && r is Ok ==> final(self).not_delegating_voting_power@
                == old(self).not_delegating_voting_power@.insert(delegator),
            r is Err ==> r == Err::<(), Error>(Error::InternalError)
                && final(self).not_delegating_voting_power@
                == old(self).not_delegating_voting_power@,
    {
        if delegating {
            self.not_delegating_voting_power.remove(&delegator);
            Ok(())
        } else {
            if !self.not_delegating_voting_power.contains(&delegator)
                && self.not_delegating_voting_power.len() >= MAX_DIRECT_VOTERS {
                return Err(Error::InternalError);
            }
            self.not_delegating_voting_power.insert(delegator);
            Ok(())
        }
    }

    /// The caller lets the modules it stakes on vote for it.
    pub fn enable_vote_power_delegation(&mut self, origin: AccountId) -> (r: Result<(), Error>)
        requires
            old(self).wf(),
        ensures
            final(self).wf(),
            r is Ok,
            final(self).not_delegating_voting_power@
                == old(self).not_delegating_voting_power@.remove(origin),
            final(self).same_ledgers_and_config(*old(self)),
            final(self).same_dao(*old(self)),
            final(self).proposals@ == old(self).proposals@,
            final(self).unrewarded_proposals@ == old(self).unrewarded_proposals@,
            final(self).events@ == old(self).events@,
    {
        self.update_delegating_voting_power(origin, true)
    }

    /// How `new` follows from `self` when `origin` stops delegating and the
    /// call returns `r`.
    pub open spec fn disable_delegation_effect(self, new: Pallet, origin: AccountId, r: Result<
        (),
        Error,
    >) -> bool {
        &&& new.wf()
        &&& r is Ok <==> (self.not_delegating_voting_power@.contains(origin)
            || self.not_delegating_voting_power@.len() < MAX_DIRECT_VOTERS)
        &&& r is Ok ==> new.not_delegating_voting_power@
            == self.not_delegating_voting_power@.insert(origin)
        &&& r is Err ==> r == Err::<(), Error>(Error::InternalError)
            && new.not_delegating_voting_power@ == self.not_delegating_voting_power@
        &&& new.same_ledgers_and_config(self)
        &&& new.same_dao(self)
        &&& new.proposals@ == self.proposals@
        &&& new.unrewarded_proposals@ == self.unrewarded_proposals@
        &&& new.events@ == self.events@
    }

    /// The caller votes directly from now on.
    pub fn disable_vote_power_delegation(&mut self, origin: AccountId) -> (r: Result<(), Error>)
        requires
            old(self).wf(),
        ensures
            old(self).disable_delegation_effect(*final(self), origin, r),
    {
        self.update_delegating_voting_power(origin, false)
    }

    /// Replaces the network-wide configuration with a valid one; an invalid
    /// one is refused and nothing changes.
    pub fn update_global_governance_configuration(&mut self, config: GovernanceConfiguration) -> (r:
        Result<(), Error>)
        requires
            old(self).wf(),
        ensures
            final(self).wf(),
            r is Ok <==> config.is_valid(),
            r is Err ==> r == Err::<(), Error>(validation_result(config)->Err_0),
            final(self).global_governance_config == if config.is_valid() {
                config
            } else {
                old(self).global_governance_config
            },
            final(self).subnet_governance_config@ == old(self).subnet_governance_config@,
            final(self).same_votes(*old(self)),
            final(self).same_dao(*old(self)),
            final(self).events@ == old(self).events@,
            final(self).balances@ == old(self).balances@,
    {
        let config = match Self::validate(config) {
            Ok(c) => c,
            Err(e) => return Err(e),
        };
        self.global_governance_config = config;
        Ok(())
    }

    /// Gives a subnet a configuration of its own; an invalid one is refused
    /// and nothing changes.
    pub fn update_subnet_governance_configuration(
        &mut self,
        subnet_id: SubnetId,
        config: GovernanceConfiguration,
    ) -> (r: Result<(), Error>)
        requires
            old(self).wf(),
        ensures
            final(self).wf(),
            r is Ok <==> config.is_valid(),
            r is Err ==> r == Err::<(), Error>(validation_result(config)->Err_0),
            final(self).subnet_governance_config@ == if config.is_valid() {
                old(self).subnet_governance_config@.insert(subnet_id, config)
            } else {
                old(self).subnet_governance_config@
            },
            final(self).global_governance_config == old(self).global_governance_config,
            final(self).same_votes(*old(self)),
            final(self).same_dao(*old(self)),
            final(self).events@ == old(self).events@,
            final(self).balances@ == old(self).balances@,
    {
        let config = match Self::validate(config) {
            Ok(c) => c,
            Err(e) => return Err(e),
        };
        self.subnet_governance_config.insert(subnet_id, config);
        Ok(())
    }

    /// Forgets the configuration of a subnet that was deleted; its proposals
    /// fall back to the default subnet configuration.
    pub fn handle_subnet_removal(&mut self, subnet_id: SubnetId)
        requires
            old(self).wf(),
        ensures
            final(self).wf(),
            final(self).subnet_governance_config@
                == old(self).subnet_governance_config@.remove(subnet_id),
            final(self).global_governance_config == old(self).global_governance_config,
            final(self).same_votes(*old(self)),
            final(self).same_dao(*old(self)),
            final(self).events@ == old(self).events@,
            final(self).balances@ == old(self).balances@,
    {
        self.subnet_governance_config.remove(&subnet_id);
    }
    /// The outcome of creating a proposal: payload checks first, then the
    /// embedded configuration, then the proposer's balance, then the id space.
    pub open spec fn creation_outcome(self, origin: AccountId, kind: ProposalData, metadata: Seq<
        u8,
    >) -> Result<(), Error> {
        let verdict = proposal_data_verdict(metadata.len() as int, is_valid_utf8(metadata));
        if verdict is Err {
            verdict
        } else if embedded_config(kind) is Some && !embedded_config(kind)->Some_0.is_valid() {
            Err(validation_result(embedded_config(kind)->Some_0)->Err_0)
        } else if self.balance(origin) < self.config_for(kind.scope()).proposal_cost {
            Err(Error::NotEnoughBalanceToPropose)
        } else if self.proposals@.len() >= u64::MAX {
            Err(Error::InternalError)
        } else {
            Ok(())
        }
    }

    /// How `new` follows from `self` when `origin` proposes `kind` with the
    /// given payload and the call returns `r`.
    pub open spec fn creation_effect(
        self,
        new: Pallet,
        origin: AccountId,
        kind: ProposalData,
        metadata: Seq<u8>,
        r: Result<(), Error>,
    ) -> bool {
        &&& r == self.creation_outcome(origin, kind, metadata)
        &&& new.wf()
        &&& new.same_dao(self)
        &&& new.block == self.block
        &&& new.global_stake@ == self.global_stake@
        &&& new.subnet_stake@ == self.subnet_stake@
        &&& new.global_governance_config == self.global_governance_config
        &&& new.subnet_governance_config@ == self.subnet_governance_config@
        &&& new.global_params == self.global_params
        &&& new.subnet_params@ == self.subnet_params@
        &&& new.not_delegating_voting_power@ == self.not_delegating_voting_power@
        &&& new.unrewarded_proposals@ == self.unrewarded_proposals@
        &&& r is Err ==> {
            &&& new.balances@ == self.balances@
            &&& new.proposals@ == self.proposals@
            &&& new.open_proposals@ == self.open_proposals@
            &&& new.events@ == self.events@
        }
        &&& r is Ok ==> {
            let config = self.config_for(kind.scope());
            let id = self.proposals@.len() + 1;
            let p = new.proposals@.last();
            &&& new.proposals@.len() == id
            &&& new.proposals@.drop_last() == self.proposals@
            &&& new.open_proposals@ == self.open_proposals@.push((id - 1) as usize)
            &&& p.id == id
            &&& p.proposer == origin
            &&& p.creation_block == self.block
            &&& p.expiration_block == self.block + config.proposal_expiration
            &&& p.data == kind
            &&& p.metadata@ == metadata
            &&& p.proposal_cost == config.proposal_cost
            &&& p.status == ProposalStatus::Open
            &&& p.votes_for@.len() == 0
            &&& p.votes_against@.len() == 0
            &&& p.finalization_block is None
            &&& new.balances@ == self.balances@.insert(
                origin,
                (self.balance(origin) - config.proposal_cost) as u64,
            )
            &&& new.events@ == self.events@.push(Event::ProposalCreated(id as u64))
        }
    }

    /// Creates an open proposal of any kind, paid for by `origin`.
    pub fn create_proposal(&mut self, origin: AccountId, kind: ProposalData, metadata: Vec<u8>) -> (r:
        Result<(), Error>)
        requires
            old(self).wf(),
        ensures
            old(self).creation_effect(*final(self), origin, kind, metadata@, r),
    {
        match check_proposal_data(&metadata) {
            Ok(()) => {},
            Err(e) => return Err(e),
        }
        match kind {
            ProposalData::GlobalParams(p) => match Self::validate(p.governance_config) {
                Ok(_) => {},
                Err(e) => return Err(e),
            },
            ProposalData::SubnetParams { params, .. } => match Self::validate(params.governance_config) {
                Ok(_) => {},
                Err(e) => return Err(e),
            },
            _ => {},
        }
        let config = self.governance_config(kind.subnet_id());
        let balance = self.balance_of(origin);
        if balance < config.proposal_cost {
            return Err(Error::NotEnoughBalanceToPropose);
        }
        let count = self.proposals.len() as u64;
        if count == u64::MAX {
            return Err(Error::InternalError);
        }
        let id = count + 1;
        self.balances.insert(origin, balance - config.proposal_cost);
        let proposal = Proposal {
            id,
            proposer: origin,
            creation_block: self.block,
            expiration_block: self.block + config.proposal_expiration as u64,
            data: kind,
            metadata,
            proposal_cost: config.proposal_cost,
            status: ProposalStatus::Open,
            votes_for: Vec::new(),
            votes_against: Vec::new(),
            finalization_block: None,
        };
        self.proposals.push(proposal);
        self.open_proposals.push(count as usize);
        self.events.push(Event::ProposalCreated(id));
        proof {
            assert(self.proposals@.drop_last() =~= old(self).proposals@);
            let open = self.open_proposals@;
            assert(open.no_duplicates()) by {
                assert forall|a: int, b: int| 0 <= a < open.len() && 0 <= b < open.len() && a != b
                    implies open[a] != open[b] by {
                    if a < open.len() - 1 {
                        assert(old(self).open_proposals@[a] == open[a]);
                    }
                    if b < open.len() - 1 {
                        assert(old(self).open_proposals@[b] == open[b]);
                    }
                }
            }
            assert forall|i: int|
                0 <= i < self.proposals@.len() && (#[trigger] self.proposals@[i]).status
                    == ProposalStatus::Open implies self.open_proposals@.contains(i as usize) by {
                if i < old(self).proposals@.len() {
                    assert(old(self).proposals@[i] == self.proposals@[i]);
                    let q = choose|q: int|
                        0 <= q < old(self).open_proposals@.len() && old(self).open_proposals@[q]
                            == i as usize;
                    assert(self.open_proposals@[q] == i as usize);
                } else {
                    assert(self.open_proposals@[open.len() - 1] == i as usize);
                }
            }
        }
        Ok(())
    }

    /// Proposes new network-wide parameters; the vote mode stays as it is.
    pub fn add_global_params_proposal(
        &mut self,
        origin: AccountId,
        data: Vec<u8>,
        max_name_length: u16,
        min_name_length: u16,
        max_allowed_subnets: u16,
        max_allowed_modules: u16,
        max_registrations_per_block: u16,
        max_allowed_weights: u16,
        max_burn: u64,
        min_burn: u64,
        floor_delegation_fee: u8,
        floor_founder_share: u8,
        min_weight_stake: u64,
        curator: AccountId,
        subnet_stake_threshold: u8,
        proposal_cost: u64,
        proposal_expiration: u32,
        general_subnet_application_cost: u64,
    ) -> (r: Result<(), Error>)
        requires
            old(self).wf(),
        ensures
            old(self).creation_effect(
                *final(self),
                origin,
                ProposalData::GlobalParams(
                    GlobalParams {
                        max_name_length,
                        min_name_length,
                        max_allowed_subnets,
                        max_allowed_modules,
                        max_registrations_per_block,
                        max_allowed_weights,
                        max_burn,
                        min_burn,
                        floor_delegation_fee,
                        floor_founder_share,
                        min_weight_stake,
                        curator,
                        subnet_stake_threshold,
                        governance_config: GovernanceConfiguration {
                            vote_mode: old(self).global_governance_config.vote_mode,
                            proposal_cost,
                            proposal_expiration,
                        },
                        general_subnet_application_cost,
                    },
                ),
                data@,
                r,
            ),
    {
        let params = GlobalParams {
            max_name_length,
            min_name_length,
            max_allowed_subnets,
            max_allowed_modules,
            max_registrations_per_block,
            max_allowed_weights,
            max_burn,
            min_burn,
            floor_delegation_fee,
            floor_founder_share,
            min_weight_stake,
            curator,
            subnet_stake_threshold,
            governance_config: GovernanceConfiguration {
                vote_mode: self.global_governance_config.vote_mode,
                proposal_cost,
                proposal_expiration,
            },
            general_subnet_application_cost,
        };
        self.create_proposal(origin, ProposalData::GlobalParams(params), data)
    }

    /// Proposes new parameters for a subnet; its proposal cost and expiration
    /// window stay as they are.
    pub fn add_subnet_params_proposal(
        &mut self,
        origin: AccountId,
        subnet_id: SubnetId,
        data: Vec<u8>,
        founder: AccountId,
        founder_share: u16,
        immunity_period: u16,
        incentive_ratio: u16,
        max_allowed_uids: u16,
        max_allowed_weights: u16,
        min_allowed_weights: u16,
        min_stake: u64,
        max_weight_age: u64,
        tempo: u16,
        trust_ratio: u16,
        maximum_set_weight_calls_per_epoch: u16,
        vote_mode: VoteMode,
        bonds_ma: u64,
        target_registrations_interval: u16,
        target_registrations_per_interval: u16,
        max_registrations_per_interval: u16,
        adjustment_alpha: u64,
    ) -> (r: Result<(), Error>)
        requires
            old(self).wf(),
        ensures
            old(self).creation_effect(
                *final(self),
                origin,
                ProposalData::SubnetParams {
                    subnet_id,
                    params: SubnetParams {
                        founder,
                        founder_share,
                        immunity_period,
                        incentive_ratio,
                        max_allowed_uids,
                        max_allowed_weights,
                        min_allowed_weights,
                        min_stake,
                        max_weight_age,
                        tempo,
                        trust_ratio,
                        maximum_set_weight_calls_per_epoch,
                        governance_config: GovernanceConfiguration {
                            vote_mode,
                            ..old(self).config_for(Some(subnet_id))
                        },
                        bonds_ma,
                        target_registrations_interval,
                        target_registrations_per_interval,
                        max_registrations_per_interval,
                        adjustment_alpha,
                    },
                },
                data@,
                r,
            ),
    {
        let current = self.governance_config(Some(subnet_id));
        let params = SubnetParams {
            founder,
            founder_share,
            immunity_period,
            incentive_ratio,
            max_allowed_uids,
            max_allowed_weights,
            min_allowed_weights,
            min_stake,
            max_weight_age,
            tempo,
            trust_ratio,
            maximum_set_weight_calls_per_epoch,
            governance_config: GovernanceConfiguration { vote_mode, ..current },
            bonds_ma,
            target_registrations_interval,
            target_registrations_per_interval,
            max_registrations_per_interval,
            adjustment_alpha,
        };
        self.create_proposal(origin, ProposalData::SubnetParams { subnet_id, params }, data)
    }

    /// Proposes a network-wide change described by the payload alone.
    pub fn add_global_custom_proposal(&mut self, origin: AccountId, data: Vec<u8>) -> (r: Result<
        (),
        Error,
    >)
        requires
            old(self).wf(),
        ensures
            old(self).creation_effect(*final(self), origin, ProposalData::GlobalCustom, data@, r),
    {
        self.create_proposal(origin, ProposalData::GlobalCustom, data)
    }

    /// Proposes a subnet change described by the payload alone.
    pub fn add_subnet_custom_proposal(
        &mut self,
        origin: AccountId,
        subnet_id: SubnetId,
        data: Vec<u8>,
    ) -> (r: Result<(), Error>)
        requires
            old(self).wf(),
        ensures
            old(self).creation_effect(
                *final(self),
                origin,
                ProposalData::SubnetCustom { subnet_id },
                data@,
                r,
            ),
    {
        self.create_proposal(origin, ProposalData::SubnetCustom { subnet_id }, data)
    }

    /// Proposes to pay `value` from the DAO treasury to `dest` once accepted.
    pub fn add_transfer_dao_treasury_proposal(
        &mut self,
        origin: AccountId,
        data: Vec<u8>,
        value: u64,
        dest: AccountId,
    ) -> (r: Result<(), Error>)
        requires
            old(self).wf(),
        ensures
            old(self).creation_effect(
                *final(self),
                origin,
                ProposalData::TransferDaoTreasury { account: dest, amount: value },
                data@,
                r,
            ),
    {
        self.create_proposal(
            origin,
            ProposalData::TransferDaoTreasury { account: dest, amount: value },
            data,
        )
    }
    /// The outcome of a vote, in the order the checks are made.
    pub open spec fn vote_outcome(self, voter: AccountId, id: u64) -> Result<(), Error> {
        if !self.has_proposal(id) {
            Err(Error::ProposalNotFound)
        } else if self.proposal(id).status != ProposalStatus::Open {
            Err(Error::ProposalClosed)
        } else if self.delegating(voter) {
            Err(Error::VoterIsDelegatingVotingPower)
        } else if self.proposal(id).has_voted(voter) {
            Err(Error::AlreadyVoted)
        } else if self.power(voter, self.proposal(id).data.scope()) == 0 {
            Err(Error::InsufficientStake)
        } else {
            Ok(())
        }
    }

    /// The outcome of withdrawing a vote, in the order the checks are made.
    pub open spec fn unvote_outcome(self, voter: AccountId, id: u64) -> Result<(), Error> {
        if !self.has_proposal(id) {
            Err(Error::ProposalNotFound)
        } else if self.proposal(id).status != ProposalStatus::Open {
            Err(Error::ProposalClosed)
        } else if !self.proposal(id).has_voted(voter) {
            Err(Error::NotVoted)
        } else {
            Ok(())
        }
    }

    /// Whether `id` names a proposal, and where it sits.
    fn find_proposal(&self, id: u64) -> (r: Option<usize>)
        requires
            self.wf(),
        ensures
            r is Some <==> self.has_proposal(id),
            r matches Some(i) ==> i == id - 1 && i < self.proposals@.len(),
    {
        if id == 0 || id > self.proposals.len() as u64 {
            None
        } else {
            Some((id - 1) as usize)
        }
    }

    /// How `new` follows from `self` when `origin` votes on `proposal_id`
    /// and the call returns `r`.
    pub open spec fn vote_effect(
        self,
        new: Pallet,
        origin: AccountId,
        proposal_id: u64,
        agree: bool,
        r: Result<(), Error>,
    ) -> bool {
        &&& new.wf()
        &&& r == self.vote_outcome(origin, proposal_id)
        &&& new.same_ledgers_and_config(self)
        &&& new.same_dao(self)
        &&& new.unrewarded_proposals@ == self.unrewarded_proposals@
        &&& new.not_delegating_voting_power@ == self.not_delegating_voting_power@
        &&& r is Err ==> new.proposals@ == self.proposals@ && new.events@ == self.events@
        &&& r is Ok ==> {
            let idx = proposal_id - 1;
            let p = self.proposals@[idx];
            let q = new.proposals@[idx];
            &&& others_unchanged(new.proposals@, self.proposals@, idx)
            &&& same_but_votes(q, p)
            &&& q.votes_for@ == if agree {
                p.votes_for@.push(origin)
            } else {
                p.votes_for@
            }
            &&& q.votes_against@ == if agree {
                p.votes_against@
            } else {
                p.votes_against@.push(origin)
            }
            &&& new.events@ == self.events@.push(Event::ProposalVoted(proposal_id, origin, agree))
        }
    }

    /// Records the vote of `origin` for (`agree`) or against a proposal.
    pub fn vote_proposal(&mut self, origin: AccountId, proposal_id: u64, agree: bool) -> (r: Result<
        (),
        Error,
    >)
        requires
            old(self).wf(),
        ensures
            old(self).vote_effect(*final(self), origin, proposal_id, agree, r),
    {
        let idx = match self.find_proposal(proposal_id) {
            Some(i) => i,
            None => return Err(Error::ProposalNotFound),
        };
        if self.proposals[idx].status != ProposalStatus::Open {
            return Err(Error::ProposalClosed);
        }
        if self.is_delegating_voting_power(origin) {
            return Err(Error::VoterIsDelegatingVotingPower);
        }
        if crate::proposal::contains_account(&self.proposals[idx].votes_for, origin)
            || crate::proposal::contains_account(&self.proposals[idx].votes_against, origin) {
            return Err(Error::AlreadyVoted);
        }
        let scope = self.proposals[idx].data.subnet_id();
        if self.effective_voting_power(origin, scope) == 0 {
            return Err(Error::InsufficientStake);
        }
        if agree {
            self.proposals[idx].votes_for.push(origin);
        } else {
            self.proposals[idx].votes_against.push(origin);
        }
        self.events.push(Event::ProposalVoted(proposal_id, origin, agree));
        proof {
            let q = self.proposals@[idx as int];
            let p = old(self).proposals@[idx as int];
            assert(q.votes_disjoint()) by {
                assert forall|a: AccountId| !(#[trigger] q.votes_for@.contains(a)
                    && q.votes_against@.contains(a)) by {
                    assert(p.votes_disjoint());
                    if a != origin {
                        if q.votes_for@.contains(a) {
                            let k = choose|k: int| 0 <= k < q.votes_for@.len() && q.votes_for@[k] == a;
                            assert(p.votes_for@[k] == a);
                            assert(p.votes_for@.contains(a));
                        }
                        if q.votes_against@.contains(a) {
                            let k = choose|k: int| 0 <= k < q.votes_against@.len() && q.votes_against@[k] == a;
                            assert(p.votes_against@[k] == a);
                            assert(p.votes_against@.contains(a));
                        }
                    } else {
                        if agree {
                            assert(q.votes_against@ == p.votes_against@);
                        } else {
                            assert(q.votes_for@ == p.votes_for@);
                        }
                    }
                }
            }
        }
        Ok(())
    }

    /// Withdraws the vote of `origin` on an open proposal.
    pub fn remove_vote_proposal(&mut self, origin: AccountId, proposal_id: u64) -> (r: Result<
        (),
        Error,
    >)
        requires
            old(self).wf(),
        ensures
            final(self).wf(),
            r == old(self).unvote_outcome(origin, proposal_id),
            final(self).same_ledgers_and_config(*old(self)),
            final(self).same_dao(*old(self)),
            final(self).unrewarded_proposals@ == old(self).unrewarded_proposals@,
            final(self).not_delegating_voting_power@ == old(self).not_delegating_voting_power@,
            r is Err ==> final(self).proposals@ == old(self).proposals@ && final(self).events@
                == old(self).events@,
            r is Ok ==> {
                let idx = proposal_id - 1;
                let p = old(self).proposals@[idx];
                let q = final(self).proposals@[idx];
                &&& others_unchanged(final(self).proposals@, old(self).proposals@, idx)
                &&& same_but_votes(q, p)
                &&& !q.has_voted(origin)
                &&& p.votes_for@.contains(origin) ==> exists|k: int|
                    0 <= k < p.votes_for@.len() && p.votes_for@[k] == origin && q.votes_for@
                        == p.votes_for@.remove(k)
                &&& p.votes_for@.contains(origin) ==> q.votes_against@ == p.votes_against@
                &&& p.votes_against@.contains(origin) ==> exists|k: int|
                    0 <= k < p.votes_against@.len() && p.votes_against@[k] == origin
                        && q.votes_against@ == p.votes_against@.remove(k)
                &&& p.votes_against@.contains(origin) ==> q.votes_for@ == p.votes_for@
                &&& final(self).events@ == old(self).events@.push(
                    Event::ProposalVoteUnregistered(proposal_id, origin),
                )
            },
    {
        let idx = match self.find_proposal(proposal_id) {
            Some(i) => i,
            None => return Err(Error::ProposalNotFound),
        };
        if self.proposals[idx].status != ProposalStatus::Open {
            return Err(Error::ProposalClosed);
        }
        let ghost p = self.proposals@[idx as int];
        match position_of(&self.proposals[idx].votes_for, origin) {
            Some(k) => {
                self.proposals[idx].votes_for.remove(k);
                proof {
                    lemma_remove_unique(p.votes_for@, k as int);
                    lemma_remove_subset(p.votes_for@, k as int);
                }
            },
            None => match position_of(&self.proposals[idx].votes_against, origin) {
                Some(k) => {
                    self.proposals[idx].votes_against.remove(k);
                    proof {
                        lemma_remove_unique(p.votes_against@, k as int);
                        lemma_remove_subset(p.votes_against@, k as int);
                    }
                },
                None => return Err(Error::NotVoted),
            },
        }
        self.events.push(Event::ProposalVoteUnregistered(proposal_id, origin));
        Ok(())
    }
}

/// Where `a` first occurs in `v`, if anywhere.
fn position_of(v: &Vec<AccountId>, a: AccountId) -> (r: Option<usize>)
    ensures
        r is None <==> !v@.contains(a),
        r matches Some(k) ==> k < v@.len() && v@[k as int] == a,
{
    let mut i: usize = 0;
    while i < v.len()
        invariant
            i <= v@.len(),
            forall|j: int| 0 <= j < i ==> v@[j] != a,
        decreases v@.len() - i,
    {
        if v[i] == a {
            return Some(i);
        }
        i += 1;
    }
    None
}

/// Removing the only occurrence of an element leaves a list without it and
/// without duplicates.
proof fn lemma_remove_unique(s: Seq<AccountId>, k: int)
    requires
        0 <= k < s.len(),
        s.no_duplicates(),
    ensures
        s.remove(k).no_duplicates(),
        !s.remove(k).contains(s[k]),
{
    let r = s.remove(k);
    assert forall|i: int, j: int| 0 <= i < r.len() && 0 <= j < r.len() && i != j implies r[i]
        != r[j] by {
        let oi = if i < k { i } else { i + 1 };
        let oj = if j < k { j } else { j + 1 };
        assert(r[i] == s[oi] && r[j] == s[oj]);
    }
    if r.contains(s[k]) {
        let i = choose|i: int| 0 <= i < r.len() && r[i] == s[k];
        let oi = if i < k { i } else { i + 1 };
        assert(r[i] == s[oi]);
    }
}

/// Every element left after a removal was there before.
proof fn lemma_remove_subset(s: Seq<AccountId>, k: int)
    requires
        0 <= k < s.len(),
    ensures
        forall|a: AccountId| #[trigger] s.remove(k).contains(a) ==> s.contains(a),
{
    let r = s.remove(k);
    assert forall|a: AccountId| #[trigger] r.contains(a) implies s.contains(a) by {
        let i = choose|i: int| 0 <= i < r.len() && r[i] == a;
        let oi = if i < k { i } else { i + 1 };
        assert(r[i] == s[oi]);
    }
}

impl Pallet {
    /// What the tally of a proposal decides once it is due: `Expired` where
    /// its governing configuration is in authority mode, else `Accepted`
    /// exactly when the weight for it exceeds the weight against it, and
    /// `Refused` otherwise, a tie included. There is no early resolution:
    /// a proposal is decided only at the tick of a block at or after its
    /// expiration block, from the stake and delegation choices of that block.
    pub open spec fn resolution(self, p: Proposal) -> ProposalStatus {
        let scope = p.data.scope();
        if self.config_for(scope).vote_mode == VoteMode::Authority {
            ProposalStatus::Expired
        } else if weight(self, p.votes_for@, scope) > weight(self, p.votes_against@, scope) {
            ProposalStatus::Accepted
        } else {
            ProposalStatus::Refused
        }
    }

    /// The status a proposal has after the tick of block `height`.
    pub open spec fn status_after_tick(self, p: Proposal, height: u64) -> ProposalStatus {
        if p.status == ProposalStatus::Open && p.expiration_block <= height {
            self.resolution(p)
        } else {
            p.status
        }
    }

    /// The outcome of paying `amount` from the treasury to `dest`.
    pub open spec fn transfer_outcome(self, dest: AccountId, amount: u64) -> Result<(), Error> {
        let treasury = self.dao_treasury_address;
        if self.balance(treasury) < amount {
            Err(Error::InsufficientDaoTreasuryFunds)
        } else if dest != treasury && self.balance(dest) + amount > u64::MAX {
            Err(Error::CouldNotConvertToBalance)
        } else {
            Ok(())
        }
    }

    /// The balances after a successful treasury payment.
    pub open spec fn balances_after_transfer(self, dest: AccountId, amount: u64) -> Map<
        AccountId,
        u64,
    > {
        let treasury = self.dao_treasury_address;
        if dest == treasury {
            self.balances@
        } else {
            self.balances@.insert(treasury, (self.balance(treasury) - amount) as u64).insert(
                dest,
                (self.balance(dest) + amount) as u64,
            )
        }
    }

    /// Sums the voting power of `voters` as it stands now.
    pub fn voters_weight(&self, voters: &Vec<AccountId>, scope: Option<SubnetId>) -> (r: u128)
        ensures
            r == weight(*self, voters@, scope),
    {
        let mut acc: u128 = 0;
        let mut i: usize = 0;
        while i < voters.len()
            invariant
                i <= voters@.len(),
                acc == weight(*self, voters@.take(i as int), scope),
                acc <= i * 18_446_744_073_709_551_615,
            decreases voters@.len() - i,
        {
            let w = self.effective_voting_power(voters[i], scope);
            proof {
                assert(voters@.take(i + 1).drop_last() =~= voters@.take(i as int));
            }
            acc = acc + w as u128;
            i += 1;
        }
        proof {
            assert(voters@.take(voters@.len() as int) =~= voters@);
        }
        acc
    }

    /// The weight for and against a proposal, at the stake and delegation
    /// choices of now; `None` when no proposal has that id.
    pub fn tally(&self, proposal_id: u64) -> (r: Option<(u128, u128)>)
        requires
            self.wf(),
        ensures
            r is Some <==> self.has_proposal(proposal_id),
            r matches Some(t) ==> {
                let p = self.proposal(proposal_id);
                &&& t.0 == weight(*self, p.votes_for@, p.data.scope())
                &&& t.1 == weight(*self, p.votes_against@, p.data.scope())
            },
    {
        let idx = match self.find_proposal(proposal_id) {
            Some(i) => i,
            None => return None,
        };
        let scope = self.proposals[idx].data.subnet_id();
        let w_for = self.voters_weight(&self.proposals[idx].votes_for, scope);
        let w_against = self.voters_weight(&self.proposals[idx].votes_against, scope);
        Some((w_for, w_against))
    }

    /// Decides the proposal at `idx` from the tally of now.
    fn decide(&self, idx: usize) -> (r: ProposalStatus)
        requires
            self.wf_core(),
            idx < self.proposals@.len(),
        ensures
            r == self.resolution(self.proposals@[idx as int]),
    {
        let scope = self.proposals[idx].data.subnet_id();
        let config = self.governance_config(scope);
        if config.vote_mode == VoteMode::Authority {
            return ProposalStatus::Expired;
        }
        let w_for = self.voters_weight(&self.proposals[idx].votes_for, scope);
        let w_against = self.voters_weight(&self.proposals[idx].votes_against, scope);
        if w_for > w_against {
            ProposalStatus::Accepted
        } else {
            ProposalStatus::Refused
        }
    }

    /// Pays `amount` from the DAO treasury to `dest`; on failure nothing moves.
    pub fn transfer_from_treasury(&mut self, dest: AccountId, amount: u64) -> (r: Result<(), Error>)
        requires
            old(self).wf_core(),
        ensures
            final(self).wf_core(),
            r == old(self).transfer_outcome(dest, amount),
            final(self).balances@ == if r is Ok {
                old(self).balances_after_transfer(dest, amount)
            } else {
                old(self).balances@
            },
            final(self).block == old(self).block,
            final(self).global_stake@ == old(self).global_stake@,
            final(self).subnet_stake@ == old(self).subnet_stake@,
            final(self).global_governance_config == old(self).global_governance_config,
            final(self).subnet_governance_config@ == old(self).subnet_governance_config@,
            final(self).global_params == old(self).global_params,
            final(self).subnet_params@ == old(self).subnet_params@,
            final(self).same_votes(*old(self)),
            final(self).same_dao(*old(self)),
            final(self).events@ == old(self).events@,
    {
        let treasury = self.dao_treasury_address;
        let funds = self.balance_of(treasury);
        if funds < amount {
            return Err(Error::InsufficientDaoTreasuryFunds);
        }
        if dest == treasury {
            return Ok(());
        }
        let held = self.balance_of(dest);
        if held > u64::MAX - amount {
            return Err(Error::CouldNotConvertToBalance);
        }
        self.balances.insert(treasury, funds - amount);
        self.balances.insert(dest, held + amount);
        Ok(())
    }

    /// Carries out what an accepted proposal asks for: parameters are written
    /// wholesale, treasury payments are made when the treasury can cover
    /// them, and a payment that fails is reported as an event.
    pub fn execute_proposal(&mut self, idx: usize)
        requires
            old(self).wf_core(),
            idx < old(self).proposals@.len(),
        ensures
            final(self).wf_core(),
            final(self).same_votes(*old(self)),
            final(self).same_dao(*old(self)),
            final(self).block == old(self).block,
            final(self).global_stake@ == old(self).global_stake@,
            final(self).subnet_stake@ == old(self).subnet_stake@,
            ({
                let p = old(self).proposals@[idx as int];
                match p.data {
                    ProposalData::GlobalParams(params) => {
                        &&& final(self).global_params == params
                        &&& final(self).global_governance_config == params.governance_config
                        &&& final(self).subnet_params@ == old(self).subnet_params@
                        &&& final(self).subnet_governance_config@
                            == old(self).subnet_governance_config@
                        &&& final(self).balances@ == old(self).balances@
                        &&& final(self).events@ == old(self).events@
                    },
                    ProposalData::SubnetParams { subnet_id, params } => {
                        &&& final(self).global_params == old(self).global_params
                        &&& final(self).global_governance_config
                            == old(self).global_governance_config
                        &&& final(self).subnet_params@ == old(self).subnet_params@.insert(
                            subnet_id,
                            params,
                        )
                        &&& final(self).subnet_governance_config@
                            == old(self).subnet_governance_config@.insert(
                            subnet_id,
                            params.governance_config,
                        )
                        &&& final(self).balances@ == old(self).balances@
                        &&& final(self).events@ == old(self).events@
                    },
                    ProposalData::TransferDaoTreasury { account, amount } => {
                        let outcome = old(self).transfer_outcome(account, amount);
                        &&& final(self).global_params == old(self).global_params
                        &&& final(self).global_governance_config
                            == old(self).global_governance_config
                        &&& final(self).subnet_params@ == old(self).subnet_params@
                        &&& final(self).subnet_governance_config@
                            == old(self).subnet_governance_config@
                        &&& final(self).balances@ == if outcome is Ok {
                            old(self).balances_after_transfer(account, amount)
                        } else {
                            old(self).balances@
                        }
                        &&& final(self).events@ == if outcome is Ok {
                            old(self).events@
                        } else {
                            old(self).events@.push(
                                Event::ProposalExecutionFailed(p.id, outcome->Err_0),
                            )
                        }
                    },
                    _ => final(self).same_ledgers_and_config(*old(self)) && final(self).events@
                        == old(self).events@,
                }
            }),
    {
        let id = self.proposals[idx].id;
        match self.proposals[idx].data {
            ProposalData::GlobalParams(params) => {
                self.global_params = params;
                self.global_governance_config = params.governance_config;
            },
            ProposalData::SubnetParams { subnet_id, params } => {
                self.subnet_params.insert(subnet_id, params);
                self.subnet_governance_config.insert(subnet_id, params.governance_config);
            },
            ProposalData::TransferDaoTreasury { account, amount } => {
                match self.transfer_from_treasury(account, amount) {
                    Ok(()) => {},
                    Err(e) => {
                        self.events.push(Event::ProposalExecutionFailed(id, e));
                    },
                }
            },
            _ => {},
        }
    }
    /// The new status of every open proposal after the tick of block
    /// `height`, in the order of the open index, each decided from the
    /// state of now.
    fn decisions(&self, height: u64) -> (r: Vec<ProposalStatus>)
        requires
            self.wf(),
        ensures
            r@.len() == self.open_proposals@.len(),
            forall|k: int|
                0 <= k < r@.len() ==> #[trigger] r@[k] == self.status_after_tick(
                    self.proposals@[self.open_proposals@[k] as int],
                    height,
                ),
    {
        let mut decided: Vec<ProposalStatus> = Vec::new();
        let m = self.open_proposals.len();
        let mut k: usize = 0;
        while k < m
            invariant
                self.wf(),
                m == self.open_proposals@.len(),
                k <= m,
                decided@.len() == k,
                forall|q: int|
                    0 <= q < k ==> #[trigger] decided@[q] == self.status_after_tick(
                        self.proposals@[self.open_proposals@[q] as int],
                        height,
                    ),
            decreases m - k,
        {
            let idx = self.open_proposals[k];
            let status = if self.proposals[idx].expiration_block <= height {
                self.decide(idx)
            } else {
                self.proposals[idx].status
            };
            decided.push(status);
            k += 1;
        }
        decided
    }

    /// Closes the open proposal at `idx` with `status` at block `height`; an
    /// accepted one is carried out and queued for its rewards.
    fn finalize(&mut self, idx: usize, status: ProposalStatus, height: u64)
        requires
            old(self).wf_core(),
            idx < old(self).proposals@.len(),
            old(self).proposals@[idx as int].status == ProposalStatus::Open,
            status != ProposalStatus::Open,
        ensures
            final(self).wf_core(),
            others_unchanged(final(self).proposals@, old(self).proposals@, idx as int),
            same_but_status(final(self).proposals@[idx as int], old(self).proposals@[idx as int]),
            final(self).proposals@[idx as int].status == status,
            final(self).proposals@[idx as int].finalization_block == Some(height),
            final(self).open_proposals@ == old(self).open_proposals@,
            final(self).not_delegating_voting_power@ == old(self).not_delegating_voting_power@,
            final(self).global_stake@ == old(self).global_stake@,
            final(self).subnet_stake@ == old(self).subnet_stake@,
            final(self).same_dao(*old(self)),
            final(self).block == old(self).block,
            final(self).unrewarded_proposals@ == if status == ProposalStatus::Accepted {
                old(self).unrewarded_proposals@.push(
                    UnrewardedProposal { proposal_id: (idx + 1) as u64, block: height },
                )
            } else {
                old(self).unrewarded_proposals@
            },
    {
        self.proposals[idx].status = status;
        self.proposals[idx].finalization_block = Some(height);
        let id = self.proposals[idx].id;
        match status {
            ProposalStatus::Accepted => {
                self.events.push(Event::ProposalAccepted(id));
                self.execute_proposal(idx);
                self.unrewarded_proposals.push(UnrewardedProposal { proposal_id: id, block: height });
            },
            ProposalStatus::Refused => {
                self.events.push(Event::ProposalRefused(id));
            },
            _ => {
                self.events.push(Event::ProposalExpired(id));
            },
        }
    }

    /// Resolves every open proposal whose expiration block has come, each by
    /// the tally at the start of the tick, and queues the accepted ones for
    /// their rewards. Only the open proposals are visited.
    pub fn tick_proposals(&mut self, height: u64)
        requires
            old(self).wf(),
        ensures
            final(self).wf(),
            final(self).proposals@.len() == old(self).proposals@.len(),
            forall|j: int|
                0 <= j < old(self).proposals@.len() ==> {
                    let p = old(self).proposals@[j];
                    let q = #[trigger] final(self).proposals@[j];
                    &&& same_but_status(q, p)
                    &&& q.status == old(self).status_after_tick(p, height)
                    &&& q.finalization_block == if q.status != p.status {
                        Some(height)
                    } else {
                        p.finalization_block
                    }
                },
            final(self).not_delegating_voting_power@ == old(self).not_delegating_voting_power@,
            final(self).global_stake@ == old(self).global_stake@,
            final(self).subnet_stake@ == old(self).subnet_stake@,
            final(self).same_dao(*old(self)),
            final(self).block == old(self).block,
            final(self).unrewarded_proposals@.len() >= old(self).unrewarded_proposals@.len(),
            final(self).unrewarded_proposals@.subrange(
                0,
                old(self).unrewarded_proposals@.len() as int,
            ) == old(self).unrewarded_proposals@,
            forall|k: int|
                old(self).unrewarded_proposals@.len() <= k
                    < final(self).unrewarded_proposals@.len() ==> {
                    let e = #[trigger] final(self).unrewarded_proposals@[k];
                    &&& e.block == height
                    &&& old(self).has_proposal(e.proposal_id)
                    &&& old(self).proposal(e.proposal_id).status == ProposalStatus::Open
                    &&& final(self).proposal(e.proposal_id).status == ProposalStatus::Accepted
                },
            forall|j: int|
                0 <= j < old(self).proposals@.len() && old(self).proposals@[j].status
                    == ProposalStatus::Open && (#[trigger] final(self).proposals@[j]).status
                    == ProposalStatus::Accepted ==> exists|k: int|
                    old(self).unrewarded_proposals@.len() <= k
                        < final(self).unrewarded_proposals@.len()
                        && (#[trigger] final(self).unrewarded_proposals@[k]).proposal_id == j + 1,
    {
        let decided = self.decisions(height);
        let n = self.proposals.len();
        let m = self.open_proposals.len();
        let ghost open = self.open_proposals@;
        let ghost old_q = self.unrewarded_proposals@;
        let mut keep: Vec<usize> = Vec::new();
        let mut k: usize = 0;
        while k < m
            invariant
                old(self).wf(),
                self.wf_core(),
                n == self.proposals@.len(),
                n == old(self).proposals@.len(),
                m == open.len(),
                open == old(self).open_proposals@,
                self.open_proposals@ == open,
                k <= m,
                decided@.len() == m,
                forall|q: int|
                    0 <= q < m ==> #[trigger] decided@[q] == old(self).status_after_tick(
                        old(self).proposals@[open[q] as int],
                        height,
                    ),
                old_q == old(self).unrewarded_proposals@,
                forall|j: int|
                    0 <= j < n ==> {
                        let p = old(self).proposals@[j];
                        let q = #[trigger] self.proposals@[j];
                        &&& same_but_status(q, p)
                        &&& q.status == if listed_before(open, k as int, j) {
                            old(self).status_after_tick(p, height)
                        } else {
                            p.status
                        }
                        &&& q.finalization_block == if q.status != p.status {
                            Some(height)
                        } else {
                            p.finalization_block
                        }
                    },
                keep@.no_duplicates(),
                forall|q: int|
                    0 <= q < keep@.len() ==> {
                        &&& listed_before(open, k as int, #[trigger] keep@[q] as int)
                        &&& keep@[q] < n
                        &&& self.proposals@[keep@[q] as int].status == ProposalStatus::Open
                    },
                forall|j: int|
                    0 <= j < n && listed_before(open, k as int, j) && (#[trigger] self.proposals@[
                        j
                    ]).status == ProposalStatus::Open ==> keep@.contains(j as usize),
                self.not_delegating_voting_power@ == old(self).not_delegating_voting_power@,
                self.global_stake@ == old(self).global_stake@,
                self.subnet_stake@ == old(self).subnet_stake@,
                self.same_dao(*old(self)),
                self.block == old(self).block,
                self.unrewarded_proposals@.len() >= old_q.len(),
                self.unrewarded_proposals@.subrange(0, old_q.len() as int) == old_q,
                forall|q: int|
                    old_q.len() <= q < self.unrewarded_proposals@.len() ==> {
                        let e = #[trigger] self.unrewarded_proposals@[q];
                        &&& e.block == height
                        &&& 1 <= e.proposal_id <= n
                        &&& old(self).proposals@[e.proposal_id - 1].status == ProposalStatus::Open
                        &&& self.proposals@[e.proposal_id - 1].status == ProposalStatus::Accepted
                    },
                forall|j: int|
                    0 <= j < n && old(self).proposals@[j].status == ProposalStatus::Open
                        && (#[trigger] self.proposals@[j]).status == ProposalStatus::Accepted
                        ==> exists|q: int|
                        old_q.len() <= q < self.unrewarded_proposals@.len()
                            && (#[trigger] self.unrewarded_proposals@[q]).proposal_id == j + 1,
            decreases m - k,
        {
            let idx = self.open_proposals[k];
            proof {
                assert(open[k as int] == idx);
                assert(!listed_before(open, k as int, idx as int)) by {
                    if listed_before(open, k as int, idx as int) {
                        let q = choose|q: int| 0 <= q < k && open[q] == idx;
                        assert(open[q] == open[k as int]);
                    }
                }
                assert(listed_before(open, k + 1, idx as int));
                assert forall|j: int| j != idx && #[trigger] listed_before(open, k + 1, j)
                    implies listed_before(open, k as int, j) by {
                    let q = choose|q: int| 0 <= q < k + 1 && open[q] == j;
                    assert(q != k);
                }
                assert forall|j: int| #[trigger] listed_before(open, k as int, j)
                    implies listed_before(open, k + 1, j) by {
                    let q = choose|q: int| 0 <= q < k && open[q] == j;
                    assert(open[q] == j);
                }
            }
            if self.proposals[idx].expiration_block <= height {
                let ghost before = *self;
                self.finalize(idx, decided[k], height);
                proof {
                    assert(self.unrewarded_proposals@.subrange(0, old_q.len() as int)
                        =~= before.unrewarded_proposals@.subrange(0, old_q.len() as int));
                    if decided@[k as int] == ProposalStatus::Accepted {
                        let q = before.unrewarded_proposals@.len() as int;
                        assert(self.unrewarded_proposals@[q].proposal_id == idx + 1);
                    }
                    assert forall|j: int|
                        0 <= j < n && old(self).proposals@[j].status == ProposalStatus::Open
                            && (#[trigger] self.proposals@[j]).status == ProposalStatus::Accepted
                            implies exists|q: int|
                        old_q.len() <= q < self.unrewarded_proposals@.len() && (
                        #[trigger] self.unrewarded_proposals@[q]).proposal_id == j + 1 by {
                        if j != idx {
                            assert(before.proposals@[j] == self.proposals@[j]);
                            let q = choose|q: int|
                                old_q.len() <= q < before.unrewarded_proposals@.len() && (
                                #[trigger] before.unrewarded_proposals@[q]).proposal_id == j + 1;
                            assert(self.unrewarded_proposals@[q]
                                == before.unrewarded_proposals@[q]);
                        } else {
                            let q = before.unrewarded_proposals@.len() as int;
                            assert(self.unrewarded_proposals@[q].proposal_id == idx + 1);
                        }
                    }
                    assert forall|q: int|
                        old_q.len() <= q < self.unrewarded_proposals@.len() implies {
                        let e = #[trigger] self.unrewarded_proposals@[q];
                        &&& e.block == height
                        &&& 1 <= e.proposal_id <= n
                        &&& old(self).proposals@[e.proposal_id - 1].status
                            == ProposalStatus::Open
                        &&& self.proposals@[e.proposal_id - 1].status
                            == ProposalStatus::Accepted
                    } by {
                        if q < before.unrewarded_proposals@.len() {
                            let e = before.unrewarded_proposals@[q];
                            assert(self.unrewarded_proposals@[q] == e);
                            assert(e.proposal_id - 1 != idx) by {
                                assert(before.proposals@[idx as int].status
                                    == ProposalStatus::Open);
                            }
                            assert(self.proposals@[e.proposal_id - 1]
                                == before.proposals@[e.proposal_id - 1]);
                        }
                    }
                    assert forall|q: int| 0 <= q < keep@.len() implies {
                        &&& listed_before(open, k + 1, #[trigger] keep@[q] as int)
                        &&& keep@[q] < n
                        &&& self.proposals@[keep@[q] as int].status == ProposalStatus::Open
                    } by {
                        assert(keep@[q] != idx);
                        assert(self.proposals@[keep@[q] as int]
                            == before.proposals@[keep@[q] as int]);
                    }
                    assert forall|j: int|
                        0 <= j < n && listed_before(open, k + 1, j) && (
                        #[trigger] self.proposals@[j]).status == ProposalStatus::Open
                            implies keep@.contains(j as usize) by {
                        if j != idx {
                            assert(self.proposals@[j] == before.proposals@[j]);
                        }
                    }
                }
            } else {
                let ghost before = keep@;
                keep.push(idx);
                proof {
                    assert(keep@.no_duplicates()) by {
                        assert forall|a: int, b: int|
                            0 <= a < keep@.len() && 0 <= b < keep@.len() && a != b implies keep@[a]
                            != keep@[b] by {
                            if a < before.len() && b < before.len() {
                                assert(before[a] == keep@[a] && before[b] == keep@[b]);
                            } else if a < before.len() {
                                assert(before[a] == keep@[a]);
                                assert(listed_before(open, k as int, before[a] as int));
                            } else if b < before.len() {
                                assert(before[b] == keep@[b]);
                                assert(listed_before(open, k as int, before[b] as int));
                            }
                        }
                    }
                    assert forall|q: int| 0 <= q < keep@.len() implies {
                        &&& listed_before(open, k + 1, #[trigger] keep@[q] as int)
                        &&& keep@[q] < n
                        &&& self.proposals@[keep@[q] as int].status == ProposalStatus::Open
                    } by {
                        if q < before.len() {
                            assert(before[q] == keep@[q]);
                            assert(listed_before(open, k as int, before[q] as int));
                        }
                    }
                    assert forall|j: int|
                        0 <= j < n && listed_before(open, k + 1, j) && (
                        #[trigger] self.proposals@[j]).status == ProposalStatus::Open
                            implies keep@.contains(j as usize) by {
                        if j != idx {
                            assert(listed_before(open, k as int, j));
                            assert(before.contains(j as usize));
                            let q = choose|q: int| 0 <= q < before.len() && before[q] == j as usize;
                            assert(keep@[q] == j as usize);
                        } else {
                            assert(keep@[before.len() as int] == idx);
                        }
                    }
                }
            }
            k += 1;
        }
        proof {
            assert forall|j: int| 0 <= j < n && old(self).proposals@[j].status
                == ProposalStatus::Open implies #[trigger] listed_before(open, m as int, j) by {
                assert(old(self).proposals@[j].status == ProposalStatus::Open);
                assert(open.contains(j as usize));
                let q = choose|q: int| 0 <= q < open.len() && open[q] == j as usize;
                assert(open[q] == j);
            }
        }
        self.open_proposals = keep;
        proof {
            assert forall|j: int|
                0 <= j < n && (#[trigger] self.proposals@[j]).status == ProposalStatus::Open
                    implies self.open_proposals@.contains(j as usize) by {
                if old(self).proposals@[j].status == ProposalStatus::Open {
                    assert(listed_before(open, m as int, j));
                }
            }
        }
    }

    /// Settles every queued reward entry that is due at block `height` and
    /// keeps the others in order; an empty queue is left as it is.
    pub fn tick_proposal_rewards(&mut self, height: u64)
        requires
            old(self).wf(),
        ensures
            final(self).wf(),
            final(self).unrewarded_proposals@ == pending_after(
                old(self).unrewarded_proposals@,
                height,
            ),
            final(self).events@ == old(self).events@ + reward_events(
                old(self).unrewarded_proposals@,
                height,
            ),
            final(self).proposals@ == old(self).proposals@,
            final(self).not_delegating_voting_power@ == old(self).not_delegating_voting_power@,
            final(self).same_ledgers_and_config(*old(self)),
            final(self).same_dao(*old(self)),
    {
        let mut kept: Vec<UnrewardedProposal> = Vec::new();
        let n = self.unrewarded_proposals.len();
        let ghost q = self.unrewarded_proposals@;
        let mut i: usize = 0;
        while i < n
            invariant
                self.wf(),
                n == q.len(),
                q == old(self).unrewarded_proposals@,
                self.unrewarded_proposals@ == q,
                i <= n,
                kept@ == pending_after(q.take(i as int), height),
                self.events@ == old(self).events@ + reward_events(q.take(i as int), height),
                self.proposals@ == old(self).proposals@,
                self.not_delegating_voting_power@ == old(self).not_delegating_voting_power@,
                self.same_ledgers_and_config(*old(self)),
                self.same_dao(*old(self)),
            decreases n - i,
        {
            let e = self.unrewarded_proposals[i];
            proof {
                assert(q.take(i + 1).drop_last() =~= q.take(i as int));
            }
            if e.block <= height {
                self.events.push(Event::ProposalRewarded(e.proposal_id));
                proof {
                    assert(self.events@ =~= old(self).events@ + reward_events(
                        q.take(i + 1),
                        height,
                    ));
                }
            } else {
                kept.push(e);
            }
            i += 1;
        }
        proof {
            assert(q.take(n as int) =~= q);
        }
        self.unrewarded_proposals = kept;
    }

    /// The per-block hook: moves to block `height`, then resolves the
    /// proposals that are due and settles the rewards that are due.
    pub fn on_initialize(&mut self, height: u64)
        requires
            old(self).wf(),
            height <= MAX_BLOCK,
        ensures
            final(self).wf(),
            final(self).block == height,
            final(self).proposals@.len() == old(self).proposals@.len(),
            forall|j: int|
                0 <= j < old(self).proposals@.len() ==> (#[trigger] final(self).proposals@[
                    j
                ]).status == old(self).status_after_tick(old(self).proposals@[j], height),
            final(self).not_delegating_voting_power@ == old(self).not_delegating_voting_power@,
            final(self).same_dao(*old(self)),
            forall|k: int|
                0 <= k < final(self).unrewarded_proposals@.len() ==> (
                #[trigger] final(self).unrewarded_proposals@[k]).block > height,
    {
        self.block = height;
        proof {
            assert forall|j: int| 0 <= j < old(self).proposals@.len() implies
                #[trigger] self.status_after_tick(self.proposals@[j], height)
                    == old(self).status_after_tick(old(self).proposals@[j], height) by {
                lemma_weight_depends_on_power(*self, *old(self), self.proposals@[j].votes_for@, self.proposals@[j].data.scope());
                lemma_weight_depends_on_power(*self, *old(self), self.proposals@[j].votes_against@, self.proposals@[j].data.scope());
            }
        }
        self.tick_proposals(height);
        let ghost mid = self.unrewarded_proposals@;
        self.tick_proposal_rewards(height);
        proof {
            lemma_pending_after_later(mid, height);
        }
    }
}

/// The weight of a list of voters depends only on the stake ledger and the
/// delegation set.
proof fn lemma_weight_depends_on_power(a: Pallet, b: Pallet, voters: Seq<AccountId>, scope: Option<SubnetId>)
    requires
        a.not_delegating_voting_power@ == b.not_delegating_voting_power@,
        a.global_stake@ == b.global_stake@,
        a.subnet_stake@ == b.subnet_stake@,
    ensures
        weight(a, voters, scope) == weight(b, voters, scope),
    decreases voters.len(),
{
    if voters.len() > 0 {
        lemma_weight_depends_on_power(a, b, voters.drop_last(), scope);
    }
}

/// What stays queued after a drain at `height` is due only later.
proof fn lemma_pending_after_later(q: Seq<UnrewardedProposal>, height: u64)
    ensures
        forall|k: int|
            0 <= k < pending_after(q, height).len() ==> (#[trigger] pending_after(q, height)[k]).block
                > height,
    decreases q.len(),
{
    if q.len() > 0 {
        let rest = pending_after(q.drop_last(), height);
        lemma_pending_after_later(q.drop_last(), height);
        assert forall|k: int| 0 <= k < pending_after(q, height).len() implies (
        #[trigger] pending_after(q, height)[k]).block > height by {
            if k < rest.len() {
                assert(pending_after(q, height)[k] == rest[k]);
            }
        }
    }
}

} // verus!
