use pallet_governance::config::{DefaultSubnetGovernanceConfig, GovernanceConfiguration, VoteMode};
use pallet_governance::dao::MAX_RECOMMENDED_WEIGHT;
use pallet_governance::error::{Error, Event};
use pallet_governance::pallet::{
    DefaultDaoTreasuryDistribution, DefaultGeneralSubnetApplicationCost, Pallet,
};
use pallet_governance::proposal::{
    check_proposal_data, judge_application_data, judge_proposal_data, ApplicationStatus,
    GlobalParams, ProposalData, ProposalStatus,
};

const TREASURY: u64 = 1000;
const CURATOR: u64 = 999;
const A: u64 = 1;
const B: u64 = 2;
const C: u64 = 3;
const D: u64 = 4;
const E: u64 = 5;

fn vote_config() -> GovernanceConfiguration {
    GovernanceConfiguration { vote_mode: VoteMode::Vote, proposal_cost: 100, proposal_expiration: 10 }
}

fn params() -> GlobalParams {
    GlobalParams {
        max_name_length: 32,
        min_name_length: 2,
        max_allowed_subnets: 256,
        max_allowed_modules: 10_000,
        max_registrations_per_block: 10,
        max_allowed_weights: 420,
        max_burn: 150,
        min_burn: 4,
        floor_delegation_fee: 5,
        floor_founder_share: 8,
        min_weight_stake: 0,
        curator: CURATOR,
        subnet_stake_threshold: 10,
        governance_config: vote_config(),
        general_subnet_application_cost: 1000,
    }
}

fn setup() -> Pallet {
    let mut p = Pallet::new(vote_config(), params(), TREASURY, CURATOR).unwrap();
    p.set_balance(A, 1000);
    p.set_stake(B, None, 60);
    p.set_stake(C, None, 40);
    p.disable_vote_power_delegation(B).unwrap();
    p.disable_vote_power_delegation(C).unwrap();
    p
}

fn text() -> Vec<u8> {
    b"raise the cap".to_vec()
}

#[test]
fn simple_acceptance() {
    let mut p = setup();
    p.add_global_custom_proposal(A, text()).unwrap();
    assert_eq!(p.proposals.len(), 1);
    assert_eq!(p.proposals[0].id, 1);
    assert_eq!(p.proposals[0].status, ProposalStatus::Open);
    assert_eq!(p.proposals[0].expiration_block, 10);
    assert_eq!(p.balance_of(A), 900);
    assert_eq!(p.events, vec![Event::ProposalCreated(1)]);
    p.vote_proposal(B, 1, true).unwrap();
    p.vote_proposal(C, 1, true).unwrap();
    assert_eq!(p.tally(1), Some((100, 0)));
    p.on_initialize(9);
    assert_eq!(p.proposals[0].status, ProposalStatus::Open);
    p.on_initialize(10);
    assert_eq!(p.proposals[0].status, ProposalStatus::Accepted);
    assert_eq!(p.proposals[0].finalization_block, Some(10));
    assert!(p.events.contains(&Event::ProposalAccepted(1)));
    assert!(p.events.contains(&Event::ProposalRewarded(1)));
    assert!(p.unrewarded_proposals.is_empty());
}

#[test]
fn expiration_without_votes_is_refused() {
    let mut p = setup();
    p.add_global_custom_proposal(A, text()).unwrap();
    p.on_initialize(10);
    assert_eq!(p.proposals[0].status, ProposalStatus::Refused);
    assert!(p.events.contains(&Event::ProposalRefused(1)));
    assert!(p.unrewarded_proposals.is_empty());
}

#[test]
fn delegating_voter_blocked() {
    let mut p = setup();
    p.set_stake(D, None, 500);
    p.add_global_custom_proposal(A, text()).unwrap();
    assert_eq!(p.vote_proposal(D, 1, true), Err(Error::VoterIsDelegatingVotingPower));
    assert!(p.proposals[0].votes_for.is_empty());
}

#[test]
fn treasury_underfunded_still_accepted() {
    let mut p = setup();
    p.set_balance(TREASURY, 100);
    p.add_transfer_dao_treasury_proposal(A, text(), 500, E).unwrap();
    p.vote_proposal(B, 1, true).unwrap();
    p.on_initialize(10);
    assert_eq!(p.proposals[0].status, ProposalStatus::Accepted);
    assert!(p
        .events
        .contains(&Event::ProposalExecutionFailed(1, Error::InsufficientDaoTreasuryFunds)));
    assert_eq!(p.balance_of(TREASURY), 100);
    assert_eq!(p.balance_of(E), 0);
}

#[test]
fn treasury_transfer_moves_funds() {
    let mut p = setup();
    p.set_balance(TREASURY, 700);
    p.add_transfer_dao_treasury_proposal(A, text(), 500, E).unwrap();
    p.vote_proposal(B, 1, true).unwrap();
    p.on_initialize(10);
    assert_eq!(p.proposals[0].status, ProposalStatus::Accepted);
    assert_eq!(p.balance_of(TREASURY), 200);
    assert_eq!(p.balance_of(E), 500);
}

#[test]
fn payload_bounds() {
    let mut p = setup();
    assert_eq!(p.add_global_custom_proposal(A, Vec::new()), Err(Error::ProposalDataTooSmall));
    assert_eq!(p.add_global_custom_proposal(A, vec![b'a'; 257]), Err(Error::ProposalDataTooLarge));
    assert_eq!(p.add_global_custom_proposal(A, vec![0xff, 0xfe]), Err(Error::InvalidProposalData));
    assert!(p.proposals.is_empty());
    assert_eq!(p.balance_of(A), 1000);
    assert_eq!(p.add_global_custom_proposal(A, vec![b'a'; 256]), Ok(()));
    assert_eq!(p.proposals[0].metadata.len(), 256);
}

#[test]
fn payload_checks_on_values() {
    assert_eq!(judge_proposal_data(0, true), Err(Error::ProposalDataTooSmall));
    assert_eq!(judge_proposal_data(257, true), Err(Error::ProposalDataTooLarge));
    assert_eq!(judge_proposal_data(256, false), Err(Error::InvalidProposalData));
    assert_eq!(judge_proposal_data(256, true), Ok(()));
    assert_eq!(judge_application_data(0, true), Err(Error::ApplicationTooSmall));
    assert_eq!(judge_application_data(300, true), Err(Error::ApplicationTooLarge));
    assert_eq!(judge_application_data(3, false), Err(Error::InvalidApplication));
    assert_eq!(check_proposal_data(&"héllo".as_bytes().to_vec()), Ok(()));
    assert_eq!(check_proposal_data(&vec![0xc3]), Err(Error::InvalidProposalData));
}

#[test]
fn disable_delegation_twice_is_idempotent() {
    let mut p = setup();
    assert!(p.is_delegating_voting_power(D));
    p.disable_vote_power_delegation(D).unwrap();
    let after_first = p.not_delegating_voting_power.clone();
    p.disable_vote_power_delegation(D).unwrap();
    assert_eq!(p.not_delegating_voting_power, after_first);
    assert!(!p.is_delegating_voting_power(D));
    p.enable_vote_power_delegation(D).unwrap();
    assert!(p.is_delegating_voting_power(D));
}

#[test]
fn no_double_voting() {
    let mut p = setup();
    p.add_global_custom_proposal(A, text()).unwrap();
    p.vote_proposal(B, 1, true).unwrap();
    assert_eq!(p.vote_proposal(B, 1, true), Err(Error::AlreadyVoted));
    assert_eq!(p.vote_proposal(B, 1, false), Err(Error::AlreadyVoted));
    assert_eq!(p.proposals[0].votes_for, vec![B]);
    assert!(p.proposals[0].votes_against.is_empty());
}

#[test]
fn closed_proposal_takes_no_votes() {
    let mut p = setup();
    p.add_global_custom_proposal(A, text()).unwrap();
    p.vote_proposal(B, 1, true).unwrap();
    p.on_initialize(10);
    assert_eq!(p.proposals[0].status, ProposalStatus::Accepted);
    assert_eq!(p.vote_proposal(C, 1, false), Err(Error::ProposalClosed));
    assert_eq!(p.remove_vote_proposal(B, 1), Err(Error::ProposalClosed));
    p.on_initialize(11);
    assert_eq!(p.proposals[0].status, ProposalStatus::Accepted);
}

#[test]
fn majority_against_and_tie_are_refused() {
    let mut p = setup();
    p.set_stake(D, None, 60);
    p.disable_vote_power_delegation(D).unwrap();
    p.add_global_custom_proposal(A, text()).unwrap();
    p.add_global_custom_proposal(A, text()).unwrap();
    p.vote_proposal(C, 1, true).unwrap();
    p.vote_proposal(B, 1, false).unwrap();
    p.vote_proposal(B, 2, true).unwrap();
    p.vote_proposal(D, 2, false).unwrap();
    assert_eq!(p.tally(1), Some((40, 60)));
    assert_eq!(p.tally(2), Some((60, 60)));
    p.on_initialize(10);
    assert_eq!(p.proposals[0].status, ProposalStatus::Refused);
    assert_eq!(p.proposals[1].status, ProposalStatus::Refused);
}

#[test]
fn weight_follows_live_stake() {
    let mut p = setup();
    p.add_global_custom_proposal(A, text()).unwrap();
    p.vote_proposal(C, 1, true).unwrap();
    p.vote_proposal(B, 1, false).unwrap();
    p.set_stake(C, None, 100);
    p.enable_vote_power_delegation(B).unwrap();
    assert_eq!(p.tally(1), Some((100, 0)));
    p.on_initialize(10);
    assert_eq!(p.proposals[0].status, ProposalStatus::Accepted);
}

#[test]
fn vote_errors() {
    let mut p = setup();
    assert_eq!(p.vote_proposal(B, 1, true), Err(Error::ProposalNotFound));
    assert_eq!(p.tally(1), None);
    p.add_global_custom_proposal(A, text()).unwrap();
    p.disable_vote_power_delegation(D).unwrap();
    assert_eq!(p.vote_proposal(D, 1, true), Err(Error::InsufficientStake));
    assert_eq!(p.remove_vote_proposal(B, 1), Err(Error::NotVoted));
    assert_eq!(p.remove_vote_proposal(B, 7), Err(Error::ProposalNotFound));
    p.vote_proposal(B, 1, false).unwrap();
    assert_eq!(p.remove_vote_proposal(B, 1), Ok(()));
    assert!(p.proposals[0].votes_against.is_empty());
    assert_eq!(p.events.last(), Some(&Event::ProposalVoteUnregistered(1, B)));
    p.vote_proposal(B, 1, true).unwrap();
    assert_eq!(p.proposals[0].votes_for, vec![B]);
}

#[test]
fn proposer_must_pay() {
    let mut p = setup();
    p.set_balance(A, 99);
    assert_eq!(p.add_global_custom_proposal(A, text()), Err(Error::NotEnoughBalanceToPropose));
    p.set_balance(A, 100);
    assert_eq!(p.add_global_custom_proposal(A, text()), Ok(()));
    assert_eq!(p.balance_of(A), 0);
    assert_eq!(p.proposals[0].proposal_cost, 100);
}

#[test]
fn authority_subnet_proposal_expires() {
    let mut p = setup();
    p.set_balance(A, 20_000_000_000_000);
    p.set_stake(B, Some(3), 10);
    p.add_subnet_custom_proposal(A, 3, text()).unwrap();
    assert_eq!(p.proposals[0].expiration_block, 130_000);
    assert_eq!(p.balance_of(A), 10_000_000_000_000);
    p.vote_proposal(B, 1, true).unwrap();
    p.on_initialize(130_000);
    assert_eq!(p.proposals[0].status, ProposalStatus::Expired);
    assert!(p.events.contains(&Event::ProposalExpired(1)));
}

#[test]
fn subnet_vote_uses_subnet_stake() {
    let mut p = setup();
    let cfg = GovernanceConfiguration { vote_mode: VoteMode::Vote, proposal_cost: 50, proposal_expiration: 5 };
    p.update_subnet_governance_configuration(3, cfg).unwrap();
    p.add_subnet_custom_proposal(A, 3, text()).unwrap();
    assert_eq!(p.balance_of(A), 950);
    assert_eq!(p.vote_proposal(B, 1, true), Err(Error::InsufficientStake));
    p.set_stake(B, Some(3), 7);
    p.vote_proposal(B, 1, true).unwrap();
    assert_eq!(p.tally(1), Some((7, 0)));
    p.on_initialize(5);
    assert_eq!(p.proposals[0].status, ProposalStatus::Accepted);
    p.handle_subnet_removal(3);
    assert_eq!(p.governance_config(Some(3)), DefaultSubnetGovernanceConfig());
}

#[test]
fn accepted_params_are_written() {
    let mut p = setup();
    p.add_global_params_proposal(
        A, text(), 40, 3, 100, 5000, 5, 300, 200, 10, 6, 9, 1, 77, 20, 300, 20, 555,
    )
    .unwrap();
    match p.proposals[0].data {
        ProposalData::GlobalParams(g) => {
            assert_eq!(g.governance_config.vote_mode, VoteMode::Vote);
            assert_eq!(g.governance_config.proposal_cost, 300);
        }
        _ => panic!("wrong proposal kind"),
    }
    p.vote_proposal(B, 1, true).unwrap();
    p.on_initialize(10);
    assert_eq!(p.global_params.max_name_length, 40);
    assert_eq!(p.global_params.curator, 77);
    assert_eq!(p.global_params.general_subnet_application_cost, 555);
    assert_eq!(p.global_governance_config.proposal_cost, 300);
    assert_eq!(p.global_governance_config.proposal_expiration, 20);
}

#[test]
fn params_proposal_with_invalid_config_is_refused() {
    let mut p = setup();
    let r = p.add_global_params_proposal(
        A, text(), 40, 3, 100, 5000, 5, 300, 200, 10, 6, 9, 1, 77, 20, 0, 20, 555,
    );
    assert_eq!(r, Err(Error::InvalidProposalCost));
    let r = p.add_subnet_params_proposal(
        A, 2, text(), 8, 10, 20, 30, 1024, 420, 1, 0, 100, 360, 100, 50, VoteMode::Vote, 900_000, 200, 2, 4, 5,
    );
    assert_eq!(r, Err(Error::NotEnoughBalanceToPropose));
    assert!(p.proposals.is_empty());
}

#[test]
fn subnet_params_accepted_change_vote_mode() {
    let mut p = setup();
    p.update_subnet_governance_configuration(
        2,
        GovernanceConfiguration { vote_mode: VoteMode::Vote, proposal_cost: 10, proposal_expiration: 3 },
    )
    .unwrap();
    p.set_stake(C, Some(2), 9);
    p.add_subnet_params_proposal(
        A, 2, text(), 8, 10, 20, 30, 1024, 420, 1, 0, 100, 360, 100, 50, VoteMode::Authority, 900_000, 200, 2, 4, 5,
    )
    .unwrap();
    p.vote_proposal(C, 1, true).unwrap();
    p.on_initialize(3);
    assert_eq!(p.proposals[0].status, ProposalStatus::Accepted);
    let cfg = p.governance_config(Some(2));
    assert_eq!(cfg.vote_mode, VoteMode::Authority);
    assert_eq!(cfg.proposal_cost, 10);
    assert_eq!(p.subnet_params.get(&2).unwrap().tempo, 360);
}

#[test]
fn configuration_validation() {
    let bad_cost = GovernanceConfiguration { vote_mode: VoteMode::Vote, proposal_cost: 0, proposal_expiration: 0 };
    let bad_exp = GovernanceConfiguration { vote_mode: VoteMode::Vote, proposal_cost: 1, proposal_expiration: 0 };
    assert_eq!(Pallet::validate(bad_cost), Err(Error::InvalidProposalCost));
    assert_eq!(Pallet::validate(bad_exp), Err(Error::InvalidProposalExpiration));
    assert_eq!(Pallet::validate(vote_config()), Ok(vote_config()));
    let mut p = setup();
    assert_eq!(p.update_global_governance_configuration(bad_exp), Err(Error::InvalidProposalExpiration));
    assert_eq!(p.global_governance_config, vote_config());
    assert_eq!(p.update_subnet_governance_configuration(4, bad_cost), Err(Error::InvalidProposalCost));
    assert_eq!(p.governance_config(Some(4)), DefaultSubnetGovernanceConfig());
    assert!(Pallet::new(bad_cost, params(), TREASURY, CURATOR).is_err());
}

#[test]
fn defaults() {
    let d = DefaultSubnetGovernanceConfig();
    assert_eq!(d.vote_mode, VoteMode::Authority);
    assert_eq!(d.proposal_cost, 10_000_000_000_000);
    assert_eq!(d.proposal_expiration, 130_000);
    assert_eq!(DefaultDaoTreasuryDistribution(), 5);
    assert_eq!(DefaultGeneralSubnetApplicationCost(), 1_000_000_000_000);
    let p = Pallet::new(vote_config(), params(), TREASURY, CURATOR).unwrap();
    assert_eq!(p.general_subnet_application_cost, 1_000_000_000_000);
    assert_eq!(p.dao_treasury_distribution, 5);
}

#[test]
fn dao_applications() {
    let mut p = setup();
    p.set_balance(D, 1_000_000_000_000);
    assert_eq!(p.add_dao_application(D, E, Vec::new()), Err(Error::ApplicationTooSmall));
    assert_eq!(p.add_dao_application(D, E, vec![b'x'; 257]), Err(Error::ApplicationTooLarge));
    assert_eq!(p.add_dao_application(D, E, vec![0xff]), Err(Error::InvalidApplication));
    assert_eq!(p.add_dao_application(A, E, text()), Err(Error::NotEnoughtBalnceToApply));
    assert_eq!(p.add_dao_application(D, E, text()), Ok(()));
    assert_eq!(p.balance_of(D), 0);
    assert_eq!(p.curator_applications[0].id, 0);
    assert_eq!(p.curator_applications[0].paying_for, E);
    assert_eq!(p.curator_applications[0].status, ApplicationStatus::Pending);
    assert_eq!(p.events.last(), Some(&Event::ApplicationCreated(0)));
    assert_eq!(p.refuse_dao_application(D, 0), Err(Error::NotCurator));
    assert_eq!(p.refuse_dao_application(CURATOR, 5), Err(Error::ApplicationNotFound));
    assert_eq!(p.accept_dao_application(CURATOR, 0), Ok(()));
    assert_eq!(p.curator_applications[0].status, ApplicationStatus::Accepted);
    assert_eq!(p.refuse_dao_application(CURATOR, 0), Err(Error::ApplicationNotPending));
}

#[test]
fn whitelist() {
    let mut p = setup();
    assert_eq!(p.add_to_whitelist(A, E, 10), Err(Error::NotCurator));
    assert_eq!(p.add_to_whitelist(CURATOR, E, 0), Err(Error::InvalidRecommendedWeight));
    assert_eq!(
        p.add_to_whitelist(CURATOR, E, MAX_RECOMMENDED_WEIGHT + 1),
        Err(Error::InvalidRecommendedWeight)
    );
    assert_eq!(p.add_to_whitelist(CURATOR, E, 10), Ok(()));
    assert_eq!(p.recommended_weight(E), Some(10));
    assert_eq!(p.add_to_whitelist(CURATOR, E, 20), Err(Error::AlreadyWhitelisted));
    assert_eq!(p.remove_from_whitelist(A, E), Err(Error::NotCurator));
    assert_eq!(p.remove_from_whitelist(CURATOR, E), Ok(()));
    assert_eq!(p.recommended_weight(E), None);
    assert_eq!(p.remove_from_whitelist(CURATOR, E), Err(Error::NotWhitelisted));
    assert_eq!(
        p.events,
        vec![Event::WhitelistModuleAdded(E), Event::WhitelistModuleRemoved(E)]
    );
}

#[test]
fn rewards_drain_only_due_entries() {
    let mut p = setup();
    p.add_global_custom_proposal(A, text()).unwrap();
    p.vote_proposal(B, 1, true).unwrap();
    p.tick_proposals(10);
    assert_eq!(p.unrewarded_proposals.len(), 1);
    assert_eq!(p.unrewarded_proposals[0].block, 10);
    p.tick_proposal_rewards(9);
    assert_eq!(p.unrewarded_proposals.len(), 1);
    p.tick_proposal_rewards(10);
    assert!(p.unrewarded_proposals.is_empty());
    let n = p.events.len();
    p.tick_proposal_rewards(11);
    assert_eq!(p.events.len(), n);
}

#[test]
fn tick_visits_only_open_proposals() {
    let mut p = setup();
    p.add_global_custom_proposal(A, text()).unwrap();
    p.on_initialize(3);
    p.add_global_custom_proposal(A, text()).unwrap();
    assert_eq!(p.proposals[1].expiration_block, 13);
    assert_eq!(p.open_proposals, vec![0, 1]);
    p.on_initialize(10);
    assert_eq!(p.open_proposals, vec![1]);
    assert_eq!(p.proposals[0].status, ProposalStatus::Refused);
    assert_eq!(p.proposals[1].status, ProposalStatus::Open);
    p.on_initialize(13);
    assert!(p.open_proposals.is_empty());
    assert_eq!(p.proposals[1].status, ProposalStatus::Refused);
}
