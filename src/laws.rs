//! Properties that relate several operations or hold of every state.
use vstd::prelude::*;

use crate::config::VoteMode;
use crate::error::Error;
use crate::pallet::{weight, Pallet};
use crate::proposal::{embedded_config_is_valid, is_valid_utf8, ProposalData, ProposalStatus, MAX_DATA_LEN};
use crate::AccountId;

verus! {

/// Stopping delegation twice in a row leaves the set of direct voters as the
/// first call left it, and the second call succeeds if the first did, else
/// fails in the same way.
pub proof fn law_disable_delegation_idempotent(
    p0: Pallet,
    p1: Pallet,
    p2: Pallet,
    a: AccountId,
    r1: Result<(), Error>,
    r2: Result<(), Error>,
)
    requires
        p0.wf(),
        p0.disable_delegation_effect(p1, a, r1),
        p1.disable_delegation_effect(p2, a, r2),
    ensures
        p2.not_delegating_voting_power@ == p1.not_delegating_voting_power@,
        r1 is Ok ==> r2 is Ok,
        r1 is Err ==> r2 == r1,
{
    if r1 is Ok {
        assert(p1.not_delegating_voting_power@.contains(a));
        assert(p1.not_delegating_voting_power@.insert(a) =~= p1.not_delegating_voting_power@);
    } else {
        assert(p1.not_delegating_voting_power@ == p0.not_delegating_voting_power@);
        assert(r2 is Err);
    }
}

/// After a successful vote, a second vote by the same account on the same
/// proposal fails with `AlreadyVoted`, whichever side it takes.
pub proof fn law_no_double_voting(
    p0: Pallet,
    p1: Pallet,
    a: AccountId,
    id: u64,
    agree: bool,
    again: bool,
)
    requires
        p0.wf(),
        p0.vote_effect(p1, a, id, agree, Ok(())),
    ensures
        p1.vote_outcome(a, id) == Err::<(), Error>(Error::AlreadyVoted),
{
    let q = p1.proposals@[id - 1];
    if agree {
        assert(q.votes_for@[q.votes_for@.len() - 1] == a);
        assert(q.votes_for@.contains(a));
    } else {
        assert(q.votes_against@[q.votes_against@.len() - 1] == a);
        assert(q.votes_against@.contains(a));
    }
}

/// A proposal that is accepted, refused or expired takes no vote and no
/// withdrawal of a vote, and no tick changes its status again.
pub proof fn law_terminal_status_is_final(p: Pallet, a: AccountId, id: u64, height: u64)
    requires
        p.wf(),
        p.has_proposal(id),
        p.proposal(id).status != ProposalStatus::Open,
    ensures
        p.vote_outcome(a, id) == Err::<(), Error>(Error::ProposalClosed),
        p.unvote_outcome(a, id) == Err::<(), Error>(Error::ProposalClosed),
        p.status_after_tick(p.proposal(id), height) == p.proposal(id).status,
{
}

/// In vote mode, a due open proposal is accepted when the weight for it
/// exceeds the weight against it, and refused otherwise, ties included.
pub proof fn law_majority_decides(p: Pallet, id: u64, height: u64)
    requires
        p.wf(),
        p.has_proposal(id),
        p.proposal(id).status == ProposalStatus::Open,
        p.proposal(id).expiration_block <= height,
        p.config_for(p.proposal(id).data.scope()).vote_mode == VoteMode::Vote,
    ensures
        ({
            let q = p.proposal(id);
            let w_for = weight(p, q.votes_for@, q.data.scope());
            let w_against = weight(p, q.votes_against@, q.data.scope());
            &&& w_for > w_against ==> p.status_after_tick(q, height) == ProposalStatus::Accepted
            &&& w_for <= w_against ==> p.status_after_tick(q, height) == ProposalStatus::Refused
        }),
{
}

/// An empty payload is refused as too small and one of more than 256 bytes as
/// too large; a payload of 1 to 256 bytes of UTF-8 is accepted whenever the
/// proposer can pay and the proposal's own parameters are valid.
pub proof fn law_bounded_payload(p: Pallet, origin: AccountId, kind: ProposalData, metadata: Seq<u8>)
    requires
        p.wf(),
    ensures
        metadata.len() == 0 ==> p.creation_outcome(origin, kind, metadata) == Err::<(), Error>(
            Error::ProposalDataTooSmall,
        ),
        metadata.len() > MAX_DATA_LEN ==> p.creation_outcome(origin, kind, metadata) == Err::<
            (),
            Error,
        >(Error::ProposalDataTooLarge),
        1 <= metadata.len() <= MAX_DATA_LEN && is_valid_utf8(metadata) && embedded_config_is_valid(
            kind,
        ) && p.balance(origin) >= p.config_for(kind.scope()).proposal_cost
            && p.proposals@.len() < u64::MAX ==> p.creation_outcome(origin, kind, metadata) is Ok,
{
}

} // verus!
