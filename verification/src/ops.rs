use vstd::prelude::*;

use crate::errors::ErrorCode;
use crate::state::{
    has_voted, has_voter, identity_eq, Dao, DaoView, Identity, Proposal, ProposalView,
    MAX_DESCRIPTION_LEN, MAX_NAME_LEN, MAX_PROPOSALS,
};

verus! {

/// One more than `x`, saturating at the top of the 64-bit range. The wide
/// counters are incremented defensively so that no transition can abort.
pub open spec fn sat_inc(x: u64) -> u64 {
    if x == u64::MAX {
        u64::MAX
    } else {
        (x + 1) as u64
    }
}

fn increment_saturating(x: u64) -> (r: u64)
    ensures
        r == sat_inc(x),
{
    if x == u64::MAX {
        u64::MAX
    } else {
        x + 1
    }
}

/// The view of an optional organization record.
pub open spec fn org_view(org: Option<Dao>) -> Option<DaoView> {
    match org {
        Some(d) => Some(d@),
        None => None,
    }
}

/// The view of a proposal-bearing result.
pub open spec fn proposal_result_view(r: Result<Proposal, ErrorCode>) -> Result<
    ProposalView,
    ErrorCode,
> {
    match r {
        Ok(p) => Ok(p@),
        Err(e) => Err(e),
    }
}

/// The `initialize` transition: creates the organization record if and only
/// if none exists yet. Re-initialization of an existing record is a no-op
/// that leaves the record unchanged, not an error. A name longer than 32
/// bytes is rejected and no record is created.
pub open spec fn spec_initialize(org: Option<DaoView>, user: Seq<u8>, name: Seq<u8>) -> (Option<
    DaoView,
>, Result<(), ErrorCode>) {
    match org {
        Some(d) => (Some(d), Ok(())),
        None => {
            if name.len() > MAX_NAME_LEN as int {
                (None, Err(ErrorCode::NameTooLong))
            } else {
                (
                    Some(
                        DaoView {
                            name: name,
                            proposal_count: 0,
                            total_points: 0,
                            authority: user,
                        },
                    ),
                    Ok(()),
                )
            }
        },
    }
}

/// Creates the organization record if absent, with `user` as administrator,
/// an empty proposal namespace and a zeroed participation counter; returns
/// the existing record untouched otherwise.
pub fn initialize(org: &mut Option<Dao>, user: &Identity, name: Vec<u8>) -> (r: Result<
    (),
    ErrorCode,
>)
    ensures
        ({
            let (org2, res) = spec_initialize(org_view(*old(org)), user@, name@);
            org_view(*final(org)) == org2 && r == res
        }),
{
    if org.is_some() {
        return Ok(());
    }
    if name.len() > MAX_NAME_LEN {
        return Err(ErrorCode::NameTooLong);
    }
    *org = Some(Dao { name, proposal_count: 0, total_points: 0, authority: *user });
    Ok(())
}

/// The `create_proposal` transition. Only the administrator may create a
/// proposal; the description is bounded by 256 bytes; and the one-byte
/// proposal counter must not overflow. On success the new proposal takes the
/// current counter value as its ordinal and the counter advances by one; on
/// failure the organization is unchanged.
pub open spec fn spec_create_proposal(dao: DaoView, user: Seq<u8>, description: Seq<u8>) -> (
    DaoView,
    Result<ProposalView, ErrorCode>,
) {
    if user != dao.authority {
        (dao, Err(ErrorCode::Unauthorized))
    } else if description.len() > MAX_DESCRIPTION_LEN as int {
        (dao, Err(ErrorCode::DescriptionTooLong))
    } else if dao.proposal_count == MAX_PROPOSALS {
        (dao, Err(ErrorCode::ProposalLimitReached))
    } else {
        (
            DaoView { proposal_count: (dao.proposal_count + 1) as u8, ..dao },
            Ok(
                ProposalView {
                    id: dao.proposal_count,
                    description: description,
                    yes_votes: 0,
                    no_votes: 0,
                    is_active: true,
                    creator: user,
                    voters: Seq::empty(),
                },
            ),
        )
    }
}

/// Validates and applies proposal creation on an organization record,
/// returning the freshly allocated proposal.
pub fn create_proposal(dao: &mut Dao, user: &Identity, description: Vec<u8>) -> (r: Result<
    Proposal,
    ErrorCode,
>)
    ensures
        ({
            let (dao2, res) = spec_create_proposal(old(dao)@, user@, description@);
            final(dao)@ == dao2 && proposal_result_view(r) == res
        }),
{
    if !identity_eq(user, &dao.authority) {
        return Err(ErrorCode::Unauthorized);
    }
    if description.len() > MAX_DESCRIPTION_LEN {
        return Err(ErrorCode::DescriptionTooLong);
    }
    match dao.proposal_count.checked_add(1) {
        None => Err(ErrorCode::ProposalLimitReached),
        Some(next_count) => {
            let proposal = Proposal {
                id: dao.proposal_count,
                description,
                yes_votes: 0,
                no_votes: 0,
                is_active: true,
                creator: *user,
                voters: Vec::new(),
            };
            dao.proposal_count = next_count;
            proof {
                assert(proposal@.voters =~= Seq::<Seq<u8>>::empty());
            }
            Ok(proposal)
        },
    }
}

/// The `vote` transition. A proposal not recognized as live by its parent
/// organization (its ordinal at or past the counter) is rejected as
/// unauthorized; a closed proposal accepts no votes; an identity may vote at
/// most once. On success the chosen tally and the organization's
/// participation counter advance by one (saturating) and the voter is
/// recorded; on failure both records are unchanged.
pub open spec fn spec_vote(dao: DaoView, p: ProposalView, user: Seq<u8>, choice: bool) -> (
    DaoView,
    ProposalView,
    Result<(), ErrorCode>,
) {
    if p.id >= dao.proposal_count {
        (dao, p, Err(ErrorCode::Unauthorized))
    } else if !p.is_active {
        (dao, p, Err(ErrorCode::ProposalNotActive))
    } else if has_voter(p.voters, user) {
        (dao, p, Err(ErrorCode::AlreadyVoted))
    } else {
        (
            DaoView { total_points: sat_inc(dao.total_points), ..dao },
            ProposalView {
                yes_votes: if choice {
                    sat_inc(p.yes_votes)
                } else {
                    p.yes_votes
                },
                no_votes: if choice {
                    p.no_votes
                } else {
                    sat_inc(p.no_votes)
                },
                voters: p.voters.push(user),
                ..p
            },
            Ok(()),
        )
    }
}

/// Validates and applies one vote by `user` on `proposal`, updating the
/// owning organization's participation counter.
pub fn vote(dao: &mut Dao, proposal: &mut Proposal, user: &Identity, choice: bool) -> (r: Result<
    (),
    ErrorCode,
>)
    ensures
        ({
            let (dao2, p2, res) = spec_vote(old(dao)@, old(proposal)@, user@, choice);
            final(dao)@ == dao2 && final(proposal)@ == p2 && r == res
        }),
{
    if proposal.id >= dao.proposal_count {
        return Err(ErrorCode::Unauthorized);
    }
    if !proposal.is_active {
        return Err(ErrorCode::ProposalNotActive);
    }
    if has_voted(&proposal.voters, user) {
        return Err(ErrorCode::AlreadyVoted);
    }
    if choice {
        proposal.yes_votes = increment_saturating(proposal.yes_votes);
    } else {
        proposal.no_votes = increment_saturating(proposal.no_votes);
    }
    proposal.voters.push(*user);
    dao.total_points = increment_saturating(dao.total_points);
    proof {
        assert(proposal.voters.deep_view() =~= old(proposal).voters.deep_view().push(user@));
    }
    Ok(())
}

/// The `close_proposal` transition: an active proposal is terminally
/// deactivated; closing an already-closed proposal fails. Any caller may
/// close any active proposal: closure, unlike creation, carries no
/// administrator gate.
pub open spec fn spec_close(p: ProposalView) -> (ProposalView, Result<(), ErrorCode>) {
    if !p.is_active {
        (p, Err(ErrorCode::ProposalAlreadyClosed))
    } else {
        (ProposalView { is_active: false, ..p }, Ok(()))
    }
}

/// Deactivates an active proposal; the persistence layer then destroys the
/// record.
pub fn close_proposal(proposal: &mut Proposal) -> (r: Result<(), ErrorCode>)
    ensures
        ({
            let (p2, res) = spec_close(old(proposal)@);
            final(proposal)@ == p2 && r == res
        }),
{
    if !proposal.is_active {
        return Err(ErrorCode::ProposalAlreadyClosed);
    }
    proposal.is_active = false;
    Ok(())
}

} // verus!
