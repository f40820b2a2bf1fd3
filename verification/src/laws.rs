use vstd::prelude::*;

use crate::errors::ErrorCode;
use crate::ops::{spec_create_proposal, spec_initialize, spec_vote};
use crate::registry::{
    has_live_proposal, live_proposal_index, spec_registry_close, spec_registry_create,
    spec_registry_initialize, spec_registry_vote, RegistryView,
};
use crate::state::{has_voter, DaoView, ProposalView};

verus! {

/// Initialization is idempotent: once any `initialize` has succeeded, every
/// further `initialize` — whatever its caller or name — succeeds and leaves
/// the organization record exactly as it was.
pub proof fn lemma_initialize_idempotent(
    org: Option<DaoView>,
    user1: Seq<u8>,
    name1: Seq<u8>,
    user2: Seq<u8>,
    name2: Seq<u8>,
)
    requires
        spec_initialize(org, user1, name1).1 is Ok,
    ensures
        ({
            let (org1, r1) = spec_initialize(org, user1, name1);
            let (org2, r2) = spec_initialize(org1, user2, name2);
            org1 is Some && org2 == org1 && r2 is Ok
        }),
{
}

/// A vote changes neither the proposal's ordinal, lifecycle state,
/// description, nor its well-formedness; the organization keeps its name,
/// administrator and proposal counter.
pub proof fn lemma_vote_preserves_wf(dao: DaoView, p: ProposalView, user: Seq<u8>, choice: bool)
    requires
        p.wf(),
    ensures
        ({
            let (d2, p2, res) = spec_vote(dao, p, user, choice);
            &&& p2.wf()
            &&& p2.id == p.id
            &&& p2.is_active == p.is_active
            &&& p2.description == p.description
            &&& d2.proposal_count == dao.proposal_count
            &&& d2.name == dao.name
            &&& d2.authority == dao.authority
        }),
{
    let (d2, p2, res) = spec_vote(dao, p, user, choice);
    if res is Ok {
        assert forall|i: int, j: int| 0 <= i < j < p2.voters.len() implies p2.voters[i]
            != p2.voters[j] by {
            if j == p.voters.len() {
                if p2.voters[i] == p2.voters[j] {
                    assert(p.voters[i] == user);
                    assert(has_voter(p.voters, user));
                }
            } else {
                assert(p.voters[i] != p.voters[j]);
            }
        }
    }
}

/// One identity, one vote: after an identity's vote on a proposal succeeds,
/// a second vote by the same identity — with either choice — is rejected as
/// already cast and leaves both records unchanged.
pub proof fn lemma_vote_twice_rejected(
    dao: DaoView,
    p: ProposalView,
    user: Seq<u8>,
    choice1: bool,
    choice2: bool,
)
    requires
        spec_vote(dao, p, user, choice1).2 is Ok,
    ensures
        ({
            let (d1, p1, r1) = spec_vote(dao, p, user, choice1);
            let (d2, p2, r2) = spec_vote(d1, p1, user, choice2);
            r2 == Err::<(), ErrorCode>(ErrorCode::AlreadyVoted) && d2 == d1 && p2 == p1
        }),
{
    let (d1, p1, r1) = spec_vote(dao, p, user, choice1);
    assert(p1.voters[p.voters.len() as int] == user);
    assert(has_voter(p1.voters, user));
}

/// The organization's counters only ever grow: whichever of the four
/// transitions is applied to a repository holding an organization record,
/// the proposal counter and the cumulative participation counter come out
/// at or above their old values — neither is ever decremented.
pub proof fn lemma_counters_never_decrease(
    s: RegistryView,
    user: Seq<u8>,
    name: Seq<u8>,
    description: Seq<u8>,
    id: u8,
    choice: bool,
)
    requires
        s.org is Some,
    ensures
        ({
            let d = s.org->0;
            let after_initialize = spec_registry_initialize(s, user, name).0.org->0;
            let after_create = spec_registry_create(s, user, description).0.org->0;
            let after_vote = spec_registry_vote(s, user, id, choice).0.org->0;
            let after_close = spec_registry_close(s, id).0.org->0;
            &&& after_initialize.proposal_count >= d.proposal_count
            &&& after_initialize.total_points >= d.total_points
            &&& after_create.proposal_count >= d.proposal_count
            &&& after_create.total_points >= d.total_points
            &&& after_vote.proposal_count >= d.proposal_count
            &&& after_vote.total_points >= d.total_points
            &&& after_close.proposal_count >= d.proposal_count
            &&& after_close.total_points >= d.total_points
        }),
{
}

/// A closed proposal is gone for good: when closing the proposal with
/// ordinal `id` succeeds, its record is destroyed, and no live proposal
/// with that ordinal remains in the repository.
pub proof fn lemma_closed_proposal_not_retrievable(s: RegistryView, id: u8)
    requires
        s.wf(),
    ensures
        ({
            let (s2, r) = spec_registry_close(s, id);
            r is Ok ==> !has_live_proposal(s2.proposals, id)
        }),
{
    let (s2, r) = spec_registry_close(s, id);
    if r is Ok {
        let k = live_proposal_index(s.proposals, id);
        assert(s.proposals[k].id == id);
        if has_live_proposal(s2.proposals, id) {
            let k2 = choose|k2: int|
                0 <= k2 < s2.proposals.len() && (#[trigger] s2.proposals[k2]).id == id;
            let k0 = if k2 < k {
                k2
            } else {
                k2 + 1
            };
            assert(s2.proposals[k2] == s.proposals[k0]);
            if k0 < k {
                assert(s.proposals[k0].id != s.proposals[k].id);
            } else {
                assert(s.proposals[k].id != s.proposals[k0].id);
            }
            assert(false);
        }
    }
}

/// A run of `create_proposal` transitions that all succeed, applied to the
/// organization in turn, one per description.
pub open spec fn creations_succeed(dao: DaoView, user: Seq<u8>, descriptions: Seq<Seq<u8>>) -> bool
    decreases descriptions.len(),
{
    descriptions.len() == 0 || {
        let (d2, r) = spec_create_proposal(dao, user, descriptions[0]);
        r is Ok && creations_succeed(d2, user, descriptions.drop_first())
    }
}

/// The organization after such a run.
pub open spec fn dao_after_creations(
    dao: DaoView,
    user: Seq<u8>,
    descriptions: Seq<Seq<u8>>,
) -> DaoView
    decreases descriptions.len(),
{
    if descriptions.len() == 0 {
        dao
    } else {
        dao_after_creations(
            spec_create_proposal(dao, user, descriptions[0]).0,
            user,
            descriptions.drop_first(),
        )
    }
}

/// The proposals such a run allocates, in creation order.
pub open spec fn proposals_created(
    dao: DaoView,
    user: Seq<u8>,
    descriptions: Seq<Seq<u8>>,
) -> Seq<ProposalView>
    decreases descriptions.len(),
{
    if descriptions.len() == 0 {
        Seq::empty()
    } else {
        let (d2, r) = spec_create_proposal(dao, user, descriptions[0]);
        seq![r->Ok_0] + proposals_created(d2, user, descriptions.drop_first())
    }
}

/// The proposal counter counts creations: after `n` successful
/// `create_proposal` calls the counter has advanced by exactly `n`, and the
/// `i`-th proposal created took ordinal `i` places past the starting counter.
/// In particular, an organization created fresh (counter zero) holds
/// `proposal_count == n` after `n` creations, and its `n`-th proposal has
/// ordinal `n - 1`.
pub proof fn lemma_proposal_count_after_creations(
    dao: DaoView,
    user: Seq<u8>,
    descriptions: Seq<Seq<u8>>,
)
    requires
        creations_succeed(dao, user, descriptions),
    ensures
        dao_after_creations(dao, user, descriptions).proposal_count == dao.proposal_count
            + descriptions.len(),
        proposals_created(dao, user, descriptions).len() == descriptions.len(),
        forall|i: int|
            0 <= i < descriptions.len() ==> (#[trigger] proposals_created(
                dao,
                user,
                descriptions,
            )[i]).id == dao.proposal_count + i,
    decreases descriptions.len(),
{
    if descriptions.len() > 0 {
        let (d2, r) = spec_create_proposal(dao, user, descriptions[0]);
        lemma_proposal_count_after_creations(d2, user, descriptions.drop_first());
        let created = proposals_created(dao, user, descriptions);
        let rest = proposals_created(d2, user, descriptions.drop_first());
        assert forall|i: int| 0 <= i < descriptions.len() implies (#[trigger] created[i]).id
            == dao.proposal_count + i by {
            if i == 0 {
                assert(created[0] == r->Ok_0);
            } else {
                assert(created[i] == rest[i - 1]);
            }
        }
    }
}

} // verus!
