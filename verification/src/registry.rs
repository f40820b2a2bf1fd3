use vstd::prelude::*;

use crate::errors::ErrorCode;
use crate::ops;
use crate::ops::{org_view, spec_create_proposal, spec_initialize, spec_vote};
use crate::state::{Dao, DaoView, Identity, Proposal, ProposalView};

verus! {

/// The keyed repository standing in for the persistence layer: at most one
/// organization record, and the live proposal records scoped to it. A closed
/// proposal is destroyed, so only active proposals are ever stored.
pub struct Registry {
    pub org: Option<Dao>,
    pub proposals: Vec<Proposal>,
}

/// The mathematical model of a [`Registry`].
#[verifier::ext_equal]
pub ghost struct RegistryView {
    pub org: Option<DaoView>,
    pub proposals: Seq<ProposalView>,
}

impl View for Registry {
    type V = RegistryView;

    open spec fn view(&self) -> RegistryView {
        RegistryView { org: org_view(self.org), proposals: self.proposals.deep_view() }
    }
}

/// True when a live proposal with ordinal `id` is stored.
pub open spec fn has_live_proposal(proposals: Seq<ProposalView>, id: u8) -> bool {
    exists|k: int| 0 <= k < proposals.len() && (#[trigger] proposals[k]).id == id
}

/// The index of the live proposal with ordinal `id`; meaningful only when
/// [`has_live_proposal`] holds (the index is then unique, since ordinals are).
pub open spec fn live_proposal_index(proposals: Seq<ProposalView>, id: u8) -> int {
    choose|k: int| 0 <= k < proposals.len() && (#[trigger] proposals[k]).id == id
}

impl RegistryView {
    /// The repository invariant: records are well-formed, every stored
    /// proposal is active and recognized by the organization (its ordinal is
    /// below the counter), ordinals are unique, and no proposal exists
    /// without its organization.
    pub open spec fn wf(self) -> bool {
        &&& match self.org {
            Some(d) => d.wf() && forall|i: int|
                0 <= i < self.proposals.len() ==> (#[trigger] self.proposals[i]).id
                    < d.proposal_count,
            None => self.proposals.len() == 0,
        }
        &&& forall|i: int|
            0 <= i < self.proposals.len() ==> (#[trigger] self.proposals[i]).wf()
                && self.proposals[i].is_active
        &&& forall|i: int, j: int|
            0 <= i < j < self.proposals.len() ==> (#[trigger] self.proposals[i]).id != (
            #[trigger] self.proposals[j]).id
    }
}

/// The repository-level `initialize` transition: [`spec_initialize`] applied
/// to the organization slot, with the proposal store untouched.
pub open spec fn spec_registry_initialize(s: RegistryView, user: Seq<u8>, name: Seq<u8>) -> (
    RegistryView,
    Result<(), ErrorCode>,
) {
    let (org2, res) = spec_initialize(s.org, user, name);
    (RegistryView { org: org2, ..s }, res)
}

/// The repository-level `create_proposal` transition. Without an organization
/// record no caller is its administrator, so creation is unauthorized; on
/// success the new record is stored under its ordinal.
pub open spec fn spec_registry_create(s: RegistryView, user: Seq<u8>, description: Seq<u8>) -> (
    RegistryView,
    Result<u8, ErrorCode>,
) {
    match s.org {
        None => (s, Err(ErrorCode::Unauthorized)),
        Some(d) => {
            let (d2, res) = spec_create_proposal(d, user, description);
            match res {
                Ok(p) => (
                    RegistryView { org: Some(d2), proposals: s.proposals.push(p) },
                    Ok(p.id),
                ),
                Err(e) => (s, Err(e)),
            }
        },
    }
}

/// The repository-level `vote` transition. A vote on an ordinal with no live
/// record (never created, or already closed and destroyed) fails as not
/// active; otherwise [`spec_vote`] decides, and the store changes only on
/// success.
pub open spec fn spec_registry_vote(s: RegistryView, user: Seq<u8>, id: u8, choice: bool) -> (
    RegistryView,
    Result<(), ErrorCode>,
) {
    if s.org is Some && has_live_proposal(s.proposals, id) {
        let k = live_proposal_index(s.proposals, id);
        let (d2, p2, res) = spec_vote(s.org->0, s.proposals[k], user, choice);
        match res {
            Ok(_) => (
                RegistryView { org: Some(d2), proposals: s.proposals.update(k, p2) },
                Ok(()),
            ),
            Err(e) => (s, Err(e)),
        }
    } else {
        (s, Err(ErrorCode::ProposalNotActive))
    }
}

/// The repository-level `close_proposal` transition: the live record is
/// destroyed; closing an ordinal with no live record (already closed, or
/// never created) fails. Closure carries no administrator gate: any caller
/// may close any active proposal.
pub open spec fn spec_registry_close(s: RegistryView, id: u8) -> (RegistryView, Result<
    (),
    ErrorCode,
>) {
    if has_live_proposal(s.proposals, id) {
        let k = live_proposal_index(s.proposals, id);
        (RegistryView { proposals: s.proposals.remove(k), ..s }, Ok(()))
    } else {
        (s, Err(ErrorCode::ProposalAlreadyClosed))
    }
}

/// The index of the stored proposal with ordinal `id`, if any.
fn find_proposal_index(proposals: &Vec<Proposal>, id: u8) -> (r: Option<usize>)
    ensures
        (match r {
            Some(k) => k < proposals@.len() && proposals.deep_view()[k as int].id == id,
            None => !has_live_proposal(proposals.deep_view(), id),
        }),
{
    let ghost ps = proposals.deep_view();
    let mut i: usize = 0;
    while i < proposals.len()
        invariant
            i <= proposals@.len(),
            ps == proposals.deep_view(),
            ps.len() == proposals@.len(),
            forall|j: int| 0 <= j < ps.len() ==> ps[j] == proposals@[j]@,
            forall|j: int| 0 <= j < i ==> (#[trigger] ps[j]).id != id,
        decreases proposals@.len() - i,
    {
        if proposals[i].id == id {
            return Some(i);
        }
        i += 1;
    }
    None
}

impl Registry {
    /// The repository invariant, as a predicate on the concrete type.
    pub open spec fn wf(self) -> bool {
        self@.wf()
    }

    /// An empty repository: no organization record, no proposals.
    pub fn new() -> (r: Registry)
        ensures
            r.wf(),
            r@.org is None,
            r@.proposals == Seq::<ProposalView>::empty(),
    {
        let r = Registry { org: None, proposals: Vec::new() };
        proof {
            assert(r@.proposals =~= Seq::<ProposalView>::empty());
        }
        r
    }

    /// Creates the organization record if none exists; a second call is a
    /// no-op returning success, and an over-long name is rejected without
    /// creating anything.
    pub fn initialize(&mut self, user: &Identity, name: Vec<u8>) -> (r: Result<(), ErrorCode>)
        requires
            old(self).wf(),
        ensures
            final(self).wf(),
            (final(self)@, r) == spec_registry_initialize(old(self)@, user@, name@),
    {
        let res = ops::initialize(&mut self.org, user, name);
        proof {
            assert(self@ =~= spec_registry_initialize(old(self)@, user@, name@).0);
        }
        res
    }

    /// Creates a proposal on the organization, returning its ordinal. Fails
    /// if the caller is not the administrator (or no organization exists),
    /// if the description exceeds its bound, or if the proposal counter is
    /// exhausted; on failure nothing changes.
    pub fn create_proposal(&mut self, user: &Identity, description: Vec<u8>) -> (r: Result<
        u8,
        ErrorCode,
    >)
        requires
            old(self).wf(),
        ensures
            final(self).wf(),
            (final(self)@, r) == spec_registry_create(old(self)@, user@, description@),
    {
        let ghost desc = description@;
        let created = match &mut self.org {
            None => Err(ErrorCode::Unauthorized),
            Some(dao) => ops::create_proposal(dao, user, description),
        };
        match created {
            Err(e) => {
                proof {
                    assert(self@ =~= old(self)@);
                }
                Err(e)
            },
            Ok(proposal) => {
                let id = proposal.id;
                let ghost pv = proposal@;
                self.proposals.push(proposal);
                proof {
                    let d = old(self)@.org->0;
                    let (d2, sres) = spec_create_proposal(d, user@, desc);
                    assert(pv == sres->Ok_0);
                    assert(self@.proposals =~= old(self)@.proposals.push(pv));
                    assert(self@ =~= spec_registry_create(old(self)@, user@, desc).0);
                    assert forall|i: int| 0 <= i < self@.proposals.len() implies (
                    #[trigger] self@.proposals[i]).id < d2.proposal_count by {
                        if i < old(self)@.proposals.len() {
                            assert(old(self)@.proposals[i].id < d.proposal_count);
                        }
                    }
                }
                Ok(id)
            },
        }
    }

    /// Casts one vote by `user` on the live proposal with ordinal `id`. An
    /// ordinal with no live record (never created, or closed and destroyed)
    /// is not active; an identity may vote at most once per proposal. On
    /// success the chosen tally and the organization's participation counter
    /// advance by one.
    pub fn vote(&mut self, user: &Identity, id: u8, choice: bool) -> (r: Result<(), ErrorCode>)
        requires
            old(self).wf(),
        ensures
            final(self).wf(),
            (final(self)@, r) == spec_registry_vote(old(self)@, user@, id, choice),
    {
        let found = find_proposal_index(&self.proposals, id);
        match found {
            None => Err(ErrorCode::ProposalNotActive),
            Some(k) => {
                proof {
                    assert(old(self)@.proposals[k as int].id == id);
                    assert(has_live_proposal(old(self)@.proposals, id));
                    let kk = live_proposal_index(old(self)@.proposals, id);
                    if kk < k as int {
                        assert(old(self)@.proposals[kk].id != old(self)@.proposals[k as int].id);
                    } else if (k as int) < kk {
                        assert(old(self)@.proposals[k as int].id != old(self)@.proposals[kk].id);
                    }
                    assert(kk == k as int);
                }
                let res = match &mut self.org {
                    None => Err(ErrorCode::ProposalNotActive),
                    Some(dao) => {
                        let proposal = &mut self.proposals[k];
                        ops::vote(dao, proposal, user, choice)
                    },
                };
                proof {
                    if old(self)@.org is Some {
                        let (d2, p2, sres) = spec_vote(
                            old(self)@.org->0,
                            old(self)@.proposals[k as int],
                            user@,
                            choice,
                        );
                        assert(self@.proposals =~= old(self)@.proposals.update(k as int, p2));
                        if sres is Ok {
                            assert(self@ =~= spec_registry_vote(old(self)@, user@, id, choice).0);
                            assert(d2.proposal_count == old(self)@.org->0.proposal_count);
                            assert forall|i: int| 0 <= i < self@.proposals.len() implies (
                            #[trigger] self@.proposals[i]).wf() && self@.proposals[i].is_active
                                && self@.proposals[i].id < d2.proposal_count by {
                                assert(old(self)@.proposals[i].wf());
                                if i == k as int {
                                    crate::laws::lemma_vote_preserves_wf(
                                        old(self)@.org->0,
                                        old(self)@.proposals[i],
                                        user@,
                                        choice,
                                    );
                                }
                            }
                            assert forall|i: int, j: int|
                                0 <= i < j < self@.proposals.len() implies (
                            #[trigger] self@.proposals[i]).id != (
                            #[trigger] self@.proposals[j]).id by {
                                assert(old(self)@.proposals[i].id != old(self)@.proposals[j].id);
                            }
                        } else {
                            assert(self@.proposals =~= old(self)@.proposals);
                            assert(self@ =~= old(self)@);
                        }
                    } else {
                        assert(old(self)@.proposals.len() == 0);
                        assert(false);
                    }
                }
                res
            },
        }
    }

    /// Closes the live proposal with ordinal `id`, destroying its record: it
    /// is no longer retrievable afterwards. Closing an ordinal with no live
    /// record fails as already closed. Any caller may close any active
    /// proposal; closure, unlike creation, carries no administrator gate.
    pub fn close_proposal(&mut self, id: u8) -> (r: Result<(), ErrorCode>)
        requires
            old(self).wf(),
        ensures
            final(self).wf(),
            (final(self)@, r) == spec_registry_close(old(self)@, id),
    {
        let found = find_proposal_index(&self.proposals, id);
        match found {
            None => Err(ErrorCode::ProposalAlreadyClosed),
            Some(k) => {
                proof {
                    assert(old(self)@.proposals[k as int].id == id);
                    assert(has_live_proposal(old(self)@.proposals, id));
                    let kk = live_proposal_index(old(self)@.proposals, id);
                    if kk < k as int {
                        assert(old(self)@.proposals[kk].id != old(self)@.proposals[k as int].id);
                    } else if (k as int) < kk {
                        assert(old(self)@.proposals[k as int].id != old(self)@.proposals[kk].id);
                    }
                    assert(kk == k as int);
                }
                let mut closed = self.proposals.remove(k);
                let res = ops::close_proposal(&mut closed);
                proof {
                    assert(old(self)@.proposals[k as int].is_active);
                    assert(res is Ok);
                    assert(self@.proposals =~= old(self)@.proposals.remove(k as int));
                    assert(self@ =~= spec_registry_close(old(self)@, id).0);
                    assert forall|i: int| 0 <= i < self@.proposals.len() implies (
                    #[trigger] self@.proposals[i]).wf() && self@.proposals[i].is_active by {
                        if i < k as int {
                            assert(self@.proposals[i] == old(self)@.proposals[i]);
                        } else {
                            assert(self@.proposals[i] == old(self)@.proposals[i + 1]);
                        }
                    }
                    assert forall|i: int, j: int| 0 <= i < j < self@.proposals.len() implies (
                    #[trigger] self@.proposals[i]).id != (#[trigger] self@.proposals[j]).id by {
                        let i0 = if i < k as int { i } else { i + 1 };
                        let j0 = if j < k as int { j } else { j + 1 };
                        assert(old(self)@.proposals[i0].id != old(self)@.proposals[j0].id);
                    }
                }
                res
            },
        }
    }

    /// The organization record, if it has been initialized.
    pub fn get(&self) -> (r: Option<&Dao>)
        ensures
            (match r {
                Some(d) => self@.org == Some(d@),
                None => self@.org is None,
            }),
    {
        match &self.org {
            Some(d) => Some(d),
            None => None,
        }
    }

    /// The live proposal with ordinal `id`, if one is stored. A closed
    /// proposal's record has been destroyed and is never returned.
    pub fn get_proposal(&self, id: u8) -> (r: Option<&Proposal>)
        ensures
            (match r {
                Some(p) => has_live_proposal(self@.proposals, id) && exists|k: int|
                    0 <= k < self@.proposals.len() && (#[trigger] self@.proposals[k]).id == id
                        && p@ == self@.proposals[k],
                None => !has_live_proposal(self@.proposals, id),
            }),
    {
        let found = find_proposal_index(&self.proposals, id);
        match found {
            None => None,
            Some(k) => {
                proof {
                    assert(self@.proposals[k as int].id == id);
                }
                Some(&self.proposals[k])
            },
        }
    }
}

} // verus!
