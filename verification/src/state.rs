use vstd::prelude::*;

verus! {

/// Maximum length, in bytes, of an organization name.
pub const MAX_NAME_LEN: usize = 32;

/// Maximum length, in bytes, of a proposal description.
pub const MAX_DESCRIPTION_LEN: usize = 256;

/// Maximum number of proposals an organization may hold: the proposal counter
/// is one byte and must never overflow.
pub const MAX_PROPOSALS: u8 = 255;

/// An opaque, unforgeable caller identity: a 32-byte key supplied by the
/// authenticating runtime. The core only ever compares identities for
/// equality; it never inspects their structure.
#[derive(Clone, Copy, Debug, PartialEq, Eq)]
pub struct Identity {
    pub bytes: [u8; 32],
}

impl View for Identity {
    type V = Seq<u8>;

    open spec fn view(&self) -> Seq<u8> {
        self.bytes@
    }
}

impl DeepView for Identity {
    type V = Seq<u8>;

    open spec fn deep_view(&self) -> Seq<u8> {
        self.bytes@
    }
}

/// True exactly when the two identities hold the same 32 bytes.
pub fn identity_eq(a: &Identity, b: &Identity) -> (r: bool)
    ensures
        r <==> a@ == b@,
{
    let mut i: usize = 0;
    while i < 32
        invariant
            i <= 32,
            forall|j: int| 0 <= j < i ==> a.bytes@[j] == b.bytes@[j],
        decreases 32 - i,
    {
        if a.bytes[i] != b.bytes[i] {
            return false;
        }
        i += 1;
    }
    proof {
        assert(a@ =~= b@);
    }
    true
}

/// The organization record: the top-level governed entity. It owns the
/// proposal ordinal namespace and names the one identity allowed to create
/// proposals.
pub struct Dao {
    /// Display name, at most 32 bytes.
    pub name: Vec<u8>,
    /// Number of proposals ever created; one byte, monotonically increasing.
    pub proposal_count: u8,
    /// Cumulative participation: incremented once per accepted vote.
    pub total_points: u64,
    /// The identity authorized to create proposals for this organization.
    pub authority: Identity,
}

/// The mathematical model of a [`Dao`]: the same fields over `Seq<u8>`.
#[verifier::ext_equal]
pub ghost struct DaoView {
    pub name: Seq<u8>,
    pub proposal_count: u8,
    pub total_points: u64,
    pub authority: Seq<u8>,
}

impl View for Dao {
    type V = DaoView;

    open spec fn view(&self) -> DaoView {
        DaoView {
            name: self.name@,
            proposal_count: self.proposal_count,
            total_points: self.total_points,
            authority: self.authority@,
        }
    }
}

impl DaoView {
    /// Well-formedness of an organization record: the name respects its bound.
    pub open spec fn wf(self) -> bool {
        self.name.len() <= MAX_NAME_LEN
    }
}

/// A single votable item scoped to one organization.
pub struct Proposal {
    /// Ordinal within the owning organization: equal to the organization's
    /// `proposal_count` at creation time.
    pub id: u8,
    /// Free-form description, at most 256 bytes.
    pub description: Vec<u8>,
    pub yes_votes: u64,
    pub no_votes: u64,
    /// True from creation until the proposal is closed.
    pub is_active: bool,
    /// The identity that created the proposal (the administrator at creation
    /// time).
    pub creator: Identity,
    /// Identities that have voted on this proposal; no identity appears
    /// twice. A fixed-size storage backend would cap this list (ten 32-byte
    /// entries fit the reserved record layout); this in-memory record lets
    /// it grow, which admits more than ten distinct voters.
    pub voters: Vec<Identity>,
}

/// The mathematical model of a [`Proposal`], with voters as a sequence of
/// identity views.
#[verifier::ext_equal]
pub ghost struct ProposalView {
    pub id: u8,
    pub description: Seq<u8>,
    pub yes_votes: u64,
    pub no_votes: u64,
    pub is_active: bool,
    pub creator: Seq<u8>,
    pub voters: Seq<Seq<u8>>,
}

impl DeepView for Proposal {
    type V = ProposalView;

    open spec fn deep_view(&self) -> ProposalView {
        self.view()
    }
}

impl View for Proposal {
    type V = ProposalView;

    open spec fn view(&self) -> ProposalView {
        ProposalView {
            id: self.id,
            description: self.description@,
            yes_votes: self.yes_votes,
            no_votes: self.no_votes,
            is_active: self.is_active,
            creator: self.creator@,
            voters: self.voters.deep_view(),
        }
    }
}

/// No identity appears twice in a voter list.
pub open spec fn distinct_voters(voters: Seq<Seq<u8>>) -> bool {
    forall|i: int, j: int| 0 <= i < j < voters.len() ==> voters[i] != voters[j]
}

impl ProposalView {
    /// Well-formedness of a proposal record: the description respects its
    /// bound and no voter is recorded twice.
    pub open spec fn wf(self) -> bool {
        &&& self.description.len() <= MAX_DESCRIPTION_LEN
        &&& distinct_voters(self.voters)
    }
}

/// True exactly when `user` has already cast a vote on a proposal whose
/// voter list is `voters`.
pub open spec fn has_voter(voters: Seq<Seq<u8>>, user: Seq<u8>) -> bool {
    voters.contains(user)
}

/// Membership test over the voter list, linear in the number of voters.
pub fn has_voted(voters: &Vec<Identity>, user: &Identity) -> (r: bool)
    ensures
        r == has_voter(voters.deep_view(), user@),
{
    let ghost vs = voters.deep_view();
    let mut i: usize = 0;
    while i < voters.len()
        invariant
            i <= voters@.len(),
            vs == voters.deep_view(),
            vs.len() == voters@.len(),
            forall|j: int| 0 <= j < vs.len() ==> vs[j] == voters@[j]@,
            forall|j: int| 0 <= j < i ==> vs[j] != user@,
        decreases voters@.len() - i,
    {
        if identity_eq(&voters[i], user) {
            assert(vs[i as int] == user@);
            return true;
        }
        i += 1;
    }
    proof {
        assert(forall|j: int| 0 <= j < vs.len() ==> vs[j] != user@);
        if has_voter(vs, user@) {
            let j = choose|j: int| 0 <= j < vs.len() && vs[j] == user@;
            assert(false);
        }
    }
    false
}

} // verus!
