use vstd::prelude::*;

verus! {

/// What `Pubkey::try_find_program_address` returns for the given seed
/// sequence and program id: a 32-byte derived address together with the bump
/// that disambiguates it, or nothing in the statistically improbable case
/// that no bump yields a valid address. The derivation is a pure computation:
/// its result is a function of the seeds and the program id alone, so any
/// party holding the same inputs recomputes the same address.
pub uninterp spec fn derived_address(seeds: Seq<Seq<u8>>, program: Seq<u8>) -> Option<(Seq<u8>, u8)>;

/// Relies on `Pubkey::try_find_program_address` (reached through
/// `anchor_lang`'s re-export): a deterministic, collision-resistant
/// derivation of a storage address and bump from seeds and program id.
#[verifier::external_body]
fn try_find_address(seeds: &Vec<Vec<u8>>, program: &[u8; 32]) -> (r: Option<([u8; 32], u8)>)
    ensures
        (match r {
            Some(p) => derived_address(seeds.deep_view(), program@) == Some((p.0@, p.1)),
            None => derived_address(seeds.deep_view(), program@) is None,
        }),
{
    let seed_slices: Vec<&[u8]> = seeds.iter().map(|s| s.as_slice()).collect();
    let program_id = anchor_lang::prelude::Pubkey::new_from_array(*program);
    anchor_lang::prelude::Pubkey::try_find_program_address(&seed_slices, &program_id)
        .map(|(address, bump)| (address.to_bytes(), bump))
}

/// The fixed namespace tag of the organization record: the bytes of "dao".
pub open spec fn dao_tag() -> Seq<u8> {
    seq![100u8, 97u8, 111u8]
}

/// The fixed namespace tag of a proposal record: the bytes of "proposal".
pub open spec fn proposal_tag() -> Seq<u8> {
    seq![112u8, 114u8, 111u8, 112u8, 111u8, 115u8, 97u8, 108u8]
}

/// The seed sequence locating the organization record: the fixed tag alone.
pub open spec fn organization_seeds() -> Seq<Seq<u8>> {
    seq![dao_tag()]
}

/// The seed sequence locating a proposal record: the fixed tag, the owning
/// organization's address, and the proposal's ordinal as a single byte.
pub open spec fn proposal_seeds(organization: Seq<u8>, sequence_id: u8) -> Seq<Seq<u8>> {
    seq![proposal_tag(), organization, seq![sequence_id]]
}

fn dao_tag_bytes() -> (r: Vec<u8>)
    ensures
        r@ == dao_tag(),
{
    let mut v: Vec<u8> = Vec::new();
    v.push(100);
    v.push(97);
    v.push(111);
    proof {
        assert(v@ =~= dao_tag());
    }
    v
}

fn proposal_tag_bytes() -> (r: Vec<u8>)
    ensures
        r@ == proposal_tag(),
{
    let mut v: Vec<u8> = Vec::new();
    v.push(112);
    v.push(114);
    v.push(111);
    v.push(112);
    v.push(111);
    v.push(115);
    v.push(97);
    v.push(108);
    proof {
        assert(v@ =~= proposal_tag());
    }
    v
}

/// The deterministic storage address (and bump) of the organization record
/// under the given program id.
pub fn organization_address(program: &[u8; 32]) -> (r: Option<([u8; 32], u8)>)
    ensures
        (match r {
            Some(p) => derived_address(organization_seeds(), program@) == Some((p.0@, p.1)),
            None => derived_address(organization_seeds(), program@) is None,
        }),
{
    let tag = dao_tag_bytes();
    let mut seeds: Vec<Vec<u8>> = Vec::new();
    seeds.push(tag);
    proof {
        assert(seeds.deep_view() =~~= organization_seeds());
    }
    try_find_address(&seeds, program)
}

/// The deterministic storage address (and bump) of the proposal record with
/// ordinal `sequence_id`, computed from the owning organization's address.
/// No lookup table is needed: any party holding the organization address and
/// the ordinal recomputes the same proposal address.
pub fn proposal_address(organization: &[u8; 32], sequence_id: u8, program: &[u8; 32]) -> (r:
    Option<([u8; 32], u8)>)
    ensures
        (match r {
            Some(p) => derived_address(proposal_seeds(organization@, sequence_id), program@)
                == Some((p.0@, p.1)),
            None => derived_address(proposal_seeds(organization@, sequence_id), program@) is None,
        }),
{
    let tag = proposal_tag_bytes();
    let mut organization_bytes: Vec<u8> = Vec::new();
    let mut i: usize = 0;
    while i < 32
        invariant
            i <= 32,
            organization_bytes@ == organization@.take(i as int),
        decreases 32 - i,
    {
        organization_bytes.push(organization[i]);
        proof {
            assert(organization_bytes@ =~= organization@.take(i + 1));
        }
        i += 1;
    }
    let mut ordinal: Vec<u8> = Vec::new();
    ordinal.push(sequence_id);
    let mut seeds: Vec<Vec<u8>> = Vec::new();
    seeds.push(tag);
    seeds.push(organization_bytes);
    seeds.push(ordinal);
    proof {
        assert(organization@.take(32) =~= organization@);
        assert(ordinal@ =~= seq![sequence_id]);
        assert(seeds.deep_view() =~~= proposal_seeds(organization@, sequence_id));
    }
    try_find_address(&seeds, program)
}

/// Address derivation is deterministic and reproducible: two derivations
/// from identical seeds and program id yield identical results.
pub proof fn lemma_address_derivation_deterministic(
    seeds: Seq<Seq<u8>>,
    program: Seq<u8>,
    r1: Option<(Seq<u8>, u8)>,
    r2: Option<(Seq<u8>, u8)>,
)
    requires
        r1 == derived_address(seeds, program),
        r2 == derived_address(seeds, program),
    ensures
        r1 == r2,
{
}

} // verus!
