use crate::address::{lemma_address_from_bytes_round_trip, Address};
use crate::meta::copy_bytes;
use vstd::prelude::*;
use vstd::string::StringSliceAdditionalSpecFns;
use vstd::string::StrSliceExecFns;

verus! {

/// What the host ledger's program-derived-address search returns for a
/// seed list and a program identity: `None` in the statistically
/// improbable event that no bump seed works (or when the seed list is too
/// long), otherwise the 32-byte derived address and the bump seed that
/// produced it. The result depends on the seeds and the program identity
/// alone.
pub uninterp spec fn pda_of(seeds: Seq<Seq<u8>>, program: Seq<u8>) -> Option<(Seq<u8>, u8)>;

/// The result of an address derivation, as a mathematical value.
pub open spec fn view_pda_result(r: Option<(Vec<u8>, u8)>) -> Option<(Seq<u8>, u8)> {
    match r {
        Some(p) => Some((p.0@, p.1)),
        None => None,
    }
}

/// The result of a derivation already read back into an [`Address`].
pub open spec fn view_addr_result(r: Option<(Address, u8)>) -> Option<(Seq<u8>, u8)> {
    match r {
        Some(p) => Some((p.0.bytes(), p.1)),
        None => None,
    }
}

/// Relies on `Pubkey::try_find_program_address` of the host ledger's SDK:
/// a pure search over bump seeds that either finds the first (highest)
/// bump whose derived address is valid and returns the address with that
/// bump, or returns `None`; the outcome is a function of the seed list and
/// the program identity alone, and every returned address is 32 bytes.
#[verifier::external_body]
fn try_find_program_address_raw(seeds: &Vec<Vec<u8>>, program: &Vec<u8>) -> (r: Option<
    (Vec<u8>, u8),
>)
    requires
        program@.len() == 32,
    ensures
        view_pda_result(r) == pda_of(seeds.deep_view(), program@),
        r matches Some(p) ==> p.0@.len() == 32,
{
    let refs: Vec<&[u8]> = seeds.iter().map(|s| s.as_slice()).collect();
    let mut pid = [0u8; 32];
    pid.copy_from_slice(program.as_slice());
    let key = anchor_lang::prelude::Pubkey::new_from_array(pid);
    anchor_lang::prelude::Pubkey::try_find_program_address(&refs, &key).map(
        |p: (anchor_lang::prelude::Pubkey, u8)| (p.0.to_bytes().to_vec(), p.1),
    )
}

/// The label of the derived signing authority.
pub open spec fn authority_seed() -> Seq<u8> {
    "authority".spec_bytes()
}

/// The label of the admin state record.
pub open spec fn state_seed() -> Seq<u8> {
    "state".spec_bytes()
}

/// The label of a collection record.
pub open spec fn collection_seed() -> Seq<u8> {
    "collection".spec_bytes()
}

/// The label of a mirror collection mint.
pub open spec fn collection_mint_seed() -> Seq<u8> {
    "collection-mint".spec_bytes()
}

/// The label of a collection lookup entry record.
pub open spec fn collection_entry_seed() -> Seq<u8> {
    "collection-entry".spec_bytes()
}

/// The label of a pair's mirror mint.
pub open spec fn entangled_mint_seed() -> Seq<u8> {
    "entanglement-mint".spec_bytes()
}

/// The label of a pair record.
pub open spec fn entangled_pair_seed() -> Seq<u8> {
    "entanglement-pair".spec_bytes()
}

/// The derived signing authority of the protocol deployed as `program`:
/// the address derived from the fixed authority label. It has no private
/// key; holding the label and the program identity is enough to
/// reconstruct it.
pub fn authority_address(program: &Address) -> (r: Option<(Address, u8)>)
    ensures
        view_addr_result(r) == pda_of(seq![authority_seed()], program.bytes()),
{
    let mut seeds: Vec<Vec<u8>> = Vec::new();
    seeds.push("authority".as_bytes_vec());
    proof {
        assert(seeds.deep_view() =~~= seq![authority_seed()]);
    }
    finish_derivation(&seeds, program)
}

/// The address of the admin state record of `program`.
pub fn state_address(program: &Address) -> (r: Option<(Address, u8)>)
    ensures
        view_addr_result(r) == pda_of(seq![state_seed()], program.bytes()),
{
    let mut seeds: Vec<Vec<u8>> = Vec::new();
    seeds.push("state".as_bytes_vec());
    proof {
        assert(seeds.deep_view() =~~= seq![state_seed()]);
    }
    finish_derivation(&seeds, program)
}

/// The address of the collection record registered under `id`.
pub fn collection_address(program: &Address, id: &Address) -> (r: Option<(Address, u8)>)
    ensures
        view_addr_result(r) == pda_of(seq![collection_seed(), id.bytes()], program.bytes()),
{
    let mut seeds: Vec<Vec<u8>> = Vec::new();
    seeds.push("collection".as_bytes_vec());
    seeds.push(id.to_bytes());
    proof {
        assert(seeds.deep_view() =~~= seq![collection_seed(), id.bytes()]);
    }
    finish_derivation(&seeds, program)
}

/// The address of the mirror collection mint of the collection `id`.
pub fn collection_mint_address(program: &Address, id: &Address) -> (r: Option<(Address, u8)>)
    ensures
        view_addr_result(r) == pda_of(seq![collection_mint_seed(), id.bytes()], program.bytes()),
{
    let mut seeds: Vec<Vec<u8>> = Vec::new();
    seeds.push("collection-mint".as_bytes_vec());
    seeds.push(id.to_bytes());
    proof {
        assert(seeds.deep_view() =~~= seq![collection_mint_seed(), id.bytes()]);
    }
    finish_derivation(&seeds, program)
}

/// The address of the lookup entry record stored under `key`.
pub fn collection_entry_address(program: &Address, key: &Vec<u8>) -> (r: Option<(Address, u8)>)
    ensures
        view_addr_result(r) == pda_of(seq![collection_entry_seed(), key@], program.bytes()),
{
    let mut seeds: Vec<Vec<u8>> = Vec::new();
    seeds.push("collection-entry".as_bytes_vec());
    seeds.push(copy_bytes(key));
    proof {
        assert(seeds.deep_view() =~~= seq![collection_entry_seed(), key@]);
    }
    finish_derivation(&seeds, program)
}

/// The address of the mirror mint of the pair for `original_mint` under
/// the collection `id`.
pub fn entangled_mint_address(program: &Address, id: &Address, original_mint: &Address) -> (r:
    Option<(Address, u8)>)
    ensures
        view_addr_result(r) == pda_of(
            seq![entangled_mint_seed(), id.bytes(), original_mint.bytes()],
            program.bytes(),
        ),
{
    let mut seeds: Vec<Vec<u8>> = Vec::new();
    seeds.push("entanglement-mint".as_bytes_vec());
    seeds.push(id.to_bytes());
    seeds.push(original_mint.to_bytes());
    proof {
        assert(seeds.deep_view() =~~= seq![
            entangled_mint_seed(),
            id.bytes(),
            original_mint.bytes(),
        ]);
    }
    finish_derivation(&seeds, program)
}

/// The address of the pair record whose mirror mint is `entangled_mint`.
pub fn entangled_pair_address(program: &Address, entangled_mint: &Address) -> (r: Option<
    (Address, u8),
>)
    ensures
        view_addr_result(r) == pda_of(
            seq![entangled_pair_seed(), entangled_mint.bytes()],
            program.bytes(),
        ),
{
    let mut seeds: Vec<Vec<u8>> = Vec::new();
    seeds.push("entanglement-pair".as_bytes_vec());
    seeds.push(entangled_mint.to_bytes());
    proof {
        assert(seeds.deep_view() =~~= seq![entangled_pair_seed(), entangled_mint.bytes()]);
    }
    finish_derivation(&seeds, program)
}

/// Runs the derivation for a prepared seed list and reads the result back
/// into an [`Address`].
fn finish_derivation(seeds: &Vec<Vec<u8>>, program: &Address) -> (r: Option<(Address, u8)>)
    ensures
        view_addr_result(r) == pda_of(seeds.deep_view(), program.bytes()),
{
    let pb = program.to_bytes();
    match try_find_program_address_raw(seeds, &pb) {
        None => None,
        Some(p) => {
            proof {
                lemma_address_from_bytes_round_trip(p.0@);
            }
            let a = Address::from_bytes(p.0.as_slice());
            Some((a, p.1))
        },
    }
}

} // verus!
