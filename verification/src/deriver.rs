use crate::identity::Id;
use vstd::prelude::*;

verus! {

/// What `Pubkey::try_find_program_address` returns for the given seeds under
/// the given namespace id: the derived custody address and the bump proof the
/// search landed on, or nothing when no viable derivation exists. Off-chain
/// the result is a hash-based function of the arguments alone.
pub uninterp spec fn pda_of(seeds: Seq<Seq<u8>>, namespace: Seq<u8>) -> Option<(Seq<u8>, u8)>;

/// Relies on `solana_pubkey::Pubkey::try_find_program_address` (the
/// `solana-address` crate's `Address::try_find_program_address`): a
/// deterministic bump-seed search over a hash of the seeds and the namespace
/// id, which returns `None` instead of panicking when the search finds no
/// viable address.
#[verifier::external_body]
fn pda_for_seed_pair(seed_a: &Vec<u8>, seed_b: &Vec<u8>, namespace: &Id) -> (r: Option<(Id, u8)>)
    ensures
        r matches Some(p) ==> pda_of(seq![seed_a@, seed_b@], namespace@) == Some((p.0@, p.1)),
        r is None ==> pda_of(seq![seed_a@, seed_b@], namespace@) is None,
{
    let found = anchor_lang::prelude::Pubkey::try_find_program_address(
        &[seed_a.as_slice(), seed_b.as_slice()],
        &anchor_lang::prelude::Pubkey::new_from_array(*namespace),
    );
    found.map(|(address, bump)| (address.to_bytes(), bump))
}

/// The namespace tag scoping escrow-record derivations: the bytes of
/// `escrow`.
pub open spec fn escrow_tag() -> Seq<u8> {
    seq![101u8, 115u8, 99u8, 114u8, 111u8, 119u8]
}

/// The namespace tag scoping vault derivations: the bytes of `vault`.
pub open spec fn vault_tag() -> Seq<u8> {
    seq![118u8, 97u8, 117u8, 108u8, 116u8]
}

/// The seeds that derive an escrow record's address: the record tag and the
/// escrowed asset id.
pub open spec fn escrow_seeds(asset_id: Seq<u8>) -> Seq<Seq<u8>> {
    seq![escrow_tag(), asset_id]
}

/// The seeds that derive a vault's address: the vault tag and the owning
/// escrow record's address.
pub open spec fn vault_seeds(escrow_address: Seq<u8>) -> Seq<Seq<u8>> {
    seq![vault_tag(), escrow_address]
}

/// What the deriver yields for the escrow record bound to `asset_id`.
pub open spec fn derived_escrow(asset_id: Seq<u8>, namespace: Seq<u8>) -> Option<(Seq<u8>, u8)> {
    pda_of(escrow_seeds(asset_id), namespace)
}

/// What the deriver yields for the vault of the record at `escrow_address`.
pub open spec fn derived_vault(escrow_address: Seq<u8>, namespace: Seq<u8>) -> Option<(Seq<u8>, u8)> {
    pda_of(vault_seeds(escrow_address), namespace)
}

fn escrow_tag_bytes() -> (r: Vec<u8>)
    ensures
        r@ == escrow_tag(),
{
    let mut v: Vec<u8> = Vec::new();
    v.push(101u8);
    v.push(115u8);
    v.push(99u8);
    v.push(114u8);
    v.push(111u8);
    v.push(119u8);
    proof {
        assert(v@ =~= escrow_tag());
    }
    v
}

fn vault_tag_bytes() -> (r: Vec<u8>)
    ensures
        r@ == vault_tag(),
{
    let mut v: Vec<u8> = Vec::new();
    v.push(118u8);
    v.push(97u8);
    v.push(117u8);
    v.push(108u8);
    v.push(116u8);
    proof {
        assert(v@ =~= vault_tag());
    }
    v
}

fn id_bytes(id: &Id) -> (r: Vec<u8>)
    ensures
        r@ == id@,
{
    vstd::slice::slice_to_vec(id.as_slice())
}

/// Derive the custody address and proof for the escrow record of `asset_id`.
/// Deterministic: the same asset id under the same namespace always lands on
/// the same address.
pub fn derive_escrow_address(asset_id: &Id, namespace: &Id) -> (r: Option<(Id, u8)>)
    ensures
        r matches Some(p) ==> derived_escrow(asset_id@, namespace@) == Some((p.0@, p.1)),
        r is None ==> derived_escrow(asset_id@, namespace@) is None,
{
    let tag = escrow_tag_bytes();
    let asset = id_bytes(asset_id);
    let r = pda_for_seed_pair(&tag, &asset, namespace);
    proof {
        assert(seq![tag@, asset@] =~~= escrow_seeds(asset_id@));
    }
    r
}

/// Derive the vault address and proof for the record at `escrow_address`.
pub fn derive_vault_address(escrow_address: &Id, namespace: &Id) -> (r: Option<(Id, u8)>)
    ensures
        r matches Some(p) ==> derived_vault(escrow_address@, namespace@) == Some((p.0@, p.1)),
        r is None ==> derived_vault(escrow_address@, namespace@) is None,
{
    let tag = vault_tag_bytes();
    let escrow = id_bytes(escrow_address);
    let r = pda_for_seed_pair(&tag, &escrow, namespace);
    proof {
        assert(seq![tag@, escrow@] =~~= vault_seeds(escrow_address@));
    }
    r
}

} // verus!
