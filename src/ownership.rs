use vstd::prelude::*;
use crate::address::Address;

verus! {

/// A snapshot of an asset account: who holds it, which asset it is, and how much.
#[derive(Clone, Copy, Debug)]
pub struct HoldingProof {
    pub owner: Address,
    pub asset: Address,
    pub quantity: u64,
}

/// A proof backs `claimed_owner` under `allowed_asset` when it names that
/// owner and that asset with a positive quantity.
pub open spec fn proof_backs(claimed_owner: Address, allowed_asset: Address, proof: HoldingProof) -> bool {
    &&& proof.owner == claimed_owner
    &&& proof.asset == allowed_asset
    &&& proof.quantity > 0
}

/// Decides whether `proof` shows that `claimed_owner` holds `allowed_asset`.
pub fn verify_ownership(claimed_owner: &Address, allowed_asset: &Address, proof: &HoldingProof) -> (r: bool)
    ensures
        r == proof_backs(*claimed_owner, *allowed_asset, *proof),
{
    proof.owner.same_as(claimed_owner) && proof.asset.same_as(allowed_asset) && proof.quantity > 0
}

/// The proof that a batch keyed by address supplies for `key`: the first entry under that key.
pub open spec fn lookup_proof(batch: Seq<(Address, HoldingProof)>, key: Address) -> Option<HoldingProof>
    decreases batch.len(),
{
    if batch.len() == 0 {
        None
    } else if batch[0].0 == key {
        Some(batch[0].1)
    } else {
        lookup_proof(batch.drop_first(), key)
    }
}

proof fn lemma_lookup_step(batch: Seq<(Address, HoldingProof)>, key: Address, i: int)
    requires
        0 <= i < batch.len(),
        batch[i].0 != key,
    ensures
        lookup_proof(batch.subrange(i, batch.len() as int), key)
            == lookup_proof(batch.subrange(i + 1, batch.len() as int), key),
{
    assert(batch.subrange(i, batch.len() as int).drop_first() =~= batch.subrange(i + 1, batch.len() as int));
}

/// Finds the proof that `batch` supplies for `key`.
pub fn find_proof(batch: &Vec<(Address, HoldingProof)>, key: &Address) -> (r: Option<HoldingProof>)
    ensures
        r == lookup_proof(batch@, *key),
{
    let mut i: usize = 0;
    assert(batch@.subrange(0, batch@.len() as int) =~= batch@);
    while i < batch.len()
        invariant
            0 <= i <= batch@.len(),
            lookup_proof(batch@, *key) == lookup_proof(batch@.subrange(i as int, batch@.len() as int), *key),
        decreases batch@.len() - i,
    {
        if batch[i].0.same_as(key) {
            return Some(batch[i].1);
        }
        proof {
            lemma_lookup_step(batch@, *key, i as int);
        }
        i = i + 1;
    }
    None
}

} // verus!
