use vstd::prelude::*;
use vstd::utf8::encode_utf8;
use crate::address::Address;
use crate::ownership::{HoldingProof, proof_backs};
use crate::registry::{
    BindingRecord, CustomError, RegistryState, VerificationStatus, MAX_IDENTITY_LEN,
    backed_pred, bind_spec, compact_spec, lemma_lookup_binding_none, lemma_lookup_binding_push,
    owners_unique, query_spec, set_allowed_spec, still_backed,
};

verus! {

broadcast use vstd::seq_lib::group_filter_ensures;

proof fn lemma_filter_twice(s: Seq<BindingRecord>, p: spec_fn(BindingRecord) -> bool)
    ensures
        s.filter(p).filter(p) == s.filter(p),
    decreases s.len(),
{
    reveal(Seq::filter);
    if s.len() > 0 {
        lemma_filter_twice(s.drop_last(), p);
        if p(s.last()) {
            s.drop_last().filter(p).lemma_filter_push(s.last(), p);
        }
    }
}

proof fn lemma_filter_split_len(s: Seq<BindingRecord>, p: spec_fn(BindingRecord) -> bool)
    ensures
        s.filter(p).len() + s.filter(|b: BindingRecord| !p(b)).len() == s.len(),
    decreases s.len(),
{
    reveal(Seq::filter);
    if s.len() > 0 {
        lemma_filter_split_len(s.drop_last(), p);
    }
}

proof fn lemma_filter_keeps_unique(s: Seq<BindingRecord>, p: spec_fn(BindingRecord) -> bool)
    requires
        owners_unique(s),
    ensures
        owners_unique(s.filter(p)),
    decreases s.len(),
{
    reveal(Seq::filter);
    if s.len() > 0 {
        let rest = s.drop_last();
        let last = s.last();
        assert(owners_unique(rest));
        lemma_filter_keeps_unique(rest, p);
        if p(last) {
            let f = rest.filter(p);
            assert forall|k: int| 0 <= k < f.len() implies #[trigger] f[k].owner != last.owner by {
                rest.lemma_filter_contains_rev(p, f[k]);
                let j = choose|j: int| 0 <= j < rest.len() && rest[j] == f[k];
                assert(s[j] == rest[j]);
                assert(s[s.len() - 1] == last);
            }
            assert(owners_unique(f.push(last)));
        }
    }
}

/// Compaction never gives an address two active bindings.
pub proof fn lemma_compact_preserves_uniqueness(s: RegistryState, caller: Address, batch: Seq<(Address, HoldingProof)>)
    requires
        s.wf(),
        compact_spec(s, caller, batch) is Ok,
    ensures
        compact_spec(s, caller, batch)->Ok_0.0.wf(),
{
    lemma_filter_keeps_unique(s.bindings, backed_pred(s.allowed_asset, batch));
}

/// After a successful bind of `identity` for `user`, a query for `user` reports
/// `Verified` with that identity and `NotVerified` with any other.
pub proof fn lemma_bind_then_query(
    s: RegistryState,
    user: Address,
    identity: Seq<char>,
    proof: HoldingProof,
    now: i64,
    other: Seq<char>,
)
    requires
        bind_spec(s, user, identity, proof, now) is Ok,
    ensures
        query_spec(bind_spec(s, user, identity, proof, now)->Ok_0, user, identity)
            == Ok::<VerificationStatus, CustomError>(VerificationStatus::Verified),
        other != identity ==> query_spec(bind_spec(s, user, identity, proof, now)->Ok_0, user, other)
            == Ok::<VerificationStatus, CustomError>(VerificationStatus::NotVerified),
{
    let b = BindingRecord { owner: user, identity, bound_at: now, asset: proof.asset };
    lemma_lookup_binding_push(s.bindings, b, user);
}

/// A bind whose proof holds nothing, or holds another asset than the allowed one,
/// is refused as `NotAssetHolder` (and the registry is left as it was).
pub proof fn lemma_bind_rejects_non_holder(
    s: RegistryState,
    user: Address,
    identity: Seq<char>,
    proof: HoldingProof,
    now: i64,
)
    requires
        proof.quantity == 0 || proof.asset != s.allowed_asset,
    ensures
        bind_spec(s, user, identity, proof, now) == Err::<RegistryState, CustomError>(CustomError::NotAssetHolder),
{
}

/// A bind for an address that already has an active binding is refused as
/// `DuplicateBinding`, when its proof and identity would otherwise be accepted.
pub proof fn lemma_bind_duplicate(
    s: RegistryState,
    user: Address,
    identity: Seq<char>,
    proof: HoldingProof,
    now: i64,
)
    requires
        exists|i: int| 0 <= i < s.bindings.len() && s.bindings[i].owner == user,
        proof_backs(user, s.allowed_asset, proof),
        encode_utf8(identity).len() <= MAX_IDENTITY_LEN,
    ensures
        bind_spec(s, user, identity, proof, now) == Err::<RegistryState, CustomError>(CustomError::DuplicateBinding),
{
    lemma_lookup_binding_none(s.bindings, user);
}

/// Compacting twice with the same batch gives the same bindings both times, and
/// the second pass removes nothing.
pub proof fn lemma_compact_idempotent(s: RegistryState, caller: Address, batch: Seq<(Address, HoldingProof)>)
    requires
        compact_spec(s, caller, batch) is Ok,
    ensures
        compact_spec(compact_spec(s, caller, batch)->Ok_0.0, caller, batch)
            == Ok::<(RegistryState, nat), CustomError>((compact_spec(s, caller, batch)->Ok_0.0, 0)),
{
    lemma_filter_twice(s.bindings, backed_pred(s.allowed_asset, batch));
}

/// Compaction keeps exactly the bindings that the batch still backs, in their
/// order, and reports as removed the number of the others.
pub proof fn lemma_compact_removes_exactly(s: RegistryState, caller: Address, batch: Seq<(Address, HoldingProof)>)
    requires
        compact_spec(s, caller, batch) is Ok,
    ensures
        ({
            let (t, removed) = compact_spec(s, caller, batch)->Ok_0;
            &&& t.bindings == s.bindings.filter(backed_pred(s.allowed_asset, batch))
            &&& forall|b: BindingRecord| #[trigger] t.bindings.contains(b)
                <==> s.bindings.contains(b) && still_backed(b, s.allowed_asset, batch)
            &&& removed == s.bindings.filter(|b: BindingRecord| !still_backed(b, s.allowed_asset, batch)).len()
        }),
{
    let p = backed_pred(s.allowed_asset, batch);
    let t = s.bindings.filter(p);
    assert forall|b: BindingRecord| #[trigger] t.contains(b)
        <==> s.bindings.contains(b) && still_backed(b, s.allowed_asset, batch) by {
        if t.contains(b) {
            s.bindings.lemma_filter_contains_rev(p, b);
            let k = choose|k: int| 0 <= k < t.len() && t[k] == b;
            s.bindings.lemma_filter_pred(p, k);
        }
        if s.bindings.contains(b) && still_backed(b, s.allowed_asset, batch) {
            let k = choose|k: int| 0 <= k < s.bindings.len() && s.bindings[k] == b;
            s.bindings.lemma_filter_contains(p, k);
        }
    }
    lemma_filter_split_len(s.bindings, p);
    assert((|b: BindingRecord| !p(b)) =~= (|b: BindingRecord| !still_backed(b, s.allowed_asset, batch)));
}

/// Only the admin may change the allowed asset. When the admin does, the active
/// bindings stay as they are, and from then on a bind must prove the new asset.
pub proof fn lemma_set_allowed_asset(s: RegistryState, caller: Address, new_asset: Address)
    ensures
        caller != s.admin ==> set_allowed_spec(s, caller, new_asset)
            == Err::<RegistryState, CustomError>(CustomError::Unauthorized),
        caller == s.admin ==> {
            let t = set_allowed_spec(s, caller, new_asset)->Ok_0;
            &&& set_allowed_spec(s, caller, new_asset) is Ok
            &&& t.allowed_asset == new_asset
            &&& t.bindings == s.bindings
            &&& t.admin == s.admin
            &&& forall|user: Address, identity: Seq<char>, proof: HoldingProof, now: i64|
                proof.asset != new_asset ==> #[trigger] bind_spec(t, user, identity, proof, now)
                    == Err::<RegistryState, CustomError>(CustomError::NotAssetHolder)
        },
{
}

} // verus!
