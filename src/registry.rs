use vstd::prelude::*;
use vstd::utf8::encode_utf8;
use crate::address::Address;
use crate::laws::lemma_compact_preserves_uniqueness;
use crate::ownership::{HoldingProof, proof_backs, lookup_proof, verify_ownership, find_proof};

verus! {

/// Largest identity accepted by `bind_wechat_id`, in bytes of UTF-8.
pub const MAX_IDENTITY_LEN: usize = 64;

/// Why an operation on the registry was refused.
#[derive(Clone, Copy, Debug, PartialEq, Eq, Structural)]
pub enum CustomError {
    AlreadyInitialized,
    NotAssetHolder,
    IdentityTooLong,
    DuplicateBinding,
    BindingNotFound,
    Unauthorized,
}

/// Outcome of comparing a candidate identity with a stored binding.
#[derive(Clone, Copy, Debug, PartialEq, Eq, Structural)]
pub enum VerificationStatus {
    Verified,
    NotVerified,
}

impl VerificationStatus {
    pub fn as_text(&self) -> (r: &'static str)
        ensures
            *self == VerificationStatus::Verified ==> r@ == "Verified"@,
            *self == VerificationStatus::NotVerified ==> r@ == "Not Verified"@,
    {
        match self {
            VerificationStatus::Verified => "Verified",
            VerificationStatus::NotVerified => "Not Verified",
        }
    }
}

/// One identity-to-address binding, with when it was made and the asset behind it.
#[derive(Debug)]
pub struct BindingAccount {
    pub owner: Address,
    pub wechat_id: String,
    pub timestamp: i64,
    pub nft_mint: Address,
}

/// What a binding is, abstractly.
pub struct BindingRecord {
    pub owner: Address,
    pub identity: Seq<char>,
    pub bound_at: i64,
    pub asset: Address,
}

impl View for BindingAccount {
    type V = BindingRecord;

    open spec fn view(&self) -> BindingRecord {
        BindingRecord {
            owner: self.owner,
            identity: self.wechat_id@,
            bound_at: self.timestamp,
            asset: self.nft_mint,
        }
    }
}

impl BindingAccount {
    pub fn duplicate(&self) -> (r: BindingAccount)
        ensures
            r@ == self@,
    {
        BindingAccount {
            owner: self.owner,
            wechat_id: self.wechat_id.clone(),
            timestamp: self.timestamp,
            nft_mint: self.nft_mint,
        }
    }
}

/// The active bindings, in the order they were made, with the admin and the asset
/// that currently qualifies for new bindings.
#[derive(Debug)]
pub struct BindingRegistry {
    pub bindings: Vec<BindingAccount>,
    pub admin: Address,
    pub allowed_nft_mint: Address,
}

/// What a registry is, abstractly.
pub struct RegistryState {
    pub bindings: Seq<BindingRecord>,
    pub admin: Address,
    pub allowed_asset: Address,
}

impl View for BindingRegistry {
    type V = RegistryState;

    open spec fn view(&self) -> RegistryState {
        RegistryState {
            bindings: self.bindings@.map_values(|b: BindingAccount| b@),
            admin: self.admin,
            allowed_asset: self.allowed_nft_mint,
        }
    }
}

/// The active binding of `owner`: the first one made for that address.
pub open spec fn lookup_binding(bindings: Seq<BindingRecord>, owner: Address) -> Option<BindingRecord>
    decreases bindings.len(),
{
    if bindings.len() == 0 {
        None
    } else if bindings[0].owner == owner {
        Some(bindings[0])
    } else {
        lookup_binding(bindings.drop_first(), owner)
    }
}

/// No address has two active bindings.
pub open spec fn owners_unique(bindings: Seq<BindingRecord>) -> bool {
    forall|i: int, j: int|
        0 <= i < bindings.len() && 0 <= j < bindings.len() && i != j
            ==> bindings[i].owner != bindings[j].owner
}

impl RegistryState {
    pub open spec fn wf(self) -> bool {
        owners_unique(self.bindings)
    }
}

/// The registry as `initialize_binding_registry` creates it.
pub open spec fn initial_state(admin: Address, allowed_asset: Address) -> RegistryState {
    RegistryState { bindings: Seq::empty(), admin, allowed_asset }
}

/// What `query_binding` reports for `owner` and the candidate `identity`.
pub open spec fn query_spec(s: RegistryState, owner: Address, identity: Seq<char>) -> Result<VerificationStatus, CustomError> {
    match lookup_binding(s.bindings, owner) {
        None => Err(CustomError::BindingNotFound),
        Some(b) => Ok(
            if b.identity == identity {
                VerificationStatus::Verified
            } else {
                VerificationStatus::NotVerified
            },
        ),
    }
}

/// The registry after `user` binds `identity` with `proof` at time `now`, or why it may not.
pub open spec fn bind_spec(
    s: RegistryState,
    user: Address,
    identity: Seq<char>,
    proof: HoldingProof,
    now: i64,
) -> Result<RegistryState, CustomError> {
    if !proof_backs(user, s.allowed_asset, proof) {
        Err(CustomError::NotAssetHolder)
    } else if encode_utf8(identity).len() > MAX_IDENTITY_LEN {
        Err(CustomError::IdentityTooLong)
    } else if lookup_binding(s.bindings, user) is Some {
        Err(CustomError::DuplicateBinding)
    } else {
        Ok(RegistryState {
            bindings: s.bindings.push(
                BindingRecord { owner: user, identity, bound_at: now, asset: proof.asset },
            ),
            ..s
        })
    }
}

/// The registry after `caller` makes `new_asset` the qualifying asset, or why it may not.
pub open spec fn set_allowed_spec(s: RegistryState, caller: Address, new_asset: Address) -> Result<RegistryState, CustomError> {
    if caller != s.admin {
        Err(CustomError::Unauthorized)
    } else {
        Ok(RegistryState { allowed_asset: new_asset, ..s })
    }
}

/// A binding survives compaction when the batch supplies a proof for its owner
/// that still backs it under the allowed asset.
pub open spec fn still_backed(b: BindingRecord, allowed_asset: Address, batch: Seq<(Address, HoldingProof)>) -> bool {
    match lookup_proof(batch, b.owner) {
        Some(p) => proof_backs(b.owner, allowed_asset, p),
        None => false,
    }
}

pub open spec fn backed_pred(allowed_asset: Address, batch: Seq<(Address, HoldingProof)>) -> spec_fn(BindingRecord) -> bool {
    |b: BindingRecord| still_backed(b, allowed_asset, batch)
}

/// The registry after `caller` compacts it against `batch`, with the number of
/// bindings removed, or why it may not.
pub open spec fn compact_spec(
    s: RegistryState,
    caller: Address,
    batch: Seq<(Address, HoldingProof)>,
) -> Result<(RegistryState, nat), CustomError> {
    if caller != s.admin {
        Err(CustomError::Unauthorized)
    } else {
        let kept = s.bindings.filter(backed_pred(s.allowed_asset, batch));
        Ok((RegistryState { bindings: kept, ..s }, (s.bindings.len() - kept.len()) as nat))
    }
}

/// The signer that sets the registry up.
pub struct InitializeBindingRegistry {
    pub admin: Address,
}

/// The signer that asks for a binding, its asset account, and the ledger's time.
pub struct BindWechatId {
    pub user: Address,
    pub token_account: HoldingProof,
    pub now: i64,
}

/// The address whose binding is looked up.
pub struct QueryBinding {
    pub owner: Address,
}

/// The signer that triggers compaction, with the current proofs keyed by address.
pub struct GlobalCheck {
    pub admin: Address,
    pub proofs: Vec<(Address, HoldingProof)>,
}

/// The signer that changes the qualifying asset.
pub struct UpdateAllowedNft {
    pub admin: Address,
}

proof fn lemma_lookup_binding_step(bindings: Seq<BindingRecord>, owner: Address, i: int)
    requires
        0 <= i < bindings.len(),
        bindings[i].owner != owner,
    ensures
        lookup_binding(bindings.subrange(i, bindings.len() as int), owner)
            == lookup_binding(bindings.subrange(i + 1, bindings.len() as int), owner),
{
    assert(bindings.subrange(i, bindings.len() as int).drop_first()
        =~= bindings.subrange(i + 1, bindings.len() as int));
}

/// `lookup_binding` finds nothing exactly when no binding has that owner.
pub proof fn lemma_lookup_binding_none(bindings: Seq<BindingRecord>, owner: Address)
    ensures
        lookup_binding(bindings, owner) is None
            <==> (forall|i: int| 0 <= i < bindings.len() ==> bindings[i].owner != owner),
    decreases bindings.len(),
{
    if bindings.len() > 0 {
        lemma_lookup_binding_none(bindings.drop_first(), owner);
        if bindings[0].owner != owner {
            assert forall|i: int| 0 <= i < bindings.len() && bindings.drop_first()[i - 1].owner != owner
                implies #[trigger] bindings[i].owner != owner by {
                if i > 0 {
                    assert(bindings[i] == bindings.drop_first()[i - 1]);
                }
            }
            assert forall|i: int| 0 <= i < bindings.drop_first().len() && bindings[i + 1].owner != owner
                implies #[trigger] bindings.drop_first()[i].owner != owner by {
            }
        }
    }
}

/// Appending a binding for an owner that had none makes it that owner's binding.
pub proof fn lemma_lookup_binding_push(bindings: Seq<BindingRecord>, b: BindingRecord, owner: Address)
    requires
        lookup_binding(bindings, b.owner) is None,
    ensures
        lookup_binding(bindings.push(b), owner)
            == if owner == b.owner { Some(b) } else { lookup_binding(bindings, owner) },
    decreases bindings.len(),
{
    if bindings.len() == 0 {
        assert(bindings.push(b).drop_first() =~= Seq::<BindingRecord>::empty());
    } else {
        assert(bindings.push(b).drop_first() =~= bindings.drop_first().push(b));
        lemma_lookup_binding_push(bindings.drop_first(), b, owner);
    }
}

impl BindingRegistry {
    /// Index of the active binding of `owner`, if it has one.
    pub fn find_binding(&self, owner: &Address) -> (r: Option<usize>)
        ensures
            match lookup_binding(self@.bindings, *owner) {
                None => r is None,
                Some(b) => r is Some && r->Some_0 < self.bindings@.len()
                    && self.bindings@[r->Some_0 as int]@ == b,
            },
    {
        let ghost v = self@.bindings;
        let mut i: usize = 0;
        assert(v.subrange(0, v.len() as int) =~= v);
        while i < self.bindings.len()
            invariant
                0 <= i <= self.bindings@.len(),
                v == self@.bindings,
                v.len() == self.bindings@.len(),
                lookup_binding(v, *owner) == lookup_binding(v.subrange(i as int, v.len() as int), *owner),
            decreases self.bindings@.len() - i,
        {
            if self.bindings[i].owner.same_as(owner) {
                return Some(i);
            }
            proof {
                lemma_lookup_binding_step(v, *owner, i as int);
            }
            i = i + 1;
        }
        None
    }
}

/// Sets up the registry in `slot` with `ctx.admin` as admin and no bindings.
pub fn initialize_binding_registry(
    slot: &mut Option<BindingRegistry>,
    ctx: &InitializeBindingRegistry,
    allowed_nft_mint: Address,
) -> (r: Result<(), CustomError>)
    ensures
        old(slot).is_some() ==> r == Err::<(), CustomError>(CustomError::AlreadyInitialized)
            && *final(slot) == *old(slot),
        old(slot).is_none() ==> r is Ok && final(slot).is_some()
            && final(slot).unwrap()@ == initial_state(ctx.admin, allowed_nft_mint),
{
    if slot.is_some() {
        return Err(CustomError::AlreadyInitialized);
    }
    let registry = BindingRegistry {
        bindings: Vec::new(),
        admin: ctx.admin,
        allowed_nft_mint,
    };
    assert(registry@.bindings =~= Seq::<BindingRecord>::empty());
    *slot = Some(registry);
    Ok(())
}

/// Binds `wechat_id` to `ctx.user`, who must hold the allowed asset and have no binding yet.
pub fn bind_wechat_id(registry: &mut BindingRegistry, ctx: &BindWechatId, wechat_id: String) -> (r: Result<(), CustomError>)
    ensures
        match bind_spec(old(registry)@, ctx.user, wechat_id@, ctx.token_account, ctx.now) {
            Ok(s) => r is Ok && final(registry)@ == s,
            Err(e) => r == Err::<(), CustomError>(e) && *final(registry) == *old(registry),
        },
        old(registry)@.wf() ==> final(registry)@.wf(),
{
    if !verify_ownership(&ctx.user, &registry.allowed_nft_mint, &ctx.token_account) {
        return Err(CustomError::NotAssetHolder);
    }
    if wechat_id.as_str().as_bytes().len() > MAX_IDENTITY_LEN {
        return Err(CustomError::IdentityTooLong);
    }
    if registry.find_binding(&ctx.user).is_some() {
        return Err(CustomError::DuplicateBinding);
    }
    let ghost before = registry@.bindings;
    let account = BindingAccount {
        owner: ctx.user,
        wechat_id,
        timestamp: ctx.now,
        nft_mint: ctx.token_account.asset,
    };
    registry.bindings.push(account);
    assert(registry@.bindings =~= before.push(account@));
    proof {
        lemma_lookup_binding_none(before, ctx.user);
    }
    Ok(())
}

/// Compares `wechat_id` with the identity bound to `ctx.owner`.
pub fn query_binding(registry: &BindingRegistry, ctx: &QueryBinding, wechat_id: String) -> (r: Result<VerificationStatus, CustomError>)
    ensures
        r == query_spec(registry@, ctx.owner, wechat_id@),
{
    match registry.find_binding(&ctx.owner) {
        None => Err(CustomError::BindingNotFound),
        Some(i) => {
            if registry.bindings[i].wechat_id == wechat_id {
                Ok(VerificationStatus::Verified)
            } else {
                Ok(VerificationStatus::NotVerified)
            }
        },
    }
}

/// Makes `new_allowed_nft` the asset that qualifies for new bindings; admin only.
pub fn update_allowed_nft(registry: &mut BindingRegistry, ctx: &UpdateAllowedNft, new_allowed_nft: Address) -> (r: Result<(), CustomError>)
    ensures
        match set_allowed_spec(old(registry)@, ctx.admin, new_allowed_nft) {
            Ok(s) => r is Ok && final(registry)@ == s,
            Err(e) => r == Err::<(), CustomError>(e) && *final(registry) == *old(registry),
        },
{
    if !ctx.admin.same_as(&registry.admin) {
        return Err(CustomError::Unauthorized);
    }
    registry.allowed_nft_mint = new_allowed_nft;
    Ok(())
}

/// Drops every binding whose owner has no proof in `ctx.proofs` that still backs it,
/// keeping the others in order; admin only. Returns how many were dropped.
pub fn global_check(registry: &mut BindingRegistry, ctx: &GlobalCheck) -> (r: Result<usize, CustomError>)
    ensures
        match compact_spec(old(registry)@, ctx.admin, ctx.proofs@) {
            Ok((s, n)) => r == Ok::<usize, CustomError>(n as usize) && final(registry)@ == s,
            Err(e) => r == Err::<usize, CustomError>(e) && *final(registry) == *old(registry),
        },
        old(registry)@.wf() ==> final(registry)@.wf(),
{
    if !ctx.admin.same_as(&registry.admin) {
        return Err(CustomError::Unauthorized);
    }
    let ghost v = registry@.bindings;
    let ghost pred = backed_pred(registry.allowed_nft_mint, ctx.proofs@);
    let mut kept: Vec<BindingAccount> = Vec::new();
    let mut i: usize = 0;
    assert(v.take(0) =~= Seq::<BindingRecord>::empty());
    assert(kept@.map_values(|b: BindingAccount| b@) =~= v.take(0).filter(pred)) by {
        reveal(Seq::filter);
    }
    while i < registry.bindings.len()
        invariant
            0 <= i <= registry.bindings@.len(),
            v == registry@.bindings,
            v.len() == registry.bindings@.len(),
            pred == backed_pred(registry.allowed_nft_mint, ctx.proofs@),
            kept@.map_values(|b: BindingAccount| b@) == v.take(i as int).filter(pred),
        decreases registry.bindings@.len() - i,
    {
        let b = &registry.bindings[i];
        let keep = match find_proof(&ctx.proofs, &b.owner) {
            Some(p) => verify_ownership(&b.owner, &registry.allowed_nft_mint, &p),
            None => false,
        };
        proof {
            assert(v.take(i + 1) =~= v.take(i as int).push(v[i as int]));
            v.take(i as int).lemma_filter_push(v[i as int], pred);
        }
        if keep {
            let ghost prev = kept@.map_values(|b: BindingAccount| b@);
            kept.push(b.duplicate());
            assert(kept@.map_values(|b: BindingAccount| b@) =~= prev.push(v[i as int]));
        }
        i = i + 1;
    }
    assert(v.take(v.len() as int) =~= v);
    proof {
        if registry@.wf() {
            lemma_compact_preserves_uniqueness(registry@, ctx.admin, ctx.proofs@);
        }
    }
    let removed = registry.bindings.len() - kept.len();
    registry.bindings = kept;
    Ok(removed)
}

} // verus!
