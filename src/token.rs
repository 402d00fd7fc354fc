use vstd::prelude::*;
use spl_token::solana_program::program_pack::Pack;
use crate::address::Address;
use crate::ownership::HoldingProof;
use crate::registry::{BindingRegistry, CustomError, GlobalCheck, compact_spec, global_check};

verus! {

broadcast use vstd::array::group_array_axioms;

/// Length in bytes of a token account's data.
pub const TOKEN_ACCOUNT_LEN: usize = 165;

/// The four bytes at `at` tag an optional field: 0 for absent, 1 for present.
pub open spec fn option_tag_valid(d: Seq<u8>, at: int) -> bool {
    &&& d[at] == 0 || d[at] == 1
    &&& d[at + 1] == 0
    &&& d[at + 2] == 0
    &&& d[at + 3] == 0
}

/// Token account data that reads as an initialized (or frozen) account:
/// the right length, valid optional-field tags, and a state byte of 1 or 2.
pub open spec fn token_account_valid(d: Seq<u8>) -> bool {
    &&& d.len() == TOKEN_ACCOUNT_LEN
    &&& option_tag_valid(d, 72)
    &&& d[108] == 1 || d[108] == 2
    &&& option_tag_valid(d, 109)
    &&& option_tag_valid(d, 129)
}

/// Eight bytes read as a little-endian unsigned integer.
pub open spec fn le_u64(b: Seq<u8>) -> int {
    b[0] as int + 0x100 * b[1] + 0x1_0000 * b[2] + 0x100_0000 * b[3] + 0x1_0000_0000 * b[4]
        + 0x100_0000_0000 * b[5] + 0x1_0000_0000_0000 * b[6] + 0x100_0000_0000_0000 * b[7]
}

/// The address whose bytes are `b`.
pub open spec fn address_of(b: Seq<u8>) -> Address {
    choose|a: Address| a.bytes@ == b
}

/// The holding that valid token account data shows: its mint (bytes 0..32),
/// its owner (32..64) and its amount (64..72).
pub open spec fn holding_of(d: Seq<u8>) -> HoldingProof {
    HoldingProof {
        owner: address_of(d.subrange(32, 64)),
        asset: address_of(d.subrange(0, 32)),
        quantity: le_u64(d.subrange(64, 72)) as u64,
    }
}

/// The proofs that a batch of token accounts keyed by address yields, in order;
/// data that does not read as a token account yields none.
pub open spec fn decoded_batch(accounts: Seq<(Address, Vec<u8>)>) -> Seq<(Address, HoldingProof)>
    decreases accounts.len(),
{
    if accounts.len() == 0 {
        Seq::empty()
    } else {
        let rest = decoded_batch(accounts.drop_last());
        let (key, data) = accounts.last();
        if token_account_valid(data@) {
            rest.push((key, holding_of(data@)))
        } else {
            rest
        }
    }
}

/// Relies on spl_token's `Account::unpack` (through `Pack::unpack`): it succeeds
/// exactly on 165 bytes with valid option tags and an initialized or frozen
/// state, and then reads the mint, owner and amount from the first 72 bytes.
#[verifier::external_body]
fn unpack_token_account(data: &[u8]) -> (r: Option<HoldingProof>)
    ensures
        r is Some <==> token_account_valid(data@),
        r is Some ==> r->Some_0.asset.bytes@ == data@.subrange(0, 32)
            && r->Some_0.owner.bytes@ == data@.subrange(32, 64)
            && r->Some_0.quantity as int == le_u64(data@.subrange(64, 72)),
{
    match spl_token::state::Account::unpack(data) {
        Ok(a) => Some(HoldingProof {
            owner: Address { bytes: a.owner.to_bytes() },
            asset: Address { bytes: a.mint.to_bytes() },
            quantity: a.amount,
        }),
        Err(_) => None,
    }
}

proof fn lemma_address_of(a: Address)
    ensures
        address_of(a.bytes@) == a,
{
    let b = address_of(a.bytes@);
    assert(b.bytes@ == a.bytes@);
    assert(b.bytes =~= a.bytes) by {
        assert forall|i: int| 0 <= i < 32 implies b.bytes[i] == a.bytes[i] by {
            assert(b.bytes@[i] == a.bytes@[i]);
        }
    }
}

/// Reads token account data as a proof of holding, if it is a valid token account.
pub fn decode_token_account(data: &Vec<u8>) -> (r: Option<HoldingProof>)
    ensures
        r == if token_account_valid(data@) { Some(holding_of(data@)) } else { None },
{
    let r = unpack_token_account(data.as_slice());
    proof {
        if let Some(p) = r {
            lemma_address_of(p.asset);
            lemma_address_of(p.owner);
        }
    }
    r
}

/// Reads each keyed token account as a proof of holding, in order, skipping
/// data that is not a valid token account.
pub fn decode_token_accounts(accounts: &Vec<(Address, Vec<u8>)>) -> (r: Vec<(Address, HoldingProof)>)
    ensures
        r@ == decoded_batch(accounts@),
{
    let mut out: Vec<(Address, HoldingProof)> = Vec::new();
    let mut i: usize = 0;
    assert(accounts@.take(0) =~= Seq::<(Address, Vec<u8>)>::empty());
    while i < accounts.len()
        invariant
            0 <= i <= accounts@.len(),
            out@ == decoded_batch(accounts@.take(i as int)),
        decreases accounts@.len() - i,
    {
        assert(accounts@.take(i + 1).drop_last() =~= accounts@.take(i as int));
        match decode_token_account(&accounts[i].1) {
            Some(p) => out.push((accounts[i].0, p)),
            None => {},
        }
        i = i + 1;
    }
    assert(accounts@.take(accounts@.len() as int) =~= accounts@);
    out
}

/// Compaction against raw token accounts keyed by address: each is read as a
/// proof of holding, and the bindings are compacted against what was read.
pub fn global_check_accounts(
    registry: &mut BindingRegistry,
    admin: Address,
    accounts: &Vec<(Address, Vec<u8>)>,
) -> (r: Result<usize, CustomError>)
    ensures
        match compact_spec(old(registry)@, admin, decoded_batch(accounts@)) {
            Ok((s, n)) => r == Ok::<usize, CustomError>(n as usize) && final(registry)@ == s,
            Err(e) => r == Err::<usize, CustomError>(e) && *final(registry) == *old(registry),
        },
        old(registry)@.wf() ==> final(registry)@.wf(),
{
    let ctx = GlobalCheck { admin, proofs: decode_token_accounts(accounts) };
    global_check(registry, &ctx)
}

} // verus!
