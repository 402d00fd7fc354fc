use nft_wechat_binding::address::Address;
use nft_wechat_binding::ownership::HoldingProof;
use nft_wechat_binding::registry::{
    bind_wechat_id, initialize_binding_registry, BindWechatId, BindingRegistry, CustomError,
    InitializeBindingRegistry,
};
use nft_wechat_binding::token::{decode_token_account, decode_token_accounts, global_check_accounts};

fn addr(n: u8) -> Address {
    Address::new([n; 32])
}

fn token_data(mint: u8, owner: u8, amount: u64, state: u8) -> Vec<u8> {
    let mut d = vec![0u8; 165];
    d[0..32].copy_from_slice(&[mint; 32]);
    d[32..64].copy_from_slice(&[owner; 32]);
    d[64..72].copy_from_slice(&amount.to_le_bytes());
    d[108] = state;
    d
}

#[test]
fn decodes_mint_owner_and_amount() {
    let p = decode_token_account(&token_data(50, 1, 0x0102_0304_0506_0708, 1)).unwrap();
    assert_eq!(p.asset, addr(50));
    assert_eq!(p.owner, addr(1));
    assert_eq!(p.quantity, 0x0102_0304_0506_0708);
}

#[test]
fn decodes_frozen_account() {
    let p = decode_token_account(&token_data(50, 1, 3, 2)).unwrap();
    assert_eq!(p.quantity, 3);
}

#[test]
fn rejects_uninitialized_bad_state_and_bad_length() {
    assert!(decode_token_account(&token_data(50, 1, 3, 0)).is_none());
    assert!(decode_token_account(&token_data(50, 1, 3, 3)).is_none());
    let mut short = token_data(50, 1, 3, 1);
    short.pop();
    assert!(decode_token_account(&short).is_none());
    let mut bad_tag = token_data(50, 1, 3, 1);
    bad_tag[72] = 2;
    assert!(decode_token_account(&bad_tag).is_none());
}

#[test]
fn decoding_a_batch_skips_unreadable_entries() {
    let accounts = vec![
        (addr(1), token_data(50, 1, 1, 1)),
        (addr(2), vec![1, 2, 3]),
        (addr(3), token_data(50, 3, 4, 1)),
    ];
    let out = decode_token_accounts(&accounts);
    assert_eq!(out.len(), 2);
    assert_eq!(out[0].0, addr(1));
    assert_eq!(out[1].0, addr(3));
    assert_eq!(out[1].1.quantity, 4);
}

#[test]
fn compaction_against_token_accounts() {
    let mut slot: Option<BindingRegistry> = None;
    assert_eq!(initialize_binding_registry(&mut slot, &InitializeBindingRegistry { admin: addr(9) }, addr(50)), Ok(()));
    let mut reg = slot.unwrap();
    for u in 1..=3u8 {
        let ctx = BindWechatId {
            user: addr(u),
            token_account: HoldingProof { owner: addr(u), asset: addr(50), quantity: 1 },
            now: 5,
        };
        assert_eq!(bind_wechat_id(&mut reg, &ctx, format!("id{}", u)), Ok(()));
    }
    let accounts = vec![
        (addr(1), token_data(50, 1, 1, 1)),
        (addr(2), token_data(50, 2, 0, 1)),
        (addr(3), token_data(50, 3, 1, 0)),
    ];
    assert_eq!(global_check_accounts(&mut reg, addr(8), &accounts), Err(CustomError::Unauthorized));
    assert_eq!(reg.bindings.len(), 3);
    assert_eq!(global_check_accounts(&mut reg, addr(9), &accounts), Ok(2));
    assert_eq!(reg.bindings.len(), 1);
    assert_eq!(reg.bindings[0].owner, addr(1));
}
