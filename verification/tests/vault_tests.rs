use std::collections::HashMap;
use callora_vault::address::Address;
use callora_vault::types::{DeductItem, Effect, VaultError, VaultEvent, DEFAULT_MAX_DEDUCT};
use callora_vault::vault::CalloraVault;

const OWNER: &[u8] = b"GOWNERAAAAAAAAAAAAAAAAAAAAAAAAAAAAAAAAAAAAAAAAAAAAAAAAAA";
const USDC: &[u8] = b"CUSDCAAAAAAAAAAAAAAAAAAAAAAAAAAAAAAAAAAAAAAAAAAAAAAAAAAA";
const POOL: &[u8] = b"CPOOLAAAAAAAAAAAAAAAAAAAAAAAAAAAAAAAAAAAAAAAAAAAAAAAAAAA";
const BACKEND: &[u8] = b"GBACKENDAAAAAAAAAAAAAAAAAAAAAAAAAAAAAAAAAAAAAAAAAAAAAAAA";
const STRANGER: &[u8] = b"GSTRANGERAAAAAAAAAAAAAAAAAAAAAAAAAAAAAAAAAAAAAAAAAAAAAAA";
const SETTLE: &[u8] = b"CSETTLEAAAAAAAAAAAAAAAAAAAAAAAAAAAAAAAAAAAAAAAAAAAAAAAAA";

fn addr(b: &[u8]) -> Address {
    Address::from_strkey(b.to_vec())
}

fn vault_with(balance: i128, min: Option<i128>, pool: Option<&[u8]>, max: Option<i128>) -> CalloraVault {
    let mut v = CalloraVault::new();
    v.init(addr(OWNER), addr(USDC), Some(balance), min, pool.map(addr), max).unwrap();
    v
}

fn item(amount: i128, rid: Option<&[u8]>) -> DeductItem {
    DeductItem { amount, request_id: rid.map(|r| r.to_vec()) }
}

fn deduct_event(caller: &[u8], rid: &[u8], amount: i128, new_balance: i128) -> Effect {
    Effect::Emit(VaultEvent::Deduct { caller: addr(caller), request_id: rid.to_vec(), amount, new_balance })
}

#[test]
fn init_uses_defaults() {
    let mut v = CalloraVault::new();
    let (meta, effects) = v.init(addr(OWNER), addr(USDC), None, None, None, None).unwrap();
    assert_eq!(meta.owner, addr(OWNER));
    assert_eq!(meta.balance, 0);
    assert_eq!(meta.min_deposit, 0);
    assert_eq!(effects, vec![Effect::Emit(VaultEvent::Init { owner: addr(OWNER), balance: 0 })]);
    assert_eq!(v.get_max_deduct(), DEFAULT_MAX_DEDUCT);
    assert_eq!(DEFAULT_MAX_DEDUCT, i128::MAX);
    assert_eq!(v.get_admin().unwrap(), addr(OWNER));
    assert_eq!(v.balance(), Ok(0));
    assert_eq!(v.revenue_pool, None);
}

#[test]
fn init_stores_given_values() {
    let mut v = CalloraVault::new();
    let (meta, effects) = v.init(addr(OWNER), addr(USDC), Some(500), Some(10), Some(addr(POOL)), Some(100)).unwrap();
    assert_eq!(meta.balance, 500);
    assert_eq!(meta.min_deposit, 10);
    assert_eq!(effects, vec![Effect::Emit(VaultEvent::Init { owner: addr(OWNER), balance: 500 })]);
    assert_eq!(v.get_max_deduct(), 100);
    assert_eq!(v.revenue_pool, Some(addr(POOL)));
    assert_eq!(v.usdc, Some(addr(USDC)));
}

#[test]
fn init_twice_is_refused() {
    let mut v = vault_with(5, None, None, None);
    let r = v.init(addr(STRANGER), addr(USDC), Some(9), None, None, None);
    assert_eq!(r.err(), Some(VaultError::AlreadyInitialized));
    assert_eq!(v.get_meta().unwrap().owner, addr(OWNER));
    assert_eq!(v.balance(), Ok(5));
}

#[test]
fn init_negative_balance_is_refused() {
    let mut v = CalloraVault::new();
    let r = v.init(addr(OWNER), addr(USDC), Some(-1), None, None, None);
    assert_eq!(r.err(), Some(VaultError::NegativeInitialBalance));
    assert!(v.meta.is_none());
}

#[test]
fn uninitialized_vault_refuses_reads_and_calls() {
    let mut v = CalloraVault::new();
    assert_eq!(v.get_admin().err(), Some(VaultError::NotInitialized));
    assert_eq!(v.get_meta().err(), Some(VaultError::NotInitialized));
    assert_eq!(v.balance(), Err(VaultError::NotInitialized));
    assert_eq!(v.is_authorized_depositor(&addr(OWNER)), Err(VaultError::NotInitialized));
    assert_eq!(v.deposit(&addr(OWNER), 5).err(), Some(VaultError::NotInitialized));
    assert_eq!(v.withdraw(5).err(), Some(VaultError::NotInitialized));
    assert_eq!(v.transfer_ownership(addr(STRANGER)).err(), Some(VaultError::NotInitialized));
    assert_eq!(v.set_admin(&addr(OWNER), addr(STRANGER)), Err(VaultError::NotInitialized));
    assert_eq!(v.get_max_deduct(), DEFAULT_MAX_DEDUCT);
    // The amount check of deduct comes before the storage is read.
    assert_eq!(v.deduct(&addr(OWNER), 0, None).err(), Some(VaultError::AmountNotPositive));
    assert_eq!(v.deduct(&addr(OWNER), 5, None).err(), Some(VaultError::NotInitialized));
    assert_eq!(v.batch_deduct(&addr(OWNER), &vec![]).err(), Some(VaultError::NotInitialized));
}

#[test]
fn admin_rotation() {
    let mut v = vault_with(0, None, None, None);
    assert_eq!(v.set_admin(&addr(STRANGER), addr(STRANGER)), Err(VaultError::NotAdmin));
    assert_eq!(v.set_admin(&addr(OWNER), addr(BACKEND)), Ok(()));
    assert_eq!(v.get_admin().unwrap(), addr(BACKEND));
    assert_eq!(v.set_admin(&addr(OWNER), addr(OWNER)), Err(VaultError::NotAdmin));
    assert_eq!(v.set_settlement(&addr(OWNER), addr(SETTLE)), Err(VaultError::NotAdmin));
    assert_eq!(v.set_settlement(&addr(BACKEND), addr(SETTLE)), Ok(()));
}

#[test]
fn settlement_roundtrip() {
    let mut v = vault_with(0, None, None, None);
    assert_eq!(v.get_settlement().err(), Some(VaultError::SettlementNotSet));
    assert_eq!(v.set_settlement(&addr(STRANGER), addr(SETTLE)), Err(VaultError::NotAdmin));
    assert_eq!(v.get_settlement().err(), Some(VaultError::SettlementNotSet));
    v.set_settlement(&addr(OWNER), addr(SETTLE)).unwrap();
    assert_eq!(v.get_settlement().unwrap(), addr(SETTLE));
}

#[test]
fn owner_is_always_authorized() {
    let mut v = vault_with(0, None, None, None);
    assert_eq!(v.is_authorized_depositor(&addr(OWNER)), Ok(true));
    assert_eq!(v.is_authorized_depositor(&addr(BACKEND)), Ok(false));
    v.set_allowed_depositor(&addr(OWNER), None).unwrap();
    assert_eq!(v.is_authorized_depositor(&addr(OWNER)), Ok(true));
}

#[test]
fn allowed_depositor_add_is_idempotent() {
    let mut v = vault_with(0, None, None, None);
    v.set_allowed_depositor(&addr(OWNER), Some(addr(BACKEND))).unwrap();
    v.set_allowed_depositor(&addr(OWNER), Some(addr(BACKEND))).unwrap();
    assert_eq!(v.allowed.as_ref().unwrap().len(), 1);
    assert_eq!(v.is_authorized_depositor(&addr(BACKEND)), Ok(true));
    v.set_allowed_depositor(&addr(OWNER), Some(addr(STRANGER))).unwrap();
    assert_eq!(v.allowed, Some(vec![addr(BACKEND), addr(STRANGER)]));
}

#[test]
fn revoking_leaves_only_the_owner() {
    let mut v = vault_with(0, None, None, None);
    v.set_allowed_depositor(&addr(OWNER), Some(addr(BACKEND))).unwrap();
    v.set_allowed_depositor(&addr(OWNER), None).unwrap();
    assert_eq!(v.allowed, None);
    assert_eq!(v.is_authorized_depositor(&addr(BACKEND)), Ok(false));
    assert_eq!(v.deposit(&addr(BACKEND), 5).err(), Some(VaultError::NotAuthorizedDepositor));
}

#[test]
fn only_owner_manages_depositors() {
    let mut v = vault_with(0, None, None, None);
    assert_eq!(v.set_allowed_depositor(&addr(BACKEND), Some(addr(BACKEND))), Err(VaultError::NotOwner));
    assert_eq!(v.allowed, None);
}

#[test]
fn deposit_by_owner_and_depositor() {
    let mut v = vault_with(100, Some(10), None, None);
    let (b, effects) = v.deposit(&addr(OWNER), 50).unwrap();
    assert_eq!(b, 150);
    assert_eq!(
        effects,
        vec![
            Effect::TransferFrom { token: addr(USDC), from: addr(OWNER), amount: 50 },
            Effect::Emit(VaultEvent::Deposit { caller: addr(OWNER), amount: 50, new_balance: 150 }),
        ]
    );
    v.set_allowed_depositor(&addr(OWNER), Some(addr(BACKEND))).unwrap();
    let (b, _) = v.deposit(&addr(BACKEND), 10).unwrap();
    assert_eq!(b, 160);
    assert_eq!(v.balance(), Ok(160));
}

#[test]
fn deposit_refusals() {
    let mut v = vault_with(100, Some(10), None, None);
    assert_eq!(v.deposit(&addr(OWNER), 0).err(), Some(VaultError::AmountNotPositive));
    assert_eq!(v.deposit(&addr(OWNER), -3).err(), Some(VaultError::AmountNotPositive));
    assert_eq!(v.deposit(&addr(STRANGER), 50).err(), Some(VaultError::NotAuthorizedDepositor));
    assert_eq!(v.deposit(&addr(OWNER), 9).err(), Some(VaultError::BelowMinimum));
    assert_eq!(v.balance(), Ok(100));
    let mut full = vault_with(i128::MAX, None, None, None);
    assert_eq!(full.deposit(&addr(OWNER), 1).err(), Some(VaultError::BalanceOverflow));
    assert_eq!(full.balance(), Ok(i128::MAX));
}

#[test]
fn deposit_at_minimum_is_accepted() {
    let mut v = vault_with(0, Some(10), None, None);
    assert_eq!(v.deposit(&addr(OWNER), 10).unwrap().0, 10);
}

#[test]
fn deduct_without_pool() {
    let mut v = vault_with(100, None, None, None);
    let (b, effects) = v.deduct(&addr(BACKEND), 30, Some(b"req1".to_vec())).unwrap();
    assert_eq!(b, 70);
    assert_eq!(effects, vec![deduct_event(BACKEND, b"req1", 30, 70)]);
    let (b, effects) = v.deduct(&addr(BACKEND), 70, None).unwrap();
    assert_eq!(b, 0);
    assert_eq!(effects, vec![deduct_event(BACKEND, b"", 70, 0)]);
}

#[test]
fn deduct_with_pool_transfers_amount() {
    let mut v = vault_with(100, None, Some(POOL), None);
    let (b, effects) = v.deduct(&addr(BACKEND), 40, None).unwrap();
    assert_eq!(b, 60);
    assert_eq!(
        effects,
        vec![
            Effect::Transfer { token: addr(USDC), to: addr(POOL), amount: 40 },
            deduct_event(BACKEND, b"", 40, 60),
        ]
    );
}

#[test]
fn deduct_refusals() {
    let mut v = vault_with(100, None, None, Some(50));
    assert_eq!(v.deduct(&addr(OWNER), 0, None).err(), Some(VaultError::AmountNotPositive));
    assert_eq!(v.deduct(&addr(OWNER), 51, None).err(), Some(VaultError::ExceedsMaxDeduct));
    assert_eq!(v.deduct(&addr(OWNER), 50, None).unwrap().0, 50);
    assert_eq!(v.deduct(&addr(OWNER), 50, None).unwrap().0, 0);
    assert_eq!(v.deduct(&addr(OWNER), 1, None).err(), Some(VaultError::InsufficientBalance));
    assert_eq!(v.balance(), Ok(0));
}

#[test]
fn batch_deduct_success() {
    let mut v = vault_with(100, None, Some(POOL), None);
    let items = vec![item(10, Some(b"a")), item(20, None), item(30, Some(b"c"))];
    let (b, effects) = v.batch_deduct(&addr(BACKEND), &items).unwrap();
    assert_eq!(b, 40);
    assert_eq!(
        effects,
        vec![
            deduct_event(BACKEND, b"a", 10, 90),
            deduct_event(BACKEND, b"", 20, 70),
            deduct_event(BACKEND, b"c", 30, 40),
            Effect::Transfer { token: addr(USDC), to: addr(POOL), amount: 60 },
        ]
    );
    assert_eq!(v.balance(), Ok(40));
}

#[test]
fn batch_deduct_is_all_or_nothing() {
    let mut v = vault_with(100, None, None, Some(60));
    let before = v.get_meta().unwrap();
    let cases: Vec<(Vec<DeductItem>, VaultError)> = vec![
        (vec![], VaultError::EmptyBatch),
        (vec![item(10, None), item(0, None)], VaultError::AmountNotPositive),
        (vec![item(10, None), item(-5, None)], VaultError::AmountNotPositive),
        (vec![item(10, None), item(61, None)], VaultError::ExceedsMaxDeduct),
        (vec![item(60, None), item(41, None)], VaultError::InsufficientBalance),
        (vec![item(60, None), item(0, None), item(61, None)], VaultError::AmountNotPositive),
    ];
    for (items, expected) in cases {
        assert_eq!(v.batch_deduct(&addr(OWNER), &items).err(), Some(expected));
        assert_eq!(v.get_meta().unwrap(), before);
    }
    assert_eq!(v.batch_deduct(&addr(OWNER), &vec![item(60, None), item(40, None)]).unwrap().0, 0);
}

#[test]
fn batch_equals_single_deducts() {
    let items = vec![item(5, Some(b"x")), item(15, None), item(25, None)];
    let mut batch = vault_with(80, None, None, None);
    let mut single = vault_with(80, None, None, None);
    let (b, _) = batch.batch_deduct(&addr(OWNER), &items).unwrap();
    let mut last = 0;
    for it in &items {
        last = single.deduct(&addr(OWNER), it.amount, it.request_id.clone()).unwrap().0;
    }
    assert_eq!(b, last);
    assert_eq!(batch.get_meta().unwrap(), single.get_meta().unwrap());
}

#[test]
fn withdraw_and_withdraw_to() {
    let mut v = vault_with(100, None, None, None);
    let (b, effects) = v.withdraw(30).unwrap();
    assert_eq!(b, 70);
    assert_eq!(
        effects,
        vec![
            Effect::Transfer { token: addr(USDC), to: addr(OWNER), amount: 30 },
            Effect::Emit(VaultEvent::Withdraw { owner: addr(OWNER), amount: 30, new_balance: 70 }),
        ]
    );
    let (b, effects) = v.withdraw_to(&addr(BACKEND), 20).unwrap();
    assert_eq!(b, 50);
    assert_eq!(
        effects,
        vec![
            Effect::Transfer { token: addr(USDC), to: addr(BACKEND), amount: 20 },
            Effect::Emit(VaultEvent::WithdrawTo { owner: addr(OWNER), to: addr(BACKEND), amount: 20, new_balance: 50 }),
        ]
    );
    assert_eq!(v.withdraw(0).err(), Some(VaultError::AmountNotPositive));
    assert_eq!(v.withdraw(51).err(), Some(VaultError::InsufficientBalance));
    assert_eq!(v.withdraw_to(&addr(BACKEND), 51).err(), Some(VaultError::InsufficientBalance));
    assert_eq!(v.balance(), Ok(50));
}

#[test]
fn deposit_then_withdraw_restores_balance() {
    let mut v = vault_with(42, None, None, None);
    v.deposit(&addr(OWNER), 58).unwrap();
    assert_eq!(v.withdraw(58).unwrap().0, 42);
    assert_eq!(v.balance(), Ok(42));
}

#[test]
fn ownership_transfer() {
    let mut v = vault_with(10, None, None, None);
    assert_eq!(v.transfer_ownership(addr(OWNER)).err(), Some(VaultError::SameOwner));
    let effects = v.transfer_ownership(addr(BACKEND)).unwrap();
    assert_eq!(
        effects,
        vec![Effect::Emit(VaultEvent::TransferOwnership { old_owner: addr(OWNER), new_owner: addr(BACKEND) })]
    );
    assert_eq!(v.get_meta().unwrap().owner, addr(BACKEND));
    assert_eq!(v.balance(), Ok(10));
    assert_eq!(v.set_allowed_depositor(&addr(OWNER), None), Err(VaultError::NotOwner));
    assert_eq!(v.set_allowed_depositor(&addr(BACKEND), None), Ok(()));
    assert_eq!(v.is_authorized_depositor(&addr(OWNER)), Ok(false));
    // The admin role is separate from ownership.
    assert_eq!(v.get_admin().unwrap(), addr(OWNER));
}

#[test]
fn distribute_checks_and_effects() {
    let v = vault_with(0, None, None, None);
    assert_eq!(v.distribute_token(&addr(STRANGER), 5).err(), Some(VaultError::NotAdmin));
    assert_eq!(v.distribute_token(&addr(OWNER), 0).err(), Some(VaultError::AmountNotPositive));
    assert_eq!(v.distribute_token(&addr(OWNER), 5).unwrap(), addr(USDC));
    assert_eq!(v.distribute(&addr(OWNER), &addr(BACKEND), 5, 4).err(), Some(VaultError::InsufficientUsdcBalance));
    assert_eq!(
        v.distribute(&addr(OWNER), &addr(BACKEND), 5, 5).unwrap(),
        vec![
            Effect::Transfer { token: addr(USDC), to: addr(BACKEND), amount: 5 },
            Effect::Emit(VaultEvent::Distribute { to: addr(BACKEND), amount: 5 }),
        ]
    );
    assert_eq!(v.balance(), Ok(0));
}

#[test]
fn metadata_set_and_update() {
    let v = vault_with(0, None, None, None);
    assert_eq!(v.set_metadata(&addr(STRANGER), b"off1".to_vec(), b"ipfs://a".to_vec()).err(), Some(VaultError::NotOwner));
    let (m, effects) = v.set_metadata(&addr(OWNER), b"off1".to_vec(), b"ipfs://a".to_vec()).unwrap();
    assert_eq!(m, b"ipfs://a".to_vec());
    assert_eq!(
        effects,
        vec![
            Effect::StoreMetadata { offering_id: b"off1".to_vec(), metadata: b"ipfs://a".to_vec() },
            Effect::Emit(VaultEvent::MetadataSet {
                offering_id: b"off1".to_vec(),
                caller: addr(OWNER),
                metadata: b"ipfs://a".to_vec(),
            }),
        ]
    );
    let (m, effects) = v
        .update_metadata(&addr(OWNER), b"off1".to_vec(), b"ipfs://b".to_vec(), Some(b"ipfs://a".to_vec()))
        .unwrap();
    assert_eq!(m, b"ipfs://b".to_vec());
    assert_eq!(
        effects[1],
        Effect::Emit(VaultEvent::MetadataUpdated {
            offering_id: b"off1".to_vec(),
            caller: addr(OWNER),
            old_metadata: b"ipfs://a".to_vec(),
            new_metadata: b"ipfs://b".to_vec(),
        })
    );
    let (_, effects) = v.update_metadata(&addr(OWNER), b"off2".to_vec(), b"x".to_vec(), None).unwrap();
    assert_eq!(
        effects[1],
        Effect::Emit(VaultEvent::MetadataUpdated {
            offering_id: b"off2".to_vec(),
            caller: addr(OWNER),
            old_metadata: vec![],
            new_metadata: b"x".to_vec(),
        })
    );
    assert_eq!(
        v.update_metadata(&addr(BACKEND), b"off1".to_vec(), b"x".to_vec(), None).err(),
        Some(VaultError::NotOwner)
    );
}

#[test]
fn address_comparison() {
    assert!(addr(OWNER).same_as(&addr(OWNER)));
    assert!(!addr(OWNER).same_as(&addr(BACKEND)));
    assert!(!addr(b"GA").same_as(&addr(b"GAB")));
    assert_eq!(addr(POOL).duplicate(), addr(POOL));
}

fn events_only(effects: &[Effect]) -> Vec<Effect> {
    effects.iter().filter(|e| matches!(e, Effect::Emit(_))).cloned().collect()
}

fn transferred(effects: &[Effect]) -> i128 {
    effects
        .iter()
        .map(|e| match e {
            Effect::Transfer { amount, .. } => *amount,
            _ => 0,
        })
        .sum()
}

#[test]
fn batch_matches_single_deducts_in_events_and_pool_total() {
    let items = vec![item(7, Some(b"r1")), item(8, None), item(9, Some(b"r3"))];
    let mut batch = vault_with(50, None, Some(POOL), None);
    let mut single = vault_with(50, None, Some(POOL), None);
    let (b, batch_effects) = batch.batch_deduct(&addr(BACKEND), &items).unwrap();
    let mut single_effects = Vec::new();
    let mut last = 0;
    for it in &items {
        let (r, e) = single.deduct(&addr(BACKEND), it.amount, it.request_id.clone()).unwrap();
        last = r;
        single_effects.extend(e);
    }
    assert_eq!(b, last);
    assert_eq!(b, 26);
    assert_eq!(events_only(&batch_effects), events_only(&single_effects));
    assert_eq!(transferred(&batch_effects), 24);
    assert_eq!(transferred(&single_effects), 24);
    assert_eq!(batch.get_meta().unwrap(), single.get_meta().unwrap());
}

#[test]
fn deposit_event_carries_new_balance() {
    let mut v = vault_with(5, None, None, None);
    let (b, effects) = v.deposit(&addr(OWNER), 7).unwrap();
    assert_eq!(b, 12);
    assert_eq!(effects[1], Effect::Emit(VaultEvent::Deposit { caller: addr(OWNER), amount: 7, new_balance: 12 }));
}

#[test]
fn metadata_effects_store_what_is_read_back() {
    let v = vault_with(0, None, None, None);
    let mut store: HashMap<Vec<u8>, Vec<u8>> = HashMap::new();
    store.insert(b"other".to_vec(), b"keep".to_vec());
    let apply = |store: &mut HashMap<Vec<u8>, Vec<u8>>, effects: Vec<Effect>| {
        for e in effects {
            if let Effect::StoreMetadata { offering_id, metadata } = e {
                store.insert(offering_id, metadata);
            }
        }
    };
    let (_, effects) = v.set_metadata(&addr(OWNER), b"off".to_vec(), b"v1".to_vec()).unwrap();
    apply(&mut store, effects);
    assert_eq!(store.get(b"off".as_slice()), Some(&b"v1".to_vec()));
    let current = store.get(b"off".as_slice()).cloned();
    let (_, effects) = v.update_metadata(&addr(OWNER), b"off".to_vec(), b"v2".to_vec(), current).unwrap();
    apply(&mut store, effects);
    assert_eq!(store.get(b"off".as_slice()), Some(&b"v2".to_vec()));
    assert_eq!(store.get(b"other".as_slice()), Some(&b"keep".to_vec()));
}

#[test]
fn balance_stays_non_negative_over_a_call_sequence() {
    let mut v = CalloraVault::new();
    v.init(addr(OWNER), addr(USDC), Some(3), None, Some(addr(POOL)), Some(10)).unwrap();
    let _ = v.deduct(&addr(BACKEND), 4, None);
    let _ = v.withdraw(3);
    let _ = v.batch_deduct(&addr(BACKEND), &vec![item(1, None)]);
    let _ = v.deposit(&addr(OWNER), 20);
    let _ = v.batch_deduct(&addr(BACKEND), &vec![item(10, None), item(10, None), item(1, None)]);
    let _ = v.withdraw_to(&addr(BACKEND), 25);
    let b = v.balance().unwrap();
    assert_eq!(b, 20);
    assert!(b >= 0);
    assert_eq!(v.get_meta().unwrap().balance, b);
}
