use ft_ledger::contract::{
    AccountClosure, Contract, NotifyOutcome, Resolution, StorageBalance, STORAGE_BALANCE_MIN,
};
use ft_ledger::error::Error;
use ft_ledger::metadata::Metadata;

const TOTAL_SUPPLY: u128 = 1_000_000_000_000_000;

fn owner() -> String {
    "owner".to_string()
}

fn bob() -> String {
    "bob".to_string()
}

fn ledger_with(total: u128) -> Contract {
    Contract::new_default_meta(owner(), total)
}

#[test]
fn test_new() {
    let contract = Contract::new_default_meta(bob(), TOTAL_SUPPLY);
    assert_eq!(contract.ft_total_supply(), TOTAL_SUPPLY);
    assert_eq!(contract.ft_balance_of(&bob()), TOTAL_SUPPLY);
}

#[test]
fn initialize_issues_whole_supply_to_owner() {
    let c = ledger_with(1_000_000);
    assert_eq!(c.ft_total_supply(), 1_000_000);
    assert_eq!(c.ft_balance_of(&owner()), 1_000_000);
    assert_eq!(c.ft_balance_of(&bob()), 0);
}

#[test]
fn metadata_is_the_default_record() {
    let c = ledger_with(1);
    let m = c.ft_metadata();
    assert_eq!(m.spec_version, "ft-1.0.0");
    assert_eq!(m.name, "D fungible token");
    assert_eq!(m.symbol, "D");
    assert_eq!(m.decimals, 24);
    assert!(m.icon.is_none());
    assert!(m.reference.is_none());
    assert!(m.reference_hash.is_none());
}

#[test]
fn new_rejects_wrong_spec_version() {
    let m = Metadata {
        spec_version: "ft-2.0.0".to_string(),
        name: "x".to_string(),
        symbol: "X".to_string(),
        icon: None,
        reference: None,
        reference_hash: None,
        decimals: 8,
    };
    match Contract::new(owner(), 10, m) {
        Err(e) => assert_eq!(e, Error::InvalidMetadata),
        Ok(_) => panic!("invalid metadata accepted"),
    }
}

#[test]
fn new_rejects_reference_without_hash() {
    let m = Metadata {
        spec_version: "ft-1.0.0".to_string(),
        name: "x".to_string(),
        symbol: "X".to_string(),
        icon: None,
        reference: Some("ipfs://somewhere".to_string()),
        reference_hash: None,
        decimals: 8,
    };
    assert!(Contract::new(owner(), 10, m).is_err());
}

#[test]
fn new_accepts_reference_with_32_byte_hash() {
    let m = Metadata {
        spec_version: "ft-1.0.0".to_string(),
        name: "x".to_string(),
        symbol: "X".to_string(),
        icon: None,
        reference: Some("ipfs://somewhere".to_string()),
        reference_hash: Some(vec![7u8; 32]),
        decimals: 8,
    };
    assert!(Contract::new(owner(), 10, m).is_ok());
}

#[test]
fn transfer_to_unregistered_fails_and_changes_nothing() {
    let mut c = ledger_with(1_000_000);
    let r = c.ft_transfer(&owner(), &bob(), 100, None);
    assert_eq!(r, Err(Error::AccountNotRegistered));
    assert_eq!(c.ft_balance_of(&owner()), 1_000_000);
    assert_eq!(c.ft_total_supply(), 1_000_000);
}

#[test]
fn transfer_after_registration_moves_tokens() {
    let mut c = ledger_with(1_000_000);
    c.storage_deposit(&bob(), STORAGE_BALANCE_MIN, false).unwrap();
    let r = c.ft_transfer(&owner(), &bob(), 100, None);
    assert!(r.is_ok());
    assert_eq!(c.ft_balance_of(&owner()), 999_900);
    assert_eq!(c.ft_balance_of(&bob()), 100);
    assert_eq!(c.ft_total_supply(), 1_000_000);
}

#[test]
fn transfer_to_self_is_refused() {
    let mut c = ledger_with(100);
    assert_eq!(c.ft_transfer(&owner(), &owner(), 10, None), Err(Error::SelfTransfer));
}

#[test]
fn transfer_of_zero_is_refused() {
    let mut c = ledger_with(100);
    c.storage_deposit(&bob(), STORAGE_BALANCE_MIN, false).unwrap();
    assert_eq!(c.ft_transfer(&owner(), &bob(), 0, None), Err(Error::ZeroAmount));
}

#[test]
fn transfer_above_balance_is_refused() {
    let mut c = ledger_with(100);
    c.storage_deposit(&bob(), STORAGE_BALANCE_MIN, false).unwrap();
    assert_eq!(c.ft_transfer(&owner(), &bob(), 101, None), Err(Error::InsufficientBalance));
    assert_eq!(c.ft_balance_of(&owner()), 100);
}

#[test]
fn transfer_keeps_memo_out_of_the_ledger() {
    let mut c = ledger_with(100);
    c.storage_deposit(&bob(), STORAGE_BALANCE_MIN, false).unwrap();
    let r = c.ft_transfer(&owner(), &bob(), 5, Some("rent".to_string()));
    assert!(r.is_ok());
    assert_eq!(c.ft_balance_of(&bob()), 5);
}

#[test]
fn transfer_call_returns_the_continuation_data() {
    let mut c = ledger_with(1_000_000);
    c.storage_deposit(&bob(), STORAGE_BALANCE_MIN, false).unwrap();
    let intent = c
        .ft_transfer_call(&owner(), &bob(), 100, None, "pay".to_string())
        .unwrap();
    assert_eq!(intent.sender, "owner");
    assert_eq!(intent.receiver, "bob");
    assert_eq!(intent.amount, 100);
    assert_eq!(intent.msg, "pay");
    // the transfer is applied optimistically, before resolution
    assert_eq!(c.ft_balance_of(&bob()), 100);
    assert_eq!(c.ft_balance_of(&owner()), 999_900);
}

#[test]
fn resolve_with_partial_unused_refunds_the_rest() {
    let mut c = ledger_with(1_000_000);
    c.storage_deposit(&bob(), STORAGE_BALANCE_MIN, false).unwrap();
    c.ft_transfer_call(&owner(), &bob(), 100, None, String::new()).unwrap();
    let res = c.ft_resolve_transfer(&owner(), &bob(), 100, NotifyOutcome::Unused(60));
    assert_eq!(res, Resolution { used: 40, refunded: 60, burned: 0 });
    assert_eq!(c.ft_balance_of(&bob()), 40);
    assert_eq!(c.ft_balance_of(&owner()), 999_960);
    assert_eq!(c.ft_total_supply(), 1_000_000);
}

#[test]
fn resolve_with_zero_unused_keeps_everything() {
    let mut c = ledger_with(1_000_000);
    c.storage_deposit(&bob(), STORAGE_BALANCE_MIN, false).unwrap();
    c.ft_transfer_call(&owner(), &bob(), 100, None, String::new()).unwrap();
    let res = c.ft_resolve_transfer(&owner(), &bob(), 100, NotifyOutcome::Unused(0));
    assert_eq!(res, Resolution { used: 100, refunded: 0, burned: 0 });
    assert_eq!(c.ft_balance_of(&bob()), 100);
}

#[test]
fn resolve_after_failed_notify_refunds_everything() {
    let mut c = ledger_with(1_000_000);
    c.storage_deposit(&bob(), STORAGE_BALANCE_MIN, false).unwrap();
    c.ft_transfer_call(&owner(), &bob(), 100, None, String::new()).unwrap();
    let res = c.ft_resolve_transfer(&owner(), &bob(), 100, NotifyOutcome::Failed);
    assert_eq!(res, Resolution { used: 0, refunded: 100, burned: 0 });
    assert_eq!(c.ft_balance_of(&bob()), 0);
    assert_eq!(c.ft_balance_of(&owner()), 1_000_000);
}

#[test]
fn resolve_clamps_a_malformed_unused_report() {
    let mut c = ledger_with(1_000_000);
    c.storage_deposit(&bob(), STORAGE_BALANCE_MIN, false).unwrap();
    c.ft_transfer_call(&owner(), &bob(), 100, None, String::new()).unwrap();
    let res = c.ft_resolve_transfer(&owner(), &bob(), 100, NotifyOutcome::Unused(1_000));
    assert_eq!(res, Resolution { used: 0, refunded: 100, burned: 0 });
    assert_eq!(c.ft_balance_of(&bob()), 0);
    assert_eq!(c.ft_balance_of(&owner()), 1_000_000);
}

#[test]
fn resolve_refund_is_limited_to_what_the_receiver_still_holds() {
    let mut c = ledger_with(1_000_000);
    let carol = "carol".to_string();
    c.storage_deposit(&bob(), STORAGE_BALANCE_MIN, false).unwrap();
    c.storage_deposit(&carol, STORAGE_BALANCE_MIN, false).unwrap();
    c.ft_transfer_call(&owner(), &bob(), 100, None, String::new()).unwrap();
    // bob spends 70 before the resolution arrives
    c.ft_transfer(&bob(), &carol, 70, None).unwrap();
    let res = c.ft_resolve_transfer(&owner(), &bob(), 100, NotifyOutcome::Failed);
    assert_eq!(res, Resolution { used: 70, refunded: 30, burned: 0 });
    assert_eq!(c.ft_balance_of(&bob()), 0);
    assert_eq!(c.ft_balance_of(&owner()), 999_930);
    assert_eq!(c.ft_total_supply(), 1_000_000);
}

#[test]
fn resolve_burns_the_refund_when_the_sender_is_gone() {
    let mut c = ledger_with(1_000_000);
    let carol = "carol".to_string();
    c.storage_deposit(&bob(), STORAGE_BALANCE_MIN, false).unwrap();
    c.storage_deposit(&carol, STORAGE_BALANCE_MIN, false).unwrap();
    // carol gets funds, sends some with notification, then closes her account
    c.ft_transfer(&owner(), &carol, 500, None).unwrap();
    c.ft_transfer_call(&carol, &bob(), 100, None, String::new()).unwrap();
    c.ft_transfer(&carol, &owner(), 400, None).unwrap();
    c.storage_unregister(&carol, false).unwrap();
    let res = c.ft_resolve_transfer(&carol, &bob(), 100, NotifyOutcome::Unused(60));
    assert_eq!(res, Resolution { used: 40, refunded: 0, burned: 60 });
    assert_eq!(c.ft_balance_of(&bob()), 40);
    assert_eq!(c.ft_total_supply(), 999_940);
}

#[test]
fn deposit_below_minimum_is_refused() {
    let mut c = ledger_with(100);
    let r = c.storage_deposit(&bob(), STORAGE_BALANCE_MIN - 1, false);
    assert_eq!(r, Err(Error::InsufficientStorageDeposit));
    assert!(c.storage_balance_of(&bob()).is_none());
}

#[test]
fn deposit_registers_and_keeps_the_whole_attachment() {
    let mut c = ledger_with(100);
    let (sb, refund) = c
        .storage_deposit(&bob(), STORAGE_BALANCE_MIN + 777, false)
        .unwrap();
    assert_eq!(refund, 0);
    assert_eq!(sb, StorageBalance { total: STORAGE_BALANCE_MIN + 777, available: 777 });
    assert_eq!(c.ft_balance_of(&bob()), 0);
}

#[test]
fn registration_only_deposit_keeps_the_bond_and_refunds_the_rest() {
    let mut c = ledger_with(100);
    let (sb, refund) = c
        .storage_deposit(&bob(), STORAGE_BALANCE_MIN + 5, true)
        .unwrap();
    assert_eq!(refund, 5);
    assert_eq!(sb, StorageBalance { total: STORAGE_BALANCE_MIN, available: 0 });
}

#[test]
fn deposit_on_registered_account_tops_the_escrow_up() {
    let mut c = ledger_with(100);
    c.storage_deposit(&bob(), STORAGE_BALANCE_MIN, false).unwrap();
    let (sb, refund) = c.storage_deposit(&bob(), 40, false).unwrap();
    assert_eq!(refund, 0);
    assert_eq!(sb, StorageBalance { total: STORAGE_BALANCE_MIN + 40, available: 40 });
}

#[test]
fn registration_only_deposit_on_registered_account_refunds_everything() {
    let mut c = ledger_with(100);
    c.storage_deposit(&bob(), STORAGE_BALANCE_MIN, false).unwrap();
    let (sb, refund) = c.storage_deposit(&bob(), 99, true).unwrap();
    assert_eq!(refund, 99);
    assert_eq!(sb, StorageBalance { total: STORAGE_BALANCE_MIN, available: 0 });
}

#[test]
fn deposit_is_capped_at_the_configured_maximum() {
    let m = Metadata {
        spec_version: "ft-1.0.0".to_string(),
        name: "x".to_string(),
        symbol: "X".to_string(),
        icon: None,
        reference: None,
        reference_hash: None,
        decimals: 0,
    };
    let mut c = Contract::new_with_bounds(owner(), 100, m, 10, Some(15)).unwrap();
    let (sb, refund) = c.storage_deposit(&bob(), 40, false).unwrap();
    assert_eq!(sb, StorageBalance { total: 15, available: 5 });
    assert_eq!(refund, 25);
    // a further deposit cannot pass the cap either
    let (sb2, refund2) = c.storage_deposit(&bob(), 7, false).unwrap();
    assert_eq!(sb2, StorageBalance { total: 15, available: 5 });
    assert_eq!(refund2, 7);
}

#[test]
fn bounds_report_the_configuration() {
    let c = ledger_with(1);
    let b = c.storage_balance_bounds();
    assert_eq!(b.min, STORAGE_BALANCE_MIN);
    assert!(b.max.is_none());
}

#[test]
fn storage_balance_of_reports_the_escrow() {
    let mut c = ledger_with(1);
    assert!(c.storage_balance_of(&bob()).is_none());
    c.storage_deposit(&bob(), STORAGE_BALANCE_MIN + 3, false).unwrap();
    let sb = c.storage_balance_of(&bob()).unwrap();
    assert_eq!(sb, StorageBalance { total: STORAGE_BALANCE_MIN + 3, available: 3 });
}

#[test]
fn withdraw_of_unregistered_account_is_refused() {
    let mut c = ledger_with(1);
    assert_eq!(c.storage_withdraw(&bob(), None), Err(Error::AccountNotRegistered));
}

#[test]
fn withdraw_above_available_is_refused() {
    let mut c = ledger_with(1);
    c.storage_deposit(&bob(), STORAGE_BALANCE_MIN + 10, false).unwrap();
    let r = c.storage_withdraw(&bob(), Some(11));
    assert_eq!(r, Err(Error::InsufficientStorageDeposit));
}

#[test]
fn withdraw_of_named_amount_leaves_the_rest() {
    let mut c = ledger_with(1);
    c.storage_deposit(&bob(), STORAGE_BALANCE_MIN + 10, false).unwrap();
    let (sb, w) = c.storage_withdraw(&bob(), Some(4)).unwrap();
    assert_eq!(w, 4);
    assert_eq!(sb, StorageBalance { total: STORAGE_BALANCE_MIN + 6, available: 6 });
}

#[test]
fn deposit_then_full_withdraw_returns_attached_minus_minimum() {
    let mut c = ledger_with(1);
    let attached = STORAGE_BALANCE_MIN + 777;
    c.storage_deposit(&bob(), attached, false).unwrap();
    let (sb, withdrawn) = c.storage_withdraw(&bob(), None).unwrap();
    assert_eq!(withdrawn, attached - STORAGE_BALANCE_MIN);
    assert_eq!(sb, StorageBalance { total: STORAGE_BALANCE_MIN, available: 0 });
}

#[test]
fn unregister_of_unknown_account_reports_nothing_to_do() {
    let mut c = ledger_with(1);
    assert_eq!(c.storage_unregister(&bob(), false), Ok(None));
}

#[test]
fn unregister_with_balance_needs_force() {
    let mut c = ledger_with(1_000_000);
    c.storage_deposit(&bob(), STORAGE_BALANCE_MIN, false).unwrap();
    c.ft_transfer(&owner(), &bob(), 500, None).unwrap();
    assert_eq!(c.storage_unregister(&bob(), false), Err(Error::NonZeroBalance));
    assert_eq!(c.ft_balance_of(&bob()), 500);
}

#[test]
fn forced_unregister_burns_the_balance_and_refunds_the_escrow() {
    let mut c = ledger_with(1_000_000);
    c.storage_deposit(&bob(), STORAGE_BALANCE_MIN, false).unwrap();
    c.ft_transfer(&owner(), &bob(), 500, None).unwrap();
    let closure = c.storage_unregister(&bob(), true).unwrap().unwrap();
    assert_eq!(
        closure,
        AccountClosure { balance_burned: 500, escrow_refunded: STORAGE_BALANCE_MIN }
    );
    assert_eq!(c.ft_total_supply(), 999_500);
    assert_eq!(c.ft_balance_of(&bob()), 0);
    assert!(c.storage_balance_of(&bob()).is_none());
}

#[test]
fn unregister_of_empty_account_needs_no_force() {
    let mut c = ledger_with(1);
    c.storage_deposit(&bob(), STORAGE_BALANCE_MIN + 2, false).unwrap();
    let closure = c.storage_unregister(&bob(), false).unwrap().unwrap();
    assert_eq!(
        closure,
        AccountClosure { balance_burned: 0, escrow_refunded: STORAGE_BALANCE_MIN + 2 }
    );
    assert_eq!(c.ft_total_supply(), 1);
}

#[test]
fn register_twice_is_refused() {
    let mut c = ledger_with(1);
    assert_eq!(c.register("carol".to_string(), STORAGE_BALANCE_MIN), Ok(()));
    assert_eq!(
        c.register("carol".to_string(), STORAGE_BALANCE_MIN),
        Err(Error::AlreadyRegistered)
    );
}

#[test]
fn mint_needs_a_registered_account() {
    let mut c = ledger_with(1);
    assert_eq!(c.mint(&bob(), 5), Err(Error::AccountNotRegistered));
}

#[test]
fn mint_overflow_is_refused() {
    let mut c = ledger_with(u128::MAX);
    assert_eq!(c.mint(&owner(), 1), Err(Error::Overflow));
    assert_eq!(c.ft_total_supply(), u128::MAX);
}

#[test]
fn mint_raises_balance_and_supply_together() {
    let mut c = ledger_with(10);
    assert_eq!(c.mint(&owner(), 7), Ok(()));
    assert_eq!(c.ft_total_supply(), 17);
    assert_eq!(c.ft_balance_of(&owner()), 17);
}

#[test]
fn burn_above_balance_is_refused() {
    let mut c = ledger_with(10);
    assert_eq!(c.burn(&owner(), 11), Err(Error::InsufficientBalance));
}

#[test]
fn supply_equals_sum_of_balances_after_mixed_operations() {
    let mut c = ledger_with(1_000_000);
    let carol = "carol".to_string();
    c.storage_deposit(&bob(), STORAGE_BALANCE_MIN, false).unwrap();
    c.storage_deposit(&carol, STORAGE_BALANCE_MIN, false).unwrap();
    c.ft_transfer(&owner(), &bob(), 300, None).unwrap();
    c.ft_transfer_call(&owner(), &carol, 200, None, String::new()).unwrap();
    let _ = c.ft_resolve_transfer(&owner(), &carol, 200, NotifyOutcome::Unused(50));
    c.burn(&owner(), 1_000).unwrap();
    c.mint(&carol, 25).unwrap();
    c.storage_unregister(&bob(), true).unwrap();
    let sum = c.ft_balance_of(&owner()) + c.ft_balance_of(&bob()) + c.ft_balance_of(&carol);
    assert_eq!(c.ft_total_supply(), sum);
    assert!(c.ft_balance_of(&owner()) <= c.ft_total_supply());
    assert!(c.ft_balance_of(&carol) <= c.ft_total_supply());
}

#[test]
fn burn_lowers_balance_and_supply_together() {
    let mut c = ledger_with(10);
    assert_eq!(c.burn(&owner(), 4), Ok(()));
    assert_eq!(c.ft_total_supply(), 6);
    assert_eq!(c.ft_balance_of(&owner()), 6);
}
