use weather_oracle::{AssetLedger, OracleError};

#[test]
fn fresh_ledger_has_zero_balances() {
    let ledger = AssetLedger::new();
    assert_eq!(ledger.balance(0), 0);
    assert_eq!(ledger.balance(42), 0);
    assert_eq!(ledger.balance(u64::MAX), 0);
}

#[test]
fn mint_credits_only_the_holder() {
    let mut ledger = AssetLedger::new();
    ledger.mint(1, 100);
    ledger.mint(2, 30);
    ledger.mint(1, 5);
    assert_eq!(ledger.balance(1), 105);
    assert_eq!(ledger.balance(2), 30);
    assert_eq!(ledger.balance(3), 0);
}

#[test]
fn transfer_moves_exactly_the_amount() {
    let mut ledger = AssetLedger::new();
    ledger.mint(1, 100);
    assert_eq!(ledger.transfer(1, 2, 40), Ok(()));
    assert_eq!(ledger.balance(1), 60);
    assert_eq!(ledger.balance(2), 40);
    // the full remainder can move too
    assert_eq!(ledger.transfer(1, 2, 60), Ok(()));
    assert_eq!(ledger.balance(1), 0);
    assert_eq!(ledger.balance(2), 100);
    // a zero-amount transfer succeeds and moves nothing
    assert_eq!(ledger.transfer(1, 2, 0), Ok(()));
    assert_eq!(ledger.balance(1), 0);
    assert_eq!(ledger.balance(2), 100);
}

#[test]
fn transfer_without_funds_fails_and_changes_nothing() {
    let mut ledger = AssetLedger::new();
    ledger.mint(1, 10);
    assert_eq!(ledger.transfer(1, 2, 11), Err(OracleError::TransferFailed));
    assert_eq!(ledger.balance(1), 10);
    assert_eq!(ledger.balance(2), 0);
    assert_eq!(ledger.transfer(3, 2, 1), Err(OracleError::TransferFailed));
    assert_eq!(ledger.balance(3), 0);
    assert_eq!(ledger.balance(2), 0);
}

#[test]
fn transfer_overflowing_the_recipient_fails_and_changes_nothing() {
    let mut ledger = AssetLedger::new();
    ledger.mint(1, 10);
    ledger.mint(2, u64::MAX - 5);
    assert_eq!(ledger.transfer(1, 2, 6), Err(OracleError::TransferFailed));
    assert_eq!(ledger.balance(1), 10);
    assert_eq!(ledger.balance(2), u64::MAX - 5);
    assert_eq!(ledger.transfer(1, 2, 5), Ok(()));
    assert_eq!(ledger.balance(1), 5);
    assert_eq!(ledger.balance(2), u64::MAX);
}

#[test]
fn transfer_to_self_checks_funds_but_moves_nothing() {
    let mut ledger = AssetLedger::new();
    ledger.mint(1, 10);
    assert_eq!(ledger.transfer(1, 1, 10), Ok(()));
    assert_eq!(ledger.balance(1), 10);
    assert_eq!(ledger.transfer(1, 1, 11), Err(OracleError::TransferFailed));
    assert_eq!(ledger.balance(1), 10);
}
