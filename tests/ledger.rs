use hmt_escrow::ledger::{AccountId, Ledger, LedgerError};

#[test]
fn ledger_transfer_moves_value() {
    let mut l = Ledger::new();
    let a = AccountId::Signer(1);
    let b = AccountId::Escrow(1);
    l.make_free_balance_be(a, 50);
    assert_eq!(l.transfer(a, b, 20), Ok(()));
    assert_eq!(l.free_balance(a), 30);
    assert_eq!(l.free_balance(b), 20);
    assert_eq!(l.transfer(a, b, 31), Err(LedgerError::InsufficientBalance));
    assert_eq!(l.free_balance(a), 30);
    assert_eq!(l.transfer(a, b, 0), Ok(()));
    assert_eq!(l.transfer(b, b, 1_000), Ok(()));
    assert_eq!(l.free_balance(b), 20);
    l.make_free_balance_be(b, u128::MAX);
    assert_eq!(l.transfer(a, b, 1), Err(LedgerError::Overflow));
    assert_eq!(l.free_balance(a), 30);
}

#[test]
fn ledger_snapshot_is_independent() {
    let mut l = Ledger::new();
    l.make_free_balance_be(AccountId::Signer(1), 5);
    let s = l.snapshot();
    l.make_free_balance_be(AccountId::Signer(1), 6);
    assert_eq!(s.free_balance(AccountId::Signer(1)), 5);
    assert_eq!(l.free_balance(AccountId::Signer(1)), 6);
    assert_eq!(l.free_balance(AccountId::Signer(2)), 0);
}
