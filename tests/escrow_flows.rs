use hmt_escrow::escrow::{Config, Error, EscrowStatus, Event, Module, ResultInfo};
use hmt_escrow::ledger::{AccountId, Balance, Ledger, LedgerError};
use hmt_escrow::payout::finalize_payouts;
use hmt_escrow::percent::Percent;

fn acc(n: u64) -> AccountId {
    AccountId::Signer(n)
}

fn runtime_config() -> Config {
    Config {
        standard_duration: 1000,
        string_limit: 100,
        bulk_balance_limit: 1_000_000_000,
        bulk_accounts_limit: 10,
        handlers_limit: 10,
    }
}

const CALLER: u64 = 100;
const REP: u64 = 200;
const REC: u64 = 201;

fn create_full(m: &mut Module) -> u128 {
    let junk = 42;
    let url = vec![junk; 100];
    let hash = vec![junk; 100];
    let r = m.create(
        acc(CALLER),
        0,
        url,
        hash,
        acc(REP),
        acc(REC),
        Percent::from_percent(10),
        Percent::from_percent(10),
    );
    assert_eq!(r, Ok(0));
    0
}

#[test]
fn escrow_create() {
    let mut m = Module::new(runtime_config());
    let id = create_full(&mut m);
    let escrow = m.escrow(id).unwrap().clone();
    assert_eq!(escrow.status, EscrowStatus::Pending);
    for handler in [acc(CALLER), acc(REP), acc(REC)] {
        assert!(m.is_trusted_handler(id, handler));
    }
    assert_eq!(
        m.events().last().unwrap().clone(),
        Event::Pending(id, acc(CALLER), vec![42; 100], vec![42; 100], Module::account_id_for(id))
    );
}

#[test]
fn escrow_add_trusted_handlers() {
    let mut m = Module::new(runtime_config());
    let id = create_full(&mut m);
    let handlers: Vec<AccountId> = (0..7).map(|h| acc(300 + h)).collect();
    assert_eq!(m.add_trusted_handlers(acc(CALLER), id, handlers.clone()), Ok(()));
    for handler in handlers {
        assert!(m.is_trusted_handler(id, handler));
    }
}

#[test]
fn escrow_abort() {
    let mut m = Module::new(runtime_config());
    let mut ledger = Ledger::new();
    let id = create_full(&mut m);
    let handlers: Vec<AccountId> = (0..7).map(|h| acc(300 + h)).collect();
    assert_eq!(m.add_trusted_handlers(acc(CALLER), id, handlers.clone()), Ok(()));
    let account = m.escrow(id).unwrap().account;
    let amount: Balance = 1000;
    ledger.make_free_balance_be(account, amount);
    assert_eq!(ledger.free_balance(account), amount);
    assert_eq!(m.abort(&mut ledger, acc(CALLER), id), Ok(()));
    assert!(m.escrow(id).is_none());
    let mut all_handlers = handlers.clone();
    all_handlers.extend([acc(CALLER), acc(REP), acc(REC)]);
    for handler in all_handlers {
        assert!(!m.is_trusted_handler(id, handler));
    }
    assert_eq!(ledger.free_balance(account), 0);
    assert_eq!(ledger.free_balance(acc(CALLER)), amount);
}

#[test]
fn escrow_cancel() {
    let mut m = Module::new(runtime_config());
    let mut ledger = Ledger::new();
    let id = create_full(&mut m);
    let account = m.escrow(id).unwrap().account;
    ledger.make_free_balance_be(account, 1000);
    assert_eq!(m.cancel(&mut ledger, acc(CALLER), id), Ok(()));
    assert_eq!(m.escrow(id).unwrap().status, EscrowStatus::Cancelled);
    assert_eq!(ledger.free_balance(account), 0);
    assert_eq!(ledger.free_balance(acc(CALLER)), 1000);
}

#[test]
fn escrow_complete() {
    let mut m = Module::new(runtime_config());
    let id = create_full(&mut m);
    m.set_status(id, EscrowStatus::Paid).expect("setting status should work");
    assert_eq!(m.complete(acc(CALLER), id, 0), Ok(()));
    assert_eq!(m.escrow(id).unwrap().status, EscrowStatus::Complete);
}

#[test]
fn escrow_note_intermediate_results() {
    let mut m = Module::new(runtime_config());
    let id = create_full(&mut m);
    let url = vec![42; 100];
    let hash = vec![42; 100];
    assert_eq!(m.note_intermediate_results(acc(CALLER), id, 0, url.clone(), hash.clone()), Ok(()));
    assert_eq!(m.events().last().unwrap().clone(), Event::IntermediateResults(id, url, hash));
}

#[test]
fn escrow_store_final_results() {
    let mut m = Module::new(runtime_config());
    let id = create_full(&mut m);
    let url = vec![42; 100];
    let hash = vec![42; 100];
    assert_eq!(m.store_final_results(acc(CALLER), id, 0, url.clone(), hash.clone()), Ok(()));
    assert_eq!(m.final_results(id), Some(&ResultInfo { results_url: url, results_hash: hash }));
}

#[test]
fn escrow_bulk_payout() {
    let mut m = Module::new(runtime_config());
    let mut ledger = Ledger::new();
    let id = create_full(&mut m);
    let b: u64 = 9;
    let account = m.escrow(id).unwrap().account;
    let amount: Balance = 100_000;
    let total_amount = amount * b as Balance;
    ledger.make_free_balance_be(account, total_amount);
    let recipients: Vec<AccountId> = (0..b).map(|i| acc(400 + i)).collect();
    let amounts = vec![amount; b as usize];
    assert_eq!(m.bulk_payout(&mut ledger, acc(CALLER), id, 0, recipients.clone(), amounts), Ok(()));
    let stake = Percent::from_percent(10);
    assert_eq!(ledger.free_balance(acc(REP)), stake.mul_floor(total_amount));
    assert_eq!(ledger.free_balance(acc(REC)), stake.mul_floor(total_amount));
    let received = amount - stake.mul_floor(amount) - stake.mul_floor(amount);
    for r in recipients {
        assert_eq!(ledger.free_balance(r), received);
    }
    assert_eq!(m.escrow(id).unwrap().status, EscrowStatus::Paid);
    assert_eq!(m.events().last().unwrap().clone(), Event::BulkPayout(id));
}

fn scenario() -> (Module, Ledger, u128) {
    let mut m = Module::new(runtime_config());
    let mut ledger = Ledger::new();
    ledger.make_free_balance_be(acc(1), 1_000);
    let id = m
        .create(
            acc(1),
            0,
            b"some.url".to_vec(),
            b"0xdev".to_vec(),
            acc(3),
            acc(4),
            Percent::from_percent(10),
            Percent::from_percent(10),
        )
        .unwrap();
    (m, ledger, id)
}

#[test]
fn payout_splits_fees_and_pays_out_whole_balance() {
    let (mut m, mut ledger, id) = scenario();
    let account = m.escrow(id).unwrap().account;
    assert!(ledger.transfer(acc(1), account, 100).is_ok());
    assert_eq!(m.bulk_payout(&mut ledger, acc(1), id, 0, vec![acc(5), acc(6)], vec![50, 50]), Ok(()));
    assert_eq!(ledger.free_balance(acc(5)), 40);
    assert_eq!(ledger.free_balance(acc(6)), 40);
    assert_eq!(ledger.free_balance(acc(3)), 10);
    assert_eq!(ledger.free_balance(acc(4)), 10);
    assert_eq!(ledger.free_balance(account), 0);
    assert_eq!(m.escrow(id).unwrap().status, EscrowStatus::Paid);
}

#[test]
fn create_with_long_url_stores_nothing() {
    let (mut m, _ledger, _id) = scenario();
    let r = m.create(
        acc(1),
        0,
        vec![1; 101],
        b"0xdev".to_vec(),
        acc(3),
        acc(4),
        Percent::from_percent(10),
        Percent::from_percent(10),
    );
    assert_eq!(r, Err(Error::StringSize));
    assert_eq!(m.counter(), 1);
    assert!(m.escrow(1).is_none());
}

#[test]
fn abort_of_paid_escrow_is_refused() {
    let (mut m, mut ledger, id) = scenario();
    let account = m.escrow(id).unwrap().account;
    assert!(ledger.transfer(acc(1), account, 100).is_ok());
    assert_eq!(m.bulk_payout(&mut ledger, acc(1), id, 0, vec![acc(5)], vec![100]), Ok(()));
    assert_eq!(m.escrow(id).unwrap().status, EscrowStatus::Paid);
    let before = m.escrow(id).unwrap().clone();
    assert_eq!(m.abort(&mut ledger, acc(1), id), Err(Error::EscrowClosed));
    assert_eq!(m.escrow(id), Some(&before));
    for h in [acc(1), acc(3), acc(4)] {
        assert!(m.is_trusted_handler(id, h));
    }
    assert_eq!(m.handlers_count(id), 3);
}

#[test]
fn cancel_by_stranger_moves_nothing() {
    let (mut m, mut ledger, id) = scenario();
    let account = m.escrow(id).unwrap().account;
    assert!(ledger.transfer(acc(1), account, 100).is_ok());
    assert_eq!(m.cancel(&mut ledger, acc(9), id), Err(Error::NonTrustedAccount));
    assert_eq!(ledger.free_balance(account), 100);
    assert_eq!(ledger.free_balance(acc(1)), 900);
    assert_eq!(m.escrow(id).unwrap().status, EscrowStatus::Pending);
}

#[test]
fn payout_beyond_balance_moves_nothing() {
    let (mut m, mut ledger, id) = scenario();
    let account = m.escrow(id).unwrap().account;
    assert!(ledger.transfer(acc(1), account, 100).is_ok());
    let events_before = m.events().len();
    assert_eq!(
        m.bulk_payout(&mut ledger, acc(1), id, 0, vec![acc(5), acc(6)], vec![60, 41]),
        Err(Error::OutOfFunds)
    );
    assert_eq!(ledger.free_balance(account), 100);
    assert_eq!(ledger.free_balance(acc(5)), 0);
    assert_eq!(ledger.free_balance(acc(3)), 0);
    assert_eq!(m.escrow(id).unwrap().status, EscrowStatus::Pending);
    assert_eq!(m.events().len(), events_before);
}

#[test]
fn stakes_above_whole_are_refused_before_any_write() {
    let mut m = Module::new(runtime_config());
    let r = m.create(
        acc(1),
        0,
        b"u".to_vec(),
        b"h".to_vec(),
        acc(3),
        acc(4),
        Percent::from_percent(60),
        Percent::from_percent(41),
    );
    assert_eq!(r, Err(Error::StakeOutOfBounds));
    assert_eq!(m.counter(), 0);
    assert!(m.events().is_empty());
    assert!(!m.is_trusted_handler(0, acc(1)));
    let ok = m.create(
        acc(1),
        0,
        b"u".to_vec(),
        b"h".to_vec(),
        acc(3),
        acc(4),
        Percent::from_percent(60),
        Percent::from_percent(40),
    );
    assert_eq!(ok, Ok(0));
}

#[test]
fn custodial_accounts_differ_per_escrow() {
    let (mut m, _ledger, first) = scenario();
    let second = m
        .create(acc(2), 0, vec![], vec![], acc(3), acc(4), Percent::from_percent(0), Percent::from_percent(0))
        .unwrap();
    assert_eq!(second, first + 1);
    assert_ne!(m.escrow(first).unwrap().account, m.escrow(second).unwrap().account);
    assert_eq!(m.escrow(second).unwrap().account, AccountId::Escrow(second));
    assert_ne!(Module::account_id_for(7), Module::account_id_for(8));
}

#[test]
fn trusting_again_keeps_registry() {
    let (mut m, _ledger, id) = scenario();
    assert_eq!(m.handlers_count(id), 3);
    assert_eq!(m.add_trusted_handlers(acc(1), id, vec![acc(3), acc(1), acc(4)]), Ok(()));
    assert_eq!(m.handlers_count(id), 3);
    assert_eq!(m.add_trusted_handlers(acc(1), id, vec![acc(5), acc(5)]), Ok(()));
    assert_eq!(m.handlers_count(id), 4);
}

#[test]
fn too_many_handlers_are_refused() {
    let (mut m, _ledger, id) = scenario();
    let many: Vec<AccountId> = (10..18).map(acc).collect();
    assert_eq!(m.add_trusted_handlers(acc(1), id, many), Err(Error::TooManyHandlers));
    assert_eq!(m.handlers_count(id), 3);
    let fits: Vec<AccountId> = (10..17).map(acc).collect();
    assert_eq!(m.add_trusted_handlers(acc(1), id, fits), Ok(()));
    assert_eq!(m.handlers_count(id), 10);
}

#[test]
fn status_moves_only_forward() {
    let (mut m, mut ledger, id) = scenario();
    let account = m.escrow(id).unwrap().account;
    assert!(ledger.transfer(acc(1), account, 100).is_ok());
    assert_eq!(m.complete(acc(1), id, 0), Err(Error::EscrowNotPaid));
    assert_eq!(m.bulk_payout(&mut ledger, acc(1), id, 0, vec![acc(5)], vec![50]), Ok(()));
    assert_eq!(m.escrow(id).unwrap().status, EscrowStatus::Partial);
    assert_eq!(m.bulk_payout(&mut ledger, acc(1), id, 0, vec![acc(5)], vec![50]), Ok(()));
    assert_eq!(m.escrow(id).unwrap().status, EscrowStatus::Paid);
    assert_eq!(m.bulk_payout(&mut ledger, acc(1), id, 0, vec![acc(5)], vec![1]), Err(Error::EscrowClosed));
    assert_eq!(m.cancel(&mut ledger, acc(1), id), Err(Error::EscrowClosed));
    assert_eq!(m.complete(acc(1), id, 0), Ok(()));
    assert_eq!(m.escrow(id).unwrap().status, EscrowStatus::Complete);
    assert_eq!(m.complete(acc(1), id, 0), Err(Error::EscrowNotPaid));
    assert_eq!(m.abort(&mut ledger, acc(1), id), Err(Error::EscrowClosed));
}

#[test]
fn final_results_keep_last_write() {
    let (mut m, _ledger, id) = scenario();
    assert_eq!(m.final_results(id), None);
    assert_eq!(m.store_final_results(acc(1), id, 0, b"a".to_vec(), b"1".to_vec()), Ok(()));
    assert_eq!(m.store_final_results(acc(1), id, 0, b"b".to_vec(), b"2".to_vec()), Ok(()));
    assert_eq!(m.store_final_results(acc(1), id, 0, b"c".to_vec(), b"3".to_vec()), Ok(()));
    assert_eq!(m.final_results(id), Some(&ResultInfo { results_url: b"c".to_vec(), results_hash: b"3".to_vec() }));
    assert_eq!(m.final_results(id + 1), None);
}

#[test]
fn results_stay_within_string_limit() {
    let (mut m, _ledger, id) = scenario();
    assert_eq!(m.store_final_results(acc(1), id, 0, vec![0; 100], vec![0; 100]), Ok(()));
    assert_eq!(m.store_final_results(acc(1), id, 0, vec![0; 101], vec![]), Err(Error::StringSize));
    assert_eq!(m.final_results(id).unwrap().results_url.len(), 100);
}

#[test]
fn escrow_expires_at_end_time() {
    let (mut m, _ledger, id) = scenario();
    assert_eq!(m.escrow(id).unwrap().end_time, 1000);
    assert_eq!(m.store_final_results(acc(1), id, 999, vec![], vec![]), Ok(()));
    assert_eq!(m.store_final_results(acc(1), id, 1000, vec![], vec![]), Err(Error::EscrowExpired));
}

#[test]
fn end_time_overflow_is_refused() {
    let mut m = Module::new(runtime_config());
    let r = m.create(
        acc(1),
        u64::MAX - 999,
        vec![],
        vec![],
        acc(3),
        acc(4),
        Percent::from_percent(1),
        Percent::from_percent(1),
    );
    assert_eq!(r, Err(Error::Overflow));
    assert_eq!(m.counter(), 0);
}

#[test]
fn failed_transfer_rolls_back_whole_payout() {
    let (mut m, mut ledger, id) = scenario();
    let account = m.escrow(id).unwrap().account;
    assert!(ledger.transfer(acc(1), account, 100).is_ok());
    ledger.make_free_balance_be(acc(6), u128::MAX);
    assert_eq!(
        m.bulk_payout(&mut ledger, acc(1), id, 0, vec![acc(5), acc(6)], vec![50, 50]),
        Err(Error::Transfer(LedgerError::Overflow))
    );
    assert_eq!(ledger.free_balance(account), 100);
    assert_eq!(ledger.free_balance(acc(3)), 0);
    assert_eq!(ledger.free_balance(acc(4)), 0);
    assert_eq!(ledger.free_balance(acc(5)), 0);
    assert_eq!(m.escrow(id).unwrap().status, EscrowStatus::Pending);
}

#[test]
fn too_many_recipients_and_too_big_payouts_are_refused() {
    let mut m = Module::new(Config { bulk_balance_limit: 999, ..runtime_config() });
    let mut ledger = Ledger::new();
    let id = m
        .create(acc(1), 0, vec![], vec![], acc(3), acc(4), Percent::from_percent(0), Percent::from_percent(0))
        .unwrap();
    let account = m.escrow(id).unwrap().account;
    ledger.make_free_balance_be(account, 5_000);
    assert_eq!(
        m.bulk_payout(&mut ledger, acc(1), id, 0, vec![acc(5); 11], vec![1; 11]),
        Err(Error::TooManyTos)
    );
    assert_eq!(
        m.bulk_payout(&mut ledger, acc(1), id, 0, vec![acc(5), acc(6)], vec![500, 500]),
        Err(Error::TransferTooBig)
    );
    assert_eq!(ledger.free_balance(account), 5_000);
}

#[test]
fn abort_refunds_canceller_and_clears_state() {
    let (mut m, mut ledger, id) = scenario();
    let account = m.escrow(id).unwrap().account;
    assert!(ledger.transfer(acc(1), account, 250).is_ok());
    assert_eq!(m.store_final_results(acc(3), id, 0, b"r".to_vec(), b"h".to_vec()), Ok(()));
    assert_eq!(m.abort(&mut ledger, acc(4), id), Ok(()));
    assert_eq!(ledger.free_balance(acc(1)), 1_000);
    assert_eq!(ledger.free_balance(account), 0);
    assert_eq!(m.handlers_count(id), 0);
    assert_eq!(m.final_results(id), None);
    assert_eq!(m.abort(&mut ledger, acc(4), id), Err(Error::MissingEscrow));
    let next = m
        .create(acc(1), 0, vec![], vec![], acc(3), acc(4), Percent::from_percent(0), Percent::from_percent(0))
        .unwrap();
    assert_eq!(next, id + 1);
}

#[test]
fn fee_split_rounds_down_per_amount() {
    let (rep, rec, nets) = finalize_payouts(Percent::from_percent(15), Percent::from_percent(7), &[9, 10, 101, 0]);
    assert_eq!(rep, 1 + 1 + 15);
    assert_eq!(rec, 0 + 0 + 7);
    assert_eq!(nets, vec![8, 9, 79, 0]);
    assert_eq!(rep + rec + nets.iter().sum::<u128>(), 9 + 10 + 101);
}

#[test]
fn fee_split_conserves_value() {
    let amounts: Vec<Balance> = vec![1, 2, 3, 33, 77, 1_000_003, 999];
    let (rep, rec, nets) = finalize_payouts(Percent::from_percent(33), Percent::from_percent(67), &amounts);
    let sum: u128 = amounts.iter().sum();
    assert_eq!(rep + rec + nets.iter().sum::<u128>(), sum);
    assert!(100 * (rep + rec) <= 100 * sum);
    assert!(100 * sum < 100 * (rep + rec + 2 * amounts.len() as u128));
}

#[test]
fn fee_totals_saturate() {
    let (rep, rec, nets) = finalize_payouts(Percent::from_percent(100), Percent::from_percent(0), &[u128::MAX, u128::MAX]);
    assert_eq!(rep, u128::MAX);
    assert_eq!(rec, 0);
    assert_eq!(nets, vec![0, 0]);
}

#[test]
fn percent_clamps_and_takes_floor() {
    assert_eq!(Percent::from_percent(150).deconstruct(), 100);
    assert_eq!(Percent::from_percent(37).deconstruct(), 37);
    assert_eq!(Percent::from_percent(37).mul_floor(1_000), 370);
    assert_eq!(Percent::from_percent(37).mul_floor(99), 36);
    assert_eq!(Percent::from_percent(100).mul_floor(u128::MAX), u128::MAX);
    assert_eq!(Percent::from_percent(50).mul_floor(u128::MAX), u128::MAX / 2);
}

#[test]
fn payout_lists_are_checked_before_fees_move() {
    let (mut m, mut ledger, id) = scenario();
    let account = m.escrow(id).unwrap().account;
    assert!(ledger.transfer(acc(1), account, 100).is_ok());
    ledger.make_free_balance_be(acc(3), u128::MAX);
    assert_eq!(
        m.bulk_payout(&mut ledger, acc(1), id, 0, vec![acc(5), acc(6), acc(7)], vec![50, 50]),
        Err(Error::MismatchBulkTransfer)
    );
    assert_eq!(
        m.bulk_payout(&mut ledger, acc(1), id, 0, vec![acc(5)], vec![50]),
        Err(Error::Transfer(LedgerError::Overflow))
    );
    assert_eq!(ledger.free_balance(account), 100);
}

#[test]
fn trusting_counts_distinct_principals() {
    let (mut m, _ledger, id) = scenario();
    let seven_new_with_repeats: Vec<AccountId> = vec![acc(10), acc(11), acc(10), acc(12), acc(13), acc(14), acc(15), acc(16), acc(3), acc(16)];
    assert_eq!(m.add_trusted_handlers(acc(1), id, seven_new_with_repeats), Ok(()));
    assert_eq!(m.handlers_count(id), 10);
}
