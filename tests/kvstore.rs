use hmt_escrow::kvstore::{KvError, KvEvent, Module};
use hmt_escrow::ledger::AccountId;

fn acc(n: u64) -> AccountId {
    AccountId::Signer(n)
}

fn last_event(s: &Module) -> KvEvent {
    s.events().last().expect("Event expected").clone()
}

#[test]
fn get_and_set_work() {
    let mut kv = Module::new(50);
    assert_eq!(kv.set(acc(1), vec![1, 2, 3, 4], vec![5, 6, 7, 8]), Ok(()));
    assert_eq!(last_event(&kv), KvEvent::Stored(acc(1), vec![1, 2, 3, 4], vec![5, 6, 7, 8]));
    assert_eq!(kv.get(acc(1), &[1, 2, 3, 4]), vec![5, 6, 7, 8]);
    assert_eq!(kv.set_for_account(acc(42), &vec![1, 2, 3], &vec![6, 7, 8]), Ok(()));
    assert_eq!(kv.get(acc(42), &[1, 2, 3]), vec![6, 7, 8]);
}

#[test]
fn string_limit_enforced() {
    let mut kv = Module::new(50);
    assert_eq!(kv.set(acc(1), vec![21; 100], vec![1, 2, 3]), Err(KvError::KeyTooLong));
    assert_eq!(kv.set(acc(1), vec![1, 2, 3], vec![21; 100]), Err(KvError::ValueTooLong));
    assert!(kv.events().is_empty());
}

#[test]
fn test_KVStore() {
    let mut kv = Module::new(50);
    let caller = acc(7);
    let key = vec![111; 50];
    let value = vec![111; 50];
    assert_eq!(kv.set(caller, key.clone(), value.clone()), Ok(()));
    assert_eq!(kv.get(caller, &key), value);
    assert_eq!(last_event(&kv), KvEvent::Stored(caller, key, value));
}

#[test]
fn kv_values_are_per_account_and_overwritten() {
    let mut kv = Module::new(50);
    assert_eq!(kv.get(acc(1), &[9]), Vec::<u8>::new());
    assert_eq!(kv.set(acc(1), vec![9], vec![1]), Ok(()));
    assert_eq!(kv.set(acc(2), vec![9], vec![2]), Ok(()));
    assert_eq!(kv.set(acc(1), vec![9], vec![3, 3]), Ok(()));
    assert_eq!(kv.get(acc(1), &[9]), vec![3, 3]);
    assert_eq!(kv.get(acc(2), &[9]), vec![2]);
    assert_eq!(kv.get(acc(1), &[9, 0]), Vec::<u8>::new());
}
