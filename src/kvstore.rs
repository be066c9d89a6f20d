use vstd::prelude::*;
use crate::ledger::AccountId;

verus! {

/// What the store reports to observers.
#[derive(Clone, Debug, PartialEq, Eq)]
pub enum KvEvent {
    /// A value was stored: account, key, value.
    Stored(AccountId, Vec<u8>, Vec<u8>),
}

/// Why a write was refused.
#[derive(Clone, Copy, Debug, PartialEq, Eq, Structural)]
pub enum KvError {
    /// The key is longer than the limit.
    KeyTooLong,
    /// The value is longer than the limit.
    ValueTooLong,
}

/// The value that `s` records under account `a` and key `k`: that of the first entry
/// with both, or the empty value where there is none.
pub open spec fn value_in(s: Seq<(AccountId, Vec<u8>, Vec<u8>)>, a: AccountId, k: Seq<u8>) -> Seq<u8>
    decreases s.len(),
{
    if s.len() == 0 {
        Seq::empty()
    } else if s[0].0 == a && s[0].1@ == k {
        s[0].2@
    } else {
        value_in(s.drop_first(), a, k)
    }
}

proof fn lemma_value_update(
    s: Seq<(AccountId, Vec<u8>, Vec<u8>)>,
    i: int,
    x: (AccountId, Vec<u8>, Vec<u8>),
    b: AccountId,
    k: Seq<u8>,
)
    requires
        0 <= i < s.len(),
        s[i].0 == x.0 && s[i].1@ == x.1@,
        forall|j: int| 0 <= j < i ==> !(s[j].0 == x.0 && s[j].1@ == x.1@),
    ensures
        value_in(s.update(i, x), b, k) == if b == x.0 && k == x.1@ {
            x.2@
        } else {
            value_in(s, b, k)
        },
    decreases s.len(),
{
    if i > 0 {
        assert(s.update(i, x).drop_first() =~= s.drop_first().update(i - 1, x));
        lemma_value_update(s.drop_first(), i - 1, x, b, k);
    } else {
        assert(s.update(i, x).drop_first() =~= s.drop_first());
    }
}

proof fn lemma_value_push(s: Seq<(AccountId, Vec<u8>, Vec<u8>)>, x: (AccountId, Vec<u8>, Vec<u8>), b: AccountId, k: Seq<u8>)
    requires
        forall|j: int| 0 <= j < s.len() ==> !(s[j].0 == x.0 && s[j].1@ == x.1@),
    ensures
        value_in(s.push(x), b, k) == if b == x.0 && k == x.1@ {
            x.2@
        } else {
            value_in(s, b, k)
        },
    decreases s.len(),
{
    if s.len() > 0 {
        assert(s.push(x).drop_first() =~= s.drop_first().push(x));
        lemma_value_push(s.drop_first(), x, b, k);
    } else {
        assert(s.push(x).drop_first() =~= s);
    }
}

/// Whether `a` and `b` hold the same bytes.
fn bytes_eq(a: &Vec<u8>, b: &[u8]) -> (r: bool)
    ensures
        r == (a@ == b@),
{
    if a.len() != b.len() {
        return false;
    }
    let mut i: usize = 0;
    while i < a.len()
        invariant
            i <= a@.len(),
            a@.len() == b@.len(),
            forall|j: int| 0 <= j < i ==> a@[j] == b@[j],
        decreases a@.len() - i,
    {
        if a[i] != b[i] {
            return false;
        }
        i = i + 1;
    }
    assert(a@ =~= b@);
    true
}

/// A copy of `s`.
fn copy_bytes(s: &[u8]) -> (r: Vec<u8>)
    ensures
        r@ == s@,
{
    let mut r: Vec<u8> = Vec::new();
    let mut i: usize = 0;
    while i < s.len()
        invariant
            i <= s@.len(),
            r@ =~= s@.take(i as int),
        decreases s@.len() - i,
    {
        r.push(s[i]);
        i = i + 1;
        assert(r@ =~= s@.take(i as int));
    }
    assert(r@ =~= s@);
    r
}

/// A key-value store in which each account writes values under keys of its own.
pub struct Module {
    string_limit: usize,
    storage: Vec<(AccountId, Vec<u8>, Vec<u8>)>,
    events: Vec<KvEvent>,
}

impl Module {
    /// The longest key or value accepted.
    pub closed spec fn limit(&self) -> usize {
        self.string_limit
    }

    /// The value stored under account `a` and key `k`; empty where none is.
    pub closed spec fn value(&self, a: AccountId, k: Seq<u8>) -> Seq<u8> {
        value_in(self.storage@, a, k)
    }

    /// The events reported so far, oldest first.
    pub closed spec fn log(&self) -> Seq<KvEvent> {
        self.events@
    }

    /// An empty store that accepts keys and values up to `string_limit` bytes.
    pub fn new(string_limit: usize) -> (r: Module)
        ensures
            r.limit() == string_limit,
            forall|a: AccountId, k: Seq<u8>| r.value(a, k) == Seq::<u8>::empty(),
            r.log() == Seq::<KvEvent>::empty(),
    {
        Module { string_limit, storage: Vec::new(), events: Vec::new() }
    }

    fn find(&self, a: AccountId, k: &[u8]) -> (r: Option<usize>)
        ensures
            match r {
                Some(i) => i < self.storage@.len() && self.storage@[i as int].0 == a
                    && self.storage@[i as int].1@ == k@ && forall|j: int|
                    0 <= j < i ==> !(self.storage@[j].0 == a && self.storage@[j].1@ == k@),
                None => forall|j: int|
                    0 <= j < self.storage@.len() ==> !(self.storage@[j].0 == a
                        && self.storage@[j].1@ == k@),
            },
            r is None ==> value_in(self.storage@, a, k@) == Seq::<u8>::empty(),
            r matches Some(i) ==> value_in(self.storage@, a, k@) == self.storage@[i as int].2@,
    {
        let mut i: usize = 0;
        assert(self.storage@.subrange(0, self.storage@.len() as int) =~= self.storage@);
        while i < self.storage.len()
            invariant
                i <= self.storage@.len(),
                forall|j: int|
                    0 <= j < i ==> !(self.storage@[j].0 == a && self.storage@[j].1@ == k@),
                value_in(self.storage@, a, k@) == value_in(
                    self.storage@.subrange(i as int, self.storage@.len() as int),
                    a,
                    k@,
                ),
            decreases self.storage@.len() - i,
        {
            let ghost rest = self.storage@.subrange(i as int, self.storage@.len() as int);
            assert(rest.drop_first() =~= self.storage@.subrange(i + 1, self.storage@.len() as int));
            if self.storage[i].0 == a && bytes_eq(&self.storage[i].1, k) {
                return Some(i);
            }
            i = i + 1;
        }
        None
    }

    /// Stores `value` under account `acc` and `key`, replacing what was there. Refused
    /// where the key, or else the value, is longer than the limit.
    pub fn set_for_account(&mut self, acc: AccountId, key: &[u8], value: &[u8]) -> (r: Result<(), KvError>)
        ensures
            key@.len() > old(self).limit() ==> r == Err::<(), KvError>(KvError::KeyTooLong),
            key@.len() <= old(self).limit() && value@.len() > old(self).limit() ==> r == Err::<
                (),
                KvError,
            >(KvError::ValueTooLong),
            r is Ok <==> key@.len() <= old(self).limit() && value@.len() <= old(self).limit(),
            r is Err ==> *final(self) == *old(self),
            r is Ok ==> forall|a: AccountId, k: Seq<u8>|
                #[trigger] final(self).value(a, k) == if a == acc && k == key@ {
                    value@
                } else {
                    old(self).value(a, k)
                },
            final(self).limit() == old(self).limit(),
            final(self).log() == old(self).log(),
    {
        if key.len() > self.string_limit {
            return Err(KvError::KeyTooLong);
        }
        if value.len() > self.string_limit {
            return Err(KvError::ValueTooLong);
        }
        let entry = (acc, copy_bytes(key), copy_bytes(value));
        let ghost s = self.storage@;
        match self.find(acc, key) {
            Some(i) => {
                self.storage.set(i, entry);
                proof {
                    assert forall|a: AccountId, k: Seq<u8>|
                        #[trigger] value_in(self.storage@, a, k) == if a == acc && k == key@ {
                            value@
                        } else {
                            value_in(s, a, k)
                        } by {
                        lemma_value_update(s, i as int, entry, a, k);
                    }
                }
            },
            None => {
                self.storage.push(entry);
                proof {
                    assert forall|a: AccountId, k: Seq<u8>|
                        #[trigger] value_in(self.storage@, a, k) == if a == acc && k == key@ {
                            value@
                        } else {
                            value_in(s, a, k)
                        } by {
                        lemma_value_push(s, entry, a, k);
                    }
                }
            },
        }
        Ok(())
    }

    /// The set call of a signed `who`: stores `value` under `who` and `key` and reports a
    /// `Stored` event.
    pub fn set(&mut self, who: AccountId, key: Vec<u8>, value: Vec<u8>) -> (r: Result<(), KvError>)
        ensures
            key@.len() > old(self).limit() ==> r == Err::<(), KvError>(KvError::KeyTooLong),
            key@.len() <= old(self).limit() && value@.len() > old(self).limit() ==> r == Err::<
                (),
                KvError,
            >(KvError::ValueTooLong),
            r is Ok <==> key@.len() <= old(self).limit() && value@.len() <= old(self).limit(),
            r is Err ==> *final(self) == *old(self),
            r is Ok ==> forall|a: AccountId, k: Seq<u8>|
                #[trigger] final(self).value(a, k) == if a == who && k == key@ {
                    value@
                } else {
                    old(self).value(a, k)
                },
            r is Ok ==> final(self).log() == old(self).log().push(KvEvent::Stored(who, key, value)),
            final(self).limit() == old(self).limit(),
    {
        match self.set_for_account(who, key.as_slice(), value.as_slice()) {
            Ok(()) => {},
            Err(e) => return Err(e),
        }
        let ghost mid = *self;
        self.events.push(KvEvent::Stored(who, key, value));
        assert forall|a: AccountId, k: Seq<u8>| #[trigger] self.value(a, k) == mid.value(a, k) by {}
        Ok(())
    }

    /// The value stored under account `acc` and `key`; empty where none is.
    pub fn get(&self, acc: AccountId, key: &[u8]) -> (r: Vec<u8>)
        ensures
            r@ == self.value(acc, key@),
    {
        match self.find(acc, key) {
            Some(i) => copy_bytes(self.storage[i].2.as_slice()),
            None => Vec::new(),
        }
    }

    /// The events reported so far, oldest first.
    pub fn events(&self) -> (r: &Vec<KvEvent>)
        ensures
            r@ == self.log(),
    {
        &self.events
    }
}

} // verus!
