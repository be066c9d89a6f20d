use vstd::prelude::*;

verus! {

/// An amount of the ledger's currency.
pub type Balance = u128;

/// The identifier of an escrow; assigned in increasing order and never reused.
pub type EscrowId = u128;

/// An account of the ledger.
///
/// Signing principals and custodial escrow accounts live in separate name spaces, so
/// a custodial account can never be the account of a person, nor of another escrow.
#[derive(Clone, Copy, Debug, PartialEq, Eq, Structural, Hash)]
pub enum AccountId {
    /// An account held by a principal who signs calls.
    Signer(u64),
    /// The custodial account that holds the funds of one escrow.
    Escrow(EscrowId),
}

/// Why a transfer of value was refused.
#[derive(Clone, Copy, Debug, PartialEq, Eq, Structural)]
pub enum LedgerError {
    /// The sender holds less than the amount.
    InsufficientBalance,
    /// The receiver's balance would exceed the largest balance.
    Overflow,
}

/// The balance that `entries` records for `a`: the first entry with that account, or
/// zero when there is none.
pub open spec fn balance_in(entries: Seq<(AccountId, Balance)>, a: AccountId) -> Balance
    decreases entries.len(),
{
    if entries.len() == 0 {
        0
    } else if entries[0].0 == a {
        entries[0].1
    } else {
        balance_in(entries.drop_first(), a)
    }
}

/// The balances after moving `v` from `from` to `to`, or why the move is refused.
///
/// Moving nothing, or moving to oneself, changes nothing and always succeeds.
pub open spec fn transfer_result(
    m: Map<AccountId, Balance>,
    from: AccountId,
    to: AccountId,
    v: Balance,
) -> Result<Map<AccountId, Balance>, LedgerError> {
    if v == 0 || from == to {
        Ok(m)
    } else if m[from] < v {
        Err(LedgerError::InsufficientBalance)
    } else if m[to] + v > u128::MAX {
        Err(LedgerError::Overflow)
    } else {
        Ok(m.insert(from, (m[from] - v) as Balance).insert(to, (m[to] + v) as Balance))
    }
}

/// The balances after the first `n` transfers from `from`, to `tos[i]` of `vs[i]`, made
/// in order; or the error of the first transfer that is refused.
pub open spec fn transfers_result(
    m: Map<AccountId, Balance>,
    from: AccountId,
    tos: Seq<AccountId>,
    vs: Seq<Balance>,
    n: nat,
) -> Result<Map<AccountId, Balance>, LedgerError>
    decreases n,
{
    if n == 0 {
        Ok(m)
    } else {
        match transfers_result(m, from, tos, vs, (n - 1) as nat) {
            Ok(m1) => transfer_result(m1, from, tos[n - 1], vs[n - 1]),
            Err(e) => Err(e),
        }
    }
}

/// Changing the first entry of `a` changes the balance of `a` alone.
proof fn lemma_balance_update(s: Seq<(AccountId, Balance)>, i: int, a: AccountId, v: Balance, b: AccountId)
    requires
        0 <= i < s.len(),
        s[i].0 == a,
        forall|j: int| 0 <= j < i ==> s[j].0 != a,
    ensures
        balance_in(s.update(i, (a, v)), b) == if b == a { v } else { balance_in(s, b) },
    decreases s.len(),
{
    let s2 = s.update(i, (a, v));
    if i > 0 {
        assert(s2.drop_first() =~= s.drop_first().update(i - 1, (a, v)));
        lemma_balance_update(s.drop_first(), i - 1, a, v, b);
    } else {
        assert(s2.drop_first() =~= s.drop_first());
    }
}

/// Appending an entry for an account that has none sets that account's balance alone.
proof fn lemma_balance_push(s: Seq<(AccountId, Balance)>, a: AccountId, v: Balance, b: AccountId)
    requires
        forall|j: int| 0 <= j < s.len() ==> s[j].0 != a,
    ensures
        balance_in(s.push((a, v)), b) == if b == a { v } else { balance_in(s, b) },
    decreases s.len(),
{
    if s.len() > 0 {
        assert(s.push((a, v)).drop_first() =~= s.drop_first().push((a, v)));
        lemma_balance_push(s.drop_first(), a, v, b);
    } else {
        assert(s.push((a, v)).drop_first() =~= s);
    }
}

/// An in-memory account-balance ledger: every account has a balance, zero unless set.
pub struct Ledger {
    entries: Vec<(AccountId, Balance)>,
}

impl View for Ledger {
    type V = Map<AccountId, Balance>;

    /// Every account maps to its balance.
    closed spec fn view(&self) -> Map<AccountId, Balance> {
        Map::new(|a: AccountId| true, |a: AccountId| balance_in(self.entries@, a))
    }
}

impl Ledger {
    /// Every account of the ledger has a balance.
    pub broadcast proof fn lemma_total(&self, a: AccountId)
        ensures
            #[trigger] self@.contains_key(a),
    {
    }

    /// A ledger in which every balance is zero.
    pub fn new() -> (r: Ledger)
        ensures
            forall|a: AccountId| r@.contains_key(a) && r@[a] == 0,
    {
        Ledger { entries: Vec::new() }
    }

    /// The index of the first entry of `a`, if any.
    fn find(&self, a: AccountId) -> (r: Option<usize>)
        ensures
            match r {
                Some(i) => i < self.entries@.len() && self.entries@[i as int].0 == a && forall|j: int|
                    0 <= j < i ==> self.entries@[j].0 != a,
                None => forall|j: int| 0 <= j < self.entries@.len() ==> self.entries@[j].0 != a,
            },
            r is None ==> balance_in(self.entries@, a) == 0,
            r matches Some(i) ==> balance_in(self.entries@, a) == self.entries@[i as int].1,
    {
        let mut i: usize = 0;
        assert(self.entries@.subrange(0, self.entries@.len() as int) =~= self.entries@);
        while i < self.entries.len()
            invariant
                i <= self.entries@.len(),
                forall|j: int| 0 <= j < i ==> self.entries@[j].0 != a,
                balance_in(self.entries@, a) == balance_in(
                    self.entries@.subrange(i as int, self.entries@.len() as int),
                    a,
                ),
            decreases self.entries@.len() - i,
        {
            let s = Ghost(self.entries@.subrange(i as int, self.entries@.len() as int));
            assert(s@.drop_first() =~= self.entries@.subrange(i + 1, self.entries@.len() as int));
            if self.entries[i].0 == a {
                return Some(i);
            }
            i = i + 1;
        }
        None
    }

    /// The balance of `a`.
    pub fn free_balance(&self, a: AccountId) -> (r: Balance)
        ensures
            r == self@[a],
    {
        match self.find(a) {
            Some(i) => self.entries[i].1,
            None => 0,
        }
    }

    /// Sets the balance of `a` to `v`, leaving every other balance as it was.
    pub fn make_free_balance_be(&mut self, a: AccountId, v: Balance)
        ensures
            final(self)@ == old(self)@.insert(a, v),
    {
        let ghost s = self.entries@;
        match self.find(a) {
            Some(i) => {
                self.entries.set(i, (a, v));
                proof {
                    assert forall|b: AccountId| balance_in(self.entries@, b) == if b == a {
                        v
                    } else {
                        balance_in(s, b)
                    } by {
                        lemma_balance_update(s, i as int, a, v, b);
                    }
                }
            },
            None => {
                self.entries.push((a, v));
                proof {
                    assert forall|b: AccountId| balance_in(self.entries@, b) == if b == a {
                        v
                    } else {
                        balance_in(s, b)
                    } by {
                        lemma_balance_push(s, a, v, b);
                    }
                }
            },
        }
        assert(self@ =~= old(self)@.insert(a, v));
    }

    /// Moves `v` from `from` to `to`. Nothing changes when the transfer is refused.
    pub fn transfer(&mut self, from: AccountId, to: AccountId, v: Balance) -> (r: Result<
        (),
        LedgerError,
    >)
        ensures
            match transfer_result(old(self)@, from, to, v) {
                Ok(m) => r is Ok && final(self)@ == m,
                Err(e) => r == Err::<(), LedgerError>(e) && final(self)@ == old(self)@,
            },
    {
        if v == 0 || from == to {
            return Ok(());
        }
        let from_balance = self.free_balance(from);
        if from_balance < v {
            return Err(LedgerError::InsufficientBalance);
        }
        let to_balance = self.free_balance(to);
        if to_balance > u128::MAX - v {
            return Err(LedgerError::Overflow);
        }
        self.make_free_balance_be(from, from_balance - v);
        self.make_free_balance_be(to, to_balance + v);
        Ok(())
    }

    /// A copy of this ledger, with the same balances.
    pub fn snapshot(&self) -> (r: Ledger)
        ensures
            r@ == self@,
    {
        let mut entries: Vec<(AccountId, Balance)> = Vec::new();
        let mut i: usize = 0;
        while i < self.entries.len()
            invariant
                i <= self.entries@.len(),
                entries@ =~= self.entries@.take(i as int),
            decreases self.entries@.len() - i,
        {
            entries.push(self.entries[i]);
            i = i + 1;
            assert(entries@ =~= self.entries@.take(i as int));
        }
        assert(entries@ =~= self.entries@);
        let r = Ledger { entries };
        assert(r@ =~= self@);
        r
    }
}

} // verus!
