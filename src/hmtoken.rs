use vstd::prelude::*;
use crate::ledger::{AccountId, Balance, Ledger};
use crate::payout::{saturated, sum_exceeds, total};

verus! {

broadcast use Ledger::lemma_total;

/// What the token reports to observers.
#[derive(Clone, Copy, Debug, PartialEq, Eq, Structural)]
pub enum TokenEvent {
    /// Value moved: sender, receiver, amount.
    Transferred(AccountId, AccountId, Balance),
    /// A bulk transfer was made: its id, how many transfers succeeded and how many failed.
    BulkTransfer(u128, u32, u32),
}

/// Why a token transfer was refused.
#[derive(Clone, Copy, Debug, PartialEq, Eq, Structural)]
pub enum TokenError {
    /// The amount is zero.
    AmountZero,
    /// The sender holds less than the amount.
    BalanceLow,
    /// The balance is zero.
    BalanceZero,
    /// The recipients and values of a bulk transfer differ in number.
    MismatchBulkTransfer,
    /// A bulk transfer names more recipients than allowed.
    TooManyTos,
    /// A bulk transfer moves more value than allowed.
    TransferTooBig,
}

/// The limits under which the token runs.
#[derive(Clone, Copy, Debug, PartialEq, Eq, Structural)]
pub struct TokenConfig {
    /// The most recipients that one bulk transfer may name.
    pub bulk_accounts_limit: usize,
    /// The most value that one bulk transfer may move.
    pub bulk_balance_limit: Balance,
}

/// The balances after a token transfer of `v` from `from` to `to`, or why it is refused.
/// The receiver's balance saturates at the largest balance.
pub open spec fn token_transfer_result(
    m: Map<AccountId, Balance>,
    from: AccountId,
    to: AccountId,
    v: Balance,
) -> Result<Map<AccountId, Balance>, TokenError> {
    if v == 0 {
        Err(TokenError::AmountZero)
    } else if m[from] < v {
        Err(TokenError::BalanceLow)
    } else {
        let m1 = m.insert(from, (m[from] - v) as Balance);
        Ok(m1.insert(to, saturated(m1[to] + v)))
    }
}

/// The balances after the first `n` token transfers from `from`, to `tos[i]` of `vs[i]`,
/// in order; or the error of the first that is refused.
pub open spec fn token_transfers_result(
    m: Map<AccountId, Balance>,
    from: AccountId,
    tos: Seq<AccountId>,
    vs: Seq<Balance>,
    n: nat,
) -> Result<Map<AccountId, Balance>, TokenError>
    decreases n,
{
    if n == 0 {
        Ok(m)
    } else {
        match token_transfers_result(m, from, tos, vs, (n - 1) as nat) {
            Ok(m1) => token_transfer_result(m1, from, tos[n - 1], vs[n - 1]),
            Err(e) => Err(e),
        }
    }
}

/// The balances after a token bulk transfer under `config`, or why it is refused.
pub open spec fn token_bulk_result(
    config: TokenConfig,
    m: Map<AccountId, Balance>,
    from: AccountId,
    tos: Seq<AccountId>,
    vs: Seq<Balance>,
) -> Result<Map<AccountId, Balance>, TokenError> {
    if tos.len() > config.bulk_accounts_limit {
        Err(TokenError::TooManyTos)
    } else if tos.len() != vs.len() {
        Err(TokenError::MismatchBulkTransfer)
    } else if total(vs) > config.bulk_balance_limit {
        Err(TokenError::TransferTooBig)
    } else {
        token_transfers_result(m, from, tos, vs, tos.len())
    }
}

/// The `Transferred` events of the first `n` transfers of a bulk transfer.
pub open spec fn transferred_events(from: AccountId, tos: Seq<AccountId>, vs: Seq<Balance>, n: nat) -> Seq<
    TokenEvent,
> {
    Seq::new(n, |i: int| TokenEvent::Transferred(from, tos[i], vs[i]))
}

proof fn lemma_token_transfers_refused(
    m: Map<AccountId, Balance>,
    from: AccountId,
    tos: Seq<AccountId>,
    vs: Seq<Balance>,
    k: nat,
    n: nat,
)
    requires
        k <= n,
        token_transfers_result(m, from, tos, vs, k) is Err,
    ensures
        token_transfers_result(m, from, tos, vs, n) == token_transfers_result(m, from, tos, vs, k),
    decreases n - k,
{
    if k < n {
        lemma_token_transfers_refused(m, from, tos, vs, k, (n - 1) as nat);
    }
}

/// A fungible token: balances, supply, name, symbol and decimals, with plain and bulk
/// transfers.
pub struct Module {
    config: TokenConfig,
    balances: Ledger,
    total_supply: Balance,
    name: Vec<u8>,
    symbol: Vec<u8>,
    decimals: u8,
    events: Vec<TokenEvent>,
}

impl Module {
    /// The limits the token runs under.
    pub closed spec fn limits(&self) -> TokenConfig {
        self.config
    }

    /// Every account's balance.
    pub closed spec fn balances(&self) -> Map<AccountId, Balance> {
        self.balances@
    }

    /// The events reported so far, oldest first.
    pub closed spec fn log(&self) -> Seq<TokenEvent> {
        self.events@
    }

    /// The token's fixed description: supply, name, symbol and decimals.
    pub closed spec fn description(&self) -> (Balance, Seq<u8>, Seq<u8>, u8) {
        (self.total_supply, self.name@, self.symbol@, self.decimals)
    }

    /// A token whose whole `total_supply` belongs to `initial_account`.
    pub fn new(
        config: TokenConfig,
        total_supply: Balance,
        name: Vec<u8>,
        symbol: Vec<u8>,
        decimals: u8,
        initial_account: AccountId,
    ) -> (r: Module)
        ensures
            r.limits() == config,
            r.description() == (total_supply, name@, symbol@, decimals),
            r.balances()[initial_account] == total_supply,
            forall|a: AccountId| a != initial_account ==> r.balances()[a] == 0,
            r.log() == Seq::<TokenEvent>::empty(),
    {
        let mut balances = Ledger::new();
        balances.make_free_balance_be(initial_account, total_supply);
        Module { config, balances, total_supply, name, symbol, decimals, events: Vec::new() }
    }

    /// The balance of `a`.
    pub fn balance(&self, a: AccountId) -> (r: Balance)
        ensures
            r == self.balances()[a],
    {
        self.balances.free_balance(a)
    }

    /// The total supply given at creation.
    pub fn total_supply(&self) -> (r: Balance)
        ensures
            r == self.description().0,
    {
        self.total_supply
    }

    /// The token's name.
    pub fn name(&self) -> (r: &Vec<u8>)
        ensures
            r@ == self.description().1,
    {
        &self.name
    }

    /// The token's symbol.
    pub fn symbol(&self) -> (r: &Vec<u8>)
        ensures
            r@ == self.description().2,
    {
        &self.symbol
    }

    /// The token's number of decimals.
    pub fn decimals(&self) -> (r: u8)
        ensures
            r == self.description().3,
    {
        self.decimals
    }

    /// The events reported so far, oldest first.
    pub fn events(&self) -> (r: &Vec<TokenEvent>)
        ensures
            r@ == self.log(),
    {
        &self.events
    }

    /// Moves `value` from `from` to `to` in `ledger`.
    fn move_value(ledger: &mut Ledger, from: AccountId, to: AccountId, value: Balance) -> (r: Result<(), TokenError>)
        ensures
            match token_transfer_result(old(ledger)@, from, to, value) {
                Ok(m) => r is Ok && final(ledger)@ == m,
                Err(e) => r == Err::<(), TokenError>(e) && *final(ledger) == *old(ledger),
            },
    {
        if value == 0 {
            return Err(TokenError::AmountZero);
        }
        let from_balance = ledger.free_balance(from);
        if from_balance < value {
            return Err(TokenError::BalanceLow);
        }
        ledger.make_free_balance_be(from, from_balance.saturating_sub(value));
        let to_balance = ledger.free_balance(to);
        ledger.make_free_balance_be(to, to_balance.saturating_add(value));
        Ok(())
    }

    /// Moves `value` from `from` to `to` and reports a `Transferred` event. Refused for a
    /// zero amount or where `from` holds less than `value`.
    pub fn do_transfer(&mut self, from: AccountId, to: AccountId, value: Balance) -> (r: Result<(), TokenError>)
        ensures
            match token_transfer_result(old(self).balances(), from, to, value) {
                Ok(m) => r is Ok && final(self).balances() == m && final(self).log() == old(
                    self,
                ).log().push(TokenEvent::Transferred(from, to, value)),
                Err(e) => r == Err::<(), TokenError>(e) && *final(self) == *old(self),
            },
            final(self).limits() == old(self).limits(),
            final(self).description() == old(self).description(),
    {
        match Self::move_value(&mut self.balances, from, to, value) {
            Ok(()) => {},
            Err(e) => return Err(e),
        }
        self.events.push(TokenEvent::Transferred(from, to, value));
        Ok(())
    }

    /// The transfer call of a signed `who`: moves `value` from `who` to `to`.
    pub fn transfer(&mut self, who: AccountId, to: AccountId, value: Balance) -> (r: Result<(), TokenError>)
        ensures
            match token_transfer_result(old(self).balances(), who, to, value) {
                Ok(m) => r is Ok && final(self).balances() == m && final(self).log() == old(
                    self,
                ).log().push(TokenEvent::Transferred(who, to, value)),
                Err(e) => r == Err::<(), TokenError>(e) && *final(self) == *old(self),
            },
            final(self).limits() == old(self).limits(),
            final(self).description() == old(self).description(),
    {
        self.do_transfer(who, to, value)
    }

    /// Moves `values[i]` from `from` to `tos[i]` for each `i` in order, all or nothing,
    /// reporting a `Transferred` event for each. Refused where there are more recipients
    /// than the limit allows, where the two lists differ in length, or where the values
    /// sum to more than the limit allows.
    pub fn do_transfer_bulk(&mut self, from: AccountId, tos: Vec<AccountId>, values: Vec<Balance>) -> (r:
        Result<(), TokenError>)
        ensures
            match token_bulk_result(old(self).limits(), old(self).balances(), from, tos@, values@) {
                Ok(m) => r is Ok && final(self).balances() == m && final(self).log() == old(
                    self,
                ).log() + transferred_events(from, tos@, values@, tos@.len()),
                Err(e) => r == Err::<(), TokenError>(e) && *final(self) == *old(self),
            },
            final(self).limits() == old(self).limits(),
            final(self).description() == old(self).description(),
    {
        if tos.len() > self.config.bulk_accounts_limit {
            return Err(TokenError::TooManyTos);
        }
        if tos.len() != values.len() {
            return Err(TokenError::MismatchBulkTransfer);
        }
        if sum_exceeds(values.as_slice(), self.config.bulk_balance_limit) {
            return Err(TokenError::TransferTooBig);
        }
        let mut staged = self.balances.snapshot();
        let mut reported: Vec<TokenEvent> = Vec::new();
        let mut i: usize = 0;
        while i < tos.len()
            invariant
                i <= tos@.len(),
                tos@.len() == values@.len(),
                tos@.len() <= self.limits().bulk_accounts_limit,
                total(values@) <= self.limits().bulk_balance_limit,
                *self == *old(self),
                token_transfers_result(old(self).balances(), from, tos@, values@, i as nat) == Ok::<
                    Map<AccountId, Balance>,
                    TokenError,
                >(staged@),
                reported@ =~= transferred_events(from, tos@, values@, i as nat),
            decreases tos@.len() - i,
        {
            match Self::move_value(&mut staged, from, tos[i], values[i]) {
                Ok(()) => {},
                Err(e) => {
                    proof {
                        assert(token_transfers_result(old(self).balances(), from, tos@, values@, (i + 1) as nat)
                            == Err::<Map<AccountId, Balance>, TokenError>(e));
                        lemma_token_transfers_refused(
                            old(self).balances(),
                            from,
                            tos@,
                            values@,
                            (i + 1) as nat,
                            tos@.len(),
                        );
                    }
                    return Err(e);
                },
            }
            reported.push(TokenEvent::Transferred(from, tos[i], values[i]));
            i = i + 1;
            assert(reported@ =~= transferred_events(from, tos@, values@, i as nat));
        }
        self.balances = staged;
        self.events.append(&mut reported);
        Ok(())
    }

    /// The bulk transfer call of a signed `who`, under the id `tx_id`: on success reports a
    /// `BulkTransfer` event that counts every transfer as done and none as failed.
    pub fn transfer_bulk(&mut self, who: AccountId, tos: Vec<AccountId>, values: Vec<Balance>, tx_id: u128) -> (r:
        Result<(), TokenError>)
        ensures
            match token_bulk_result(old(self).limits(), old(self).balances(), who, tos@, values@) {
                Ok(m) => r is Ok && final(self).balances() == m && final(self).log() == (old(
                    self,
                ).log() + transferred_events(who, tos@, values@, tos@.len())).push(
                    TokenEvent::BulkTransfer(
                        tx_id,
                        if tos@.len() > u32::MAX {
                            u32::MAX
                        } else {
                            tos@.len() as u32
                        },
                        0,
                    ),
                ),
                Err(e) => r == Err::<(), TokenError>(e) && *final(self) == *old(self),
            },
            final(self).limits() == old(self).limits(),
            final(self).description() == old(self).description(),
    {
        let n = tos.len();
        match self.do_transfer_bulk(who, tos, values) {
            Ok(()) => {},
            Err(e) => return Err(e),
        }
        let count: u32 = if n > u32::MAX as usize {
            u32::MAX
        } else {
            n as u32
        };
        self.events.push(TokenEvent::BulkTransfer(tx_id, count, 0));
        Ok(())
    }
}

} // verus!
