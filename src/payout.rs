use vstd::prelude::*;
use crate::ledger::Balance;
use crate::percent::{fee_of, Percent};

verus! {

/// The sum of `s`.
pub open spec fn total(s: Seq<Balance>) -> int
    decreases s.len(),
{
    if s.len() == 0 {
        0
    } else {
        total(s.drop_last()) + s.last()
    }
}

/// The sum of the fees that `percent` takes from each amount of `s` separately.
pub open spec fn fee_total(percent: int, s: Seq<Balance>) -> int
    decreases s.len(),
{
    if s.len() == 0 {
        0
    } else {
        fee_total(percent, s.drop_last()) + fee_of(percent, s.last() as int)
    }
}

/// `x`, clamped to the largest balance.
pub open spec fn saturated(x: int) -> Balance {
    if x > u128::MAX {
        u128::MAX
    } else {
        x as Balance
    }
}

/// What remains of amount `a` after both oracle fees; zero where the fees exceed it.
pub open spec fn net_of(reputation: int, recording: int, a: Balance) -> Balance {
    let f = fee_of(reputation, a as int) + fee_of(recording, a as int);
    if f <= a {
        (a - f) as Balance
    } else {
        0
    }
}

/// The amounts that each recipient receives, in order.
pub open spec fn nets_of(reputation: int, recording: int, s: Seq<Balance>) -> Seq<Balance> {
    s.map_values(|a: Balance| net_of(reputation, recording, a))
}

/// Whether the sum of `amounts` exceeds `limit`.
pub fn sum_exceeds(amounts: &[Balance], limit: Balance) -> (r: bool)
    ensures
        r == (total(amounts@) > limit),
{
    let mut acc: Balance = 0;
    let mut i: usize = 0;
    while i < amounts.len()
        invariant
            i <= amounts@.len(),
            acc == total(amounts@.take(i as int)),
            acc <= limit,
        decreases amounts@.len() - i,
    {
        assert(amounts@.take(i + 1).drop_last() =~= amounts@.take(i as int));
        if amounts[i] > limit - acc {
            proof {
                lemma_total_prefix_grows(amounts@, i as int + 1);
            }
            return true;
        }
        acc = acc + amounts[i];
        i = i + 1;
    }
    assert(amounts@.take(i as int) =~= amounts@);
    false
}

/// A sum of balances never shrinks as the sequence grows.
proof fn lemma_total_prefix_grows(s: Seq<Balance>, n: int)
    requires
        0 <= n <= s.len(),
    ensures
        total(s.take(n)) <= total(s),
    decreases s.len() - n,
{
    if n < s.len() {
        lemma_total_prefix_grows(s, n + 1);
        assert(s.take(n + 1).drop_last() =~= s.take(n));
    } else {
        assert(s.take(n) =~= s);
    }
}

/// Splits each amount into the reputation oracle's fee, the recording oracle's fee and
/// what remains for the recipient, rounding each fee down per amount.
///
/// Returns the two fee totals, each clamped to the largest balance, and the net amounts.
pub fn finalize_payouts(
    reputation_stake: Percent,
    recording_stake: Percent,
    amounts: &[Balance],
) -> (r: (Balance, Balance, Vec<Balance>))
    ensures
        r.0 == saturated(fee_total(reputation_stake.value() as int, amounts@)),
        r.1 == saturated(fee_total(recording_stake.value() as int, amounts@)),
        r.2@ == nets_of(reputation_stake.value() as int, recording_stake.value() as int, amounts@),
{
    let ghost rep = reputation_stake.value() as int;
    let ghost rec = recording_stake.value() as int;
    let mut reputation_fee_total: Balance = 0;
    let mut recording_fee_total: Balance = 0;
    let mut final_amounts: Vec<Balance> = Vec::new();
    let mut i: usize = 0;
    while i < amounts.len()
        invariant
            i <= amounts@.len(),
            reputation_fee_total == saturated(fee_total(rep, amounts@.take(i as int))),
            recording_fee_total == saturated(fee_total(rec, amounts@.take(i as int))),
            final_amounts@ =~= nets_of(rep, rec, amounts@.take(i as int)),
            fee_total(rep, amounts@.take(i as int)) >= 0,
            fee_total(rec, amounts@.take(i as int)) >= 0,
            rep == reputation_stake.value(),
            rec == recording_stake.value(),
        decreases amounts@.len() - i,
    {
        let amount = amounts[i];
        let reputation_fee = reputation_stake.mul_floor(amount);
        let recording_fee = recording_stake.mul_floor(amount);
        let amount_without_fee = amount.saturating_sub(reputation_fee).saturating_sub(recording_fee);
        reputation_fee_total = reputation_fee_total.saturating_add(reputation_fee);
        recording_fee_total = recording_fee_total.saturating_add(recording_fee);
        final_amounts.push(amount_without_fee);
        proof {
            assert(amounts@.take(i + 1).drop_last() =~= amounts@.take(i as int));
            assert(amounts@.take(i + 1).last() == amount);
            assert(0 <= fee_of(rep, amount as int) && 0 <= fee_of(rec, amount as int)) by (nonlinear_arith)
                requires 0 <= rep, 0 <= rec, amount >= 0;
        }
        i = i + 1;
    }
    assert(amounts@.take(i as int) =~= amounts@);
    (reputation_fee_total, recording_fee_total, final_amounts)
}

/// Bounds on one amount's fee: it rounds `amount * percent / 100` down by less than one unit.
proof fn lemma_fee_bounds(percent: int, amount: int)
    requires
        0 <= percent <= 100,
        0 <= amount,
    ensures
        0 <= 100 * fee_of(percent, amount) <= amount * percent,
        amount * percent < 100 * (fee_of(percent, amount) + 1),
{
    assert(0 <= 100 * ((amount * percent) / 100) <= amount * percent) by (nonlinear_arith)
        requires 0 <= percent, 0 <= amount;
    assert(amount * percent < 100 * ((amount * percent) / 100 + 1)) by (nonlinear_arith)
        requires 0 <= percent, 0 <= amount;
}

/// Two fees that together take at most the whole percentage never exceed the amount.
proof fn lemma_fees_fit(reputation: int, recording: int, amount: int)
    requires
        0 <= reputation,
        0 <= recording,
        reputation + recording <= 100,
        0 <= amount,
    ensures
        fee_of(reputation, amount) + fee_of(recording, amount) <= amount,
{
    lemma_fee_bounds(reputation, amount);
    lemma_fee_bounds(recording, amount);
    assert(amount * reputation + amount * recording <= amount * 100) by (nonlinear_arith)
        requires 0 <= amount, 0 <= reputation, 0 <= recording, reputation + recording <= 100;
}

/// Conservation of a fee split, over the first `n` amounts, with the rounding bound.
proof fn lemma_split_conserves(reputation: int, recording: int, s: Seq<Balance>)
    requires
        0 <= reputation,
        0 <= recording,
        reputation + recording <= 100,
    ensures
        fee_total(reputation, s) + fee_total(recording, s) + total(
            nets_of(reputation, recording, s),
        ) == total(s),
        100 * (fee_total(reputation, s) + fee_total(recording, s)) <= (reputation + recording)
            * total(s),
        (reputation + recording) * total(s) < 100 * (fee_total(reputation, s) + fee_total(
            recording,
            s,
        ) + 2 * s.len()) || s.len() == 0,
        0 <= fee_total(reputation, s),
        0 <= fee_total(recording, s),
    decreases s.len(),
{
    if s.len() > 0 {
        let p = s.drop_last();
        let a = s.last();
        lemma_split_conserves(reputation, recording, p);
        assert(nets_of(reputation, recording, s).drop_last() =~= nets_of(reputation, recording, p));
        lemma_fee_bounds(reputation, a as int);
        lemma_fee_bounds(recording, a as int);
        lemma_fees_fit(reputation, recording, a as int);
        let fr = fee_of(reputation, a as int);
        let fc = fee_of(recording, a as int);
        let tp = total(p);
        assert((reputation + recording) * (tp + a) == (reputation + recording) * tp + a * reputation
            + a * recording) by (nonlinear_arith);
    }
}

/// The fee split conserves value: for amounts whose sum is a balance and stakes that
/// together take at most 100%, the two oracle fee totals and the net amounts add up to
/// exactly the sum of the amounts. Each fee total is rounded down from
/// `stake * sum / 100`, and the two together lose less than two units per amount.
/// Every call of `bulk_payout` that succeeds meets both conditions.
pub proof fn lemma_payout_conserves(reputation_stake: Percent, recording_stake: Percent, amounts: Seq<Balance>)
    requires
        reputation_stake.value() + recording_stake.value() <= 100,
        total(amounts) <= u128::MAX,
    ensures
        ({
            let rep = reputation_stake.value() as int;
            let rec = recording_stake.value() as int;
            &&& saturated(fee_total(rep, amounts)) + saturated(fee_total(rec, amounts)) + total(
                nets_of(rep, rec, amounts),
            ) == total(amounts)
            &&& 100 * saturated(fee_total(rep, amounts)) <= rep * total(amounts)
            &&& 100 * saturated(fee_total(rec, amounts)) <= rec * total(amounts)
            &&& amounts.len() > 0 ==> (rep + rec) * total(amounts) < 100 * (saturated(
                fee_total(rep, amounts),
            ) + saturated(fee_total(rec, amounts)) + 2 * amounts.len())
        }),
{
    let rep = reputation_stake.value() as int;
    let rec = recording_stake.value() as int;
    lemma_fee_total_zero(amounts);
    lemma_split_conserves(rep, rec, amounts);
    lemma_split_conserves(rep, 0, amounts);
    lemma_split_conserves(0, rec, amounts);
    lemma_total_nonneg(nets_of(rep, rec, amounts));
}

/// A sum of balances is never negative.
proof fn lemma_total_nonneg(s: Seq<Balance>)
    ensures
        total(s) >= 0,
    decreases s.len(),
{
    if s.len() > 0 {
        lemma_total_nonneg(s.drop_last());
    }
}

/// A zero percentage takes nothing.
proof fn lemma_fee_total_zero(s: Seq<Balance>)
    ensures
        fee_total(0, s) == 0,
    decreases s.len(),
{
    if s.len() > 0 {
        lemma_fee_total_zero(s.drop_last());
    }
}

} // verus!
