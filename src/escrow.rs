use vstd::prelude::*;
use crate::ledger::{AccountId, Balance, EscrowId, Ledger, LedgerError, transfer_result, transfers_result};
use crate::payout::{fee_total, finalize_payouts, nets_of, saturated, sum_exceeds, total};
use crate::percent::Percent;
use crate::registry::{
    handler_count, principals_of, registry_add, registry_contains, registry_copy, registry_count, registry_without,
    with_handlers, without_escrow,
};

verus! {

broadcast use Ledger::lemma_total;

/// A point in time, as the time source reports it.
pub type Moment = u64;

/// The status of an escrow.
///
/// ```text
///    | create
///    v
/// Pending --> Partial --> Paid --> Complete
///    |           |
///    +-----------+----> Cancelled
/// ```
/// A payout that spends the whole balance takes `Pending` straight to `Paid`.
#[derive(Clone, Copy, Debug, PartialEq, Eq, Structural)]
pub enum EscrowStatus {
    /// Created and open for results; may be cancelled.
    Pending,
    /// Part of the balance has been paid out.
    Partial,
    /// The whole balance has been paid out.
    Paid,
    /// Marked complete; nothing can change it any more.
    Complete,
    /// Cancelled, with its balance refunded.
    Cancelled,
}

/// The configuration and state of one escrow.
#[derive(Clone, Debug, PartialEq, Eq)]
pub struct EscrowInfo {
    /// Current status; `Pending` at creation.
    pub status: EscrowStatus,
    /// The escrow is open strictly before this time.
    pub end_time: Moment,
    /// Where the manifest that describes the task is found.
    pub manifest_url: Vec<u8>,
    pub manifest_hash: Vec<u8>,
    pub reputation_oracle: AccountId,
    pub recording_oracle: AccountId,
    /// The share of each payout amount that goes to the reputation oracle.
    pub reputation_oracle_stake: Percent,
    /// The share of each payout amount that goes to the recording oracle.
    pub recording_oracle_stake: Percent,
    /// Receives the balance on cancel and abort.
    pub canceller: AccountId,
    /// The custodial account that holds the escrow's funds.
    pub account: AccountId,
}

/// Where the final results of an escrow are found.
#[derive(Clone, Debug, PartialEq, Eq)]
pub struct ResultInfo {
    pub results_url: Vec<u8>,
    pub results_hash: Vec<u8>,
}

/// What the escrow module reports to observers.
#[derive(Clone, Debug, PartialEq, Eq)]
pub enum Event {
    /// An escrow was created: id, creator, manifest url, manifest hash, custodial account.
    Pending(EscrowId, AccountId, Vec<u8>, Vec<u8>, AccountId),
    /// Intermediate results can be found at the given url: id, url, hash.
    IntermediateResults(EscrowId, Vec<u8>, Vec<u8>),
    /// A bulk payout was made from the escrow with this id.
    BulkPayout(EscrowId),
}

/// Why an escrow operation was refused.
#[derive(Clone, Copy, Debug, PartialEq, Eq, Structural)]
pub enum Error {
    /// The two oracle stakes together exceed 100%.
    StakeOutOfBounds,
    /// A time or counter would leave its range.
    Overflow,
    /// No escrow is stored under the id.
    MissingEscrow,
    /// The caller is not a trusted handler of the escrow.
    NonTrustedAccount,
    /// The custodial account holds too little.
    OutOfFunds,
    /// The escrow has reached its end time.
    EscrowExpired,
    /// The escrow is not `Paid`.
    EscrowNotPaid,
    /// The escrow's status does not allow the operation.
    EscrowClosed,
    /// The recipients and amounts of a bulk transfer differ in number.
    MismatchBulkTransfer,
    /// A bulk transfer names more recipients than allowed.
    TooManyTos,
    /// A bulk transfer moves more value than allowed.
    TransferTooBig,
    /// A byte string is longer than allowed.
    StringSize,
    /// An escrow would get more trusted handlers than allowed.
    TooManyHandlers,
    /// The ledger refused a transfer.
    Transfer(LedgerError),
}

/// The limits under which the escrow module runs.
#[derive(Clone, Copy, Debug, PartialEq, Eq, Structural)]
pub struct Config {
    /// How long an escrow stays open after its creation.
    pub standard_duration: Moment,
    /// The longest byte string accepted as url or hash.
    pub string_limit: usize,
    /// The most value that one bulk transfer may move.
    pub bulk_balance_limit: Balance,
    /// The most recipients that one bulk transfer may name.
    pub bulk_accounts_limit: usize,
    /// The most trusted handlers that `add_trusted_handlers` lets an escrow have.
    pub handlers_limit: u32,
}

/// The custodial account of escrow `id`.
pub open spec fn custodial_account(id: EscrowId) -> AccountId {
    AccountId::Escrow(id)
}

/// Whether the state machine may take an escrow from status `from` to status `to` in one
/// operation: staying, or one of the edges of the status graph.
pub open spec fn transition_allowed(from: EscrowStatus, to: EscrowStatus) -> bool {
    from == to || match (from, to) {
        (EscrowStatus::Pending, EscrowStatus::Partial) => true,
        (EscrowStatus::Pending, EscrowStatus::Paid) => true,
        (EscrowStatus::Partial, EscrowStatus::Paid) => true,
        (EscrowStatus::Paid, EscrowStatus::Complete) => true,
        (EscrowStatus::Pending, EscrowStatus::Cancelled) => true,
        (EscrowStatus::Partial, EscrowStatus::Cancelled) => true,
        _ => false,
    }
}

/// Whether an escrow in status `s` is open for results and payouts.
pub open spec fn is_open_status(s: EscrowStatus) -> bool {
    s == EscrowStatus::Pending || s == EscrowStatus::Partial
}

/// The status after a payout that leaves `remaining` in the custodial account.
pub open spec fn status_after_payout(s: EscrowStatus, remaining: Balance) -> EscrowStatus {
    if remaining == 0 {
        EscrowStatus::Paid
    } else if s == EscrowStatus::Pending {
        EscrowStatus::Partial
    } else {
        s
    }
}

/// The escrow error for a refused ledger result.
pub open spec fn lift(r: Result<Map<AccountId, Balance>, LedgerError>) -> Result<Map<AccountId, Balance>, Error> {
    match r {
        Ok(m) => Ok(m),
        Err(e) => Err(Error::Transfer(e)),
    }
}

/// The balances after a bulk transfer from `from` under `config`, or why it is refused.
pub open spec fn bulk_result(
    config: Config,
    m: Map<AccountId, Balance>,
    from: AccountId,
    tos: Seq<AccountId>,
    values: Seq<Balance>,
) -> Result<Map<AccountId, Balance>, Error> {
    if tos.len() > config.bulk_accounts_limit {
        Err(Error::TooManyTos)
    } else if tos.len() != values.len() {
        Err(Error::MismatchBulkTransfer)
    } else if total(values) > config.bulk_balance_limit {
        Err(Error::TransferTooBig)
    } else {
        lift(transfers_result(m, from, tos, values, tos.len()))
    }
}

/// The balances after paying `amounts` to `recipients` out of escrow `e`, or the error
/// that stops it. The recipient and net amount lists are checked first, before any
/// transfer; then the two oracle fee totals are paid, then each net amount in order.
pub open spec fn payout_result(
    config: Config,
    m: Map<AccountId, Balance>,
    e: EscrowInfo,
    recipients: Seq<AccountId>,
    amounts: Seq<Balance>,
) -> Result<Map<AccountId, Balance>, Error> {
    let rep = e.reputation_oracle_stake.value() as int;
    let rec = e.recording_oracle_stake.value() as int;
    let nets = nets_of(rep, rec, amounts);
    if recipients.len() > config.bulk_accounts_limit {
        Err(Error::TooManyTos)
    } else if recipients.len() != nets.len() {
        Err(Error::MismatchBulkTransfer)
    } else if total(nets) > config.bulk_balance_limit {
        Err(Error::TransferTooBig)
    } else {
        match transfer_result(m, e.account, e.reputation_oracle, saturated(fee_total(rep, amounts))) {
            Err(x) => Err(Error::Transfer(x)),
            Ok(m1) => match transfer_result(
                m1,
                e.account,
                e.recording_oracle,
                saturated(fee_total(rec, amounts)),
            ) {
                Err(x) => Err(Error::Transfer(x)),
                Ok(m2) => lift(transfers_result(m2, e.account, recipients, nets, recipients.len())),
            },
        }
    }
}

/// Once a transfer in a sequence is refused, the sequence stays refused with that error.
proof fn lemma_transfers_refused(
    m: Map<AccountId, Balance>,
    from: AccountId,
    tos: Seq<AccountId>,
    vs: Seq<Balance>,
    k: nat,
    n: nat,
)
    requires
        k <= n,
        transfers_result(m, from, tos, vs, k) is Err,
    ensures
        transfers_result(m, from, tos, vs, n) == transfers_result(m, from, tos, vs, k),
    decreases n - k,
{
    if k < n {
        lemma_transfers_refused(m, from, tos, vs, k, (n - 1) as nat);
    }
}

/// The escrow module: escrows by id, their results, the trust registry, the id counter
/// and the log of events. Funds live in a `Ledger` that each operation is handed.
pub struct Module {
    config: Config,
    counter: EscrowId,
    escrows: Vec<Option<EscrowInfo>>,
    final_results: Vec<Option<ResultInfo>>,
    trusted: Vec<(EscrowId, AccountId)>,
    events: Vec<Event>,
}

impl Module {
    /// The limits this module runs under.
    pub closed spec fn limits(&self) -> Config {
        self.config
    }

    /// The id the next created escrow gets.
    pub closed spec fn next_id(&self) -> EscrowId {
        self.counter
    }

    /// The escrow stored under `id`, if any.
    pub closed spec fn stored(&self, id: EscrowId) -> Option<EscrowInfo> {
        if id < self.escrows@.len() {
            self.escrows@[id as int]
        } else {
            None
        }
    }

    /// The final results stored for escrow `id`, if any.
    pub closed spec fn stored_results(&self, id: EscrowId) -> Option<ResultInfo> {
        if id < self.final_results@.len() {
            self.final_results@[id as int]
        } else {
            None
        }
    }

    /// The trust registry: each entry trusts one principal for one escrow.
    pub closed spec fn registry(&self) -> Seq<(EscrowId, AccountId)> {
        self.trusted@
    }

    /// Whether `a` is a trusted handler of escrow `id`.
    pub open spec fn is_trusted(&self, id: EscrowId, a: AccountId) -> bool {
        self.registry().contains((id, a))
    }

    /// The principals that the registry trusts for escrow `id`.
    pub open spec fn handlers_of(&self, id: EscrowId) -> Set<AccountId> {
        principals_of(self.registry(), id)
    }

    /// How many principals the registry trusts for escrow `id`.
    pub open spec fn registry_size(&self, id: EscrowId) -> nat {
        self.handlers_of(id).len()
    }

    /// The events reported so far, oldest first.
    pub closed spec fn log(&self) -> Seq<Event> {
        self.events@
    }

    /// The module's own invariant: ids are slots below the counter, the registry holds
    /// no entry twice, and each stored escrow sits in its own custodial account and has stakes that sum to at most 100%.
    pub closed spec fn wf(&self) -> bool {
        &&& self.escrows@.len() == self.counter
        &&& self.final_results@.len() == self.counter
        &&& self.trusted@.no_duplicates()
        &&& forall|i: int|
            0 <= i < self.escrows@.len() && (#[trigger] self.escrows@[i]) is Some ==> {
                &&& self.escrows@[i].unwrap().account == custodial_account(i as EscrowId)
                &&& self.escrows@[i].unwrap().reputation_oracle_stake.value()
                    + self.escrows@[i].unwrap().recording_oracle_stake.value() <= 100
            }
    }

    /// Every stored escrow holds its funds in the custodial account derived from its id,
    /// and its two oracle stakes together take at most 100%.
    pub proof fn lemma_stored_escrow(&self, id: EscrowId)
        requires
            self.wf(),
            self.stored(id) is Some,
        ensures
            self.stored(id).unwrap().account == custodial_account(id),
            self.stored(id).unwrap().reputation_oracle_stake.value()
                + self.stored(id).unwrap().recording_oracle_stake.value() <= 100,
    {
        assert(self.escrows@[id as int] is Some);
    }

    /// Ids from the counter on are free: no escrow and no results are stored under them.
    pub proof fn lemma_fresh_ids(&self, id: EscrowId)
        requires
            self.wf(),
            id >= self.next_id(),
        ensures
            self.stored(id) is None,
            self.stored_results(id) is None,
    {
    }

    /// The trusted principals of each escrow are finitely many, and the registry holds one
    /// entry for each.
    pub proof fn lemma_registry_size(&self, id: EscrowId)
        requires
            self.wf(),
        ensures
            self.handlers_of(id).finite(),
            self.registry_size(id) == handler_count(self.registry(), id),
    {
        crate::registry::lemma_count_is_principals(self.trusted@, id);
    }

    /// Whether every escrow stored both in `old` and in `self` moved along the status graph.
    pub open spec fn statuses_follow(&self, old: &Module) -> bool {
        forall|id: EscrowId|
            #![trigger self.stored(id)]
            old.stored(id) is Some && self.stored(id) is Some ==> transition_allowed(
                old.stored(id).unwrap().status,
                self.stored(id).unwrap().status,
            )
    }

    /// An empty module under `config`: no escrows, no trust, counter at zero.
    pub fn new(config: Config) -> (r: Module)
        ensures
            r.wf(),
            r.limits() == config,
            r.next_id() == 0,
            forall|id: EscrowId| r.stored(id) is None && r.stored_results(id) is None,
            r.registry() == Seq::<(EscrowId, AccountId)>::empty(),
            r.log() == Seq::<Event>::empty(),
    {
        Module {
            config,
            counter: 0,
            escrows: Vec::new(),
            final_results: Vec::new(),
            trusted: Vec::new(),
            events: Vec::new(),
        }
    }

    /// The limits this module runs under.
    pub fn config(&self) -> (r: Config)
        ensures
            r == self.limits(),
    {
        self.config
    }

    /// The custodial account of escrow `id`.
    pub fn account_id_for(id: EscrowId) -> (r: AccountId)
        ensures
            r == custodial_account(id),
    {
        AccountId::Escrow(id)
    }

    /// The id the next created escrow gets.
    pub fn counter(&self) -> (r: EscrowId)
        ensures
            r == self.next_id(),
    {
        self.counter
    }

    /// The escrow stored under `id`, if any.
    pub fn escrow(&self, id: EscrowId) -> (r: Option<&EscrowInfo>)
        ensures
            match r {
                Some(e) => self.stored(id) == Some(*e),
                None => self.stored(id) is None,
            },
    {
        if id < self.escrows.len() as u128 {
            self.escrows[id as usize].as_ref()
        } else {
            None
        }
    }

    /// The final results stored for escrow `id`, if any.
    pub fn final_results(&self, id: EscrowId) -> (r: Option<&ResultInfo>)
        ensures
            match r {
                Some(x) => self.stored_results(id) == Some(*x),
                None => self.stored_results(id) is None,
            },
    {
        if id < self.final_results.len() as u128 {
            self.final_results[id as usize].as_ref()
        } else {
            None
        }
    }

    /// Whether `a` is a trusted handler of escrow `id`.
    pub fn is_trusted_handler(&self, id: EscrowId, a: AccountId) -> (r: bool)
        ensures
            r == self.is_trusted(id, a),
    {
        registry_contains(&self.trusted, id, a)
    }

    /// How many principals are trusted for escrow `id`.
    pub fn handlers_count(&self, id: EscrowId) -> (r: usize)
        requires
            self.wf(),
        ensures
            r == self.registry_size(id),
    {
        proof {
            self.lemma_registry_size(id);
        }
        registry_count(&self.trusted, id)
    }

    /// The events reported so far, oldest first.
    pub fn events(&self) -> (r: &Vec<Event>)
        ensures
            r@ == self.log(),
    {
        &self.events
    }

    /// Creates an escrow for the manifest at `manifest_url`, with the two oracles and
    /// their stakes. `who` becomes its canceller; `who` and both oracles become trusted
    /// handlers. The escrow is `Pending` and stays open until `now` plus the standard
    /// duration. Returns the new escrow's id and reports a `Pending` event.
    pub fn create(
        &mut self,
        who: AccountId,
        now: Moment,
        manifest_url: Vec<u8>,
        manifest_hash: Vec<u8>,
        reputation_oracle: AccountId,
        recording_oracle: AccountId,
        reputation_oracle_stake: Percent,
        recording_oracle_stake: Percent,
    ) -> (r: Result<EscrowId, Error>)
        requires
            old(self).wf(),
        ensures
            final(self).wf(),
            final(self).limits() == old(self).limits(),
            manifest_url@.len() > old(self).limits().string_limit || manifest_hash@.len()
                > old(self).limits().string_limit ==> r == Err::<EscrowId, Error>(Error::StringSize),
            manifest_url@.len() <= old(self).limits().string_limit && manifest_hash@.len()
                <= old(self).limits().string_limit && reputation_oracle_stake.value()
                + recording_oracle_stake.value() > 100 ==> r == Err::<EscrowId, Error>(
                Error::StakeOutOfBounds,
            ),
            manifest_url@.len() <= old(self).limits().string_limit && manifest_hash@.len()
                <= old(self).limits().string_limit && reputation_oracle_stake.value()
                + recording_oracle_stake.value() <= 100 && now + old(self).limits().standard_duration
                > u64::MAX ==> r == Err::<EscrowId, Error>(Error::Overflow),
            r is Err ==> *final(self) == *old(self),
            r is Ok <==> (manifest_url@.len() <= old(self).limits().string_limit
                && manifest_hash@.len() <= old(self).limits().string_limit
                && reputation_oracle_stake.value() + recording_oracle_stake.value() <= 100 && now
                + old(self).limits().standard_duration <= u64::MAX),
            old(self).stored(old(self).next_id()) is None,
            r is Ok ==> ({
                let id = old(self).next_id();
                let account = custodial_account(id);
                &&& r == Ok::<EscrowId, Error>(id)
                &&& final(self).next_id() == id + 1
                &&& final(self).stored(id) == Some(
                    EscrowInfo {
                        status: EscrowStatus::Pending,
                        end_time: (now + old(self).limits().standard_duration) as Moment,
                        manifest_url,
                        manifest_hash,
                        reputation_oracle,
                        recording_oracle,
                        reputation_oracle_stake,
                        recording_oracle_stake,
                        canceller: who,
                        account,
                    },
                )
                &&& forall|other: EscrowId|
                    other != id ==> final(self).stored(other) == old(self).stored(other)
                &&& forall|other: EscrowId|
                    final(self).stored_results(other) == old(self).stored_results(other)
                &&& final(self).registry() == with_handlers(
                    old(self).registry(),
                    id,
                    seq![recording_oracle, reputation_oracle, who],
                )
                &&& final(self).is_trusted(id, who)
                &&& final(self).is_trusted(id, reputation_oracle)
                &&& final(self).is_trusted(id, recording_oracle)
                &&& final(self).log().drop_last() == old(self).log()
                &&& final(self).log().len() == old(self).log().len() + 1
                &&& final(self).log().last() matches Event::Pending(i, c, u, h, a) && i == id && c
                    == who && u@ == manifest_url@ && h@ == manifest_hash@ && a == account
            }),
            final(self).statuses_follow(old(self)),
    {
        if manifest_url.len() > self.config.string_limit || manifest_hash.len()
            > self.config.string_limit {
            return Err(Error::StringSize);
        }
        let total_stake = reputation_oracle_stake.deconstruct().saturating_add(
            recording_oracle_stake.deconstruct(),
        );
        if total_stake > 100 {
            return Err(Error::StakeOutOfBounds);
        }
        let end_time = match now.checked_add(self.config.standard_duration) {
            Some(t) => t,
            None => return Err(Error::Overflow),
        };
        let id = self.counter;
        let account = Self::account_id_for(id);
        let mut trusted: Vec<AccountId> = Vec::new();
        trusted.push(recording_oracle);
        trusted.push(reputation_oracle);
        trusted.push(who);
        registry_add(&mut self.trusted, id, &trusted);
        proof {
            assert(trusted@ =~= seq![recording_oracle, reputation_oracle, who]);
            assert(trusted@[0] == recording_oracle && trusted@[1] == reputation_oracle
                && trusted@[2] == who);
            crate::registry::lemma_with_handlers_contains(
                old(self).trusted@,
                id,
                trusted@,
                (id, who),
            );
            crate::registry::lemma_with_handlers_no_dup(old(self).trusted@, id, trusted@);
            crate::registry::lemma_with_handlers_contains(
                old(self).trusted@,
                id,
                trusted@,
                (id, reputation_oracle),
            );
            crate::registry::lemma_with_handlers_contains(
                old(self).trusted@,
                id,
                trusted@,
                (id, recording_oracle),
            );
        }
        let url_copy = manifest_url.clone();
        let hash_copy = manifest_hash.clone();
        proof {
            assert(url_copy@ =~= manifest_url@);
            assert(hash_copy@ =~= manifest_hash@);
        }
        let event = Event::Pending(id, who, url_copy, hash_copy, account);
        let new_escrow = EscrowInfo {
            status: EscrowStatus::Pending,
            end_time,
            manifest_url,
            manifest_hash,
            reputation_oracle,
            recording_oracle,
            reputation_oracle_stake,
            recording_oracle_stake,
            canceller: who,
            account,
        };
        self.escrows.push(Some(new_escrow));
        self.final_results.push(None);
        assert(self.escrows@.len() == self.escrows.len() as nat);
        self.counter = id + 1;
        self.events.push(event);
        proof {
            assert(self.events@.drop_last() =~= old(self).events@);
        }
        Ok(id)
    }

    /// Sets the status of the escrow in slot `i`, leaving the rest of the module as it was.
    fn set_status_at(&mut self, i: usize, status: EscrowStatus)
        requires
            i < old(self).escrows@.len(),
            old(self).escrows@[i as int] is Some,
        ensures
            final(self).escrows@ == old(self).escrows@.update(
                i as int,
                Some(EscrowInfo { status, ..old(self).escrows@[i as int].unwrap() }),
            ),
            final(self).config == old(self).config,
            final(self).counter == old(self).counter,
            final(self).final_results == old(self).final_results,
            final(self).trusted == old(self).trusted,
            final(self).events == old(self).events,
    {
        match &mut self.escrows[i] {
            Some(e) => {
                e.status = status;
            },
            None => {},
        }
    }

    /// Changing a status keeps the module's invariant and every other escrow.
    proof fn lemma_status_change(&self, old: &Module, id: EscrowId)
        requires
            old.wf(),
            id < old.escrows@.len(),
            old.escrows@[id as int] is Some,
            self.escrows@ == old.escrows@.update(
                id as int,
                Some(EscrowInfo { status: self.escrows@[id as int].unwrap().status, ..old.escrows@[id as int].unwrap() }),
            ),
            self.config == old.config,
            self.counter == old.counter,
            self.final_results == old.final_results,
            self.trusted == old.trusted,
            self.events == old.events,
        ensures
            self.wf(),
            self.unchanged_but_status(old, id),
    {
        assert forall|j: int|
            0 <= j < self.escrows@.len() && (#[trigger] self.escrows@[j]) is Some implies {
            &&& self.escrows@[j].unwrap().account == custodial_account(j as EscrowId)
            &&& self.escrows@[j].unwrap().reputation_oracle_stake.value()
                + self.escrows@[j].unwrap().recording_oracle_stake.value() <= 100
        } by {
            assert(old.escrows@[j] is Some);
        }
    }

    /// Trusts each of `handlers` for escrow `id`, on behalf of `who`, a trusted handler
    /// of it. Principals that are trusted already are left as they are. Refused where the
    /// escrow would then have more trusted handlers than the limit allows.
    pub fn add_trusted_handlers(&mut self, who: AccountId, id: EscrowId, handlers: Vec<AccountId>) -> (r:
        Result<(), Error>)
        requires
            old(self).wf(),
        ensures
            final(self).wf(),
            !old(self).is_trusted(id, who) ==> r == Err::<(), Error>(Error::NonTrustedAccount),
            old(self).is_trusted(id, who) && (old(self).handlers_of(id) + handlers@.to_set()).len()
                > old(self).limits().handlers_limit ==> r == Err::<(), Error>(Error::TooManyHandlers),
            r is Ok <==> (old(self).is_trusted(id, who) && (old(self).handlers_of(id)
                + handlers@.to_set()).len() <= old(self).limits().handlers_limit),
            r is Ok ==> forall|j: EscrowId, a: AccountId|
                #![trigger final(self).is_trusted(j, a)]
                final(self).is_trusted(j, a) == (old(self).is_trusted(j, a) || (j == id
                    && handlers@.contains(a))),
            r is Ok ==> final(self).handlers_of(id) == old(self).handlers_of(id) + handlers@.to_set(),
            r is Err ==> *final(self) == *old(self),
            r is Ok ==> final(self).unchanged_but_registry(old(self)),
            r is Ok ==> final(self).registry() == with_handlers(old(self).registry(), id, handlers@),
            r is Ok ==> forall|a: AccountId|
                #![trigger handlers@.contains(a)]
                handlers@.contains(a) ==> final(self).is_trusted(id, a),
            final(self).statuses_follow(old(self)),
    {
        match self.ensure_trusted(who, id) {
            Ok(_) => {},
            Err(e) => return Err(e),
        }
        let mut staged = registry_copy(&self.trusted);
        registry_add(&mut staged, id, &handlers);
        proof {
            crate::registry::lemma_with_handlers_no_dup(old(self).trusted@, id, handlers@);
            crate::registry::lemma_count_is_principals(staged@, id);
            crate::registry::lemma_with_handlers_principals(old(self).trusted@, id, handlers@);
        }
        if registry_count(&staged, id) > self.config.handlers_limit as usize {
            return Err(Error::TooManyHandlers);
        }
        self.trusted = staged;
        proof {
            assert forall|a: AccountId| #![trigger handlers@.contains(a)] handlers@.contains(a) implies self.is_trusted(id, a) by {
                crate::registry::lemma_with_handlers_contains(old(self).trusted@, id, handlers@, (id, a));
            }
            assert forall|j: EscrowId, a: AccountId| #![trigger self.is_trusted(j, a)] self.is_trusted(j, a) == (old(self).is_trusted(j, a) || (j == id && handlers@.contains(a))) by {
                crate::registry::lemma_with_handlers_contains(old(self).trusted@, id, handlers@, (j, a));
            }
        }
        Ok(())
    }

    /// Aborts escrow `id` on behalf of `who`, a trusted handler of it: refunds the whole
    /// custodial balance to the canceller, then removes the escrow, its results and every
    /// trust entry for it. Refused for a `Paid` or `Complete` escrow.
    pub fn abort(&mut self, ledger: &mut Ledger, who: AccountId, id: EscrowId) -> (r: Result<(), Error>)
        requires
            old(self).wf(),
        ensures
            final(self).wf(),
            match old(self).stored(id) {
                None => r == Err::<(), Error>(Error::MissingEscrow),
                Some(e) => if !old(self).is_trusted(id, who) {
                    r == Err::<(), Error>(Error::NonTrustedAccount)
                } else if e.status == EscrowStatus::Complete || e.status == EscrowStatus::Paid {
                    r == Err::<(), Error>(Error::EscrowClosed)
                } else {
                    match transfer_result(old(ledger)@, e.account, e.canceller, old(ledger)@[e.account]) {
                        Err(x) => r == Err::<(), Error>(Error::Transfer(x)),
                        Ok(m) => {
                            &&& r is Ok
                            &&& final(ledger)@ == m
                            &&& final(self).stored(id) is None
                            &&& final(self).stored_results(id) is None
                            &&& final(self).registry() == without_escrow(old(self).registry(), id)
                        },
                    }
                },
            },
            r is Err ==> *final(self) == *old(self) && final(ledger)@ == old(ledger)@,
            r is Ok ==> {
                &&& final(self).limits() == old(self).limits()
                &&& final(self).next_id() == old(self).next_id()
                &&& final(self).log() == old(self).log()
                &&& forall|other: EscrowId|
                    other != id ==> final(self).stored(other) == old(self).stored(other)
                        && final(self).stored_results(other) == old(self).stored_results(other)
            },
            final(self).statuses_follow(old(self)),
    {
        let (status, account, canceller) = match self.escrow(id) {
            Some(e) => (e.status, e.account, e.canceller),
            None => return Err(Error::MissingEscrow),
        };
        assert(id < self.escrows.len() && self.escrows@[id as int] is Some);
        match self.ensure_trusted(who, id) {
            Ok(_) => {},
            Err(e) => return Err(e),
        }
        if status == EscrowStatus::Complete || status == EscrowStatus::Paid {
            return Err(Error::EscrowClosed);
        }
        let balance = ledger.free_balance(account);
        if balance > 0 {
            match ledger.transfer(account, canceller, balance) {
                Ok(()) => {},
                Err(x) => return Err(Error::Transfer(x)),
            }
        }
        let i = id as usize;
        self.escrows.set(i, None);
        self.final_results.set(i, None);
        self.trusted = registry_without(&self.trusted, id);
        proof {
            crate::registry::lemma_without_escrow_no_dup(old(self).trusted@, id);
            assert forall|j: int|
                0 <= j < self.escrows@.len() && (#[trigger] self.escrows@[j]) is Some implies {
                &&& self.escrows@[j].unwrap().account == custodial_account(j as EscrowId)
                &&& self.escrows@[j].unwrap().reputation_oracle_stake.value()
                    + self.escrows@[j].unwrap().recording_oracle_stake.value() <= 100
            } by {
                assert(old(self).escrows@[j] is Some);
            }
            assert(forall|other: EscrowId| other != id ==> self.stored(other) == old(self).stored(other));
        }
        Ok(())
    }

    /// Cancels escrow `id` on behalf of `who`, a trusted handler of it: refunds the whole
    /// custodial balance to the canceller and marks the escrow `Cancelled`. Only a
    /// `Pending` or `Partial` escrow with a balance can be cancelled.
    pub fn cancel(&mut self, ledger: &mut Ledger, who: AccountId, id: EscrowId) -> (r: Result<(), Error>)
        requires
            old(self).wf(),
        ensures
            final(self).wf(),
            match old(self).stored(id) {
                None => r == Err::<(), Error>(Error::MissingEscrow),
                Some(e) => if !old(self).is_trusted(id, who) {
                    r == Err::<(), Error>(Error::NonTrustedAccount)
                } else if !is_open_status(e.status) {
                    r == Err::<(), Error>(Error::EscrowClosed)
                } else if old(ledger)@[e.account] == 0 {
                    r == Err::<(), Error>(Error::OutOfFunds)
                } else {
                    match transfer_result(old(ledger)@, e.account, e.canceller, old(ledger)@[e.account]) {
                        Err(x) => r == Err::<(), Error>(Error::Transfer(x)),
                        Ok(m) => {
                            &&& r is Ok
                            &&& final(ledger)@ == m
                            &&& final(self).stored(id) == Some(
                                EscrowInfo { status: EscrowStatus::Cancelled, ..e },
                            )
                        },
                    }
                },
            },
            r is Err ==> *final(self) == *old(self) && final(ledger)@ == old(ledger)@,
            r is Ok ==> final(self).unchanged_but_status(old(self), id),
            final(self).statuses_follow(old(self)),
    {
        let (status, account, canceller) = match self.escrow(id) {
            Some(e) => (e.status, e.account, e.canceller),
            None => return Err(Error::MissingEscrow),
        };
        assert(id < self.escrows.len() && self.escrows@[id as int] is Some);
        match self.ensure_trusted(who, id) {
            Ok(_) => {},
            Err(e) => return Err(e),
        }
        if !(status == EscrowStatus::Pending || status == EscrowStatus::Partial) {
            return Err(Error::EscrowClosed);
        }
        let balance = ledger.free_balance(account);
        if balance == 0 {
            return Err(Error::OutOfFunds);
        }
        match ledger.transfer(account, canceller, balance) {
            Ok(()) => {},
            Err(x) => return Err(Error::Transfer(x)),
        }
        self.set_status_at(id as usize, EscrowStatus::Cancelled);
        proof {
            self.lemma_status_change(old(self), id);
        }
        Ok(())
    }

    /// Whether `self` and `old` store the same escrows and results under every id.
    pub open spec fn same_store(&self, old: &Module) -> bool {
        &&& forall|j: EscrowId| #![trigger self.stored(j)] self.stored(j) == old.stored(j)
        &&& forall|j: EscrowId|
            #![trigger self.stored_results(j)]
            self.stored_results(j) == old.stored_results(j)
    }

    /// Whether `self` equals `old` but for the trust registry.
    pub open spec fn unchanged_but_registry(&self, old: &Module) -> bool {
        &&& self.limits() == old.limits()
        &&& self.next_id() == old.next_id()
        &&& self.log() == old.log()
        &&& self.same_store(old)
    }

    /// Whether `self` equals `old` but for the log of events.
    pub open spec fn unchanged_but_log(&self, old: &Module) -> bool {
        &&& self.limits() == old.limits()
        &&& self.next_id() == old.next_id()
        &&& self.registry() == old.registry()
        &&& self.same_store(old)
    }

    /// Whether `self` equals `old` but for the stored results.
    pub open spec fn unchanged_but_results(&self, old: &Module) -> bool {
        &&& self.limits() == old.limits()
        &&& self.next_id() == old.next_id()
        &&& self.registry() == old.registry()
        &&& self.log() == old.log()
        &&& forall|j: EscrowId| #![trigger self.stored(j)] self.stored(j) == old.stored(j)
    }

    /// Whether `self` equals `old` but for the status of escrow `id` and the log.
    pub open spec fn unchanged_but_status_and_log(&self, old: &Module, id: EscrowId) -> bool {
        &&& self.limits() == old.limits()
        &&& self.next_id() == old.next_id()
        &&& self.registry() == old.registry()
        &&& forall|j: EscrowId|
            #![trigger self.stored_results(j)]
            self.stored_results(j) == old.stored_results(j)
        &&& forall|j: EscrowId| #![trigger self.stored(j)] j != id ==> self.stored(j) == old.stored(j)
    }

    /// Whether `self` equals `old` but for the status of escrow `id`.
    pub open spec fn unchanged_but_status(&self, old: &Module, id: EscrowId) -> bool {
        &&& self.unchanged_but_status_and_log(old, id)
        &&& self.log() == old.log()
    }

    /// Marks escrow `id` `Complete` on behalf of `who`, a trusted handler of it. Only a
    /// `Paid` escrow that has not reached its end time at `now` can be completed.
    pub fn complete(&mut self, who: AccountId, id: EscrowId, now: Moment) -> (r: Result<(), Error>)
        requires
            old(self).wf(),
        ensures
            final(self).wf(),
            match old(self).stored(id) {
                None => r == Err::<(), Error>(Error::MissingEscrow),
                Some(e) => if !old(self).is_trusted(id, who) {
                    r == Err::<(), Error>(Error::NonTrustedAccount)
                } else if e.end_time <= now {
                    r == Err::<(), Error>(Error::EscrowExpired)
                } else if e.status != EscrowStatus::Paid {
                    r == Err::<(), Error>(Error::EscrowNotPaid)
                } else {
                    &&& r is Ok
                    &&& final(self).stored(id) == Some(
                        EscrowInfo { status: EscrowStatus::Complete, ..e },
                    )
                },
            },
            r is Err ==> *final(self) == *old(self),
            r is Ok ==> final(self).unchanged_but_status(old(self), id),
            final(self).statuses_follow(old(self)),
    {
        let (status, end_time) = match self.escrow(id) {
            Some(e) => (e.status, e.end_time),
            None => return Err(Error::MissingEscrow),
        };
        assert(id < self.escrows.len() && self.escrows@[id as int] is Some);
        match self.ensure_trusted(who, id) {
            Ok(_) => {},
            Err(e) => return Err(e),
        }
        if end_time <= now {
            return Err(Error::EscrowExpired);
        }
        if status != EscrowStatus::Paid {
            return Err(Error::EscrowNotPaid);
        }
        self.set_status_at(id as usize, EscrowStatus::Complete);
        proof {
            self.lemma_status_change(old(self), id);
        }
        Ok(())
    }

    /// The checks shared by the two result operations, in their order.
    pub open spec fn results_check(&self, who: AccountId, id: EscrowId, now: Moment, url: Seq<u8>, hash: Seq<u8>) -> Result<(), Error> {
        if url.len() > self.limits().string_limit || hash.len() > self.limits().string_limit {
            Err(Error::StringSize)
        } else if !self.is_trusted(id, who) {
            Err(Error::NonTrustedAccount)
        } else {
            match self.stored(id) {
                None => Err(Error::MissingEscrow),
                Some(e) => if e.end_time <= now {
                    Err(Error::EscrowExpired)
                } else if !is_open_status(e.status) {
                    Err(Error::EscrowClosed)
                } else {
                    Ok(())
                },
            }
        }
    }

    fn check_results(&self, who: AccountId, id: EscrowId, now: Moment, url: &Vec<u8>, hash: &Vec<u8>) -> (r: Result<(), Error>)
        ensures
            r == self.results_check(who, id, now, url@, hash@),
    {
        if url.len() > self.config.string_limit || hash.len() > self.config.string_limit {
            return Err(Error::StringSize);
        }
        match self.ensure_trusted(who, id) {
            Ok(_) => {},
            Err(e) => return Err(e),
        }
        match self.get_open_escrow(id, now) {
            Ok(_) => Ok(()),
            Err(e) => Err(e),
        }
    }

    /// Reports, on behalf of `who`, a trusted handler of escrow `id`, that intermediate
    /// results are at `url`, by an `IntermediateResults` event. Nothing is stored. The
    /// escrow must be open at `now`.
    pub fn note_intermediate_results(&mut self, who: AccountId, id: EscrowId, now: Moment, url: Vec<u8>, hash: Vec<u8>) -> (r: Result<(), Error>)
        requires
            old(self).wf(),
        ensures
            final(self).wf(),
            r == old(self).results_check(who, id, now, url@, hash@),
            r is Err ==> *final(self) == *old(self),
            r is Ok ==> final(self).unchanged_but_log(old(self)),
            r is Ok ==> final(self).log() == old(self).log().push(Event::IntermediateResults(id, url, hash)),
            final(self).statuses_follow(old(self)),
    {
        match self.check_results(who, id, now, &url, &hash) {
            Ok(()) => {},
            Err(e) => return Err(e),
        }
        self.events.push(Event::IntermediateResults(id, url, hash));
        Ok(())
    }

    /// Stores, on behalf of `who`, a trusted handler of escrow `id`, where its final
    /// results are, replacing what was stored before. The escrow must be open at `now`.
    pub fn store_final_results(&mut self, who: AccountId, id: EscrowId, now: Moment, url: Vec<u8>, hash: Vec<u8>) -> (r: Result<(), Error>)
        requires
            old(self).wf(),
        ensures
            final(self).wf(),
            r == old(self).results_check(who, id, now, url@, hash@),
            r is Err ==> *final(self) == *old(self),
            r is Ok ==> final(self).stored_results(id) == Some(ResultInfo { results_url: url, results_hash: hash }),
            r is Ok ==> forall|other: EscrowId| other != id ==> final(self).stored_results(other) == old(self).stored_results(other),
            r is Ok ==> final(self).unchanged_but_results(old(self)),
            final(self).statuses_follow(old(self)),
    {
        match self.check_results(who, id, now, &url, &hash) {
            Ok(()) => {},
            Err(e) => return Err(e),
        }
        assert(id < self.final_results.len());
        self.final_results.set(id as usize, Some(ResultInfo { results_url: url, results_hash: hash }));
        Ok(())
    }

    /// Moves `values[i]` from `from` to `tos[i]` for each `i` in order, all or nothing.
    /// Refused where there are more recipients than the limit allows, where the two lists
    /// differ in length, or where the values sum to more than the limit allows.
    pub fn do_transfer_bulk(
        &self,
        ledger: &mut Ledger,
        from: AccountId,
        tos: &Vec<AccountId>,
        values: &Vec<Balance>,
    ) -> (r: Result<(), Error>)
        ensures
            match bulk_result(self.limits(), old(ledger)@, from, tos@, values@) {
                Ok(m) => r is Ok && final(ledger)@ == m,
                Err(e) => r == Err::<(), Error>(e) && final(ledger)@ == old(ledger)@,
            },
    {
        if tos.len() > self.config.bulk_accounts_limit {
            return Err(Error::TooManyTos);
        }
        if tos.len() != values.len() {
            return Err(Error::MismatchBulkTransfer);
        }
        if sum_exceeds(values.as_slice(), self.config.bulk_balance_limit) {
            return Err(Error::TransferTooBig);
        }
        let mut staged = ledger.snapshot();
        let mut i: usize = 0;
        while i < tos.len()
            invariant
                i <= tos@.len(),
                tos@.len() == values@.len(),
                tos@.len() <= self.limits().bulk_accounts_limit,
                total(values@) <= self.limits().bulk_balance_limit,
                ledger@ == old(ledger)@,
                transfers_result(old(ledger)@, from, tos@, values@, i as nat) == Ok::<
                    Map<AccountId, Balance>,
                    LedgerError,
                >(staged@),
            decreases tos@.len() - i,
        {
            match staged.transfer(from, tos[i], values[i]) {
                Ok(()) => {},
                Err(x) => {
                    proof {
                        assert(transfers_result(old(ledger)@, from, tos@, values@, (i + 1) as nat)
                            == Err::<Map<AccountId, Balance>, LedgerError>(x));
                        lemma_transfers_refused(
                            old(ledger)@,
                            from,
                            tos@,
                            values@,
                            (i + 1) as nat,
                            tos@.len(),
                        );
                    }
                    return Err(Error::Transfer(x));
                },
            }
            i = i + 1;
        }
        *ledger = staged;
        Ok(())
    }

    /// Pays `amounts` to `recipients` out of escrow `id`, on behalf of `who`, a trusted
    /// handler of it, at time `now`. Each amount gives up the two oracle fees; the fee
    /// totals go to the oracles and the rest of each amount to its recipient. The lists
    /// are checked against the bulk limits before any transfer, and all transfers happen
    /// or none does. Afterwards the escrow is `Paid` where its balance is
    /// spent, else `Partial`. Reports a `BulkPayout` event.
    pub fn bulk_payout(
        &mut self,
        ledger: &mut Ledger,
        who: AccountId,
        id: EscrowId,
        now: Moment,
        recipients: Vec<AccountId>,
        amounts: Vec<Balance>,
    ) -> (r: Result<(), Error>)
        requires
            old(self).wf(),
        ensures
            final(self).wf(),
            match old(self).stored(id) {
                None => r == Err::<(), Error>(Error::MissingEscrow),
                Some(e) => if e.end_time <= now {
                    r == Err::<(), Error>(Error::EscrowExpired)
                } else if !is_open_status(e.status) {
                    r == Err::<(), Error>(Error::EscrowClosed)
                } else if !old(self).is_trusted(id, who) {
                    r == Err::<(), Error>(Error::NonTrustedAccount)
                } else if old(ledger)@[e.account] == 0 {
                    r == Err::<(), Error>(Error::OutOfFunds)
                } else if total(amounts@) > old(ledger)@[e.account] {
                    r == Err::<(), Error>(Error::OutOfFunds)
                } else {
                    match payout_result(old(self).limits(), old(ledger)@, e, recipients@, amounts@) {
                        Err(x) => r == Err::<(), Error>(x),
                        Ok(m) => {
                            &&& r is Ok
                            &&& final(ledger)@ == m
                            &&& final(self).stored(id) == Some(
                                EscrowInfo { status: status_after_payout(e.status, m[e.account]), ..e },
                            )
                        },
                    }
                },
            },
            r is Err ==> *final(self) == *old(self) && final(ledger)@ == old(ledger)@,
            r is Ok ==> final(self).unchanged_but_status_and_log(old(self), id),
            r is Ok ==> final(self).log() == old(self).log().push(Event::BulkPayout(id)),
            final(self).statuses_follow(old(self)),
    {
        let (status, account, reputation_oracle, recording_oracle, reputation_stake, recording_stake) =
            match self.get_open_escrow(id, now) {
            Ok(e) => (
                e.status,
                e.account,
                e.reputation_oracle,
                e.recording_oracle,
                e.reputation_oracle_stake,
                e.recording_oracle_stake,
            ),
            Err(x) => return Err(x),
        };
        assert(id < self.escrows.len() && self.escrows@[id as int] is Some);
        match self.ensure_trusted(who, id) {
            Ok(_) => {},
            Err(x) => return Err(x),
        }
        let balance = ledger.free_balance(account);
        if balance == 0 {
            return Err(Error::OutOfFunds);
        }
        if sum_exceeds(amounts.as_slice(), balance) {
            return Err(Error::OutOfFunds);
        }
        let (reputation_fee, recording_fee, final_amounts) = finalize_payouts(
            reputation_stake,
            recording_stake,
            amounts.as_slice(),
        );
        if recipients.len() > self.config.bulk_accounts_limit {
            return Err(Error::TooManyTos);
        }
        if recipients.len() != final_amounts.len() {
            return Err(Error::MismatchBulkTransfer);
        }
        if sum_exceeds(final_amounts.as_slice(), self.config.bulk_balance_limit) {
            return Err(Error::TransferTooBig);
        }
        let mut staged = ledger.snapshot();
        match staged.transfer(account, reputation_oracle, reputation_fee) {
            Ok(()) => {},
            Err(x) => return Err(Error::Transfer(x)),
        }
        match staged.transfer(account, recording_oracle, recording_fee) {
            Ok(()) => {},
            Err(x) => return Err(Error::Transfer(x)),
        }
        match self.do_transfer_bulk(&mut staged, account, &recipients, &final_amounts) {
            Ok(()) => {},
            Err(x) => return Err(x),
        }
        let remaining = staged.free_balance(account);
        let mut new_status = status;
        if new_status == EscrowStatus::Pending {
            new_status = EscrowStatus::Partial;
        }
        if remaining == 0 && new_status == EscrowStatus::Partial {
            new_status = EscrowStatus::Paid;
        }
        *ledger = staged;
        self.set_status_at(id as usize, new_status);
        proof {
            let ghost mid = *self;
            mid.lemma_status_change(old(self), id);
        }
        self.events.push(Event::BulkPayout(id));
        Ok(())
    }


    /// Sets the status of escrow `id` directly, bypassing every check of the state
    /// machine. A storage-level write, for setting up state; `MissingEscrow` where no
    /// escrow is stored under `id`.
    pub fn set_status(&mut self, id: EscrowId, status: EscrowStatus) -> (r: Result<(), Error>)
        requires
            old(self).wf(),
        ensures
            final(self).wf(),
            match old(self).stored(id) {
                None => r == Err::<(), Error>(Error::MissingEscrow) && *final(self) == *old(self),
                Some(e) => r is Ok && final(self).stored(id) == Some(EscrowInfo { status, ..e })
                    && final(self).unchanged_but_status(old(self), id),
            },
    {
        if id < self.escrows.len() as u128 && self.escrows[id as usize].is_some() {
            self.set_status_at(id as usize, status);
            proof {
                self.lemma_status_change(old(self), id);
            }
            Ok(())
        } else {
            Err(Error::MissingEscrow)
        }
    }

    /// Trusts `a` for escrow `id` directly, whether or not the escrow exists, bypassing
    /// the trust check. A storage-level write, for setting up state.
    pub fn insert_trusted_handler(&mut self, id: EscrowId, a: AccountId)
        requires
            old(self).wf(),
        ensures
            final(self).wf(),
            final(self).registry() == with_handlers(old(self).registry(), id, seq![a]),
            final(self).is_trusted(id, a),
            forall|j: EscrowId, b: AccountId|
                #![trigger final(self).is_trusted(j, b)]
                final(self).is_trusted(j, b) == (old(self).is_trusted(j, b) || (j == id && b == a)),
            final(self).unchanged_but_registry(old(self)),
    {
        let mut one: Vec<AccountId> = Vec::new();
        one.push(a);
        registry_add(&mut self.trusted, id, &one);
        proof {
            assert(one@ =~= seq![a]);
            crate::registry::lemma_with_handlers_contains(old(self).trusted@, id, one@, (id, a));
            crate::registry::lemma_with_handlers_no_dup(old(self).trusted@, id, one@);
            assert forall|j: EscrowId, b: AccountId| #![trigger self.is_trusted(j, b)] self.is_trusted(j, b) == (old(self).is_trusted(j, b) || (j == id && b == a)) by {
                crate::registry::lemma_with_handlers_contains(old(self).trusted@, id, one@, (j, b));
                assert(one@.contains(b) <==> b == a) by {
                    if one@.contains(b) {
                        let k = choose|k: int| 0 <= k < one@.len() && one@[k] == b;
                    }
                }
            }
            assert(one@[0] == a);
        }
    }

    /// `who`, if it is a trusted handler of escrow `id`.
    pub fn ensure_trusted(&self, who: AccountId, id: EscrowId) -> (r: Result<AccountId, Error>)
        ensures
            self.is_trusted(id, who) ==> r == Ok::<AccountId, Error>(who),
            !self.is_trusted(id, who) ==> r == Err::<AccountId, Error>(Error::NonTrustedAccount),
    {
        if registry_contains(&self.trusted, id, who) {
            Ok(who)
        } else {
            Err(Error::NonTrustedAccount)
        }
    }

    /// The balance that escrow `escrow` holds in `ledger`.
    pub fn get_balance(ledger: &Ledger, escrow: &EscrowInfo) -> (r: Balance)
        ensures
            r == ledger@[escrow.account],
    {
        ledger.free_balance(escrow.account)
    }

    /// The escrow `id`, if it is stored, has not reached its end time at `now`, and is
    /// `Pending` or `Partial`.
    pub fn get_open_escrow(&self, id: EscrowId, now: Moment) -> (r: Result<&EscrowInfo, Error>)
        ensures
            match self.stored(id) {
                None => r == Err::<&EscrowInfo, Error>(Error::MissingEscrow),
                Some(e) => if e.end_time <= now {
                    r == Err::<&EscrowInfo, Error>(Error::EscrowExpired)
                } else if !is_open_status(e.status) {
                    r == Err::<&EscrowInfo, Error>(Error::EscrowClosed)
                } else {
                    r matches Ok(x) && *x == e
                },
            },
    {
        let e = match self.escrow(id) {
            Some(e) => e,
            None => return Err(Error::MissingEscrow),
        };
        if e.end_time <= now {
            return Err(Error::EscrowExpired);
        }
        match e.status {
            EscrowStatus::Pending | EscrowStatus::Partial => Ok(e),
            _ => Err(Error::EscrowClosed),
        }
    }
}

/// How far along the status graph a status lies.
pub open spec fn status_rank(s: EscrowStatus) -> nat {
    match s {
        EscrowStatus::Pending => 0,
        EscrowStatus::Partial => 1,
        EscrowStatus::Paid => 2,
        EscrowStatus::Complete => 3,
        EscrowStatus::Cancelled => 3,
    }
}

/// Status only moves forward: every step that an operation may take either keeps the
/// status or strictly advances it along the graph, so no operation can bring an escrow
/// back to an earlier status (from `Paid` to `Pending`, say). Every operation of
/// `Module` ensures `statuses_follow`, which allows only such steps.
pub proof fn lemma_status_moves_forward(from: EscrowStatus, to: EscrowStatus)
    requires
        transition_allowed(from, to),
    ensures
        status_rank(from) <= status_rank(to),
        from != to ==> status_rank(from) < status_rank(to),
        from == EscrowStatus::Complete || from == EscrowStatus::Cancelled ==> to == from,
{
}

/// Two distinct escrows that are ever stored hold their funds in distinct custodial
/// accounts.
pub proof fn lemma_custodial_accounts_distinct(m: &Module, i: EscrowId, j: EscrowId)
    requires
        m.wf(),
        i != j,
        m.stored(i) is Some,
        m.stored(j) is Some,
    ensures
        m.stored(i).unwrap().account != m.stored(j).unwrap().account,
{
    m.lemma_stored_escrow(i);
    m.lemma_stored_escrow(j);
}

/// Adding principals that are trusted for escrow `id` already changes nothing: the
/// registry stays as it was, and so do the principals trusted for `id` and their number.
/// So `add_trusted_handlers` with them leaves the registry alone and succeeds for a
/// trusted caller exactly when it would with no principals at all.
pub proof fn lemma_trusting_again_changes_nothing(m: &Module, id: EscrowId, handlers: Seq<AccountId>)
    requires
        forall|k: int| 0 <= k < handlers.len() ==> m.is_trusted(id, #[trigger] handlers[k]),
    ensures
        with_handlers(m.registry(), id, handlers) == m.registry(),
        m.handlers_of(id) + handlers.to_set() == m.handlers_of(id),
        (m.handlers_of(id) + handlers.to_set()).len() == m.registry_size(id),
{
    crate::registry::lemma_with_handlers_present(m.registry(), id, handlers);
    assert forall|a: AccountId| handlers.to_set().contains(a) implies m.handlers_of(id).contains(a) by {
        let k = choose|k: int| 0 <= k < handlers.len() && handlers[k] == a;
        assert(m.is_trusted(id, handlers[k]));
    }
    assert(m.handlers_of(id) + handlers.to_set() =~= m.handlers_of(id));
}

/// Conservation at settlement: when `bulk_payout` succeeds on escrow `id` of a
/// well-formed module, the amounts sum to at most the custodial balance (its contract
/// says so), and then the reputation fee total, the recording fee total and the net
/// amounts that it transfers add up to exactly the sum of the amounts. Each fee total is
/// `stake * sum / 100` rounded down, losing less than one unit per amount.
pub proof fn lemma_bulk_payout_conserves(m: &Module, id: EscrowId, balance: Balance, amounts: Seq<Balance>)
    requires
        m.wf(),
        m.stored(id) is Some,
        total(amounts) <= balance,
    ensures
        ({
            let e = m.stored(id).unwrap();
            let rep = e.reputation_oracle_stake.value() as int;
            let rec = e.recording_oracle_stake.value() as int;
            &&& saturated(fee_total(rep, amounts)) + saturated(fee_total(rec, amounts)) + total(
                nets_of(rep, rec, amounts),
            ) == total(amounts)
            &&& 100 * saturated(fee_total(rep, amounts)) <= rep * total(amounts)
            &&& 100 * saturated(fee_total(rec, amounts)) <= rec * total(amounts)
            &&& amounts.len() > 0 ==> (rep + rec) * total(amounts) < 100 * (saturated(
                fee_total(rep, amounts),
            ) + saturated(fee_total(rec, amounts)) + 2 * amounts.len())
        }),
{
    m.lemma_stored_escrow(id);
    let e = m.stored(id).unwrap();
    crate::payout::lemma_payout_conserves(e.reputation_oracle_stake, e.recording_oracle_stake, amounts);
}

} // verus!
