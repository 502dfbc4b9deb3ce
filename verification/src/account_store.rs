//! The store of all client accounts and the engine that applies transactions to it.
//!
//! `ClientId` is a `u16`, so there are at most 65,536 clients and every one of them has a
//! slot of its own: the slots are split into a power-of-two number of shards, and client
//! `c` lives in shard `c >> shard_bits` at index `c & (shard_size - 1)`.

use crate::account::{Account, AccountView};
use crate::decimal::{decimal, push_decimal};
use crate::{ClientId, Transaction, TransactionId};
use vstd::arithmetic::div_mod::lemma_fundamental_div_mod;
use vstd::arithmetic::power2::pow2;
use vstd::prelude::*;
use vstd::string::*;
use std::collections::HashSet;

verus! {

/// Number of distinct client ids.
pub const CLIENT_SLOTS: usize = 65536;

/// Number of shards used when the requested number is not a power of two.
pub const DEFAULT_SHARDS: u16 = 128;

/// Whether `n` is a power of two that a `u16` can hold.
pub open spec fn is_power_of_two(n: nat) -> bool {
    exists|e: nat| e < 16 && n == pow2(e)
}

/// The number of shards that `AccountStore::new(n)` uses.
pub open spec fn effective_shards(n: u16) -> nat {
    if is_power_of_two(n as nat) {
        n as nat
    } else {
        DEFAULT_SHARDS as nat
    }
}

/// What became of one transaction, as the engine counts it.
#[derive(Debug, Clone, Copy, PartialEq, Eq, Structural)]
pub enum StepOutcome {
    /// Applied, or a zero-amount deposit or withdrawal, which changes nothing.
    Applied,
    /// A withdrawal, dispute, resolve or chargeback for a client without an account.
    AccountNotFound,
    /// A deposit or withdrawal refused: by its account, or because its transaction id is
    /// already recorded (in any account).
    NotEnoughBalance,
    /// A dispute, resolve or chargeback that its account refused.
    TransactionNotFound,
}

/// The refusals counted while applying a batch of transactions.
#[derive(Debug, Clone, Copy, PartialEq, Eq, Structural)]
pub struct ApplyError {
    pub account_not_found: u64,
    pub not_enough_balance: u64,
    pub transaction_not_found: u64,
}

impl ApplyError {
    pub open spec fn spec_message(self) -> Seq<char> {
        "errors processing transactions account_not_found:"@ + decimal(
            self.account_not_found as nat,
        ) + ", not_enough_balance:"@ + decimal(self.not_enough_balance as nat)
            + ", transaction_not_found:"@ + decimal(self.transaction_not_found as nat)
    }

    /// The human-readable text of the error.
    pub fn message(&self) -> (s: String)
        ensures
            s@ == self.spec_message(),
    {
        let mut s = String::new();
        s.append("errors processing transactions account_not_found:");
        push_decimal(&mut s, self.account_not_found);
        s.append(", not_enough_balance:");
        push_decimal(&mut s, self.not_enough_balance);
        s.append(", transaction_not_found:");
        push_decimal(&mut s, self.transaction_not_found);
        s
    }
}

/// One output row: the state of a client account, amounts in minor units.
#[derive(Debug, Clone, Copy, PartialEq, Eq, Structural)]
pub struct AccountSummary {
    pub client: ClientId,
    pub available: u64,
    pub held: u64,
    pub total: u64,
    pub locked: bool,
}

/// The row of a balanced account.
pub open spec fn summary_of(client: ClientId, a: AccountView) -> AccountSummary {
    AccountSummary {
        client,
        available: (a.total - a.held) as u64,
        held: a.held,
        total: a.total,
        locked: a.locked,
    }
}

/// The rows of the accounts of clients below `k`, in increasing client order.
pub open spec fn summaries_below(accounts: Map<ClientId, AccountView>, k: nat) -> Seq<
    AccountSummary,
>
    decreases k,
{
    if k == 0 {
        Seq::empty()
    } else {
        let c = (k - 1) as ClientId;
        let prev = summaries_below(accounts, (k - 1) as nat);
        if accounts.contains_key(c) {
            prev.push(summary_of(c, accounts[c]))
        } else {
            prev
        }
    }
}

/// The account of `client`, created empty if it does not exist yet.
pub open spec fn account_or_new(accounts: Map<ClientId, AccountView>, client: ClientId) -> AccountView {
    if accounts.contains_key(client) {
        accounts[client]
    } else {
        AccountView::empty(client)
    }
}

/// The abstract state of the store: the accounts, and the ids of all recorded deposits and
/// withdrawals.
#[verifier::ext_equal]
pub struct StoreView {
    pub accounts: Map<ClientId, AccountView>,
    pub used_ids: Set<TransactionId>,
}

impl StoreView {
    /// No accounts and no transactions.
    pub open spec fn empty() -> StoreView {
        StoreView { accounts: Map::empty(), used_ids: Set::empty() }
    }

    /// The store with `a` as the account of `client`.
    pub open spec fn with_account(self, client: ClientId, a: AccountView) -> StoreView {
        StoreView { accounts: self.accounts.insert(client, a), ..self }
    }
}

/// The effect of one transaction on the store.
pub open spec fn step(s: StoreView, tx: Transaction) -> (StoreView, StepOutcome) {
    match tx {
        Transaction::Deposit { client, transaction_id, amount } => {
            if amount == 0 {
                (s, StepOutcome::Applied)
            } else if s.used_ids.contains(transaction_id) {
                (s, StepOutcome::NotEnoughBalance)
            } else {
                let a = account_or_new(s.accounts, client);
                match a.deposit_result(transaction_id, amount) {
                    Ok(b) => (
                        StoreView {
                            accounts: s.accounts.insert(client, b),
                            used_ids: s.used_ids.insert(transaction_id),
                        },
                        StepOutcome::Applied,
                    ),
                    Err(_) => (s.with_account(client, a), StepOutcome::NotEnoughBalance),
                }
            }
        },
        Transaction::Withdrawal { client, transaction_id, amount } => {
            if amount == 0 {
                (s, StepOutcome::Applied)
            } else if !s.accounts.contains_key(client) {
                (s, StepOutcome::AccountNotFound)
            } else if s.used_ids.contains(transaction_id) {
                (s, StepOutcome::NotEnoughBalance)
            } else {
                match s.accounts[client].withdrawal_result(transaction_id, amount) {
                    Ok(b) => (
                        StoreView {
                            accounts: s.accounts.insert(client, b),
                            used_ids: s.used_ids.insert(transaction_id),
                        },
                        StepOutcome::Applied,
                    ),
                    Err(_) => (s, StepOutcome::NotEnoughBalance),
                }
            }
        },
        Transaction::Dispute(d) => {
            if !s.accounts.contains_key(d.client) {
                (s, StepOutcome::AccountNotFound)
            } else {
                match s.accounts[d.client].start_dispute_result(d.transaction_id) {
                    Ok(b) => (s.with_account(d.client, b), StepOutcome::Applied),
                    Err(_) => (s, StepOutcome::TransactionNotFound),
                }
            }
        },
        Transaction::Resolve(r) => {
            if !s.accounts.contains_key(r.client) {
                (s, StepOutcome::AccountNotFound)
            } else {
                match s.accounts[r.client].resolve_dispute_result(r.transaction_id) {
                    Ok(b) => (s.with_account(r.client, b), StepOutcome::Applied),
                    Err(_) => (s, StepOutcome::TransactionNotFound),
                }
            }
        },
        Transaction::Chargeback(c) => {
            if !s.accounts.contains_key(c.client) {
                (s, StepOutcome::AccountNotFound)
            } else {
                match s.accounts[c.client].chargeback_result(c.transaction_id) {
                    Ok(b) => (s.with_account(c.client, b), StepOutcome::Applied),
                    Err(_) => (s, StepOutcome::TransactionNotFound),
                }
            }
        },
    }
}

pub open spec fn count_if(b: bool) -> nat {
    if b {
        1
    } else {
        0
    }
}

/// The store after applying `txs` in order, with the number of transactions refused for a
/// missing account, by a deposit or withdrawal, and by a dispute, resolve or chargeback.
pub open spec fn run(s: StoreView, txs: Seq<Transaction>) -> (StoreView, nat, nat, nat)
    decreases txs.len(),
{
    if txs.len() == 0 {
        (s, 0, 0, 0)
    } else {
        let prev = run(s, txs.drop_last());
        let (next, outcome) = step(prev.0, txs.last());
        (
            next,
            prev.1 + count_if(outcome == StepOutcome::AccountNotFound),
            prev.2 + count_if(outcome == StepOutcome::NotEnoughBalance),
            prev.3 + count_if(outcome == StepOutcome::TransactionNotFound),
        )
    }
}

/// What applying `txs` returns: `Ok` when nothing was refused, else the three counts.
pub open spec fn run_result(s: StoreView, txs: Seq<Transaction>) -> Result<(), ApplyError> {
    let r = run(s, txs);
    if r.1 == 0 && r.2 == 0 && r.3 == 0 {
        Ok(())
    } else {
        Err(
            ApplyError {
                account_not_found: r.1 as u64,
                not_enough_balance: r.2 as u64,
                transaction_not_found: r.3 as u64,
            },
        )
    }
}

/// The refusal counts of a run never exceed the number of transactions.
pub proof fn lemma_run_counts_bounded(s: StoreView, txs: Seq<Transaction>)
    ensures
        run(s, txs).1 + run(s, txs).2 + run(s, txs).3 <= txs.len(),
    decreases txs.len(),
{
    if txs.len() > 0 {
        lemma_run_counts_bounded(s, txs.drop_last());
    }
}

/// Every account keeps the account invariant (see `AccountView::valid`): held funds within
/// the total and equal to the amounts under open dispute.
pub open spec fn all_valid(accounts: Map<ClientId, AccountView>) -> bool {
    forall|c: ClientId| #[trigger] accounts.contains_key(c) ==> accounts[c].valid()
}

/// Stores the account of every client. `ClientId` is a `u16`, so all 65,536 possible
/// accounts have a slot and no hashing is needed to find one. Besides the accounts, the
/// store remembers the ids of all recorded transactions, which are unique across clients.
///
/// Mutation needs `&mut self`: the store holds no locks; a caller that shares it between
/// threads wraps it in one.
#[derive(Debug)]
pub struct AccountStore {
    shard_bits: u32,
    shard_size: usize,
    /// Shards used for the accounts.
    shards: Vec<Vec<Option<Account>>>,
    /// Ids of the recorded deposits and withdrawals.
    used_ids: HashSet<TransactionId>,
}

impl AccountStore {
    /// The slot of client `c`.
    pub closed spec fn slot(self, c: ClientId) -> Option<Account> {
        self.shards@[c as int / self.shard_size as int]@[c as int % self.shard_size as int]
    }

    /// The number of shards.
    pub closed spec fn shard_count(self) -> nat {
        self.shards@.len()
    }

    /// The number of slots in a shard.
    pub closed spec fn slots_per_shard(self) -> nat {
        self.shard_size as nat
    }

    /// The shard and the index within it of the slot of client `c`.
    pub closed spec fn slot_of(self, c: ClientId) -> (int, int) {
        (c as int / self.shard_size as int, c as int % self.shard_size as int)
    }

    /// The internal layout is consistent: every client has exactly one slot, and an
    /// account sits in the slot of its own client id, with held funds within its total.
    pub closed spec fn wf(self) -> bool {
        &&& 1 <= self.shard_bits <= 16
        &&& self.shard_size as nat == pow2(self.shard_bits as nat)
        &&& self.shards@.len() * self.shard_size == CLIENT_SLOTS
        &&& forall|s: int|
            0 <= s < self.shards@.len() ==> #[trigger] self.shards@[s]@.len() == self.shard_size
        &&& forall|c: ClientId| #[trigger]
            self.slot(c) matches Some(a) ==> a@.id == c && a@.valid()
    }
}

impl View for AccountStore {
    type V = StoreView;

    closed spec fn view(&self) -> StoreView {
        StoreView {
            accounts: Map::new(|c: ClientId| self.slot(c) is Some, |c: ClientId| self.slot(c)->0@),
            used_ids: self.used_ids@,
        }
    }
}

impl AccountStore {
    /// Every client has a slot of its own: its shard and index are in range, they make up
    /// the client id (`shard * slots_per_shard + index`), and two clients never share a slot.
    pub proof fn lemma_slots_distinct(&self, c1: ClientId, c2: ClientId)
        requires
            self.wf(),
        ensures
            0 <= self.slot_of(c1).0 < self.shard_count(),
            0 <= self.slot_of(c1).1 < self.slots_per_shard(),
            self.slot_of(c1).0 * self.slots_per_shard() + self.slot_of(c1).1 == c1,
            c1 != c2 ==> self.slot_of(c1) != self.slot_of(c2),
    {
        let size = self.shard_size as int;
        lemma_shard_in_range(c1 as int, self.shards@.len() as int, size);
        lemma_fundamental_div_mod(c1 as int, size);
        vstd::arithmetic::mul::lemma_mul_is_commutative(c1 as int / size, size);
        if c1 != c2 {
            lemma_div_mod_distinct(c1 as int, c2 as int, size);
        }
    }
}

/// The slot indices of two clients differ.
proof fn lemma_div_mod_distinct(c1: int, c2: int, size: int)
    requires
        0 <= c1,
        0 <= c2,
        0 < size,
        c1 != c2,
    ensures
        c1 / size != c2 / size || c1 % size != c2 % size,
{
    lemma_fundamental_div_mod(c1, size);
    lemma_fundamental_div_mod(c2, size);
}

/// A client's shard index is in range.
proof fn lemma_shard_in_range(c: int, n: int, size: int)
    by (nonlinear_arith)
    requires
        0 <= c < n * size,
        0 < size,
    ensures
        0 <= c / size < n,
        0 <= c % size < size,
{
}

impl AccountStore {
    /// The exponent `e < 16` with `n == 2^e`, if there is one.
    fn power_of_two_exponent(n: u16) -> (r: Option<u32>)
        ensures
            r matches Some(e) ==> e < 16 && n as nat == pow2(e as nat),
            r is None ==> !is_power_of_two(n as nat),
    {
        let mut e: u32 = 0;
        let mut p: u32 = 1;
        proof {
            vstd::arithmetic::power2::lemma2_to64();
        }
        while e < 16
            invariant
                e <= 16,
                p as nat == pow2(e as nat),
                forall|k: nat| k < e ==> n as nat != pow2(k),
            decreases 16 - e,
        {
            if n as u32 == p {
                return Some(e);
            }
            proof {
                vstd::arithmetic::power2::lemma_pow2_unfold((e + 1) as nat);
                vstd::arithmetic::power2::lemma2_to64();
            }
            p = p * 2;
            e = e + 1;
        }
        None
    }

    /// Creates an `AccountStore` with `number_of_shards` shards. `number_of_shards` needs
    /// to be a power of two; otherwise 128 shards are used. The number of shards only
    /// changes the layout: every store starts empty and behaves alike.
    pub fn new(number_of_shards: ClientId) -> (s: Self)
        ensures
            s.wf(),
            s@ == StoreView::empty(),
            s.shard_count() == effective_shards(number_of_shards),
    {
        let exponent = match Self::power_of_two_exponent(number_of_shards) {
            Some(e) => {
                assert(is_power_of_two(number_of_shards as nat)) by {
                    assert(e < 16 && number_of_shards as nat == pow2(e as nat));
                }
                e
            },
            None => 7,
        };
        proof {
            vstd::arithmetic::power2::lemma2_to64();
            vstd::arithmetic::power2::lemma_pow2_adds(exponent as nat, (16 - exponent) as nat);
        }
        let number_of_shards: usize = 1usize << exponent;
        let shard_bits: u32 = 16 - exponent;
        let shard_size: usize = 1usize << shard_bits;
        assert(number_of_shards == pow2(exponent as nat)) by {
            vstd::bits::lemma_usize_shl_is_mul(1, exponent as usize);
        }
        assert(shard_size == pow2(shard_bits as nat)) by {
            vstd::bits::lemma_usize_shl_is_mul(1, shard_bits as usize);
        }
        let mut shards: Vec<Vec<Option<Account>>> = Vec::new();
        let mut k: usize = 0;
        while k < number_of_shards
            invariant
                k <= number_of_shards,
                shards@.len() == k,
                forall|s: int| 0 <= s < k ==> #[trigger] shards@[s]@.len() == shard_size,
                forall|s: int, i: int|
                    0 <= s < k && 0 <= i < shard_size ==> (#[trigger] shards@[s]@[i]) is None,
            decreases number_of_shards - k,
        {
            let mut shard: Vec<Option<Account>> = Vec::new();
            let mut j: usize = 0;
            while j < shard_size
                invariant
                    j <= shard_size,
                    shard@.len() == j,
                    forall|i: int| 0 <= i < j ==> (#[trigger] shard@[i]) is None,
                decreases shard_size - j,
            {
                shard.push(None);
                j = j + 1;
            }
            shards.push(shard);
            k = k + 1;
        }
        assert(shards@.len() * shard_size == CLIENT_SLOTS);
        assert forall|c: ClientId|
            #[trigger] shards@[c as int / shard_size as int]@[c as int % shard_size as int] is None by {
            lemma_shard_in_range(c as int, number_of_shards as int, shard_size as int);
        }
        let store = AccountStore { shard_bits, shard_size, shards, used_ids: HashSet::new() };
        assert(store@ =~= StoreView::empty()) by {
            assert(store@.accounts =~= Map::<ClientId, AccountView>::empty());
        }
        store
    }

    /// The shard and the index within it of the slot of `client_id`.
    fn locate_shard_index(&self, client_id: ClientId) -> (r: (usize, usize))
        requires
            self.wf(),
        ensures
            (r.0 as int, r.1 as int) == self.slot_of(client_id),
            r.0 == client_id as int / self.shard_size as int,
            r.1 == client_id as int % self.shard_size as int,
            r.0 < self.shards@.len(),
            r.1 < self.shard_size,
            self.shard_size * r.0 + r.1 == client_id,
    {
        let client_id = client_id as usize;
        let bits = self.shard_bits;
        let size = self.shard_size;
        proof {
            vstd::bits::lemma_usize_shl_is_mul(1, bits as usize);
            vstd::arithmetic::power2::lemma2_to64();
        }
        let mask: usize = size - 1;
        proof {
            vstd::bits::lemma_usize_shr_is_div(client_id, bits as usize);
            vstd::bits::lemma_usize_low_bits_mask_is_mod(client_id, bits as nat);
            lemma_shard_in_range(client_id as int, self.shards@.len() as int, size as int);
            lemma_fundamental_div_mod(client_id as int, size as int);
        }
        (client_id >> (bits as usize), client_id & mask)
    }
}

impl AccountStore {
    /// Removes the account of `client` from its slot and returns it.
    fn take_account(&mut self, client: ClientId) -> (r: Option<Account>)
        requires
            old(self).wf(),
        ensures
            final(self).wf(),
            final(self).shard_count() == old(self).shard_count(),
            final(self)@ == (StoreView { accounts: old(self)@.accounts.remove(client), ..old(self)@ }),
            r is Some <==> old(self)@.accounts.contains_key(client),
            r matches Some(a) ==> a@ == old(self)@.accounts[client] && a@.valid(),
    {
        let (s, i) = self.locate_shard_index(client);
        let ghost size = self.shard_size as int;
        let ghost old_self = *self;
        let mut slot: Option<Account> = None;
        std::mem::swap(&mut slot, &mut self.shards[s][i]);
        proof {
            assert forall|c: ClientId| c != client implies #[trigger] self.slot(c) == old_self.slot(c) by {
                lemma_div_mod_distinct(c as int, client as int, size);
                lemma_shard_in_range(c as int, self.shards@.len() as int, size);
            }
            assert(self.slot(client) is None);
            assert forall|k: int|
                0 <= k < self.shards@.len() implies #[trigger] self.shards@[k]@.len() == self.shard_size by {
                if k != s as int {
                    assert(self.shards@[k] == old_self.shards@[k]);
                }
            }
            assert(self@.accounts =~= old_self@.accounts.remove(client));
            assert(self@ =~= (StoreView { accounts: old_self@.accounts.remove(client), ..old_self@ }));
        }
        slot
    }

    /// Puts `account` into the slot of `client`.
    fn put_account(&mut self, client: ClientId, account: Account)
        requires
            old(self).wf(),
            account@.id == client,
            account@.valid(),
        ensures
            final(self).wf(),
            final(self).shard_count() == old(self).shard_count(),
            final(self)@ == old(self)@.with_account(client, account@),
    {
        let (s, i) = self.locate_shard_index(client);
        let ghost size = self.shard_size as int;
        let ghost av = account@;
        let ghost old_self = *self;
        let mut slot: Option<Account> = Some(account);
        std::mem::swap(&mut slot, &mut self.shards[s][i]);
        proof {
            assert forall|c: ClientId| c != client implies #[trigger] self.slot(c) == old_self.slot(c) by {
                lemma_div_mod_distinct(c as int, client as int, size);
                lemma_shard_in_range(c as int, self.shards@.len() as int, size);
            }
            assert(self.slot(client) == Some(account));
            assert forall|k: int|
                0 <= k < self.shards@.len() implies #[trigger] self.shards@[k]@.len() == self.shard_size by {
                if k != s as int {
                    assert(self.shards@[k] == old_self.shards@[k]);
                }
            }
            assert(self@.accounts =~= old_self@.accounts.insert(client, av));
            assert(self@ =~= old_self@.with_account(client, av));
        }
    }
}


impl AccountStore {
    /// Remembers `id` as the id of a recorded transaction.
    fn record_id(&mut self, id: TransactionId)
        requires
            old(self).wf(),
        ensures
            final(self).wf(),
            final(self).shard_count() == old(self).shard_count(),
            final(self)@ == (StoreView { used_ids: old(self)@.used_ids.insert(id), ..old(self)@ }),
    {
        let ghost before = *self;
        self.used_ids.insert(id);
        assert(self.shards == before.shards);
        assert(self.shard_size == before.shard_size);
        assert(self.shard_bits == before.shard_bits);
        assert forall|c: ClientId| #[trigger] self.slot(c) == before.slot(c) by {}
        assert(self.used_ids@ == before.used_ids@.insert(id));
        assert(self@.accounts =~= before@.accounts);
    }

    /// The account of `client`, if it has one.
    pub fn account(&self, client: ClientId) -> (r: Option<&Account>)
        requires
            self.wf(),
        ensures
            r is Some <==> self@.accounts.contains_key(client),
            r matches Some(a) ==> a@ == self@.accounts[client],
    {
        let (s, i) = self.locate_shard_index(client);
        match &self.shards[s][i] {
            Some(a) => Some(a),
            None => None,
        }
    }

    /// Every account of a well-formed store keeps the account invariant and is stored under
    /// its own client id.
    pub proof fn lemma_accounts_valid(&self)
        requires
            self.wf(),
        ensures
            all_valid(self@.accounts),
            forall|c: ClientId| #[trigger]
                self@.accounts.contains_key(c) ==> self@.accounts[c].id == c,
    {
    }

    /// Applies one transaction and says how it is counted. A zero-amount deposit or
    /// withdrawal changes nothing; a deposit creates the account of a new client; a
    /// deposit or withdrawal whose id is already recorded, in any account, is refused.
    pub fn apply_transaction(&mut self, transaction: Transaction) -> (o: StepOutcome)
        requires
            old(self).wf(),
        ensures
            final(self).wf(),
            final(self).shard_count() == old(self).shard_count(),
            (final(self)@, o) == step(old(self)@, transaction),
    {
        match transaction {
            Transaction::Deposit { client, transaction_id, amount } => {
                if amount == 0 {
                    return StepOutcome::Applied;
                }
                if self.used_ids.contains(&transaction_id) {
                    return StepOutcome::NotEnoughBalance;
                }
                let mut account = match self.take_account(client) {
                    Some(a) => a,
                    None => Account::new(client),
                };
                let outcome = match account.deposit(transaction_id, amount) {
                    Ok(()) => StepOutcome::Applied,
                    Err(_) => StepOutcome::NotEnoughBalance,
                };
                self.put_account(client, account);
                if outcome == StepOutcome::Applied {
                    self.record_id(transaction_id);
                }
                proof {
                    assert(self@ =~= step(old(self)@, transaction).0);
                }
                outcome
            },
            Transaction::Withdrawal { client, transaction_id, amount } => {
                if amount == 0 {
                    return StepOutcome::Applied;
                }
                let mut account = match self.take_account(client) {
                    Some(a) => a,
                    None => return StepOutcome::AccountNotFound,
                };
                let outcome = if self.used_ids.contains(&transaction_id) {
                    StepOutcome::NotEnoughBalance
                } else {
                    match account.withdrawal(transaction_id, amount) {
                        Ok(()) => StepOutcome::Applied,
                        Err(_) => StepOutcome::NotEnoughBalance,
                    }
                };
                self.put_account(client, account);
                if outcome == StepOutcome::Applied {
                    self.record_id(transaction_id);
                }
                proof {
                    assert(self@ =~= step(old(self)@, transaction).0);
                }
                outcome
            },
            Transaction::Dispute(dispute) => {
                let mut account = match self.take_account(dispute.client) {
                    Some(a) => a,
                    None => return StepOutcome::AccountNotFound,
                };
                let outcome = match account.start_dispute(dispute.transaction_id) {
                    Ok(()) => StepOutcome::Applied,
                    Err(_) => StepOutcome::TransactionNotFound,
                };
                self.put_account(dispute.client, account);
                proof {
                    assert(self@ =~= step(old(self)@, transaction).0);
                }
                outcome
            },
            Transaction::Resolve(resolve) => {
                let mut account = match self.take_account(resolve.client) {
                    Some(a) => a,
                    None => return StepOutcome::AccountNotFound,
                };
                let outcome = match account.resolve_dispute(resolve.transaction_id) {
                    Ok(()) => StepOutcome::Applied,
                    Err(_) => StepOutcome::TransactionNotFound,
                };
                self.put_account(resolve.client, account);
                proof {
                    assert(self@ =~= step(old(self)@, transaction).0);
                }
                outcome
            },
            Transaction::Chargeback(chargeback) => {
                let mut account = match self.take_account(chargeback.client) {
                    Some(a) => a,
                    None => return StepOutcome::AccountNotFound,
                };
                let outcome = match account.chargeback(chargeback.transaction_id) {
                    Ok(()) => StepOutcome::Applied,
                    Err(_) => StepOutcome::TransactionNotFound,
                };
                self.put_account(chargeback.client, account);
                proof {
                    assert(self@ =~= step(old(self)@, transaction).0);
                }
                outcome
            },
        }
    }

    /// Processes all transactions in order. A refused transaction does not stop the others:
    /// each refusal is counted, by kind, and an error with the counts is returned at the end.
    /// The accounts reflect every transaction that could be applied.
    pub fn apply_transactions(&mut self, transactions: Vec<Transaction>) -> (r: Result<
        (),
        ApplyError,
    >)
        requires
            old(self).wf(),
        ensures
            final(self).wf(),
            final(self).shard_count() == old(self).shard_count(),
            final(self)@ == run(old(self)@, transactions@).0,
            r == run_result(old(self)@, transactions@),
    {
        let ghost init = self@;
        let ghost txs = transactions@;
        let n = transactions.len();
        let mut account_not_found: u64 = 0;
        let mut not_enough_balance: u64 = 0;
        let mut transaction_not_found: u64 = 0;
        let mut i: usize = 0;
        assert(txs.take(0) =~= Seq::<Transaction>::empty());
        while i < n
            invariant
                self.wf(),
                self.shard_count() == old(self).shard_count(),
                init == old(self)@,
                txs == transactions@,
                n == txs.len(),
                i <= n,
                self@ == run(init, txs.take(i as int)).0,
                account_not_found == run(init, txs.take(i as int)).1,
                not_enough_balance == run(init, txs.take(i as int)).2,
                transaction_not_found == run(init, txs.take(i as int)).3,
            decreases n - i,
        {
            let transaction = transactions[i];
            proof {
                assert(txs.take(i + 1).drop_last() =~= txs.take(i as int));
                lemma_run_counts_bounded(init, txs.take(i + 1));
                assert(usize::MAX <= u64::MAX);
            }
            let outcome = self.apply_transaction(transaction);
            match outcome {
                StepOutcome::Applied => {},
                StepOutcome::AccountNotFound => {
                    account_not_found = account_not_found + 1;
                },
                StepOutcome::NotEnoughBalance => {
                    not_enough_balance = not_enough_balance + 1;
                },
                StepOutcome::TransactionNotFound => {
                    transaction_not_found = transaction_not_found + 1;
                },
            }
            i = i + 1;
        }
        proof {
            assert(txs.take(n as int) =~= txs);
        }
        if account_not_found == 0 && not_enough_balance == 0 && transaction_not_found == 0 {
            Ok(())
        } else {
            Err(ApplyError { account_not_found, not_enough_balance, transaction_not_found })
        }
    }

    /// The state of every account, one row per client in increasing client order, with
    /// amounts in minor units.
    pub fn summaries(&self) -> (rows: Vec<AccountSummary>)
        requires
            self.wf(),
        ensures
            rows@ == summaries_below(self@.accounts, CLIENT_SLOTS as nat),
            forall|i: int|
                0 <= i < rows@.len() ==> {
                    let row = #[trigger] rows@[i];
                    &&& self@.accounts.contains_key(row.client)
                    &&& row.held == self@.accounts[row.client].held
                    &&& row.total == self@.accounts[row.client].total
                    &&& row.locked == self@.accounts[row.client].locked
                    &&& row.available + row.held == row.total
                },
    {
        let mut rows: Vec<AccountSummary> = Vec::new();
        let mut c: u32 = 0;
        while c < CLIENT_SLOTS as u32
            invariant
                self.wf(),
                c <= CLIENT_SLOTS,
                rows@ == summaries_below(self@.accounts, c as nat),
            decreases CLIENT_SLOTS - c,
        {
            let client = c as ClientId;
            match self.account(client) {
                Some(a) => {
                    rows.push(
                        AccountSummary {
                            client,
                            available: a.available_u64(),
                            held: a.held_u64(),
                            total: a.total_u64(),
                            locked: a.locked(),
                        },
                    );
                },
                None => {},
            }
            c = c + 1;
        }
        proof {
            crate::laws::lemma_summary_rows_report_balances(self@.accounts, CLIENT_SLOTS as nat);
        }
        rows
    }
}

impl Default for AccountStore {
    /// A store with 128 shards.
    fn default() -> (s: Self)
        ensures
            s.wf(),
            s@ == StoreView::empty(),
            s.shard_count() == DEFAULT_SHARDS,
    {
        let s = Self::new(DEFAULT_SHARDS);
        proof {
            vstd::arithmetic::power2::lemma2_to64();
            assert(is_power_of_two(DEFAULT_SHARDS as nat)) by {
                assert(7 < 16 && DEFAULT_SHARDS as nat == pow2(7));
            }
        }
        s
    }
}

} // verus!
