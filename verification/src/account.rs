//! A client account: balances in minor units, a lock flag, and the history of the
//! deposits and withdrawals it has accepted together with their dispute state.

use crate::tx_map::{map_contains_key, map_get, map_insert, TransactionMap};
use crate::{ClientId, TransactionId};
use vstd::prelude::*;
use vstd::set::fold::{is_fun_commutative, lemma_fold_empty, lemma_fold_insert};

verus! {

/// The dispute state of a transaction within an account.
#[derive(Debug, Clone, Copy, PartialEq, Eq, Structural, Default)]
pub enum AccountTransactionDisppute {
    #[default]
    NoDispute,
    DisputeInitiated,
    Resolved,
    ChargeBackOccurred,
}

/// A transaction recorded in an account, with its dispute state.
#[derive(Debug, Clone, Copy, PartialEq, Eq, Structural)]
pub enum AccountTransaction {
    Deposit { id: TransactionId, amount: u64, dispute: AccountTransactionDisppute },
    Withdrawal { id: TransactionId, amount: u64, dispute: AccountTransactionDisppute },
}

impl AccountTransaction {
    pub open spec fn spec_id(self) -> TransactionId {
        match self {
            AccountTransaction::Deposit { id, .. } => id,
            AccountTransaction::Withdrawal { id, .. } => id,
        }
    }

    pub open spec fn spec_amount(self) -> u64 {
        match self {
            AccountTransaction::Deposit { amount, .. } => amount,
            AccountTransaction::Withdrawal { amount, .. } => amount,
        }
    }

    pub open spec fn spec_dispute(self) -> AccountTransactionDisppute {
        match self {
            AccountTransaction::Deposit { dispute, .. } => dispute,
            AccountTransaction::Withdrawal { dispute, .. } => dispute,
        }
    }

    /// The same transaction with its dispute state replaced.
    pub open spec fn with_dispute(self, d: AccountTransactionDisppute) -> AccountTransaction {
        match self {
            AccountTransaction::Deposit { id, amount, .. } => AccountTransaction::Deposit {
                id,
                amount,
                dispute: d,
            },
            AccountTransaction::Withdrawal { id, amount, .. } => AccountTransaction::Withdrawal {
                id,
                amount,
                dispute: d,
            },
        }
    }
}

/// Why an account operation was refused.
#[derive(Debug, Clone, Copy, PartialEq, Eq, Structural)]
pub enum AccountError {
    AccountLocked,
    TransactionAlreadyExists,
    BalanceOverflow,
    NotEnoughBalanceForWithdrawal,
    TransactionNotFoundForDispute,
    TransactionNotFoundToResolve,
    TransactionNotFoundForChargeback,
    AlreadyDisputed,
    NotDisputed,
    NotEnoughBalanceForDispute,
    NotEnoughBalanceForChargeback,
    TotalOverflow,
}

impl AccountError {
    pub open spec fn spec_message(self) -> Seq<char> {
        match self {
            AccountError::AccountLocked => "account is locked"@,
            AccountError::TransactionAlreadyExists => "transaction already exists"@,
            AccountError::BalanceOverflow => "balance overflow"@,
            AccountError::NotEnoughBalanceForWithdrawal => "not enough balance for withdrawal"@,
            AccountError::TransactionNotFoundForDispute => "transaction not found for dispute"@,
            AccountError::TransactionNotFoundToResolve =>
                "transaction not found to resolve dispute"@,
            AccountError::TransactionNotFoundForChargeback =>
                "transaction not found for chargeback"@,
            AccountError::AlreadyDisputed => "there is already a dispute for transaction"@,
            AccountError::NotDisputed => "there is not a dispute for transaction"@,
            AccountError::NotEnoughBalanceForDispute => "not enough balance for dispute"@,
            AccountError::NotEnoughBalanceForChargeback => "not enough balance for chargeback"@,
            AccountError::TotalOverflow => "total overflow"@,
        }
    }

    /// The human-readable text of the error.
    pub fn message(&self) -> (s: &'static str)
        ensures
            s@ == self.spec_message(),
    {
        match self {
            AccountError::AccountLocked => "account is locked",
            AccountError::TransactionAlreadyExists => "transaction already exists",
            AccountError::BalanceOverflow => "balance overflow",
            AccountError::NotEnoughBalanceForWithdrawal => "not enough balance for withdrawal",
            AccountError::TransactionNotFoundForDispute => "transaction not found for dispute",
            AccountError::TransactionNotFoundToResolve => "transaction not found to resolve dispute",
            AccountError::TransactionNotFoundForChargeback => "transaction not found for chargeback",
            AccountError::AlreadyDisputed => "there is already a dispute for transaction",
            AccountError::NotDisputed => "there is not a dispute for transaction",
            AccountError::NotEnoughBalanceForDispute => "not enough balance for dispute",
            AccountError::NotEnoughBalanceForChargeback => "not enough balance for chargeback",
            AccountError::TotalOverflow => "total overflow",
        }
    }
}

/// The amount a transaction contributes to the held funds: its amount while its dispute
/// is open, nothing otherwise.
pub open spec fn held_part(t: AccountTransaction) -> int {
    if t.spec_dispute() == AccountTransactionDisppute::DisputeInitiated {
        t.spec_amount() as int
    } else {
        0
    }
}

/// Adds the held part of the transaction stored under a key.
pub open spec fn add_held_part(transactions: Map<TransactionId, AccountTransaction>) -> spec_fn(
    int,
    TransactionId,
) -> int {
    |acc: int, k: TransactionId| acc + held_part(transactions[k])
}

/// The sum of the amounts of the transactions whose dispute is open.
pub open spec fn disputed_total(transactions: Map<TransactionId, AccountTransaction>) -> int {
    transactions.dom().fold(0int, add_held_part(transactions))
}

proof fn lemma_add_held_part_commutative(transactions: Map<TransactionId, AccountTransaction>)
    ensures
        is_fun_commutative(add_held_part(transactions)),
{
}

/// Folding two functions that agree on a set's elements gives the same sum; the sum of
/// non-negative parts is not negative.
proof fn lemma_fold_agree(
    s: Set<TransactionId>,
    m1: Map<TransactionId, AccountTransaction>,
    m2: Map<TransactionId, AccountTransaction>,
)
    requires
        s.finite(),
        forall|k: TransactionId| #[trigger] s.contains(k) ==> held_part(m1[k]) == held_part(m2[k]),
    ensures
        s.fold(0int, add_held_part(m1)) == s.fold(0int, add_held_part(m2)),
        s.fold(0int, add_held_part(m1)) >= 0,
    decreases s.len(),
{
    lemma_add_held_part_commutative(m1);
    lemma_add_held_part_commutative(m2);
    if s.len() == 0 {
        assert(s =~= Set::empty());
        lemma_fold_empty(0int, add_held_part(m1));
        lemma_fold_empty(0int, add_held_part(m2));
    } else {
        let k = s.choose();
        let r = s.remove(k);
        lemma_fold_agree(r, m1, m2);
        assert(r.insert(k) =~= s);
        lemma_fold_insert(r, 0int, add_held_part(m1), k);
        lemma_fold_insert(r, 0int, add_held_part(m2), k);
    }
}

/// Storing `t` under `k` changes the disputed total by the difference of the held parts.
pub proof fn lemma_disputed_total_insert(
    transactions: Map<TransactionId, AccountTransaction>,
    k: TransactionId,
    t: AccountTransaction,
)
    requires
        transactions.dom().finite(),
    ensures
        transactions.insert(k, t).dom().finite(),
        disputed_total(transactions) >= 0,
        transactions.contains_key(k) ==> disputed_total(transactions) >= held_part(transactions[k]),
        disputed_total(transactions.insert(k, t)) == disputed_total(transactions) + held_part(t)
            - (if transactions.contains_key(k) {
            held_part(transactions[k])
        } else {
            0
        }),
{
    let m2 = transactions.insert(k, t);
    let r = transactions.dom().remove(k);
    lemma_add_held_part_commutative(transactions);
    lemma_add_held_part_commutative(m2);
    lemma_fold_agree(r, transactions, m2);
    lemma_fold_agree(transactions.dom(), transactions, transactions);
    assert(m2.dom() =~= r.insert(k));
    lemma_fold_insert(r, 0int, add_held_part(m2), k);
    if transactions.contains_key(k) {
        assert(r.insert(k) =~= transactions.dom());
        lemma_fold_insert(r, 0int, add_held_part(transactions), k);
    } else {
        assert(r =~= transactions.dom());
    }
}

/// The abstract state of an account.
pub struct AccountView {
    pub id: ClientId,
    pub total: u64,
    pub held: u64,
    pub locked: bool,
    pub transactions: Map<TransactionId, AccountTransaction>,
}

impl AccountView {
    /// A fresh account: no funds, unlocked, no history.
    pub open spec fn empty(id: ClientId) -> AccountView {
        AccountView { id, total: 0, held: 0, locked: false, transactions: Map::empty() }
    }

    /// Funds available for trading: `total - held`.
    pub open spec fn available(self) -> int {
        self.total - self.held
    }

    /// Held funds do not exceed the total, so `available` is not negative.
    pub open spec fn balanced(self) -> bool {
        self.held <= self.total
    }

    /// What every account keeps: held funds within the total, a finite history, and held
    /// funds equal to the sum of the amounts of the transactions whose dispute is open.
    pub open spec fn valid(self) -> bool {
        &&& self.balanced()
        &&& self.transactions.dom().finite()
        &&& self.held == disputed_total(self.transactions)
    }

    /// Every recorded transaction is stored under its own id.
    pub open spec fn keyed_by_id(self) -> bool {
        forall|k: TransactionId| #[trigger]
            self.transactions.contains_key(k) ==> self.transactions[k].spec_id() == k
    }

    /// The account with the dispute state of transaction `id` replaced.
    pub open spec fn with_dispute_state(self, id: TransactionId, d: AccountTransactionDisppute) -> AccountView {
        AccountView {
            transactions: self.transactions.insert(id, self.transactions[id].with_dispute(d)),
            ..self
        }
    }

    /// The outcome of a deposit of `amount` under transaction id `id`: it credits total and
    /// available funds.
    pub open spec fn deposit_result(self, id: TransactionId, amount: u64) -> Result<
        AccountView,
        AccountError,
    > {
        if self.locked {
            Err(AccountError::AccountLocked)
        } else if self.transactions.contains_key(id) {
            Err(AccountError::TransactionAlreadyExists)
        } else if self.total + amount > u64::MAX {
            Err(AccountError::BalanceOverflow)
        } else {
            Ok(
                AccountView {
                    total: (self.total + amount) as u64,
                    transactions: self.transactions.insert(
                        id,
                        AccountTransaction::Deposit {
                            id,
                            amount,
                            dispute: AccountTransactionDisppute::NoDispute,
                        },
                    ),
                    ..self
                },
            )
        }
    }

    /// The outcome of a withdrawal of `amount` under transaction id `id`: it debits total and
    /// available funds, and needs `amount` to be available.
    pub open spec fn withdrawal_result(self, id: TransactionId, amount: u64) -> Result<
        AccountView,
        AccountError,
    > {
        if self.locked {
            Err(AccountError::AccountLocked)
        } else if self.transactions.contains_key(id) {
            Err(AccountError::TransactionAlreadyExists)
        } else if self.available() < amount {
            Err(AccountError::NotEnoughBalanceForWithdrawal)
        } else {
            Ok(
                AccountView {
                    total: (self.total - amount) as u64,
                    transactions: self.transactions.insert(
                        id,
                        AccountTransaction::Withdrawal {
                            id,
                            amount,
                            dispute: AccountTransactionDisppute::NoDispute,
                        },
                    ),
                    ..self
                },
            )
        }
    }

    /// The outcome of opening a dispute on transaction `id`: its amount moves from available
    /// to held funds, the total stays.
    pub open spec fn start_dispute_result(self, id: TransactionId) -> Result<
        AccountView,
        AccountError,
    > {
        if self.locked {
            Err(AccountError::AccountLocked)
        } else if !self.transactions.contains_key(id) {
            Err(AccountError::TransactionNotFoundForDispute)
        } else {
            let amount = self.transactions[id].spec_amount();
            if self.transactions[id].spec_dispute() != AccountTransactionDisppute::NoDispute {
                Err(AccountError::AlreadyDisputed)
            } else if self.available() < amount {
                Err(AccountError::NotEnoughBalanceForDispute)
            } else {
                Ok(
                    AccountView {
                        held: (self.held + amount) as u64,
                        ..self.with_dispute_state(id, AccountTransactionDisppute::DisputeInitiated)
                    },
                )
            }
        }
    }

    /// The outcome of resolving the dispute on transaction `id`: its amount moves from held
    /// back to available funds, the total stays.
    pub open spec fn resolve_dispute_result(self, id: TransactionId) -> Result<
        AccountView,
        AccountError,
    > {
        if self.locked {
            Err(AccountError::AccountLocked)
        } else if !self.transactions.contains_key(id) {
            Err(AccountError::TransactionNotFoundToResolve)
        } else {
            let amount = self.transactions[id].spec_amount();
            if self.transactions[id].spec_dispute() != AccountTransactionDisppute::DisputeInitiated {
                Err(AccountError::NotDisputed)
            } else if self.held < amount {
                Err(AccountError::NotEnoughBalanceForDispute)
            } else {
                Ok(
                    AccountView {
                        held: (self.held - amount) as u64,
                        ..self.with_dispute_state(id, AccountTransactionDisppute::Resolved)
                    },
                )
            }
        }
    }

    /// The outcome of a chargeback of transaction `id`, whose dispute was resolved: a deposit
    /// is taken back out of the total (it needs its amount to be available), a withdrawal is
    /// given back; either way the account is locked.
    pub open spec fn chargeback_result(self, id: TransactionId) -> Result<
        AccountView,
        AccountError,
    > {
        if self.locked {
            Err(AccountError::AccountLocked)
        } else if !self.transactions.contains_key(id) {
            Err(AccountError::TransactionNotFoundForChargeback)
        } else {
            let t = self.transactions[id];
            let amount = t.spec_amount();
            let charged = self.with_dispute_state(id, AccountTransactionDisppute::ChargeBackOccurred);
            if t.spec_dispute() != AccountTransactionDisppute::Resolved {
                Err(AccountError::NotDisputed)
            } else if t is Deposit {
                if self.available() < amount {
                    Err(AccountError::NotEnoughBalanceForChargeback)
                } else {
                    Ok(AccountView { total: (self.total - amount) as u64, locked: true, ..charged })
                }
            } else if self.total < amount {
                Err(AccountError::NotEnoughBalanceForChargeback)
            } else if self.total + amount > u64::MAX {
                Err(AccountError::TotalOverflow)
            } else {
                Ok(AccountView { total: (self.total + amount) as u64, locked: true, ..charged })
            }
        }
    }
}

/// The data of one client. Balances are `u64` minor units (amount x 10,000) so that no
/// floating-point representation error accumulates; the held funds never exceed the total.
#[derive(Debug)]
pub struct Account {
    /// Client identification.
    id: ClientId,
    total: u64,
    held: u64,
    locked: bool,
    transactions: TransactionMap,
}

impl View for Account {
    type V = AccountView;

    closed spec fn view(&self) -> AccountView {
        AccountView {
            id: self.id,
            total: self.total,
            held: self.held,
            locked: self.locked,
            transactions: self.transactions@,
        }
    }
}

impl Clone for Account {
    /// A copy of the account with the same balances, lock and history.
    fn clone(&self) -> (c: Self)
        ensures
            c@ == self@,
    {
        proof {
            use_type_invariant(self);
        }
        Account {
            id: self.id,
            total: self.total,
            held: self.held,
            locked: self.locked,
            transactions: self.transactions.clone(),
        }
    }
}

impl Account {
    #[verifier::type_invariant]
    spec fn is_valid(self) -> bool {
        self@.valid()
    }

    /// A new, empty and unlocked account for client `id`.
    pub fn new(id: ClientId) -> (a: Self)
        ensures
            a@ == AccountView::empty(id),
            a@.valid(),
    {
        let transactions = TransactionMap::default();
        assert(transactions@ =~= Map::empty());
        proof {
            lemma_fold_empty(0int, add_held_part(transactions@));
        }
        Account { id, total: 0, held: 0, locked: false, transactions }
    }

    /// The client the account belongs to.
    pub fn id(&self) -> (r: ClientId)
        ensures
            r == self@.id,
    {
        self.id
    }

    /// Funds available for trading, staking, withdrawal: `total - held`, in minor units.
    pub fn available_u64(&self) -> (r: u64)
        ensures
            r == self@.available(),
    {
        proof {
            use_type_invariant(self);
        }
        self.total - self.held
    }

    /// Funds held for disputes, in minor units.
    pub fn held_u64(&self) -> (r: u64)
        ensures
            r == self@.held,
    {
        self.held
    }

    /// Funds available or held, in minor units.
    pub fn total_u64(&self) -> (r: u64)
        ensures
            r == self@.total,
    {
        self.total
    }

    /// Whether the account is locked; it is once a chargeback has occurred, and a locked
    /// account refuses every further operation.
    pub fn locked(&self) -> (r: bool)
        ensures
            r == self@.locked,
    {
        self.locked
    }

    /// Replaces the balances and lock flag and stores `t` under `key`, all at once.
    fn set_state(&mut self, total: u64, held: u64, locked: bool, key: TransactionId, t: AccountTransaction)
        requires
            (AccountView {
                total,
                held,
                locked,
                transactions: old(self)@.transactions.insert(key, t),
                ..old(self)@
            }).valid(),
        ensures
            final(self)@ == (AccountView {
                total,
                held,
                locked,
                transactions: old(self)@.transactions.insert(key, t),
                ..old(self)@
            }),
    {
        let mut taken = Account::new(self.id);
        std::mem::swap(&mut taken, self);
        let Account { id, transactions, .. } = taken;
        let mut transactions = transactions;
        map_insert(&mut transactions, key, t);
        *self = Account { id, total, held, locked, transactions };
    }

    /// Records a deposit of `amount` minor units under transaction id `id`.
    pub fn deposit(&mut self, id: TransactionId, amount: u64) -> (r: Result<(), AccountError>)
        ensures
            final(self)@.valid(),
            match old(self)@.deposit_result(id, amount) {
                Ok(v) => r is Ok && final(self)@ == v,
                Err(e) => r == Err::<(), AccountError>(e) && final(self)@ == old(self)@,
            },
    {
        proof {
            use_type_invariant(&*self);
        }
        if self.locked {
            return Err(AccountError::AccountLocked);
        }
        if map_contains_key(&self.transactions, id) {
            return Err(AccountError::TransactionAlreadyExists);
        }
        let t = AccountTransaction::Deposit {
            id,
            amount,
            dispute: AccountTransactionDisppute::NoDispute,
        };
        proof {
            lemma_disputed_total_insert(self@.transactions, id, t);
        }
        match self.total.checked_add(amount) {
            None => Err(AccountError::BalanceOverflow),
            Some(total) => {
                self.set_state(total, self.held, self.locked, id, t);
                Ok(())
            },
        }
    }

    /// Records a withdrawal of `amount` minor units under transaction id `id`. It fails, and
    /// no balance changes, when less than `amount` is available.
    pub fn withdrawal(&mut self, id: TransactionId, amount: u64) -> (r: Result<(), AccountError>)
        ensures
            final(self)@.valid(),
            match old(self)@.withdrawal_result(id, amount) {
                Ok(v) => r is Ok && final(self)@ == v,
                Err(e) => r == Err::<(), AccountError>(e) && final(self)@ == old(self)@,
            },
    {
        proof {
            use_type_invariant(&*self);
        }
        if self.locked {
            return Err(AccountError::AccountLocked);
        }
        if map_contains_key(&self.transactions, id) {
            return Err(AccountError::TransactionAlreadyExists);
        }
        if self.available_u64() < amount {
            return Err(AccountError::NotEnoughBalanceForWithdrawal);
        }
        let t = AccountTransaction::Withdrawal {
            id,
            amount,
            dispute: AccountTransactionDisppute::NoDispute,
        };
        proof {
            lemma_disputed_total_insert(self@.transactions, id, t);
        }
        self.set_state(self.total - amount, self.held, self.locked, id, t);
        Ok(())
    }

    /// Starts a dispute on transaction `transaction_id`, holding its amount; fails if it is
    /// unknown, already disputed, or its amount is not available.
    pub fn start_dispute(&mut self, transaction_id: TransactionId) -> (r: Result<(), AccountError>)
        ensures
            final(self)@.valid(),
            match old(self)@.start_dispute_result(transaction_id) {
                Ok(v) => r is Ok && final(self)@ == v,
                Err(e) => r == Err::<(), AccountError>(e) && final(self)@ == old(self)@,
            },
    {
        proof {
            use_type_invariant(&*self);
        }
        if self.locked {
            return Err(AccountError::AccountLocked);
        }
        let t = match map_get(&self.transactions, transaction_id) {
            None => return Err(AccountError::TransactionNotFoundForDispute),
            Some(t) => t,
        };
        let (amount, updated) = match t {
            AccountTransaction::Deposit { id, amount, dispute } => {
                if dispute != AccountTransactionDisppute::NoDispute {
                    return Err(AccountError::AlreadyDisputed);
                }
                (
                    amount,
                    AccountTransaction::Deposit {
                        id,
                        amount,
                        dispute: AccountTransactionDisppute::DisputeInitiated,
                    },
                )
            },
            AccountTransaction::Withdrawal { id, amount, dispute } => {
                if dispute != AccountTransactionDisppute::NoDispute {
                    return Err(AccountError::AlreadyDisputed);
                }
                (
                    amount,
                    AccountTransaction::Withdrawal {
                        id,
                        amount,
                        dispute: AccountTransactionDisppute::DisputeInitiated,
                    },
                )
            },
        };
        if self.total - self.held < amount {
            return Err(AccountError::NotEnoughBalanceForDispute);
        }
        proof {
            lemma_disputed_total_insert(self@.transactions, transaction_id, updated);
        }
        self.set_state(self.total, self.held + amount, self.locked, transaction_id, updated);
        proof {
            assert(self@ == old(self)@.start_dispute_result(transaction_id).unwrap());
        }
        Ok(())
    }

    /// Resolves the dispute on transaction `transaction_id`, releasing its held amount; fails
    /// if it is unknown or not under dispute.
    pub fn resolve_dispute(&mut self, transaction_id: TransactionId) -> (r: Result<
        (),
        AccountError,
    >)
        ensures
            final(self)@.valid(),
            match old(self)@.resolve_dispute_result(transaction_id) {
                Ok(v) => r is Ok && final(self)@ == v,
                Err(e) => r == Err::<(), AccountError>(e) && final(self)@ == old(self)@,
            },
    {
        proof {
            use_type_invariant(&*self);
        }
        if self.locked {
            return Err(AccountError::AccountLocked);
        }
        let t = match map_get(&self.transactions, transaction_id) {
            None => return Err(AccountError::TransactionNotFoundToResolve),
            Some(t) => t,
        };
        let (amount, updated) = match t {
            AccountTransaction::Deposit { id, amount, dispute } => {
                if dispute != AccountTransactionDisppute::DisputeInitiated {
                    return Err(AccountError::NotDisputed);
                }
                (
                    amount,
                    AccountTransaction::Deposit {
                        id,
                        amount,
                        dispute: AccountTransactionDisppute::Resolved,
                    },
                )
            },
            AccountTransaction::Withdrawal { id, amount, dispute } => {
                if dispute != AccountTransactionDisppute::DisputeInitiated {
                    return Err(AccountError::NotDisputed);
                }
                (
                    amount,
                    AccountTransaction::Withdrawal {
                        id,
                        amount,
                        dispute: AccountTransactionDisppute::Resolved,
                    },
                )
            },
        };
        if self.held < amount {
            return Err(AccountError::NotEnoughBalanceForDispute);
        }
        proof {
            lemma_disputed_total_insert(self@.transactions, transaction_id, updated);
        }
        self.set_state(self.total, self.held - amount, self.locked, transaction_id, updated);
        proof {
            assert(self@ == old(self)@.resolve_dispute_result(transaction_id).unwrap());
        }
        Ok(())
    }

    /// Processes a chargeback of transaction `transaction_id` and locks the account; fails if
    /// the transaction is unknown or its dispute was not resolved, and for a deposit whose
    /// amount is not available.
    pub fn chargeback(&mut self, transaction_id: TransactionId) -> (r: Result<(), AccountError>)
        ensures
            final(self)@.valid(),
            match old(self)@.chargeback_result(transaction_id) {
                Ok(v) => r is Ok && final(self)@ == v,
                Err(e) => r == Err::<(), AccountError>(e) && final(self)@ == old(self)@,
            },
    {
        proof {
            use_type_invariant(&*self);
        }
        if self.locked {
            return Err(AccountError::AccountLocked);
        }
        let t = match map_get(&self.transactions, transaction_id) {
            None => return Err(AccountError::TransactionNotFoundForChargeback),
            Some(t) => t,
        };
        match t {
            AccountTransaction::Deposit { id, amount, dispute } => {
                if dispute != AccountTransactionDisppute::Resolved {
                    return Err(AccountError::NotDisputed);
                }
                if self.total - self.held < amount {
                    return Err(AccountError::NotEnoughBalanceForChargeback);
                }
                let updated = AccountTransaction::Deposit {
                    id,
                    amount,
                    dispute: AccountTransactionDisppute::ChargeBackOccurred,
                };
                proof {
                    lemma_disputed_total_insert(self@.transactions, transaction_id, updated);
                }
                self.set_state(self.total - amount, self.held, true, transaction_id, updated);
            },
            AccountTransaction::Withdrawal { id, amount, dispute } => {
                if dispute != AccountTransactionDisppute::Resolved {
                    return Err(AccountError::NotDisputed);
                }
                if self.total < amount {
                    return Err(AccountError::NotEnoughBalanceForChargeback);
                }
                let total = match self.total.checked_add(amount) {
                    None => return Err(AccountError::TotalOverflow),
                    Some(total) => total,
                };
                let updated = AccountTransaction::Withdrawal {
                    id,
                    amount,
                    dispute: AccountTransactionDisppute::ChargeBackOccurred,
                };
                proof {
                    lemma_disputed_total_insert(self@.transactions, transaction_id, updated);
                }
                self.set_state(total, self.held, true, transaction_id, updated);
            },
        }
        proof {
            assert(self@ == old(self)@.chargeback_result(transaction_id).unwrap());
        }
        Ok(())
    }
}

} // verus!
