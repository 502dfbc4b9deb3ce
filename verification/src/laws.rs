//! Properties of the engine that hold for every input: what each kind of transaction does
//! to the balances, what no transaction can undo, and how batches compose.

use crate::account::{
    lemma_disputed_total_insert, AccountError, AccountTransaction, AccountTransactionDisppute,
    AccountView,
};
use crate::account_store::{
    account_or_new, all_valid, run, step, summaries_below, StepOutcome, StoreView,
};
use crate::{ClientId, Transaction, TransactionId};
use vstd::prelude::*;

verus! {

/// How far a transaction has gone through the dispute lifecycle.
pub open spec fn dispute_rank(d: AccountTransactionDisppute) -> nat {
    match d {
        AccountTransactionDisppute::NoDispute => 0,
        AccountTransactionDisppute::DisputeInitiated => 1,
        AccountTransactionDisppute::Resolved => 2,
        AccountTransactionDisppute::ChargeBackOccurred => 3,
    }
}

/// `later` is `earlier` with its dispute state moved forward (or kept).
pub open spec fn same_transaction_advanced(
    earlier: AccountTransaction,
    later: AccountTransaction,
) -> bool {
    &&& later.spec_id() == earlier.spec_id()
    &&& later.spec_amount() == earlier.spec_amount()
    &&& (later is Deposit <==> earlier is Deposit)
    &&& dispute_rank(later.spec_dispute()) >= dispute_rank(earlier.spec_dispute())
}

/// The ids of the transactions recorded in any account.
pub open spec fn recorded_ids(accounts: Map<ClientId, AccountView>) -> Set<TransactionId> {
    Set::new(
        |id: TransactionId|
            exists|c: ClientId|
                accounts.contains_key(c) && #[trigger] accounts[c].transactions.contains_key(id),
    )
}

/// A deposit of a new id credits `amount`: total and available grow by it, held stays.
pub proof fn lemma_deposit_credits(a: AccountView, id: TransactionId, amount: u64)
    requires
        !a.locked,
        !a.transactions.contains_key(id),
        a.total + amount <= u64::MAX,
    ensures
        a.deposit_result(id, amount) matches Ok(b) && b.total == a.total + amount && b.held
            == a.held && b.available() == a.available() + amount && b.locked == a.locked,
{
}

/// A withdrawal within the available funds debits `amount` from total and available; one
/// beyond them is refused (and a refused operation changes nothing).
pub proof fn lemma_withdrawal_debits(a: AccountView, id: TransactionId, amount: u64)
    requires
        !a.locked,
        !a.transactions.contains_key(id),
    ensures
        amount <= a.available() ==> (a.withdrawal_result(id, amount) matches Ok(b) && b.total
            == a.total - amount && b.held == a.held && b.available() == a.available() - amount),
        amount > a.available() ==> a.withdrawal_result(id, amount) == Err::<
            AccountView,
            AccountError,
        >(AccountError::NotEnoughBalanceForWithdrawal),
{
}

/// An account refuses a deposit or withdrawal reusing a recorded id.
pub proof fn lemma_transaction_id_used_once(a: AccountView, id: TransactionId, amount: u64)
    requires
        a.transactions.contains_key(id),
    ensures
        a.deposit_result(id, amount) is Err,
        a.withdrawal_result(id, amount) is Err,
{
}

/// Disputing a transaction holds its amount: held grows by it, available drops by it, the
/// total stays.
pub proof fn lemma_dispute_holds_funds(a: AccountView, id: TransactionId)
    requires
        !a.locked,
        a.transactions.contains_key(id),
        a.transactions[id].spec_dispute() == AccountTransactionDisppute::NoDispute,
        a.transactions[id].spec_amount() <= a.available(),
    ensures
        a.start_dispute_result(id) matches Ok(b) && b.held == a.held
            + a.transactions[id].spec_amount() && b.available() == a.available()
            - a.transactions[id].spec_amount() && b.total == a.total
            && b.transactions[id].spec_dispute() == AccountTransactionDisppute::DisputeInitiated,
{
}

/// Resolving an open dispute, of a deposit or of a withdrawal, always succeeds on an
/// unlocked account and releases the held amount: held drops by it, available grows by it,
/// the total stays.
pub proof fn lemma_resolve_releases_funds(a: AccountView, id: TransactionId)
    requires
        a.valid(),
        !a.locked,
        a.transactions.contains_key(id),
        a.transactions[id].spec_dispute() == AccountTransactionDisppute::DisputeInitiated,
    ensures
        a.resolve_dispute_result(id) matches Ok(b) && b.held == a.held
            - a.transactions[id].spec_amount() && b.available() == a.available()
            + a.transactions[id].spec_amount() && b.total == a.total && b.locked == a.locked
            && b.transactions[id].spec_dispute() == AccountTransactionDisppute::Resolved,
{
    lemma_disputed_total_insert(a.transactions, id, a.transactions[id]);
}

/// The amount of an open dispute is still held: in every account (which keeps its
/// invariant), an open dispute resolves, and afterwards it can be neither disputed nor
/// resolved again.
pub proof fn lemma_open_dispute_resolves(a: AccountView, id: TransactionId)
    requires
        a.valid(),
        !a.locked,
        a.transactions.contains_key(id),
        a.transactions[id].spec_dispute() == AccountTransactionDisppute::DisputeInitiated,
    ensures
        a.transactions[id].spec_amount() <= a.held,
        a.resolve_dispute_result(id) is Ok,
        a.resolve_dispute_result(id).unwrap().start_dispute_result(id) is Err,
        a.resolve_dispute_result(id).unwrap().resolve_dispute_result(id) is Err,
{
    lemma_disputed_total_insert(a.transactions, id, a.transactions[id]);
}

/// A chargeback of a deposit whose dispute was resolved takes its amount out of the total
/// and locks the account.
pub proof fn lemma_chargeback_reverses_deposit(a: AccountView, id: TransactionId)
    requires
        !a.locked,
        a.transactions.contains_key(id),
        a.transactions[id] is Deposit,
        a.transactions[id].spec_dispute() == AccountTransactionDisppute::Resolved,
        a.transactions[id].spec_amount() <= a.available(),
    ensures
        a.chargeback_result(id) matches Ok(b) && b.total == a.total
            - a.transactions[id].spec_amount() && b.held == a.held && b.locked,
{
}

/// A chargeback only follows a resolved dispute.
pub proof fn lemma_chargeback_needs_resolution(a: AccountView, id: TransactionId)
    requires
        a.transactions.contains_key(id),
        a.transactions[id].spec_dispute() != AccountTransactionDisppute::Resolved,
    ensures
        a.chargeback_result(id) is Err,
{
}

/// A locked (frozen) account refuses every operation.
pub proof fn lemma_locked_account_refuses_everything(
    a: AccountView,
    id: TransactionId,
    amount: u64,
)
    requires
        a.locked,
    ensures
        a.deposit_result(id, amount) == Err::<AccountView, AccountError>(AccountError::AccountLocked),
        a.withdrawal_result(id, amount) == Err::<AccountView, AccountError>(AccountError::AccountLocked),
        a.start_dispute_result(id) == Err::<AccountView, AccountError>(AccountError::AccountLocked),
        a.resolve_dispute_result(id) == Err::<AccountView, AccountError>(AccountError::AccountLocked),
        a.chargeback_result(id) == Err::<AccountView, AccountError>(AccountError::AccountLocked),
{
}

/// Every operation keeps the account invariant: held funds never exceed the total (so
/// `available = total - held` is never negative) and always equal the sum of the amounts
/// under open dispute.
pub proof fn lemma_operations_keep_valid(a: AccountView, id: TransactionId, amount: u64)
    requires
        a.valid(),
    ensures
        a.deposit_result(id, amount) matches Ok(b) ==> b.valid(),
        a.withdrawal_result(id, amount) matches Ok(b) ==> b.valid(),
        a.start_dispute_result(id) matches Ok(b) ==> b.valid(),
        a.resolve_dispute_result(id) matches Ok(b) ==> b.valid(),
        a.chargeback_result(id) matches Ok(b) ==> b.valid(),
{
    lemma_disputed_total_insert(
        a.transactions,
        id,
        AccountTransaction::Deposit { id, amount, dispute: AccountTransactionDisppute::NoDispute },
    );
    lemma_disputed_total_insert(
        a.transactions,
        id,
        AccountTransaction::Withdrawal {
            id,
            amount,
            dispute: AccountTransactionDisppute::NoDispute,
        },
    );
    if a.transactions.contains_key(id) {
        let t = a.transactions[id];
        lemma_disputed_total_insert(
            a.transactions,
            id,
            t.with_dispute(AccountTransactionDisppute::DisputeInitiated),
        );
        lemma_disputed_total_insert(
            a.transactions,
            id,
            t.with_dispute(AccountTransactionDisppute::Resolved),
        );
        lemma_disputed_total_insert(
            a.transactions,
            id,
            t.with_dispute(AccountTransactionDisppute::ChargeBackOccurred),
        );
    }
}

/// A transaction touches no account but that of its own client.
pub proof fn lemma_step_touches_only_its_client(s: StoreView, tx: Transaction, c: ClientId)
    requires
        c != tx.client(),
    ensures
        step(s, tx).0.accounts.contains_key(c) == s.accounts.contains_key(c),
        s.accounts.contains_key(c) ==> step(s, tx).0.accounts[c] == s.accounts[c],
{
}

/// A batch of transactions for other clients leaves a client's account as it was (or still
/// absent).
pub proof fn lemma_run_leaves_other_clients(s: StoreView, txs: Seq<Transaction>, c: ClientId)
    requires
        forall|i: int| 0 <= i < txs.len() ==> (#[trigger] txs[i]).client() != c,
    ensures
        run(s, txs).0.accounts.contains_key(c) == s.accounts.contains_key(c),
        s.accounts.contains_key(c) ==> run(s, txs).0.accounts[c] == s.accounts[c],
    decreases txs.len(),
{
    if txs.len() > 0 {
        let prefix = txs.drop_last();
        assert forall|i: int| 0 <= i < prefix.len() implies (#[trigger] prefix[i]).client() != c by {
            assert(prefix[i] == txs[i]);
        }
        lemma_run_leaves_other_clients(s, prefix, c);
        assert(txs.last() == txs[txs.len() - 1]);
        lemma_step_touches_only_its_client(run(s, prefix).0, txs.last(), c);
    }
}

/// Only a deposit of a non-zero amount creates an account, and an account is never removed.
pub proof fn lemma_step_creates_only_by_deposit(s: StoreView, tx: Transaction, c: ClientId)
    ensures
        s.accounts.contains_key(c) ==> step(s, tx).0.accounts.contains_key(c),
        step(s, tx).0.accounts.contains_key(c) && !s.accounts.contains_key(c) ==> (tx matches Transaction::Deposit { client, amount, .. } && client == c && amount != 0),
{
}

/// A locked account stays locked and never changes again, whatever is applied afterwards.
pub proof fn lemma_step_keeps_locked(s: StoreView, tx: Transaction, c: ClientId)
    requires
        s.accounts.contains_key(c),
        s.accounts[c].locked,
    ensures
        step(s, tx).0.accounts[c] == s.accounts[c],
{
}

/// A recorded transaction stays recorded with the same kind and amount, and its dispute
/// state only moves forward: none, initiated, resolved, charged back.
pub proof fn lemma_step_keeps_history(
    s: StoreView,
    tx: Transaction,
    c: ClientId,
    id: TransactionId,
)
    requires
        s.accounts.contains_key(c),
        s.accounts[c].transactions.contains_key(id),
    ensures
        step(s, tx).0.accounts[c].transactions.contains_key(id),
        same_transaction_advanced(
            s.accounts[c].transactions[id],
            step(s, tx).0.accounts[c].transactions[id],
        ),
{
}

/// Every account is stored under its client id, and every recorded transaction under its
/// transaction id; applying a transaction keeps both.
pub proof fn lemma_step_keeps_keys(s: StoreView, tx: Transaction)
    requires
        forall|c: ClientId| #[trigger]
            s.accounts.contains_key(c) ==> s.accounts[c].id == c && s.accounts[c].keyed_by_id(),
    ensures
        forall|c: ClientId| #[trigger]
            step(s, tx).0.accounts.contains_key(c) ==> step(s, tx).0.accounts[c].id == c && step(
                s,
                tx,
            ).0.accounts[c].keyed_by_id(),
{
    let next = step(s, tx).0.accounts;
    assert forall|c: ClientId| #[trigger] next.contains_key(c) implies next[c].id == c
        && next[c].keyed_by_id() by {
        if c != tx.client() {
            lemma_step_touches_only_its_client(s, tx, c);
        } else {
            let a = account_or_new(s.accounts, c);
            assert(a.keyed_by_id());
            assert forall|k: TransactionId| #[trigger]
                next[c].transactions.contains_key(k) implies next[c].transactions[k].spec_id()
                == k by {
                if a.transactions.contains_key(k) {
                }
            }
        }
    }
}

/// Every account keeps its invariant after any transaction.
pub proof fn lemma_step_keeps_all_valid(s: StoreView, tx: Transaction)
    requires
        all_valid(s.accounts),
    ensures
        all_valid(step(s, tx).0.accounts),
{
    let next = step(s, tx).0.accounts;
    assert forall|c: ClientId| #[trigger] next.contains_key(c) implies next[c].valid() by {
        let a = account_or_new(s.accounts, c);
        if !s.accounts.contains_key(c) {
            vstd::set::fold::lemma_fold_empty(
                0int,
                crate::account::add_held_part(a.transactions),
            );
        }
        match tx {
            Transaction::Deposit { transaction_id, amount, .. } => {
                lemma_operations_keep_valid(a, transaction_id, amount);
            },
            Transaction::Withdrawal { transaction_id, amount, .. } => {
                lemma_operations_keep_valid(a, transaction_id, amount);
            },
            Transaction::Dispute(d) => {
                lemma_operations_keep_valid(a, d.transaction_id, 0);
            },
            Transaction::Resolve(r) => {
                lemma_operations_keep_valid(a, r.transaction_id, 0);
            },
            Transaction::Chargeback(k) => {
                lemma_operations_keep_valid(a, k.transaction_id, 0);
            },
        }
    }
}

/// Every account keeps its invariant after any batch.
pub proof fn lemma_run_keeps_all_valid(s: StoreView, txs: Seq<Transaction>)
    requires
        all_valid(s.accounts),
    ensures
        all_valid(run(s, txs).0.accounts),
    decreases txs.len(),
{
    if txs.len() > 0 {
        lemma_run_keeps_all_valid(s, txs.drop_last());
        lemma_step_keeps_all_valid(run(s, txs.drop_last()).0, txs.last());
    }
}

/// The store's set of used ids is exactly the set of ids recorded in its accounts, before
/// and after any transaction.
pub proof fn lemma_step_keeps_used_ids(s: StoreView, tx: Transaction)
    requires
        s.used_ids == recorded_ids(s.accounts),
    ensures
        step(s, tx).0.used_ids == recorded_ids(step(s, tx).0.accounts),
{
    let next = step(s, tx).0;
    let client = tx.client();
    assert forall|id: TransactionId| #[trigger]
        next.used_ids.contains(id) <==> recorded_ids(next.accounts).contains(id) by {
        if next.used_ids.contains(id) {
            if s.used_ids.contains(id) {
                let c = choose|c: ClientId|
                    s.accounts.contains_key(c) && #[trigger] s.accounts[c].transactions.contains_key(id);
                lemma_step_keeps_history(s, tx, c, id);
                assert(next.accounts.contains_key(c) && next.accounts[c].transactions.contains_key(id));
            } else {
                assert(next.accounts.contains_key(client)
                    && next.accounts[client].transactions.contains_key(id));
            }
        }
        if recorded_ids(next.accounts).contains(id) {
            let c = choose|c: ClientId|
                next.accounts.contains_key(c) && #[trigger] next.accounts[c].transactions.contains_key(id);
            if c != client {
                lemma_step_touches_only_its_client(s, tx, c);
                assert(s.accounts.contains_key(c) && s.accounts[c].transactions.contains_key(id));
            }
        }
    }
    assert(next.used_ids =~= recorded_ids(next.accounts));
}

/// A deposit or withdrawal reusing the id of a transaction recorded in any account is
/// rejected outright: nothing changes.
pub proof fn lemma_reused_id_rejected(
    s: StoreView,
    client: ClientId,
    transaction_id: TransactionId,
    amount: u64,
)
    requires
        s.used_ids.contains(transaction_id),
    ensures
        step(s, Transaction::Deposit { client, transaction_id, amount }).0 == s,
        step(s, Transaction::Withdrawal { client, transaction_id, amount }).0 == s,
{
}

/// Zero-amount deposits and withdrawals are accepted and change nothing.
pub proof fn lemma_zero_amount_is_noop(
    s: StoreView,
    client: ClientId,
    transaction_id: TransactionId,
)
    ensures
        step(s, Transaction::Deposit { client, transaction_id, amount: 0 }) == (
            s,
            StepOutcome::Applied,
        ),
        step(s, Transaction::Withdrawal { client, transaction_id, amount: 0 }) == (
            s,
            StepOutcome::Applied,
        ),
{
}

/// Applying a batch is applying its first part, then its second part; the refusal counts
/// add up.
pub proof fn lemma_run_append(s: StoreView, first: Seq<Transaction>, second: Seq<Transaction>)
    ensures
        ({
            let whole = run(s, first + second);
            let a = run(s, first);
            let b = run(a.0, second);
            whole == (b.0, a.1 + b.1, a.2 + b.2, a.3 + b.3)
        }),
    decreases second.len(),
{
    if second.len() == 0 {
        assert(first + second =~= first);
    } else {
        lemma_run_append(s, first, second.drop_last());
        assert((first + second).drop_last() =~= first + second.drop_last());
        assert((first + second).last() == second.last());
    }
}

/// The output rows list each client with an account exactly once, in increasing client
/// order.
pub proof fn lemma_summaries_one_row_per_client(accounts: Map<ClientId, AccountView>, k: nat)
    requires
        k <= 65536,
    ensures
        forall|i: int, j: int|
            0 <= i < j < summaries_below(accounts, k).len() ==> summaries_below(accounts, k)[i].client
                < summaries_below(accounts, k)[j].client,
        forall|i: int|
            0 <= i < summaries_below(accounts, k).len() ==> {
                let c = #[trigger] summaries_below(accounts, k)[i].client;
                &&& (c as nat) < k
                &&& accounts.contains_key(c)
                &&& summaries_below(accounts, k)[i] == crate::account_store::summary_of(
                    c,
                    accounts[c],
                )
            },
        forall|c: ClientId|
            (c as nat) < k && #[trigger] accounts.contains_key(c) ==> exists|i: int|
                0 <= i < summaries_below(accounts, k).len() && summaries_below(accounts, k)[i].client
                    == c,
    decreases k,
{
    if k > 0 {
        lemma_summaries_one_row_per_client(accounts, (k - 1) as nat);
        let prev = summaries_below(accounts, (k - 1) as nat);
        let rows = summaries_below(accounts, k);
        let last = (k - 1) as ClientId;
        assert forall|c: ClientId|
            (c as nat) < k && #[trigger] accounts.contains_key(c) implies exists|i: int|
            0 <= i < rows.len() && rows[i].client == c by {
            if c == last {
                assert(rows[rows.len() - 1].client == c);
            } else {
                let i = choose|i: int| 0 <= i < prev.len() && prev[i].client == c;
                assert(rows[i] == prev[i]);
            }
        }
    }
}


/// Each output row reports its client's balances: held and total are the account's, and
/// `available + held == total` (held funds are not available).
pub proof fn lemma_summary_rows_report_balances(accounts: Map<ClientId, AccountView>, k: nat)
    requires
        k <= 65536,
        all_valid(accounts),
    ensures
        forall|i: int|
            0 <= i < summaries_below(accounts, k).len() ==> {
                let row = #[trigger] summaries_below(accounts, k)[i];
                &&& accounts.contains_key(row.client)
                &&& row.held == accounts[row.client].held
                &&& row.total == accounts[row.client].total
                &&& row.locked == accounts[row.client].locked
                &&& row.available + row.held == row.total
            },
{
    lemma_summaries_one_row_per_client(accounts, k);
    assert forall|i: int| 0 <= i < summaries_below(accounts, k).len() implies {
        let row = #[trigger] summaries_below(accounts, k)[i];
        &&& accounts.contains_key(row.client)
        &&& row.held == accounts[row.client].held
        &&& row.total == accounts[row.client].total
        &&& row.locked == accounts[row.client].locked
        &&& row.available + row.held == row.total
    } by {
        let row = summaries_below(accounts, k)[i];
        assert(accounts.contains_key(row.client));
        assert(accounts[row.client].valid());
    }
}

/// The chargeback of a withdrawal whose dispute was resolved gives its amount back: the
/// total grows by it, held funds stay (whatever other disputes hold), and the account is
/// locked. It needs only the amount to be within the total and the new total to fit.
pub proof fn lemma_chargeback_refunds_withdrawal(a: AccountView, id: TransactionId)
    requires
        !a.locked,
        a.transactions.contains_key(id),
        a.transactions[id] is Withdrawal,
        a.transactions[id].spec_dispute() == AccountTransactionDisppute::Resolved,
        a.transactions[id].spec_amount() <= a.total,
        a.total + a.transactions[id].spec_amount() <= u64::MAX,
    ensures
        a.chargeback_result(id) matches Ok(b) && b.total == a.total
            + a.transactions[id].spec_amount() && b.held == a.held && b.locked
            && b.available() == a.available() + a.transactions[id].spec_amount()
            && b.transactions[id].spec_dispute() == AccountTransactionDisppute::ChargeBackOccurred,
{
}

/// How a transaction is counted depends only on its kind and on whether it was applied: a
/// transaction for a client without an account (other than a deposit or a zero amount) is
/// `AccountNotFound`; a refused deposit or withdrawal is `NotEnoughBalance`; a refused
/// dispute, resolve or chargeback is `TransactionNotFound`.
pub proof fn lemma_step_outcome_by_kind(s: StoreView, tx: Transaction)
    ensures
        ({
            let o = step(s, tx).1;
            match tx {
                Transaction::Deposit { amount, .. } => amount == 0 ==> o == StepOutcome::Applied,
                Transaction::Withdrawal { client, amount, .. } => {
                    &&& amount == 0 ==> o == StepOutcome::Applied
                    &&& amount != 0 && !s.accounts.contains_key(client) ==> o == StepOutcome::AccountNotFound
                    &&& o != StepOutcome::TransactionNotFound
                },
                _ => {
                    &&& !s.accounts.contains_key(tx.client()) ==> o == StepOutcome::AccountNotFound
                    &&& s.accounts.contains_key(tx.client()) ==> o != StepOutcome::AccountNotFound
                    &&& o != StepOutcome::NotEnoughBalance
                },
            }
        }),
        tx is Deposit ==> (step(s, tx).1 == StepOutcome::Applied || step(s, tx).1
            == StepOutcome::NotEnoughBalance),
{
}

/// A transaction counted as applied changed the store, unless it is a zero-amount deposit or
/// withdrawal; a transaction counted as refused changed nothing. Applied disputes, resolves
/// and chargebacks move the dispute state of the named transaction forward.
pub proof fn lemma_step_applied_iff_changed(s: StoreView, tx: Transaction)
    requires
        all_valid(s.accounts),
    ensures
        step(s, tx).1 != StepOutcome::Applied ==> step(s, tx).0 == s,
        step(s, tx).1 == StepOutcome::Applied ==> (step(s, tx).0 != s || (tx matches Transaction::Deposit { amount, .. } && amount == 0) || (tx matches Transaction::Withdrawal { amount, .. } && amount == 0)),
        match tx {
            Transaction::Dispute(d) => s.accounts.contains_key(d.client) ==> (step(s, tx).1
                == StepOutcome::Applied <==> s.accounts[d.client].start_dispute_result(
                d.transaction_id,
            ) is Ok),
            Transaction::Resolve(r) => s.accounts.contains_key(r.client) ==> (step(s, tx).1
                == StepOutcome::Applied <==> s.accounts[r.client].resolve_dispute_result(
                r.transaction_id,
            ) is Ok),
            Transaction::Chargeback(c) => s.accounts.contains_key(c.client) ==> (step(s, tx).1
                == StepOutcome::Applied <==> s.accounts[c.client].chargeback_result(
                c.transaction_id,
            ) is Ok),
            _ => true,
        },
{
    let next = step(s, tx).0;
    match tx {
        Transaction::Deposit { client, transaction_id, amount } => {
            if amount != 0 && !s.used_ids.contains(transaction_id) {
                let a = account_or_new(s.accounts, client);
                if a.deposit_result(transaction_id, amount) is Ok {
                    assert(next.used_ids.contains(transaction_id));
                } else {
                    assert(s.accounts.contains_key(client));
                    assert(next.accounts =~= s.accounts);
                }
            }
        },
        Transaction::Withdrawal { transaction_id, amount, .. } => {
            if amount != 0 && step(s, tx).1 == StepOutcome::Applied {
                assert(next.used_ids.contains(transaction_id));
            }
        },
        Transaction::Dispute(d) => {
            if step(s, tx).1 == StepOutcome::Applied {
                let t = s.accounts[d.client].transactions[d.transaction_id];
                assert(next.accounts[d.client].transactions[d.transaction_id].spec_dispute()
                    != t.spec_dispute());
            }
        },
        Transaction::Resolve(r) => {
            if step(s, tx).1 == StepOutcome::Applied {
                let t = s.accounts[r.client].transactions[r.transaction_id];
                assert(next.accounts[r.client].transactions[r.transaction_id].spec_dispute()
                    != t.spec_dispute());
            }
        },
        Transaction::Chargeback(c) => {
            if step(s, tx).1 == StepOutcome::Applied {
                let t = s.accounts[c.client].transactions[c.transaction_id];
                assert(next.accounts[c.client].transactions[c.transaction_id].spec_dispute()
                    != t.spec_dispute());
            }
        },
    }
}

/// Applying a single transaction returns `Ok` exactly when it was applied, and otherwise an
/// error that counts it once, under the kind of its refusal.
pub proof fn lemma_single_transaction_result(s: StoreView, tx: Transaction)
    ensures
        run(s, seq![tx]).0 == step(s, tx).0,
        crate::account_store::run_result(s, seq![tx]) == match step(s, tx).1 {
            StepOutcome::Applied => Ok::<(), crate::account_store::ApplyError>(()),
            StepOutcome::AccountNotFound => Err(
                crate::account_store::ApplyError {
                    account_not_found: 1,
                    not_enough_balance: 0,
                    transaction_not_found: 0,
                },
            ),
            StepOutcome::NotEnoughBalance => Err(
                crate::account_store::ApplyError {
                    account_not_found: 0,
                    not_enough_balance: 1,
                    transaction_not_found: 0,
                },
            ),
            StepOutcome::TransactionNotFound => Err(
                crate::account_store::ApplyError {
                    account_not_found: 0,
                    not_enough_balance: 0,
                    transaction_not_found: 1,
                },
            ),
        },
{
    assert(seq![tx].drop_last() =~= Seq::<Transaction>::empty());
    assert(seq![tx].last() == tx);
    assert(run(s, Seq::<Transaction>::empty()) == (s, 0nat, 0nat, 0nat));
    assert(run(s, seq![tx].drop_last()) == (s, 0nat, 0nat, 0nat));
}

} // verus!
