//! A small payments engine: deposits, withdrawals, disputes, resolutions and chargebacks
//! applied to per-client accounts whose balances are kept in fixed-point minor units.

use vstd::prelude::*;

pub mod account;
pub mod account_store;
pub mod csv;
pub mod decimal;
pub mod laws;
pub mod tx_map;

verus! {

/// Identifies a client account.
pub type ClientId = u16;

/// Identifies a transaction; globally unique in well-formed input.
pub type TransactionId = u32;

/// Represents the content of a dispute.
#[derive(Debug, Clone, Copy, PartialEq, Eq, Structural)]
pub struct Dispute {
    pub client: ClientId,
    pub transaction_id: TransactionId,
}

/// Represents the content of a dispute resolution.
#[derive(Debug, Clone, Copy, PartialEq, Eq, Structural)]
pub struct Resolve {
    pub client: ClientId,
    pub transaction_id: TransactionId,
}

/// Represents the content of a chargeback.
#[derive(Debug, Clone, Copy, PartialEq, Eq, Structural)]
pub struct Chargeback {
    pub client: ClientId,
    pub transaction_id: TransactionId,
}

/// A transaction to apply to the accounts; amounts are in minor units.
#[derive(Debug, Clone, Copy, PartialEq, Eq, Structural)]
pub enum Transaction {
    /// A deposit is a credit to the client's asset account, meaning it should increase the
    /// available and total funds of the client account.
    Deposit { client: ClientId, transaction_id: TransactionId, amount: u64 },
    /// A withdrawal is a debit to the client's asset account, meaning it should decrease the
    /// available and total funds of the client account. If a client does not have sufficient
    /// available funds the withdrawal fails and the total amount of funds does not change.
    Withdrawal { client: ClientId, transaction_id: TransactionId, amount: u64 },
    /// A client's claim that a transaction was erroneous: the associated funds are held.
    /// A dispute references the disputed transaction by id; an unknown id is ignored.
    Dispute(Dispute),
    /// Resolution of a dispute, releasing the associated held funds. An unknown id, or one
    /// that is not under dispute, is ignored.
    Resolve(Resolve),
    /// The final state of a dispute: the client reverses the transaction and the account is
    /// frozen. An unknown id, or one whose dispute was not resolved, is ignored.
    Chargeback(Chargeback),
}

impl Transaction {
    /// A deposit of `amount` minor units.
    pub fn deposit(client: ClientId, transaction_id: TransactionId, amount: u64) -> (t: Self)
        ensures
            t == (Transaction::Deposit { client, transaction_id, amount }),
    {
        Transaction::Deposit { client, transaction_id, amount }
    }

    /// A withdrawal of `amount` minor units.
    pub fn withdrawal(client: ClientId, transaction_id: TransactionId, amount: u64) -> (t: Self)
        ensures
            t == (Transaction::Withdrawal { client, transaction_id, amount }),
    {
        Transaction::Withdrawal { client, transaction_id, amount }
    }

    /// The client whose account the transaction targets.
    pub open spec fn client(self) -> ClientId {
        match self {
            Transaction::Deposit { client, .. } => client,
            Transaction::Withdrawal { client, .. } => client,
            Transaction::Dispute(d) => d.client,
            Transaction::Resolve(r) => r.client,
            Transaction::Chargeback(c) => c.client,
        }
    }
}

} // verus!
