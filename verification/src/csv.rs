//! The input record format: one row per transaction with the columns
//! `type, client, tx, amount`, and its conversion into a [`crate::Transaction`].

use crate::{Chargeback, Dispute, Resolve, TransactionId};
use vstd::prelude::*;
use vstd::string::*;

verus! {

/// The `type` column.
#[derive(Debug, Clone, Copy, PartialEq, Eq, Structural)]
pub enum TransactionType {
    Deposit,
    Withdrawal,
    Dispute,
    Resolve,
    Chargeback,
}

/// The type named `name` in the `type` column, if any; names are lowercase.
pub open spec fn spec_type_from_name(name: Seq<char>) -> Option<TransactionType> {
    if name == "deposit"@ {
        Some(TransactionType::Deposit)
    } else if name == "withdrawal"@ {
        Some(TransactionType::Withdrawal)
    } else if name == "dispute"@ {
        Some(TransactionType::Dispute)
    } else if name == "resolve"@ {
        Some(TransactionType::Resolve)
    } else if name == "chargeback"@ {
        Some(TransactionType::Chargeback)
    } else {
        None
    }
}

impl TransactionType {
    /// The name of the type in the `type` column.
    pub open spec fn spec_name(self) -> Seq<char> {
        match self {
            TransactionType::Deposit => "deposit"@,
            TransactionType::Withdrawal => "withdrawal"@,
            TransactionType::Dispute => "dispute"@,
            TransactionType::Resolve => "resolve"@,
            TransactionType::Chargeback => "chargeback"@,
        }
    }

    /// The name of the type in the `type` column.
    pub fn name(&self) -> (s: &'static str)
        ensures
            s@ == self.spec_name(),
    {
        match self {
            TransactionType::Deposit => "deposit",
            TransactionType::Withdrawal => "withdrawal",
            TransactionType::Dispute => "dispute",
            TransactionType::Resolve => "resolve",
            TransactionType::Chargeback => "chargeback",
        }
    }

    /// The type whose name is `name`, if any.
    pub fn from_name(name: &str) -> (r: Option<TransactionType>)
        ensures
            r == spec_type_from_name(name@),
    {
        let name = name.to_owned();
        if name == "deposit".to_owned() {
            Some(TransactionType::Deposit)
        } else if name == "withdrawal".to_owned() {
            Some(TransactionType::Withdrawal)
        } else if name == "dispute".to_owned() {
            Some(TransactionType::Dispute)
        } else if name == "resolve".to_owned() {
            Some(TransactionType::Resolve)
        } else if name == "chargeback".to_owned() {
            Some(TransactionType::Chargeback)
        } else {
            None
        }
    }
}

/// One input row. The amount is already in minor units.
#[derive(Debug, Clone, Copy, PartialEq, Eq, Structural)]
pub struct Transaction {
    pub transaction_type: TransactionType,
    pub client_id: u16,
    pub transaction_id: TransactionId,
    pub amount: Option<u64>,
}

/// Why a row does not describe a transaction.
#[derive(Debug, Clone, Copy, PartialEq, Eq, Structural)]
pub enum ConversionError {
    /// A deposit or withdrawal without an amount.
    MissingAmount,
    /// A dispute, resolve or chargeback with an amount.
    UnexpectedAmount,
}

impl ConversionError {
    pub open spec fn spec_message(self) -> Seq<char> {
        match self {
            ConversionError::MissingAmount =>
                "amount is mandatory for deposit and withdrawal transactions"@,
            ConversionError::UnexpectedAmount =>
                "amount should not be present for dispute, resolve or chargeback transactions"@,
        }
    }

    /// The human-readable text of the error.
    pub fn message(&self) -> (s: &'static str)
        ensures
            s@ == self.spec_message(),
    {
        match self {
            ConversionError::MissingAmount =>
                "amount is mandatory for deposit and withdrawal transactions",
            ConversionError::UnexpectedAmount =>
                "amount should not be present for dispute, resolve or chargeback transactions",
        }
    }
}

impl Transaction {
    /// The names of the columns, in order.
    pub fn field_names() -> (names: Vec<&'static str>)
        ensures
            names@.len() == 4,
            names@[0]@ == "type"@,
            names@[1]@ == "client"@,
            names@[2]@ == "tx"@,
            names@[3]@ == "amount"@,
    {
        let mut names: Vec<&'static str> = Vec::new();
        names.push("type");
        names.push("client");
        names.push("tx");
        names.push("amount");
        names
    }

    /// The transaction a row describes: deposits and withdrawals need an amount, the other
    /// types must not have one.
    pub open spec fn spec_convert(self) -> Result<crate::Transaction, ConversionError> {
        let client = self.client_id;
        let transaction_id = self.transaction_id;
        match (self.transaction_type, self.amount) {
            (TransactionType::Deposit, Some(amount)) => Ok(
                crate::Transaction::Deposit { client, transaction_id, amount },
            ),
            (TransactionType::Withdrawal, Some(amount)) => Ok(
                crate::Transaction::Withdrawal { client, transaction_id, amount },
            ),
            (TransactionType::Deposit, None) => Err(ConversionError::MissingAmount),
            (TransactionType::Withdrawal, None) => Err(ConversionError::MissingAmount),
            (_, Some(_)) => Err(ConversionError::UnexpectedAmount),
            (TransactionType::Dispute, None) => Ok(
                crate::Transaction::Dispute(Dispute { client, transaction_id }),
            ),
            (TransactionType::Resolve, None) => Ok(
                crate::Transaction::Resolve(Resolve { client, transaction_id }),
            ),
            (TransactionType::Chargeback, None) => Ok(
                crate::Transaction::Chargeback(Chargeback { client, transaction_id }),
            ),
        }
    }
}

impl vstd::std_specs::convert::TryFromSpecImpl<Transaction> for crate::Transaction {
    open spec fn obeys_try_from_spec() -> bool {
        true
    }

    open spec fn try_from_spec(v: Transaction) -> Result<crate::Transaction, ConversionError> {
        v.spec_convert()
    }
}

impl TryFrom<Transaction> for crate::Transaction {
    type Error = ConversionError;

    fn try_from(value: Transaction) -> (r: Result<crate::Transaction, ConversionError>)
        ensures
            r == value.spec_convert(),
    {
        let client = value.client_id;
        let transaction_id = value.transaction_id;
        match (value.transaction_type, value.amount) {
            (TransactionType::Deposit | TransactionType::Withdrawal, None) => {
                Err(ConversionError::MissingAmount)
            },
            (TransactionType::Deposit, Some(amount)) => Ok(
                crate::Transaction::deposit(client, transaction_id, amount),
            ),
            (TransactionType::Withdrawal, Some(amount)) => Ok(
                crate::Transaction::withdrawal(client, transaction_id, amount),
            ),
            (
                TransactionType::Dispute | TransactionType::Resolve | TransactionType::Chargeback,
                Some(_),
            ) => Err(ConversionError::UnexpectedAmount),
            (TransactionType::Dispute, None) => Ok(
                crate::Transaction::Dispute(Dispute { client, transaction_id }),
            ),
            (TransactionType::Resolve, None) => Ok(
                crate::Transaction::Resolve(Resolve { client, transaction_id }),
            ),
            (TransactionType::Chargeback, None) => Ok(
                crate::Transaction::Chargeback(Chargeback { client, transaction_id }),
            ),
        }
    }
}

} // verus!
