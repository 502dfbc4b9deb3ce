use csv::Writer;

use simple_transaction::csv::{Transaction as CsvTransaction, TransactionType};
use simple_transaction::{Chargeback, Dispute, Resolve, Transaction};

#[test]
fn test_serialize_transaction() {
    let transaction = CsvTransaction {
        transaction_type: TransactionType::Deposit,
        client_id: 1,
        transaction_id: 1,
        amount: Some(10_000),
    };

    let mut writer = Writer::from_writer(vec![]);
    writer
        .write_record(CsvTransaction::field_names())
        .expect("ok");
    writer
        .serialize((
            transaction.transaction_type.name(),
            transaction.client_id,
            transaction.transaction_id,
            transaction.amount.map(|minor| minor as f64 / 10_000.0),
        ))
        .expect("ok");

    let inner_bytes = writer.into_inner().expect("ok");
    let csv_string = String::from_utf8(inner_bytes).expect("ok");

    assert_eq!(csv_string, "type,client,tx,amount\ndeposit,1,1,1.0\n");
}

#[test]
fn test_try_from_csv_transaction() {
    struct Case {
        name: &'static str,
        input: CsvTransaction,
        expect: Result<Transaction, &'static str>,
    }

    let cases = [
        Case {
            name: "deposit with amount converts",
            input: CsvTransaction {
                transaction_type: TransactionType::Deposit,
                client_id: 1,
                transaction_id: 10,
                amount: Some(15_000),
            },
            expect: Ok(Transaction::Deposit {
                client: 1,
                transaction_id: 10,
                amount: 15_000,
            }),
        },
        Case {
            name: "withdrawal with amount converts",
            input: CsvTransaction {
                transaction_type: TransactionType::Withdrawal,
                client_id: 2,
                transaction_id: 20,
                amount: Some(22_500),
            },
            expect: Ok(Transaction::Withdrawal {
                client: 2,
                transaction_id: 20,
                amount: 22_500,
            }),
        },
        Case {
            name: "deposit without amount errors",
            input: CsvTransaction {
                transaction_type: TransactionType::Deposit,
                client_id: 1,
                transaction_id: 1,
                amount: None,
            },
            expect: Err("amount is mandatory for deposit and withdrawal transactions"),
        },
        Case {
            name: "withdrawal without amount errors",
            input: CsvTransaction {
                transaction_type: TransactionType::Withdrawal,
                client_id: 1,
                transaction_id: 1,
                amount: None,
            },
            expect: Err("amount is mandatory for deposit and withdrawal transactions"),
        },
        Case {
            name: "dispute with amount errors",
            input: CsvTransaction {
                transaction_type: TransactionType::Dispute,
                client_id: 1,
                transaction_id: 1,
                amount: Some(10_000),
            },
            expect: Err(
                "amount should not be present for dispute, resolve or chargeback transactions",
            ),
        },
        Case {
            name: "resolve with amount errors",
            input: CsvTransaction {
                transaction_type: TransactionType::Resolve,
                client_id: 1,
                transaction_id: 1,
                amount: Some(10_000),
            },
            expect: Err(
                "amount should not be present for dispute, resolve or chargeback transactions",
            ),
        },
        Case {
            name: "chargeback with amount errors",
            input: CsvTransaction {
                transaction_type: TransactionType::Chargeback,
                client_id: 1,
                transaction_id: 1,
                amount: Some(10_000),
            },
            expect: Err(
                "amount should not be present for dispute, resolve or chargeback transactions",
            ),
        },
        Case {
            name: "dispute without amount converts",
            input: CsvTransaction {
                transaction_type: TransactionType::Dispute,
                client_id: 1,
                transaction_id: 7,
                amount: None,
            },
            expect: Ok(Transaction::Dispute(Dispute {
                client: 1,
                transaction_id: 7,
            })),
        },
        Case {
            name: "resolve without amount converts",
            input: CsvTransaction {
                transaction_type: TransactionType::Resolve,
                client_id: 1,
                transaction_id: 8,
                amount: None,
            },
            expect: Ok(Transaction::Resolve(Resolve {
                client: 1,
                transaction_id: 8,
            })),
        },
        Case {
            name: "chargeback without amount converts",
            input: CsvTransaction {
                transaction_type: TransactionType::Chargeback,
                client_id: 1,
                transaction_id: 9,
                amount: None,
            },
            expect: Ok(Transaction::Chargeback(Chargeback {
                client: 1,
                transaction_id: 9,
            })),
        },
    ];

    for (i, case) in cases.into_iter().enumerate() {
        let result = Transaction::try_from(case.input).map_err(|err| err.message().to_string());
        assert_eq!(
            result,
            case.expect.map_err(|err| err.to_string()),
            "{i}: {} - got unexpected result",
            case.name
        );
    }
}

#[test]
fn transaction_type_names_round_trip() {
    let types = [
        TransactionType::Deposit,
        TransactionType::Withdrawal,
        TransactionType::Dispute,
        TransactionType::Resolve,
        TransactionType::Chargeback,
    ];
    let names = ["deposit", "withdrawal", "dispute", "resolve", "chargeback"];
    for (t, name) in types.into_iter().zip(names) {
        assert_eq!(t.name(), name);
        assert_eq!(TransactionType::from_name(name), Some(t));
    }
    assert_eq!(TransactionType::from_name("Deposit"), None);
    assert_eq!(TransactionType::from_name("transfer"), None);
    assert_eq!(TransactionType::from_name(""), None);
}
