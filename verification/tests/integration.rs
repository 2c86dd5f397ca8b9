use std::collections::{HashMap, HashSet};

use basic_payment_engine::csv_io::InputReject::{
    AmountMissing, AmountNegative, AmountTooPrecise, AmountUnexpected, AmountUnparsable, UnknownKind,
};
use basic_payment_engine::csv_io::{ingest, output_rows, InputRow, RowIgnored};
use basic_payment_engine::{Engine, IgnoreReason};

/// One input row as the CSV reader hands it over: type, client, tx, amount.
type Row<'a> = (&'a str, u16, u32, Option<&'a str>);

/// One report row: available, held, total, locked.
type Report = (String, String, String, bool);

fn run_rows(rows: &[Row]) -> (HashMap<u16, Report>, Vec<Result<(), RowIgnored>>) {
    let mut engine = Engine::new();
    let mut outcomes = Vec::new();
    for (kind, client, tx, amount) in rows {
        let row = InputRow {
            kind: kind.to_string(),
            client: *client,
            tx: *tx,
            amount: amount.map(String::from),
        };
        outcomes.push(ingest(&mut engine, &row));
    }
    let report = output_rows(&engine)
        .into_iter()
        .map(|r| (r.client, (r.available, r.held, r.total, r.locked)))
        .collect();
    (report, outcomes)
}

fn expected(rows: &[(u16, &str, &str, &str, bool)]) -> HashMap<u16, Report> {
    rows.iter()
        .map(|(c, a, h, t, l)| (*c, (a.to_string(), h.to_string(), t.to_string(), *l)))
        .collect()
}

fn assert_outputs_match(actual: &HashMap<u16, Report>, expected: &HashMap<u16, Report>) {
    let a_keys: HashSet<_> = actual.keys().copied().collect();
    let e_keys: HashSet<_> = expected.keys().copied().collect();
    assert_eq!(a_keys, e_keys, "client set mismatch\nactual={actual:?}\nexpected={expected:?}");
    for (k, ev) in expected {
        assert_eq!(actual.get(k), Some(ev), "row mismatch for client {k}");
    }
}

// Each scenario feeds rows as the CSV reader yields them (fields trimmed) and
// compares the account report, client by client, in any order.

#[test]
fn happy_path_matches_expected() {
    let (actual, outcomes) = run_rows(&[
        ("deposit", 1, 1, Some("1.0")),
        ("deposit", 2, 2, Some("2.0")),
        ("deposit", 1, 3, Some("2.0")),
        ("withdrawal", 1, 4, Some("1.5")),
        ("withdrawal", 2, 5, Some("3.0")),
    ]);
    assert_eq!(outcomes[4], Err(RowIgnored::Ignored(IgnoreReason::InsufficientFunds)));
    assert_outputs_match(
        &actual,
        &expected(&[
            (1, "1.5000", "0.0000", "1.5000", false),
            (2, "2.0000", "0.0000", "2.0000", false),
        ]),
    );
}

#[test]
fn dispute_lifecycle_matches_expected() {
    let (actual, outcomes) = run_rows(&[
        ("deposit", 1, 1, Some("5.0")),
        ("deposit", 1, 2, Some("2.5")),
        ("dispute", 1, 1, None),
        ("resolve", 1, 1, None),
        ("dispute", 1, 2, Some("")),
    ]);
    assert!(outcomes.iter().all(|o| o.is_ok()));
    assert_outputs_match(&actual, &expected(&[(1, "5.0000", "2.5000", "7.5000", false)]));
}

#[test]
fn chargeback_freezes_matches_expected() {
    let (actual, outcomes) = run_rows(&[
        ("deposit", 1, 1, Some("10.0")),
        ("deposit", 1, 2, Some("3.0")),
        ("dispute", 1, 1, None),
        ("chargeback", 1, 1, None),
        ("deposit", 1, 3, Some("4.0")),
        ("withdrawal", 1, 4, Some("1.0")),
    ]);
    assert_eq!(outcomes[4], Err(RowIgnored::Ignored(IgnoreReason::AccountFrozen)));
    assert_eq!(outcomes[5], Err(RowIgnored::Ignored(IgnoreReason::AccountFrozen)));
    assert_outputs_match(&actual, &expected(&[(1, "3.0000", "0.0000", "3.0000", true)]));
}

#[test]
fn multi_client_matches_expected() {
    let (actual, outcomes) = run_rows(&[
        ("deposit", 1, 1, Some("1.0")),
        ("deposit", 2, 2, Some("4.0")),
        ("withdrawal", 3, 3, Some("1.0")),
        ("deposit", 1, 4, Some("0.5")),
        ("dispute", 2, 2, None),
        ("withdrawal", 2, 5, Some("1.0")),
        ("dispute", 4, 1, None),
    ]);
    assert_eq!(outcomes[2], Err(RowIgnored::Ignored(IgnoreReason::InsufficientFunds)));
    assert_eq!(outcomes[5], Err(RowIgnored::Ignored(IgnoreReason::InsufficientFunds)));
    assert_eq!(outcomes[6], Err(RowIgnored::Ignored(IgnoreReason::ClientMismatch)));
    assert_outputs_match(
        &actual,
        &expected(&[
            (1, "1.5000", "0.0000", "1.5000", false),
            (2, "0.0000", "4.0000", "4.0000", false),
            (3, "0.0000", "0.0000", "0.0000", false),
            (4, "0.0000", "0.0000", "0.0000", false),
        ]),
    );
}

#[test]
fn whitespace_and_precision_matches_expected() {
    let (actual, outcomes) = run_rows(&[
        ("deposit", 1, 1, Some(" 1.2345 ")),
        ("deposit", 1, 2, Some("5")),
        ("deposit", 2, 3, Some("5.0")),
        ("withdrawal", 2, 4, Some("  0.0001")),
    ]);
    assert!(outcomes.iter().all(|o| o.is_ok()));
    assert_outputs_match(
        &actual,
        &expected(&[
            (1, "6.2345", "0.0000", "6.2345", false),
            (2, "4.9999", "0.0000", "4.9999", false),
        ]),
    );
}

#[test]
fn malformed_rows_matches_expected() {
    let (actual, outcomes) = run_rows(&[
        ("deposit", 1, 1, Some("2.0")),
        ("transfer", 2, 2, Some("1.0")),
        ("deposit", 3, 3, None),
        ("dispute", 1, 1, Some("1.0")),
        ("deposit", 4, 4, Some("1.00001")),
        ("withdrawal", 5, 5, Some("-1.0")),
        ("deposit", 6, 6, Some("ten")),
    ]);
    assert_eq!(
        outcomes,
        vec![
            Ok(()),
            Err(RowIgnored::Rejected(UnknownKind)),
            Err(RowIgnored::Rejected(AmountMissing)),
            Err(RowIgnored::Rejected(AmountUnexpected)),
            Err(RowIgnored::Rejected(AmountTooPrecise)),
            Err(RowIgnored::Rejected(AmountNegative)),
            Err(RowIgnored::Rejected(AmountUnparsable)),
        ]
    );
    assert_outputs_match(&actual, &expected(&[(1, "2.0000", "0.0000", "2.0000", false)]));
}
