//! What reading a row means, stated over the row's fields: which rows are refused and
//! why, and that an accepted amount is the decimal value of its text.
use vstd::arithmetic::power::pow;
use vstd::prelude::*;

use crate::csv_io::{amount_of_decimal, amount_of_text, present_amount, tx_of_fields, tx_of_row, InputReject};
use crate::decimal::{decimal_from_str_exact, is_first_point};
use crate::domain::{Amount, Tx, MAX_UNITS};
use vstd::utf8::encode_utf8;

verus! {

/// A parsed decimal of mantissa `m` and scale `s` (at most four places) is refused
/// exactly when it is negative, and otherwise is its value in ten-thousandths:
/// `units / 10^4 == m / 10^s`.
pub proof fn decimal_amount_is_its_value(m: i128, s: u32)
    requires
        s <= 4,
        m <= MAX_UNITS,
    ensures
        m < 0 ==> amount_of_decimal(m, s) == Err::<Amount, InputReject>(InputReject::AmountNegative),
        m >= 0 ==> amount_of_decimal(m, s) is Ok,
        m >= 0 ==> amount_of_decimal(m, s)->Ok_0.units * pow(10, s as nat) == m * 10000,
        m >= 0 ==> amount_of_decimal(m, s)->Ok_0.units == m * pow(10, (4 - s) as nat),
{
    reveal_with_fuel(pow, 5);
    reveal_with_fuel(crate::csv_io::ten_to, 5);
    if m >= 0 {
        assert(m * 10000 <= MAX_UNITS * 10000) by (nonlinear_arith)
            requires
                0 <= m <= MAX_UNITS,
        ;
        if s == 0 {
            assert(amount_of_decimal(m, s)->Ok_0.units == m * 10000);
        } else if s == 1 {
            assert(m * 1000 <= MAX_UNITS * 10000) by (nonlinear_arith)
                requires
                    0 <= m <= MAX_UNITS,
            ;
            assert(m * 1000 * 10 == m * 10000) by (nonlinear_arith);
        } else if s == 2 {
            assert(m * 100 <= MAX_UNITS * 10000) by (nonlinear_arith)
                requires
                    0 <= m <= MAX_UNITS,
            ;
            assert(m * 100 * 100 == m * 10000) by (nonlinear_arith);
        } else if s == 3 {
            assert(m * 10 <= MAX_UNITS * 10000) by (nonlinear_arith)
                requires
                    0 <= m <= MAX_UNITS,
            ;
            assert(m * 10 * 1000 == m * 10000) by (nonlinear_arith);
        }
    }
}

/// An amount text with more than four bytes after its first point is too precise;
/// with at most four (or no point), it is never refused as too precise, and it means
/// what `rust_decimal` reads: unparsable text is refused, a negative value is refused,
/// and a non-negative value `m / 10^s` is `m * 10^(4 - s)` ten-thousandths.
pub proof fn amount_text_rules(text: Seq<char>)
    ensures
        (exists|i: int|
            #[trigger] is_first_point(encode_utf8(text), i) && encode_utf8(text).len() - i - 1 > 4)
            ==> amount_of_text(text) == Err::<Amount, InputReject>(InputReject::AmountTooPrecise),
        (forall|i: int|
            #[trigger] is_first_point(encode_utf8(text), i) ==> encode_utf8(text).len() - i - 1 <= 4)
            ==> {
            &&& decimal_from_str_exact(text) is None ==> amount_of_text(text) == Err::<
                Amount,
                InputReject,
            >(InputReject::AmountUnparsable)
            &&& decimal_from_str_exact(text) matches Some((m, s)) ==> amount_of_text(text)
                == amount_of_decimal(m, s)
        },
{
    let b = encode_utf8(text);
    if exists|i: int| is_first_point(b, i) {
        let k = choose|i: int| is_first_point(b, i);
        assert forall|i: int| is_first_point(b, i) implies i == k by {
            if i < k {
                assert(!crate::decimal::is_point(b[i]));
            } else if i > k {
                assert(!crate::decimal::is_point(b[k]));
            }
        }
    }
}

/// A dispute, resolve or chargeback row is refused when it carries an amount, and is
/// otherwise the transaction of its kind for its client and id.
pub proof fn lifecycle_rows_take_no_amount(
    kind: Seq<char>,
    client: u16,
    tx: u32,
    amount: Option<Seq<char>>,
)
    requires
        kind == "dispute"@ || kind == "resolve"@ || kind == "chargeback"@,
    ensures
        amount is Some ==> tx_of_fields(kind, client, tx, amount) == Err::<Tx, InputReject>(
            InputReject::AmountUnexpected,
        ),
        amount is None && kind == "dispute"@ ==> tx_of_fields(kind, client, tx, amount) == Ok::<
            Tx,
            InputReject,
        >(Tx::Dispute { client, tx }),
        amount is None && kind == "resolve"@ ==> tx_of_fields(kind, client, tx, amount) == Ok::<
            Tx,
            InputReject,
        >(Tx::Resolve { client, tx }),
        amount is None && kind == "chargeback"@ ==> tx_of_fields(kind, client, tx, amount)
            == Ok::<Tx, InputReject>(Tx::Chargeback { client, tx }),
{
    reveal_strlit("deposit");
    reveal_strlit("withdrawal");
    reveal_strlit("dispute");
    reveal_strlit("resolve");
    reveal_strlit("chargeback");
    assert("dispute"@[2] != "deposit"@[2]);
    assert("resolve"@[0] != "deposit"@[0]);
    assert("resolve"@[0] != "dispute"@[0]);
    assert("chargeback"@[0] != "withdrawal"@[0]);
}

/// A deposit or withdrawal row without an amount is refused as missing one; with an
/// amount it is refused for the amount's reason, or is the transaction of its kind
/// carrying the amount.
pub proof fn money_rows_need_an_amount(
    kind: Seq<char>,
    client: u16,
    tx: u32,
    amount: Option<Seq<char>>,
)
    requires
        kind == "deposit"@ || kind == "withdrawal"@,
    ensures
        amount is None ==> tx_of_fields(kind, client, tx, amount) == Err::<Tx, InputReject>(
            InputReject::AmountMissing,
        ),
        amount matches Some(t) ==> match amount_of_text(t) {
            Err(e) => tx_of_fields(kind, client, tx, amount) == Err::<Tx, InputReject>(e),
            Ok(a) => tx_of_fields(kind, client, tx, amount) == if kind == "deposit"@ {
                Ok::<Tx, InputReject>(Tx::Deposit { client, tx, amount: a })
            } else {
                Ok::<Tx, InputReject>(Tx::Withdrawal { client, tx, amount: a })
            },
        },
{
    reveal_strlit("deposit");
    reveal_strlit("withdrawal");
    reveal_strlit("dispute");
    reveal_strlit("resolve");
    reveal_strlit("chargeback");
}

/// A row of any other kind is refused as unknown, whatever its amount.
pub proof fn other_kinds_are_unknown(kind: Seq<char>, client: u16, tx: u32, amount: Option<Seq<char>>)
    requires
        kind != "deposit"@,
        kind != "withdrawal"@,
        kind != "dispute"@,
        kind != "resolve"@,
        kind != "chargeback"@,
    ensures
        tx_of_fields(kind, client, tx, amount) == Err::<Tx, InputReject>(InputReject::UnknownKind),
{
}

/// An amount that is absent, or empty once trimmed, counts as no amount; any other is
/// the trimmed text.
pub proof fn blank_amount_is_no_amount(kind: Seq<char>, client: u16, tx: u32, text: Seq<char>)
    ensures
        crate::csv_io::trimmed(text).len() == 0 ==> tx_of_row(kind, client, tx, Some(text))
            == tx_of_fields(kind, client, tx, None),
        crate::csv_io::trimmed(text).len() != 0 ==> tx_of_row(kind, client, tx, Some(text))
            == tx_of_fields(kind, client, tx, Some(crate::csv_io::trimmed(text))),
        tx_of_row(kind, client, tx, None) == tx_of_fields(kind, client, tx, None),
        present_amount(None) is None,
{
}

} // verus!
