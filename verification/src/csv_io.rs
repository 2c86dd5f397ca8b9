//! The logic around the CSV layer: turning an input row into a transaction, feeding
//! rows to the engine, and the rows of the account report.
use vstd::prelude::*;
use vstd::string::StringSliceAdditionalSpecFns;
use vstd::utf8::encode_utf8;

use crate::decimal::{
    bytes_after_point, decimal_from_str_exact, format_4dp, four_place_text, is_first_point,
    is_point, parse_decimal_exact,
};
use crate::domain::{total_units, Amount, Tx, MAX_UNITS};
use crate::engine::{fits, in_range, step, verdict, Engine, IgnoreReason};

verus! {

/// Why an input row is not a well-formed transaction.
#[derive(Clone, Copy, Debug, PartialEq, Eq, Structural)]
pub enum InputReject {
    UnknownKind,
    AmountMissing,
    AmountUnexpected,
    AmountNegative,
    AmountTooPrecise,
    AmountUnparsable,
}

impl InputReject {
    /// The words that the report of ignored rows uses for this reason.
    pub fn message(&self) -> (s: &'static str)
        ensures
            s@ == match *self {
                InputReject::UnknownKind => "unknown transaction kind"@,
                InputReject::AmountMissing => "amount missing"@,
                InputReject::AmountUnexpected => "amount not allowed for this transaction kind"@,
                InputReject::AmountNegative => "amount is negative"@,
                InputReject::AmountTooPrecise => "amount has more than four decimal places"@,
                InputReject::AmountUnparsable => "amount is not a valid decimal"@,
            },
    {
        match self {
            InputReject::UnknownKind => "unknown transaction kind",
            InputReject::AmountMissing => "amount missing",
            InputReject::AmountUnexpected => "amount not allowed for this transaction kind",
            InputReject::AmountNegative => "amount is negative",
            InputReject::AmountTooPrecise => "amount has more than four decimal places",
            InputReject::AmountUnparsable => "amount is not a valid decimal",
        }
    }
}

/// One row of the input, as the CSV reader gives it: the `type` column, the client,
/// the transaction id and the optional amount text.
pub struct InputRow {
    pub kind: String,
    pub client: u16,
    pub tx: u32,
    pub amount: Option<String>,
}

/// The amount text of a row, as characters.
pub open spec fn amount_view(amount: Option<String>) -> Option<Seq<char>> {
    match amount {
        Some(s) => Some(s@),
        None => None,
    }
}

/// What `str::trim` returns for a text.
pub uninterp spec fn trimmed(text: Seq<char>) -> Seq<char>;

/// Calls `str::trim`. Claimed of it: the result is a function of the text alone, named
/// `trimmed`. What it strips (Unicode white space at both ends) is not stated.
#[verifier::external_body]
fn trim(text: &str) -> (t: &str)
    ensures
        t@ == trimmed(text@),
{
    text.trim()
}

/// The amount of a row once trimmed; an empty amount counts as absent.
pub open spec fn present_amount(amount: Option<Seq<char>>) -> Option<Seq<char>> {
    match amount {
        Some(s) => if trimmed(s).len() == 0 {
            None
        } else {
            Some(trimmed(s))
        },
        None => None,
    }
}

/// Ten to the power `n`.
pub open spec fn ten_to(n: nat) -> int
    decreases n,
{
    if n == 0 {
        1
    } else {
        10 * ten_to((n - 1) as nat)
    }
}

/// What a parsed decimal of mantissa `m` and scale `scale` means as an amount:
/// refused when negative, else counted in ten-thousandths.
pub open spec fn amount_of_decimal(m: i128, scale: u32) -> Result<Amount, InputReject> {
    if m < 0 {
        Err(InputReject::AmountNegative)
    } else {
        Ok(Amount { units: (m * ten_to((4 - scale) as nat)) as i128 })
    }
}

/// What an amount text means: more than four bytes after the point is too precise;
/// otherwise the decimal value of the text, refused when `rust_decimal` cannot read
/// it or when it is negative.
pub open spec fn amount_of_text(text: Seq<char>) -> Result<Amount, InputReject> {
    if bytes_after_point(encode_utf8(text)) > 4 {
        Err(InputReject::AmountTooPrecise)
    } else {
        match decimal_from_str_exact(text) {
            None => Err(InputReject::AmountUnparsable),
            Some((m, scale)) => amount_of_decimal(m, scale),
        }
    }
}

/// What a row means: the transaction it describes, or why it describes none.
/// Deposits and withdrawals need an amount; dispute, resolve and chargeback must have
/// none; any other kind is unknown.
pub open spec fn tx_of_row(kind: Seq<char>, client: u16, tx: u32, amount: Option<Seq<char>>) -> Result<
    Tx,
    InputReject,
> {
    tx_of_fields(kind, client, tx, present_amount(amount))
}

/// What `try_into_tx` makes of a row.
pub open spec fn row_meaning(row: InputRow) -> Result<Tx, InputReject> {
    tx_of_row(row.kind@, row.client, row.tx, amount_view(row.amount))
}

/// What a row means, given its kind, ids and its present (trimmed, non-empty) amount.
pub open spec fn tx_of_fields(kind: Seq<char>, client: u16, tx: u32, amount: Option<Seq<char>>) -> Result<
    Tx,
    InputReject,
> {
    if kind == "deposit"@ || kind == "withdrawal"@ {
        match amount {
            None => Err(InputReject::AmountMissing),
            Some(text) => match amount_of_text(text) {
                Err(e) => Err(e),
                Ok(amount) => if kind == "deposit"@ {
                    Ok(Tx::Deposit { client, tx, amount })
                } else {
                    Ok(Tx::Withdrawal { client, tx, amount })
                },
            },
        }
    } else if kind == "dispute"@ || kind == "resolve"@ || kind == "chargeback"@ {
        if amount is Some {
            Err(InputReject::AmountUnexpected)
        } else if kind == "dispute"@ {
            Ok(Tx::Dispute { client, tx })
        } else if kind == "resolve"@ {
            Ok(Tx::Resolve { client, tx })
        } else {
            Ok(Tx::Chargeback { client, tx })
        }
    } else {
        Err(InputReject::UnknownKind)
    }
}

/// A dispute, resolve or chargeback row must carry no amount.
pub fn reject_if_amount_present(amount: Option<&str>) -> (r: Result<(), InputReject>)
    ensures
        r == if amount is Some {
            Err::<(), InputReject>(InputReject::AmountUnexpected)
        } else {
            Ok(())
        },
{
    if amount.is_some() {
        Err(InputReject::AmountUnexpected)
    } else {
        Ok(())
    }
}

/// Finds the first `.` in `bytes`.
fn find_point(bytes: &[u8]) -> (r: Option<usize>)
    ensures
        match r {
            Some(i) => is_first_point(bytes@, i as int),
            None => forall|j: int| 0 <= j < bytes@.len() ==> !is_point(#[trigger] bytes@[j]),
        },
{
    let mut i: usize = 0;
    while i < bytes.len()
        invariant
            i <= bytes@.len(),
            forall|j: int| 0 <= j < i ==> !is_point(#[trigger] bytes@[j]),
        decreases bytes@.len() - i,
    {
        if bytes[i] == 46 {
            return Some(i);
        }
        i = i + 1;
    }
    None
}

/// Reads an amount: at most four places after the point, a valid decimal, not
/// negative.
pub fn parse_amount(s: &str) -> (r: Result<Amount, InputReject>)
    ensures
        r == amount_of_text(s@),
{
    let bytes = s.as_bytes();
    let ghost b = s.spec_bytes();
    match find_point(bytes) {
        Some(idx) => {
            assert(bytes_after_point(b) == b.len() - idx - 1) by {
                let k = choose|k: int| is_first_point(b, k);
                if k < idx {
                    assert(!is_point(b[k]));
                } else if k > idx {
                    assert(!is_point(b[idx as int]));
                }
            }
            if bytes.len() - idx - 1 > 4 {
                return Err(InputReject::AmountTooPrecise);
            }
        },
        None => {
            assert(bytes_after_point(b) == 0);
        },
    }
    match parse_decimal_exact(s) {
        Some((m, scale)) => amount_from_decimal(m, scale),
        None => Err(InputReject::AmountUnparsable),
    }
}

/// Turns a parsed decimal (mantissa and scale, at most four places) into an amount,
/// refusing a negative one.
pub fn amount_from_decimal(m: i128, scale: u32) -> (r: Result<Amount, InputReject>)
    requires
        -MAX_UNITS <= m <= MAX_UNITS,
        scale <= 4,
    ensures
        r == amount_of_decimal(m, scale),
        m < 0 <==> r == Err::<Amount, InputReject>(InputReject::AmountNegative),
        r matches Ok(a) ==> a.units * vstd::arithmetic::power::pow(10, scale as nat) == m * 10000,
{
    proof {
        crate::row_laws::decimal_amount_is_its_value(m, scale);
    }
    if m < 0 {
        return Err(InputReject::AmountNegative);
    }
    let factor: i128 = if scale == 0 {
        10000
    } else if scale == 1 {
        1000
    } else if scale == 2 {
        100
    } else if scale == 3 {
        10
    } else {
        1
    };
    assert(factor == ten_to((4 - scale) as nat)) by {
        reveal_with_fuel(ten_to, 5);
    }
    assert(m * factor <= MAX_UNITS * 10000) by (nonlinear_arith)
        requires
            0 <= m <= MAX_UNITS,
            1 <= factor <= 10000,
    ;
    Ok(Amount { units: m * factor })
}

/// Whether a text is exactly `name`.
fn is_named(text: &String, name: &str) -> (b: bool)
    ensures
        b == (text@ == name@),
{
    let owned = name.to_owned();
    *text == owned
}

/// Turns a row into a transaction, or says why it is not one.
pub fn try_into_tx(row: &InputRow) -> (r: Result<Tx, InputReject>)
    ensures
        r == row_meaning(*row),
{
    let amount_str: Option<&str> = match &row.amount {
        Some(s) => {
            let t = trim(s.as_str());
            if t.is_empty() {
                None
            } else {
                Some(t)
            }
        },
        None => None,
    };
    assert(match amount_str {
        Some(t) => present_amount(amount_view(row.amount)) == Some(t@),
        None => present_amount(amount_view(row.amount)) is None,
    });
    tx_from_fields(&row.kind, row.client, row.tx, amount_str)
}

/// Turns a row's fields into a transaction, given its present amount: the amount
/// text already trimmed, and `None` when absent or empty.
pub fn tx_from_fields(kind: &String, client: u16, tx: u32, amount: Option<&str>) -> (r: Result<
    Tx,
    InputReject,
>)
    ensures
        r == tx_of_fields(
            kind@,
            client,
            tx,
            match amount {
                Some(t) => Some(t@),
                None => None,
            },
        ),
{
    let amount_str = amount;
    if is_named(kind, "deposit") {
        match amount_str {
            None => Err(InputReject::AmountMissing),
            Some(s) => {
                let amount = parse_amount(s)?;
                Ok(Tx::Deposit { client, tx, amount })
            },
        }
    } else if is_named(kind, "withdrawal") {
        match amount_str {
            None => Err(InputReject::AmountMissing),
            Some(s) => {
                let amount = parse_amount(s)?;
                Ok(Tx::Withdrawal { client, tx, amount })
            },
        }
    } else if is_named(kind, "dispute") {
        reject_if_amount_present(amount_str)?;
        Ok(Tx::Dispute { client, tx })
    } else if is_named(kind, "resolve") {
        reject_if_amount_present(amount_str)?;
        Ok(Tx::Resolve { client, tx })
    } else if is_named(kind, "chargeback") {
        reject_if_amount_present(amount_str)?;
        Ok(Tx::Chargeback { client, tx })
    } else {
        Err(InputReject::UnknownKind)
    }
}

/// Why a row left the engine as it was (but for creating the client's account).
#[derive(Clone, Copy, Debug, PartialEq, Eq, Structural)]
pub enum RowIgnored {
    /// The row is not a well-formed transaction.
    Rejected(InputReject),
    /// The engine ignored the transaction.
    Ignored(IgnoreReason),
    /// The transaction would take a balance or a total out of the range that the
    /// engine holds exactly; the engine is left untouched.
    OutOfRange,
}

/// Feeds one row to the engine: a malformed row is rejected without touching the
/// engine; a well-formed one is applied, unless it would leave the exact range.
pub fn ingest(engine: &mut Engine, row: &InputRow) -> (r: Result<(), RowIgnored>)
    requires
        old(engine).wf(),
    ensures
        final(engine).wf(),
        match row_meaning(*row) {
            Err(e) => r == Err::<(), RowIgnored>(RowIgnored::Rejected(e)) && final(engine)@
                == old(engine)@,
            Ok(tx) => if !fits(old(engine)@, tx) {
                r == Err::<(), RowIgnored>(RowIgnored::OutOfRange) && final(engine)@ == old(
                    engine,
                )@
            } else {
                &&& final(engine)@ == step(old(engine)@, tx)
                &&& r == match verdict(old(engine)@, tx) {
                    Ok(()) => Ok(()),
                    Err(reason) => Err(RowIgnored::Ignored(reason)),
                }
            },
        },
{
    let tx = match try_into_tx(row) {
        Ok(tx) => tx,
        Err(e) => return Err(RowIgnored::Rejected(e)),
    };
    if !engine.fits(&tx) {
        return Err(RowIgnored::OutOfRange);
    }
    match engine.apply(tx) {
        Ok(()) => Ok(()),
        Err(reason) => Err(RowIgnored::Ignored(reason)),
    }
}

/// One row of the account report, with its amounts written to four places.
pub struct OutputRow {
    pub client: u16,
    pub available: String,
    pub held: String,
    pub total: String,
    pub locked: bool,
}

/// The report row of an account.
pub open spec fn reports(row: OutputRow, a: crate::domain::Account) -> bool {
    &&& row.client == a.client
    &&& row.available@ == four_place_text(a.available.units as int)
    &&& row.held@ == four_place_text(a.held.units as int)
    &&& row.total@ == four_place_text(total_units(a))
    &&& row.locked == a.locked
}

/// The account report: one row per account, each once, in the engine's order.
pub fn output_rows(engine: &Engine) -> (rows: Vec<OutputRow>)
    requires
        engine.wf(),
    ensures
        rows@.len() == engine@.accounts.dom().len(),
        forall|i: int|
            0 <= i < rows@.len() ==> engine@.accounts.contains_key(#[trigger] rows@[i].client)
                && reports(rows@[i], engine@.accounts[rows@[i].client]),
        forall|c: u16|
            #[trigger] engine@.accounts.contains_key(c) ==> exists|i: int|
                0 <= i < rows@.len() && rows@[i].client == c,
        forall|i: int, j: int|
            0 <= i < j < rows@.len() ==> #[trigger] rows@[i].client != #[trigger] rows@[j].client,
{
    let accounts = engine.accounts();
    let mut rows: Vec<OutputRow> = Vec::new();
    let mut i: usize = 0;
    while i < accounts.len()
        invariant
            i <= accounts@.len(),
            engine.wf(),
            rows@.len() == i,
            forall|k: int|
                0 <= k < accounts@.len() ==> engine@.accounts.contains_key(
                    #[trigger] accounts@[k].client,
                ) && engine@.accounts[accounts@[k].client] == accounts@[k],
            forall|k: int| 0 <= k < i ==> reports(#[trigger] rows@[k], accounts@[k]),
        decreases accounts@.len() - i,
    {
        let a = accounts[i];
        assert(engine@.accounts.contains_key(a.client));
        let row = OutputRow {
            client: a.client,
            available: format_4dp(a.available.units),
            held: format_4dp(a.held.units),
            total: format_4dp(a.available.units + a.held.units),
            locked: a.locked,
        };
        rows.push(row);
        i = i + 1;
    }
    assert forall|c: u16| #[trigger] engine@.accounts.contains_key(c) implies exists|i: int|
        0 <= i < rows@.len() && rows@[i].client == c by {
        let k = choose|k: int| 0 <= k < accounts@.len() && accounts@[k].client == c;
        assert(reports(rows@[k], accounts@[k]));
    }
    assert forall|i: int, j: int| 0 <= i < j < rows@.len() implies #[trigger] rows@[i].client
        != #[trigger] rows@[j].client by {
        assert(reports(rows@[i], accounts@[i]));
        assert(reports(rows@[j], accounts@[j]));
    }
    rows
}

} // verus!
