use vstd::prelude::*;

verus! {

/// The largest magnitude, in ten-thousandths, that the engine keeps a balance at:
/// the largest mantissa a `rust_decimal::Decimal` holds (2^96 - 1), so that every
/// balance is exactly a decimal with four places.
pub const MAX_UNITS: i128 = 79228162514264337593543950335;

/// A money amount with four decimal places, counted in ten-thousandths
/// (`units == 12345` is `1.2345`).
#[derive(Clone, Copy, Debug, PartialEq, Eq, Structural)]
pub struct Amount {
    pub units: i128,
}

impl Amount {
    /// The amount zero.
    pub fn zero() -> (a: Amount)
        ensures
            a.units == 0,
    {
        Amount { units: 0 }
    }

    /// The amount of `units` ten-thousandths.
    pub fn from_units(units: i128) -> (a: Amount)
        ensures
            a.units == units,
    {
        Amount { units }
    }
}

/// A well-formed transaction, as the engine consumes it.
#[derive(Clone, Copy, Debug, PartialEq, Eq, Structural)]
pub enum Tx {
    Deposit { client: u16, tx: u32, amount: Amount },
    Withdrawal { client: u16, tx: u32, amount: Amount },
    Dispute { client: u16, tx: u32 },
    Resolve { client: u16, tx: u32 },
    Chargeback { client: u16, tx: u32 },
}

impl Tx {
    /// The client that the transaction names.
    pub open spec fn client_of(self) -> u16 {
        match self {
            Tx::Deposit { client, .. } => client,
            Tx::Withdrawal { client, .. } => client,
            Tx::Dispute { client, .. } => client,
            Tx::Resolve { client, .. } => client,
            Tx::Chargeback { client, .. } => client,
        }
    }
}

/// A client's asset account. The total is not stored: it is `available + held`.
#[derive(Clone, Copy, Debug, PartialEq, Eq, Structural)]
pub struct Account {
    pub client: u16,
    pub available: Amount,
    pub held: Amount,
    pub locked: bool,
}

/// The account that a client gets on first contact: zero balances, not locked.
pub open spec fn fresh_account(client: u16) -> Account {
    Account {
        client,
        available: Amount { units: 0 },
        held: Amount { units: 0 },
        locked: false,
    }
}

/// The total of an account, `available + held`, as an integer of ten-thousandths.
pub open spec fn total_units(a: Account) -> int {
    a.available.units + a.held.units
}

impl Account {
    /// A new, unlocked account with zero balances.
    pub fn zero_for(client: u16) -> (a: Account)
        ensures
            a == fresh_account(client),
    {
        Account { client, available: Amount::zero(), held: Amount::zero(), locked: false }
    }

    /// The total funds: available plus held.
    pub fn total(&self) -> (t: Amount)
        requires
            i128::MIN <= total_units(*self) <= i128::MAX,
        ensures
            t.units == total_units(*self),
    {
        Amount { units: self.available.units + self.held.units }
    }
}

} // verus!
