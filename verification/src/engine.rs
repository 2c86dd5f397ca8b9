use std::collections::HashMap;
use vstd::prelude::*;
use vstd::std_specs::iter::IteratorSpec;

use crate::domain::{fresh_account, Account, Amount, Tx, MAX_UNITS};

verus! {

broadcast use vstd::std_specs::hash::group_hash_axioms;

/// Why the engine ignored a well-formed transaction.
#[derive(Clone, Copy, Debug, PartialEq, Eq, Structural)]
pub enum IgnoreReason {
    AccountFrozen,
    InsufficientFunds,
    UnknownTx,
    WrongTxState,
    AlreadyDisputed,
    ClientMismatch,
}

/// Where a deposit stands in the dispute lifecycle.
#[derive(Clone, Copy, Debug, PartialEq, Eq, Structural)]
pub enum DepositState {
    Posted,
    Disputed,
    Resolved,
    ChargedBack,
}

/// A deposit kept for later dispute lookups.
#[derive(Clone, Copy, Debug, PartialEq, Eq, Structural)]
pub struct DepositRecord {
    pub client: u16,
    pub amount: Amount,
    pub state: DepositState,
}

/// The engine's state as mathematics: the accounts by client and the deposits by
/// transaction id.
pub struct Ledger {
    pub accounts: Map<u16, Account>,
    pub deposits: Map<u32, DepositRecord>,
}

/// A balance pair lies in the range where every balance, and the total, is held
/// exactly.
pub open spec fn in_range(available: int, held: int) -> bool {
    &&& -MAX_UNITS <= available <= MAX_UNITS
    &&& -MAX_UNITS <= held <= MAX_UNITS
    &&& -MAX_UNITS <= available + held <= MAX_UNITS
}

/// Every account is stored under its own client, with balances in range.
pub open spec fn ledger_wf(l: Ledger) -> bool {
    forall|c: u16|
        #[trigger] l.accounts.contains_key(c) ==> {
            &&& l.accounts[c].client == c
            &&& in_range(l.accounts[c].available.units as int, l.accounts[c].held.units as int)
        }
}

/// The ledger after first contact with `client`: a fresh account if it had none.
pub open spec fn touch(l: Ledger, client: u16) -> Ledger {
    if l.accounts.contains_key(client) {
        l
    } else {
        Ledger { accounts: l.accounts.insert(client, fresh_account(client)), deposits: l.deposits }
    }
}

/// The account of the transaction's client, once it has been touched.
pub open spec fn account_for(l: Ledger, tx: Tx) -> Account {
    touch(l, tx.client_of()).accounts[tx.client_of()]
}

/// Which rule decides a transaction: `Ok` when it takes effect, else the reason it is
/// ignored. The checks come in this order: frozen account, then the transaction's own
/// guards (funds for a withdrawal; for the dispute family the deposit's existence, its
/// client, then its state).
pub open spec fn verdict(l: Ledger, tx: Tx) -> Result<(), IgnoreReason> {
    let t = touch(l, tx.client_of());
    let a = t.accounts[tx.client_of()];
    if a.locked {
        Err(IgnoreReason::AccountFrozen)
    } else {
        match tx {
            Tx::Deposit { .. } => Ok(()),
            Tx::Withdrawal { amount, .. } => if a.available.units < amount.units {
                Err(IgnoreReason::InsufficientFunds)
            } else {
                Ok(())
            },
            Tx::Dispute { client, tx: id } => if !t.deposits.contains_key(id) {
                Err(IgnoreReason::UnknownTx)
            } else if t.deposits[id].client != client {
                Err(IgnoreReason::ClientMismatch)
            } else {
                match t.deposits[id].state {
                    DepositState::Posted => Ok(()),
                    DepositState::Disputed => Err(IgnoreReason::AlreadyDisputed),
                    _ => Err(IgnoreReason::WrongTxState),
                }
            },
            Tx::Resolve { client, tx: id } | Tx::Chargeback { client, tx: id } =>
                if !t.deposits.contains_key(id) {
                Err(IgnoreReason::UnknownTx)
            } else if t.deposits[id].client != client {
                Err(IgnoreReason::ClientMismatch)
            } else if t.deposits[id].state != DepositState::Disputed {
                Err(IgnoreReason::WrongTxState)
            } else {
                Ok(())
            },
        }
    }
}

/// The available and held balances of the transaction's client after it is applied,
/// computed exactly: unchanged when the transaction is ignored.
pub open spec fn balances_after(l: Ledger, tx: Tx) -> (int, int) {
    let t = touch(l, tx.client_of());
    let a = t.accounts[tx.client_of()];
    let av = a.available.units as int;
    let h = a.held.units as int;
    if verdict(l, tx) is Err {
        (av, h)
    } else {
        match tx {
            Tx::Deposit { amount, .. } => (av + amount.units, h),
            Tx::Withdrawal { amount, .. } => (av - amount.units, h),
            Tx::Dispute { tx: id, .. } => (
                av - t.deposits[id].amount.units,
                h + t.deposits[id].amount.units,
            ),
            Tx::Resolve { tx: id, .. } => (
                av + t.deposits[id].amount.units,
                h - t.deposits[id].amount.units,
            ),
            Tx::Chargeback { tx: id, .. } => (av, h - t.deposits[id].amount.units),
        }
    }
}

/// The transaction keeps every balance, and its client's total, in range.
pub open spec fn fits(l: Ledger, tx: Tx) -> bool {
    in_range(balances_after(l, tx).0, balances_after(l, tx).1)
}

/// The ledger after a transaction. An ignored transaction only creates the client's
/// account. One that takes effect sets the client's balances to `balances_after`; a
/// deposit records itself as `Posted`; dispute, resolve and chargeback move the deposit
/// to `Disputed`, `Resolved` and `ChargedBack`; a chargeback also locks the account.
pub open spec fn step(l: Ledger, tx: Tx) -> Ledger {
    let t = touch(l, tx.client_of());
    let a = t.accounts[tx.client_of()];
    let b = balances_after(l, tx);
    if verdict(l, tx) is Err {
        t
    } else {
        let updated = Account {
            client: a.client,
            available: Amount { units: b.0 as i128 },
            held: Amount { units: b.1 as i128 },
            locked: a.locked || tx is Chargeback,
        };
        let accounts = t.accounts.insert(tx.client_of(), updated);
        match tx {
            Tx::Deposit { client, tx: id, amount } => Ledger {
                accounts,
                deposits: t.deposits.insert(
                    id,
                    DepositRecord { client, amount, state: DepositState::Posted },
                ),
            },
            Tx::Withdrawal { .. } => Ledger { accounts, deposits: t.deposits },
            Tx::Dispute { tx: id, .. } => Ledger {
                accounts,
                deposits: t.deposits.insert(
                    id,
                    DepositRecord { state: DepositState::Disputed, ..t.deposits[id] },
                ),
            },
            Tx::Resolve { tx: id, .. } => Ledger {
                accounts,
                deposits: t.deposits.insert(
                    id,
                    DepositRecord { state: DepositState::Resolved, ..t.deposits[id] },
                ),
            },
            Tx::Chargeback { tx: id, .. } => Ledger {
                accounts,
                deposits: t.deposits.insert(
                    id,
                    DepositRecord { state: DepositState::ChargedBack, ..t.deposits[id] },
                ),
            },
        }
    }
}

/// Whether `x + y` lies within `[-MAX_UNITS, MAX_UNITS]`, for `x` in that range.
fn sum_in_range(x: i128, y: i128) -> (b: bool)
    requires
        -MAX_UNITS <= x <= MAX_UNITS,
    ensures
        b == (-MAX_UNITS <= x + y <= MAX_UNITS),
{
    if y >= 0 {
        x <= MAX_UNITS - y
    } else {
        y >= -MAX_UNITS - x
    }
}

/// Whether `x - y` lies within `[-MAX_UNITS, MAX_UNITS]`, for `x` in that range.
fn difference_in_range(x: i128, y: i128) -> (b: bool)
    requires
        -MAX_UNITS <= x <= MAX_UNITS,
    ensures
        b == (-MAX_UNITS <= x - y <= MAX_UNITS),
{
    if y <= 0 {
        y >= x - MAX_UNITS
    } else {
        y <= x + MAX_UNITS
    }
}

/// The payments engine: accounts by client and the deposits that disputes refer to.
pub struct Engine {
    accounts: HashMap<u16, Account>,
    deposits: HashMap<u32, DepositRecord>,
}

impl View for Engine {
    type V = Ledger;

    closed spec fn view(&self) -> Ledger {
        Ledger { accounts: self.accounts@, deposits: self.deposits@ }
    }
}

impl Engine {
    /// The engine's invariant: every account sits under its own client with balances
    /// in range.
    pub open spec fn wf(&self) -> bool {
        ledger_wf(self@)
    }

    /// An engine with no accounts and no deposits.
    pub fn new() -> (e: Engine)
        ensures
            e.wf(),
            e@.accounts == Map::<u16, Account>::empty(),
            e@.deposits == Map::<u32, DepositRecord>::empty(),
    {
        Engine { accounts: HashMap::new(), deposits: HashMap::new() }
    }

    /// Every account, each once, in the order in which the map is walked (unspecified).
    pub fn accounts(&self) -> (r: Vec<Account>)
        requires
            self.wf(),
        ensures
            r@.len() == self@.accounts.dom().len(),
            forall|i: int|
                0 <= i < r@.len() ==> self@.accounts.contains_key(#[trigger] r@[i].client)
                    && self@.accounts[r@[i].client] == r@[i],
            forall|c: u16|
                #[trigger] self@.accounts.contains_key(c) ==> exists|i: int|
                    0 <= i < r@.len() && r@[i].client == c,
            forall|i: int, j: int|
                0 <= i < j < r@.len() ==> #[trigger] r@[i].client != #[trigger] r@[j].client,
    {
        let ghost m = self@.accounts;
        let ghost entries = vstd::std_specs::hash::spec_hash_map_iter(&self.accounts).remaining();
        let walk = self.accounts.iter();
        assert(entries.no_duplicates());
        let mut out: Vec<Account> = Vec::new();
        for (_, a) in it: walk
            invariant
                it.seq() == entries,
                out@.len() == it.index(),
                forall|j: int| 0 <= j < it.index() ==> out@[j] == *entries[j].1,
        {
            out.push(*a);
        }
        assert(out@.len() == entries.len());
        assert forall|i: int| 0 <= i < out@.len() implies m.contains_key(#[trigger] out@[i].client)
            && m[out@[i].client] == out@[i] by {
            assert(m.contains_key(*entries[i].0) && m[*entries[i].0] == *entries[i].1);
        }
        assert forall|c: u16| #[trigger] m.contains_key(c) implies exists|i: int|
            0 <= i < out@.len() && out@[i].client == c by {
            assert(entries.contains((&c, &m[c])));
            let i = choose|i: int| 0 <= i < entries.len() && entries[i] == (&c, &m[c]);
            assert(out@[i].client == c);
        }
        assert forall|i: int, j: int| 0 <= i < j < out@.len() implies #[trigger] out@[i].client
            != #[trigger] out@[j].client by {
            assert(m.contains_key(*entries[i].0) && m[*entries[i].0] == *entries[i].1);
            assert(m.contains_key(*entries[j].0) && m[*entries[j].0] == *entries[j].1);
            if out@[i].client == out@[j].client {
                assert(entries[i] == entries[j]);
            }
        }
        out
    }

    /// Gives `client` a fresh account if it has none, and returns its account.
    fn touch_account(&mut self, client: u16) -> (a: Account)
        requires
            old(self).wf(),
        ensures
            final(self)@ == touch(old(self)@, client),
            final(self).wf(),
            a == final(self)@.accounts[client],
    {
        match self.accounts.get(&client) {
            Some(a) => *a,
            None => {
                let a = Account::zero_for(client);
                self.accounts.insert(client, a);
                assert(self@.accounts == old(self)@.accounts.insert(client, a));
                assert forall|c: u16| #[trigger] self@.accounts.contains_key(c) implies {
                    &&& self@.accounts[c].client == c
                    &&& in_range(
                        self@.accounts[c].available.units as int,
                        self@.accounts[c].held.units as int,
                    )
                } by {
                    if c != client {
                        assert(old(self)@.accounts.contains_key(c));
                    }
                }
                a
            },
        }
    }

    /// Whether applying `tx` keeps its client's balances and total in range, which
    /// `apply` needs.
    pub fn fits(&self, tx: &Tx) -> (b: bool)
        requires
            self.wf(),
        ensures
            b == fits(self@, *tx),
    {
        let ghost l = self@;
        let client = match tx {
            Tx::Deposit { client, .. } => *client,
            Tx::Withdrawal { client, .. } => *client,
            Tx::Dispute { client, .. } => *client,
            Tx::Resolve { client, .. } => *client,
            Tx::Chargeback { client, .. } => *client,
        };
        let account = match self.accounts.get(&client) {
            Some(a) => *a,
            None => Account::zero_for(client),
        };
        assert(account == touch(l, client).accounts[client]);
        if account.locked {
            return true;
        }
        let av = account.available.units;
        let h = account.held.units;
        let total = av + h;
        match tx {
            Tx::Deposit { amount, .. } => sum_in_range(av, amount.units) && sum_in_range(
                total,
                amount.units,
            ),
            Tx::Withdrawal { amount, .. } => {
                if av < amount.units {
                    true
                } else {
                    difference_in_range(av, amount.units) && difference_in_range(
                        total,
                        amount.units,
                    )
                }
            },
            Tx::Dispute { client, tx: id } => match self.disputed_record(*client, *id) {
                Ok(rec) => {
                    if rec.state != DepositState::Posted {
                        true
                    } else {
                        difference_in_range(av, rec.amount.units) && sum_in_range(
                            h,
                            rec.amount.units,
                        )
                    }
                },
                Err(_) => true,
            },
            Tx::Resolve { client, tx: id } => match self.disputed_record(*client, *id) {
                Ok(rec) => {
                    if rec.state != DepositState::Disputed {
                        true
                    } else {
                        sum_in_range(av, rec.amount.units) && difference_in_range(
                            h,
                            rec.amount.units,
                        )
                    }
                },
                Err(_) => true,
            },
            Tx::Chargeback { client, tx: id } => match self.disputed_record(*client, *id) {
                Ok(rec) => {
                    if rec.state != DepositState::Disputed {
                        true
                    } else {
                        difference_in_range(h, rec.amount.units) && difference_in_range(
                            total,
                            rec.amount.units,
                        )
                    }
                },
                Err(_) => true,
            },
        }
    }

    /// Applies one transaction: `Ok` when it takes effect, else the reason it was
    /// ignored. Either way the client has an account afterwards.
    pub fn apply(&mut self, tx: Tx) -> (r: Result<(), IgnoreReason>)
        requires
            old(self).wf(),
            fits(old(self)@, tx),
        ensures
            final(self).wf(),
            r == verdict(old(self)@, tx),
            final(self)@ == step(old(self)@, tx),
    {
        match tx {
            Tx::Deposit { client, tx: id, amount } => self.on_deposit(client, id, amount),
            Tx::Withdrawal { client, tx: id, amount } => self.on_withdrawal(
                client,
                amount,
                Ghost(id),
            ),
            Tx::Dispute { client, tx: id } => self.on_dispute(client, id),
            Tx::Resolve { client, tx: id } => self.on_resolve(client, id),
            Tx::Chargeback { client, tx: id } => self.on_chargeback(client, id),
        }
    }

    fn on_deposit(&mut self, client: u16, tx: u32, amount: Amount) -> (r: Result<
        (),
        IgnoreReason,
    >)
        requires
            old(self).wf(),
            fits(old(self)@, Tx::Deposit { client, tx, amount }),
        ensures
            final(self).wf(),
            r == verdict(old(self)@, Tx::Deposit { client, tx, amount }),
            final(self)@ == step(old(self)@, Tx::Deposit { client, tx, amount }),
    {
        let account = self.touch_account(client);
        if account.locked {
            return Err(IgnoreReason::AccountFrozen);
        }
        let updated = Account {
            client: account.client,
            available: Amount { units: account.available.units + amount.units },
            held: account.held,
            locked: account.locked,
        };
        self.accounts.insert(client, updated);
        self.deposits.insert(tx, DepositRecord { client, amount, state: DepositState::Posted });
        Ok(())
    }

    /// A withdrawal; its transaction id plays no part, and stands here only to name the
    /// transaction in the contract.
    fn on_withdrawal(&mut self, client: u16, amount: Amount, Ghost(id): Ghost<u32>) -> (r: Result<
        (),
        IgnoreReason,
    >)
        requires
            old(self).wf(),
            fits(old(self)@, Tx::Withdrawal { client, tx: id, amount }),
        ensures
            final(self).wf(),
            r == verdict(old(self)@, Tx::Withdrawal { client, tx: id, amount }),
            final(self)@ == step(old(self)@, Tx::Withdrawal { client, tx: id, amount }),
    {
        let account = self.touch_account(client);
        if account.locked {
            return Err(IgnoreReason::AccountFrozen);
        }
        if account.available.units < amount.units {
            return Err(IgnoreReason::InsufficientFunds);
        }
        let updated = Account {
            client: account.client,
            available: Amount { units: account.available.units - amount.units },
            held: account.held,
            locked: account.locked,
        };
        self.accounts.insert(client, updated);
        Ok(())
    }

    /// Looks up the deposit that a dispute-family row names, checking its client.
    fn disputed_record(&self, client: u16, tx: u32) -> (r: Result<DepositRecord, IgnoreReason>)
        ensures
            match r {
                Ok(rec) => self@.deposits.contains_key(tx) && self@.deposits[tx] == rec
                    && rec.client == client,
                Err(e) => if !self@.deposits.contains_key(tx) {
                    e == IgnoreReason::UnknownTx
                } else {
                    self@.deposits[tx].client != client && e == IgnoreReason::ClientMismatch
                },
            },
    {
        let record = match self.deposits.get(&tx) {
            Some(rec) => *rec,
            None => return Err(IgnoreReason::UnknownTx),
        };
        if record.client != client {
            return Err(IgnoreReason::ClientMismatch);
        }
        Ok(record)
    }

    fn on_dispute(&mut self, client: u16, tx: u32) -> (r: Result<(), IgnoreReason>)
        requires
            old(self).wf(),
            fits(old(self)@, Tx::Dispute { client, tx }),
        ensures
            final(self).wf(),
            r == verdict(old(self)@, Tx::Dispute { client, tx }),
            final(self)@ == step(old(self)@, Tx::Dispute { client, tx }),
    {
        let account = self.touch_account(client);
        if account.locked {
            return Err(IgnoreReason::AccountFrozen);
        }
        let record = self.disputed_record(client, tx)?;
        match record.state {
            DepositState::Posted => {},
            DepositState::Disputed => return Err(IgnoreReason::AlreadyDisputed),
            DepositState::Resolved | DepositState::ChargedBack => {
                return Err(IgnoreReason::WrongTxState);
            },
        }
        let updated = Account {
            client: account.client,
            available: Amount { units: account.available.units - record.amount.units },
            held: Amount { units: account.held.units + record.amount.units },
            locked: account.locked,
        };
        self.accounts.insert(client, updated);
        self.deposits.insert(tx, DepositRecord { state: DepositState::Disputed, ..record });
        Ok(())
    }

    fn on_resolve(&mut self, client: u16, tx: u32) -> (r: Result<(), IgnoreReason>)
        requires
            old(self).wf(),
            fits(old(self)@, Tx::Resolve { client, tx }),
        ensures
            final(self).wf(),
            r == verdict(old(self)@, Tx::Resolve { client, tx }),
            final(self)@ == step(old(self)@, Tx::Resolve { client, tx }),
    {
        let account = self.touch_account(client);
        if account.locked {
            return Err(IgnoreReason::AccountFrozen);
        }
        let record = self.disputed_record(client, tx)?;
        if record.state != DepositState::Disputed {
            return Err(IgnoreReason::WrongTxState);
        }
        let updated = Account {
            client: account.client,
            available: Amount { units: account.available.units + record.amount.units },
            held: Amount { units: account.held.units - record.amount.units },
            locked: account.locked,
        };
        self.accounts.insert(client, updated);
        self.deposits.insert(tx, DepositRecord { state: DepositState::Resolved, ..record });
        Ok(())
    }

    fn on_chargeback(&mut self, client: u16, tx: u32) -> (r: Result<(), IgnoreReason>)
        requires
            old(self).wf(),
            fits(old(self)@, Tx::Chargeback { client, tx }),
        ensures
            final(self).wf(),
            r == verdict(old(self)@, Tx::Chargeback { client, tx }),
            final(self)@ == step(old(self)@, Tx::Chargeback { client, tx }),
    {
        let account = self.touch_account(client);
        if account.locked {
            return Err(IgnoreReason::AccountFrozen);
        }
        let record = self.disputed_record(client, tx)?;
        if record.state != DepositState::Disputed {
            return Err(IgnoreReason::WrongTxState);
        }
        let updated = Account {
            client: account.client,
            available: account.available,
            held: Amount { units: account.held.units - record.amount.units },
            locked: true,
        };
        self.accounts.insert(client, updated);
        self.deposits.insert(tx, DepositRecord { state: DepositState::ChargedBack, ..record });
        Ok(())
    }
}

} // verus!
