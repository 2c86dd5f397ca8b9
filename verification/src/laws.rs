//! What holds of every transaction the engine takes: the rules of the dispute
//! lifecycle and of frozen accounts, stated over `verdict` and `step`.
use vstd::prelude::*;

use crate::domain::{fresh_account, total_units, Account, Amount, Tx, MAX_UNITS};
use crate::engine::{
    fits, in_range, ledger_wf, step, touch, verdict, DepositRecord, DepositState, IgnoreReason,
    Ledger,
};

verus! {

/// A transaction leaves every other client's account as it was, and afterwards its
/// own client has an account.
pub proof fn step_touches_only_its_client(l: Ledger, tx: Tx, c: u16)
    ensures
        step(l, tx).accounts.contains_key(tx.client_of()),
        c != tx.client_of() ==> (step(l, tx).accounts.contains_key(c) == l.accounts.contains_key(
            c,
        )),
        c != tx.client_of() && l.accounts.contains_key(c) ==> step(l, tx).accounts[c]
            == l.accounts[c],
{
}

/// An account seen for the first time starts unlocked with zero balances.
pub proof fn first_contact_opens_a_zero_account(l: Ledger, c: u16)
    requires
        !l.accounts.contains_key(c),
    ensures
        touch(l, c).accounts[c] == (Account {
            client: c,
            available: Amount { units: 0 },
            held: Amount { units: 0 },
            locked: false,
        }),
        touch(l, c).accounts[c] == fresh_account(c),
        touch(l, c).deposits == l.deposits,
        forall|k: u16| k != c ==> #[trigger] touch(l, c).accounts.contains_key(k)
            == l.accounts.contains_key(k) && touch(l, c).accounts[k] == l.accounts[k],
{
}

/// A client that already has an account is found as it is.
pub proof fn known_client_is_found(l: Ledger, c: u16)
    requires
        l.accounts.contains_key(c),
    ensures
        touch(l, c) == l,
{
}

/// An ignored transaction changes nothing but creating its client's zero account.
pub proof fn ignored_transaction_changes_nothing(l: Ledger, tx: Tx)
    requires
        verdict(l, tx) is Err,
    ensures
        step(l, tx) == touch(l, tx.client_of()),
        l.accounts.contains_key(tx.client_of()) ==> step(l, tx) == l,
{
}

/// A frozen account ignores every transaction, which leaves the ledger as it was.
pub proof fn frozen_account_ignores_everything(l: Ledger, tx: Tx)
    requires
        l.accounts.contains_key(tx.client_of()),
        l.accounts[tx.client_of()].locked,
    ensures
        verdict(l, tx) == Err::<(), IgnoreReason>(IgnoreReason::AccountFrozen),
        step(l, tx) == l,
{
}

/// Once locked, an account stays locked.
pub proof fn lock_is_permanent(l: Ledger, tx: Tx, c: u16)
    requires
        l.accounts.contains_key(c),
        l.accounts[c].locked,
    ensures
        step(l, tx).accounts.contains_key(c),
        step(l, tx).accounts[c].locked,
{
}

/// A deposit to an unlocked account raises its available funds, and its total, by the
/// amount, and records the deposit as posted.
pub proof fn deposit_credits_available(l: Ledger, tx: Tx)
    requires
        ledger_wf(l),
        fits(l, tx),
        tx is Deposit,
        !touch(l, tx.client_of()).accounts[tx.client_of()].locked,
    ensures
        verdict(l, tx) is Ok,
        ({
            let c = tx.client_of();
            let before = touch(l, c).accounts[c];
            let after = step(l, tx).accounts[c];
            &&& after.available.units == before.available.units + tx->Deposit_amount.units
            &&& after.held == before.held
            &&& total_units(after) == total_units(before) + tx->Deposit_amount.units
            &&& step(l, tx).deposits.contains_key(tx->Deposit_tx)
            &&& step(l, tx).deposits[tx->Deposit_tx].state == DepositState::Posted
        }),
{
}

/// A withdrawal from an unlocked account is refused for insufficient funds exactly
/// when the available funds are below the amount; otherwise it lowers the available
/// funds, and the total, by the amount.
pub proof fn withdrawal_debits_or_refuses(l: Ledger, tx: Tx)
    requires
        ledger_wf(l),
        fits(l, tx),
        tx is Withdrawal,
        !touch(l, tx.client_of()).accounts[tx.client_of()].locked,
    ensures
        ({
            let c = tx.client_of();
            let before = touch(l, c).accounts[c];
            let after = step(l, tx).accounts[c];
            let amount = tx->Withdrawal_amount.units;
            &&& (verdict(l, tx) == Err::<(), IgnoreReason>(IgnoreReason::InsufficientFunds))
                == (before.available.units < amount)
            &&& verdict(l, tx) is Ok ==> after.available.units == before.available.units - amount
                && after.held == before.held && total_units(after) == total_units(before)
                - amount
            &&& verdict(l, tx) is Err ==> after == before
            &&& step(l, tx).deposits == l.deposits
        }),
{
}

/// Disputes and resolves move the deposit's amount between available and held funds
/// and leave the total as it was.
pub proof fn dispute_and_resolve_keep_the_total(l: Ledger, tx: Tx)
    requires
        ledger_wf(l),
        fits(l, tx),
        tx is Dispute || tx is Resolve,
    ensures
        ({
            let c = tx.client_of();
            let before = touch(l, c).accounts[c];
            let after = step(l, tx).accounts[c];
            &&& total_units(after) == total_units(before)
            &&& verdict(l, tx) is Ok ==> {
                let amount = l.deposits[if tx is Dispute {
                    tx->Dispute_tx
                } else {
                    tx->Resolve_tx
                }].amount.units;
                if tx is Dispute {
                    after.available.units == before.available.units - amount
                        && after.held.units == before.held.units + amount
                } else {
                    after.available.units == before.available.units + amount
                        && after.held.units == before.held.units - amount
                }
            }
        }),
{
}

/// A chargeback removes the disputed amount from the held funds and from the total,
/// and locks the account.
pub proof fn chargeback_removes_held_and_locks(l: Ledger, tx: Tx)
    requires
        ledger_wf(l),
        fits(l, tx),
        tx is Chargeback,
        verdict(l, tx) is Ok,
    ensures
        ({
            let c = tx.client_of();
            let before = touch(l, c).accounts[c];
            let after = step(l, tx).accounts[c];
            let amount = l.deposits[tx->Chargeback_tx].amount.units;
            &&& after.held.units == before.held.units - amount
            &&& after.available == before.available
            &&& total_units(after) == total_units(before) - amount
            &&& after.locked
            &&& step(l, tx).deposits[tx->Chargeback_tx].state == DepositState::ChargedBack
        }),
{
}

/// Only deposits are kept: no other transaction adds a record, and a transaction
/// leaves every record of another id as it was.
pub proof fn only_deposits_are_recorded(l: Ledger, tx: Tx, id: u32)
    ensures
        !(tx is Deposit) ==> step(l, tx).deposits.dom() == l.deposits.dom(),
        tx is Deposit && verdict(l, tx) is Ok ==> step(l, tx).deposits.dom() == l.deposits.dom().insert(
            tx->Deposit_tx,
        ),
        (match tx {
            Tx::Deposit { tx: t, .. } => t != id,
            Tx::Withdrawal { .. } => true,
            Tx::Dispute { tx: t, .. } => t != id,
            Tx::Resolve { tx: t, .. } => t != id,
            Tx::Chargeback { tx: t, .. } => t != id,
        }) && l.deposits.contains_key(id) ==> step(l, tx).deposits.contains_key(id) && step(
            l,
            tx,
        ).deposits[id] == l.deposits[id],
{
}

/// The order of the lifecycle states: posted, then disputed, then resolved or charged
/// back.
pub open spec fn stage(s: DepositState) -> int {
    match s {
        DepositState::Posted => 0,
        DepositState::Disputed => 1,
        DepositState::Resolved => 2,
        DepositState::ChargedBack => 2,
    }
}

/// A transaction re-posts deposit `id`: a deposit under that same id that takes effect.
pub open spec fn reposts(l: Ledger, tx: Tx, id: u32) -> bool {
    tx matches Tx::Deposit { tx: t, .. } && t == id && verdict(l, tx) is Ok
}

/// A deposit's lifecycle only moves forward, so it is disputed at most once: its
/// client and amount stay, it never goes back to posted, it becomes disputed only from
/// posted, and resolved and charged-back deposits stay as they are. The one exception
/// is a new deposit under the same transaction id, which the engine takes as given
/// (ids are assumed unique) and which replaces the record.
pub proof fn deposit_lifecycle_moves_forward(l: Ledger, tx: Tx, id: u32)
    requires
        l.deposits.contains_key(id),
        !reposts(l, tx, id),
    ensures
        ({
            let before = l.deposits[id];
            let after = step(l, tx).deposits[id];
            &&& step(l, tx).deposits.contains_key(id)
            &&& after.client == before.client
            &&& after.amount == before.amount
            &&& stage(before.state) <= stage(after.state)
            &&& stage(before.state) == 2 ==> after == before
            &&& after.state == DepositState::Disputed ==> before.state == DepositState::Posted
                || before.state == DepositState::Disputed
        }),
{
}

/// The ledger after a sequence of transactions, applied in order.
pub open spec fn run(l: Ledger, txs: Seq<Tx>) -> Ledger
    decreases txs.len(),
{
    if txs.len() == 0 {
        l
    } else {
        step(run(l, txs.drop_last()), txs.last())
    }
}

/// After its account is frozen, a client's account never changes again, and every
/// later transaction of that client is ignored as frozen.
pub proof fn frozen_account_stays_as_it_is(l: Ledger, txs: Seq<Tx>, c: u16)
    requires
        l.accounts.contains_key(c),
        l.accounts[c].locked,
    ensures
        run(l, txs).accounts.contains_key(c),
        run(l, txs).accounts[c] == l.accounts[c],
        forall|i: int|
            0 <= i < txs.len() && (#[trigger] txs[i]).client_of() == c ==> verdict(
                run(l, txs.take(i)),
                txs[i],
            ) == Err::<(), IgnoreReason>(IgnoreReason::AccountFrozen),
    decreases txs.len(),
{
    if txs.len() > 0 {
        let prefix = txs.drop_last();
        frozen_account_stays_as_it_is(l, prefix, c);
        let mid = run(l, prefix);
        step_touches_only_its_client(mid, txs.last(), c);
        assert forall|i: int|
            0 <= i < txs.len() && (#[trigger] txs[i]).client_of() == c implies verdict(
            run(l, txs.take(i)),
            txs[i],
        ) == Err::<(), IgnoreReason>(IgnoreReason::AccountFrozen) by {
            if i < txs.len() - 1 {
                assert(txs.take(i) == prefix.take(i));
                assert(prefix[i] == txs[i]);
            } else {
                assert(txs.take(i) == prefix);
            }
        }
    }
}

/// A transaction that fits keeps the engine's invariant.
pub proof fn step_keeps_wf(l: Ledger, tx: Tx)
    requires
        ledger_wf(l),
        fits(l, tx),
    ensures
        ledger_wf(step(l, tx)),
{
    let c0 = tx.client_of();
    let n = step(l, tx);
    assert forall|c: u16| #[trigger] n.accounts.contains_key(c) implies n.accounts[c].client == c
        && in_range(
        n.accounts[c].available.units as int,
        n.accounts[c].held.units as int,
    ) by {
        if c != c0 {
            assert(l.accounts.contains_key(c));
        }
    }
}

/// Which rule decides a transaction, from its client's account (found or fresh) and
/// the deposit it names: a frozen account refuses everything; a deposit is always
/// taken; a withdrawal is refused exactly when the available funds are below its
/// amount; a dispute, resolve or chargeback is refused when its deposit is unknown or
/// another client's, and otherwise by the deposit's state: a dispute takes a posted
/// deposit, refuses a disputed one as already disputed and a settled one as in the
/// wrong state; a resolve or chargeback takes exactly a disputed deposit.
pub proof fn rules_of_each_transaction(l: Ledger, tx: Tx)
    ensures
        ({
            let c = tx.client_of();
            let a = touch(l, c).accounts[c];
            let r = verdict(l, tx);
            &&& a.locked ==> r == Err::<(), IgnoreReason>(IgnoreReason::AccountFrozen)
            &&& !a.locked ==> match tx {
                Tx::Deposit { .. } => r == Ok::<(), IgnoreReason>(()),
                Tx::Withdrawal { amount, .. } => if a.available.units < amount.units {
                    r == Err::<(), IgnoreReason>(IgnoreReason::InsufficientFunds)
                } else {
                    r == Ok::<(), IgnoreReason>(())
                },
                Tx::Dispute { tx: id, .. } => if !l.deposits.contains_key(id) {
                    r == Err::<(), IgnoreReason>(IgnoreReason::UnknownTx)
                } else if l.deposits[id].client != c {
                    r == Err::<(), IgnoreReason>(IgnoreReason::ClientMismatch)
                } else if l.deposits[id].state == DepositState::Posted {
                    r == Ok::<(), IgnoreReason>(())
                } else if l.deposits[id].state == DepositState::Disputed {
                    r == Err::<(), IgnoreReason>(IgnoreReason::AlreadyDisputed)
                } else {
                    r == Err::<(), IgnoreReason>(IgnoreReason::WrongTxState)
                },
                Tx::Resolve { tx: id, .. } | Tx::Chargeback { tx: id, .. } =>
                    if !l.deposits.contains_key(id) {
                    r == Err::<(), IgnoreReason>(IgnoreReason::UnknownTx)
                } else if l.deposits[id].client != c {
                    r == Err::<(), IgnoreReason>(IgnoreReason::ClientMismatch)
                } else if l.deposits[id].state == DepositState::Disputed {
                    r == Ok::<(), IgnoreReason>(())
                } else {
                    r == Err::<(), IgnoreReason>(IgnoreReason::WrongTxState)
                },
            }
        }),
{
}

/// What a transaction that takes effect does to its client's account and to the
/// deposit it names: a deposit adds its amount to the available funds and records
/// itself as posted; a withdrawal takes its amount from the available funds; a
/// dispute moves the deposit's amount from available to held and marks it disputed;
/// a resolve moves it back and marks it resolved; a chargeback takes it from held,
/// marks it charged back and locks the account. Nothing else changes the lock.
pub proof fn effects_of_each_transaction(l: Ledger, tx: Tx)
    requires
        ledger_wf(l),
        fits(l, tx),
        verdict(l, tx) is Ok,
    ensures
        ({
            let c = tx.client_of();
            let a = touch(l, c).accounts[c];
            let n = step(l, tx);
            let b = n.accounts[c];
            &&& n.accounts.contains_key(c)
            &&& b.client == c
            &&& b.locked == (tx is Chargeback)
            &&& match tx {
                Tx::Deposit { tx: id, amount, .. } => {
                    &&& b.available.units == a.available.units + amount.units
                    &&& b.held == a.held
                    &&& n.deposits == l.deposits.insert(
                        id,
                        DepositRecord { client: c, amount, state: DepositState::Posted },
                    )
                },
                Tx::Withdrawal { amount, .. } => {
                    &&& b.available.units == a.available.units - amount.units
                    &&& b.held == a.held
                    &&& n.deposits == l.deposits
                },
                Tx::Dispute { tx: id, .. } => {
                    let d = l.deposits[id];
                    &&& b.available.units == a.available.units - d.amount.units
                    &&& b.held.units == a.held.units + d.amount.units
                    &&& n.deposits == l.deposits.insert(
                        id,
                        DepositRecord { state: DepositState::Disputed, ..d },
                    )
                },
                Tx::Resolve { tx: id, .. } => {
                    let d = l.deposits[id];
                    &&& b.available.units == a.available.units + d.amount.units
                    &&& b.held.units == a.held.units - d.amount.units
                    &&& n.deposits == l.deposits.insert(
                        id,
                        DepositRecord { state: DepositState::Resolved, ..d },
                    )
                },
                Tx::Chargeback { tx: id, .. } => {
                    let d = l.deposits[id];
                    &&& b.available == a.available
                    &&& b.held.units == a.held.units - d.amount.units
                    &&& n.deposits == l.deposits.insert(
                        id,
                        DepositRecord { state: DepositState::ChargedBack, ..d },
                    )
                },
            }
            &&& forall|k: u16| k != c ==> #[trigger] n.accounts.contains_key(k)
                == l.accounts.contains_key(k) && n.accounts[k] == l.accounts[k]
        }),
{
}

/// `x` is a balance that the engine holds exactly.
pub open spec fn within_bounds(x: int) -> bool {
    -MAX_UNITS <= x && x <= MAX_UNITS
}

/// Which transactions fit: an ignored one always does; one that takes effect fits
/// exactly when its client's new available funds, held funds and total are all
/// within bounds. No other condition (such as a balance turning negative) refuses it.
pub proof fn what_fits(l: Ledger, tx: Tx)
    requires
        ledger_wf(l),
    ensures
        ({
            let c = tx.client_of();
            let a = touch(l, c).accounts[c];
            let av = a.available.units as int;
            let h = a.held.units as int;
            let ok3 = |x: int, y: int| within_bounds(x) && within_bounds(y) && within_bounds(x + y);
            &&& verdict(l, tx) is Err ==> fits(l, tx)
            &&& verdict(l, tx) is Ok ==> fits(l, tx) == match tx {
                Tx::Deposit { amount, .. } => ok3(av + amount.units, h),
                Tx::Withdrawal { amount, .. } => ok3(av - amount.units, h),
                Tx::Dispute { tx: id, .. } => ok3(
                    av - l.deposits[id].amount.units,
                    h + l.deposits[id].amount.units,
                ),
                Tx::Resolve { tx: id, .. } => ok3(
                    av + l.deposits[id].amount.units,
                    h - l.deposits[id].amount.units,
                ),
                Tx::Chargeback { tx: id, .. } => ok3(av, h - l.deposits[id].amount.units),
            }
        }),
{
    let c = tx.client_of();
    if !l.accounts.contains_key(c) {
        assert(touch(l, c).accounts[c] == fresh_account(c));
    } else {
        assert(l.accounts[c].client == c);
    }
}

} // verus!
