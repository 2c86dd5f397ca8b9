//! Accounting over runs of transactions from an empty engine: each account holds
//! exactly its deposits under dispute, and its total is its deposits that were not
//! charged back less its withdrawals.
use vstd::prelude::*;

use crate::domain::{total_units, Tx};
use crate::engine::{fits, ledger_wf, step, touch, verdict, DepositRecord, DepositState, Ledger};
use crate::laws::{run, step_keeps_wf};

verus! {

broadcast use vstd::set::fold::lemma_fold_insert, vstd::set::fold::lemma_fold_empty;

/// The sum of `h` over the finite set `s`.
pub open spec fn sum_over(s: Set<u32>, h: spec_fn(u32) -> int) -> int {
    s.fold(0int, |acc: int, x: u32| acc + h(x))
}

proof fn adding_is_commutative(h: spec_fn(u32) -> int)
    ensures
        vstd::set::fold::is_fun_commutative(|acc: int, x: u32| acc + h(x)),
{
}

/// Adding an element adds its term.
proof fn sum_insert(s: Set<u32>, h: spec_fn(u32) -> int, a: u32)
    requires
        s.finite(),
        !s.contains(a),
    ensures
        sum_over(s.insert(a), h) == sum_over(s, h) + h(a),
{
    adding_is_commutative(h);
}

/// Sums of functions that agree on the set are equal.
proof fn sum_congruent(s: Set<u32>, h1: spec_fn(u32) -> int, h2: spec_fn(u32) -> int)
    requires
        s.finite(),
        forall|x: u32| s.contains(x) ==> h1(x) == h2(x),
    ensures
        sum_over(s, h1) == sum_over(s, h2),
    decreases s.len(),
{
    if s.len() == 0 {
        assert(s =~= Set::<u32>::empty());
    } else {
        let a = s.choose();
        let rest = s.remove(a);
        assert(rest.insert(a) =~= s);
        sum_congruent(rest, h1, h2);
        sum_insert(rest, h1, a);
        sum_insert(rest, h2, a);
    }
}

/// A sum of zeros is zero.
proof fn sum_of_zeros(s: Set<u32>, h: spec_fn(u32) -> int)
    requires
        s.finite(),
        forall|x: u32| s.contains(x) ==> h(x) == 0,
    ensures
        sum_over(s, h) == 0,
    decreases s.len(),
{
    if s.len() == 0 {
        assert(s =~= Set::<u32>::empty());
    } else {
        let a = s.choose();
        let rest = s.remove(a);
        assert(rest.insert(a) =~= s);
        sum_of_zeros(rest, h);
        sum_insert(rest, h, a);
    }
}

/// Changing one term changes the sum by the difference.
proof fn sum_change_one(s: Set<u32>, h1: spec_fn(u32) -> int, h2: spec_fn(u32) -> int, a: u32)
    requires
        s.finite(),
        s.contains(a),
        forall|x: u32| s.contains(x) && x != a ==> h1(x) == h2(x),
    ensures
        sum_over(s, h2) == sum_over(s, h1) - h1(a) + h2(a),
{
    let rest = s.remove(a);
    assert(rest.insert(a) =~= s);
    sum_congruent(rest, h1, h2);
    sum_insert(rest, h1, a);
    sum_insert(rest, h2, a);
}

/// What deposit `id` contributes to client `c`'s held funds: its amount when it is
/// `c`'s and under dispute.
pub open spec fn disputed_amount(d: Map<u32, DepositRecord>, c: u16, id: u32) -> int {
    if d[id].client == c && d[id].state == DepositState::Disputed {
        d[id].amount.units as int
    } else {
        0
    }
}

/// The sum of client `c`'s deposits that are under dispute.
pub open spec fn disputed_total(d: Map<u32, DepositRecord>, c: u16) -> int {
    sum_over(d.dom(), |id: u32| disputed_amount(d, c, id))
}

/// Every deposit belongs to a known client, and every account holds exactly its
/// disputed deposits.
pub open spec fn held_matches_disputes(l: Ledger) -> bool {
    &&& l.deposits.dom().finite()
    &&& forall|id: u32| #[trigger]
        l.deposits.contains_key(id) ==> l.accounts.contains_key(l.deposits[id].client)
    &&& forall|c: u16| #[trigger]
        l.accounts.contains_key(c) ==> l.accounts[c].held.units == disputed_total(l.deposits, c)
}

/// The transaction is a deposit that takes effect under the id of a deposit that is
/// under dispute, replacing its record.
pub open spec fn overwrites_disputed(l: Ledger, tx: Tx) -> bool {
    tx matches Tx::Deposit { tx: id, .. } && verdict(l, tx) is Ok && l.deposits.contains_key(id)
        && l.deposits[id].state == DepositState::Disputed
}

/// A client without an account has no disputed deposits.
proof fn no_account_no_disputes(l: Ledger, c: u16)
    requires
        held_matches_disputes(l),
        !l.accounts.contains_key(c),
    ensures
        disputed_total(l.deposits, c) == 0,
{
    let d = l.deposits;
    assert forall|x: u32| d.dom().contains(x) implies disputed_amount(d, c, x) == 0 by {
        assert(l.accounts.contains_key(d[x].client));
    }
    sum_of_zeros(d.dom(), |id: u32| disputed_amount(d, c, id));
}

/// Touching a client keeps the invariant.
proof fn touch_keeps_held_matching(l: Ledger, c: u16)
    requires
        held_matches_disputes(l),
    ensures
        held_matches_disputes(touch(l, c)),
{
    if !l.accounts.contains_key(c) {
        no_account_no_disputes(l, c);
    }
}

/// One transaction keeps the invariant, unless it replaces a disputed deposit's record.
pub proof fn step_keeps_held_matching(l: Ledger, tx: Tx)
    requires
        ledger_wf(l),
        fits(l, tx),
        held_matches_disputes(l),
        !overwrites_disputed(l, tx),
    ensures
        held_matches_disputes(step(l, tx)),
{
    let c0 = tx.client_of();
    let t = touch(l, c0);
    touch_keeps_held_matching(l, c0);
    let n = step(l, tx);
    if verdict(l, tx) is Err {
        return;
    }
    let d = t.deposits;
    let nd = n.deposits;
    assert(nd.dom().finite()) by {
        if let Tx::Deposit { tx: id, .. } = tx {
            assert(nd.dom() =~= d.dom().insert(id));
        } else {
            assert(nd.dom() =~= d.dom());
        }
    }
    assert forall|c: u16| #[trigger] n.accounts.contains_key(c) implies n.accounts[c].held.units
        == disputed_total(nd, c) by {
        let h1 = |id: u32| disputed_amount(d, c, id);
        let h2 = |id: u32| disputed_amount(nd, c, id);
        assert(t.accounts.contains_key(c));
        assert(t.accounts[c].held.units == sum_over(d.dom(), h1));
        match tx {
            Tx::Deposit { tx: id, .. } => {
                assert(n.accounts[c].held == t.accounts[c].held);
                if d.contains_key(id) {
                    assert(nd.dom() =~= d.dom());
                    sum_change_one(d.dom(), h1, h2, id);
                    assert(h2(id) == 0);
                    assert(h1(id) == 0);
                } else {
                    assert(nd.dom() =~= d.dom().insert(id));
                    sum_congruent(d.dom(), h1, h2);
                    sum_insert(d.dom(), h2, id);
                    assert(h2(id) == 0);
                }
                assert(disputed_total(nd, c) == sum_over(nd.dom(), h2));
            },
            Tx::Withdrawal { .. } => {
                assert(nd =~= d);
                assert(n.accounts[c].held == t.accounts[c].held);
            },
            Tx::Dispute { tx: id, .. } | Tx::Resolve { tx: id, .. } | Tx::Chargeback {
                tx: id,
                ..
            } => {
                assert(nd.dom() =~= d.dom());
                sum_change_one(d.dom(), h1, h2, id);
                assert(disputed_total(nd, c) == sum_over(nd.dom(), h2));
                if c == c0 {
                    assert(d[id].client == c0);
                } else {
                    assert(n.accounts[c] == t.accounts[c]);
                    assert(h1(id) == 0);
                    assert(h2(id) == 0);
                }
            },
        }
    }
}

/// The ledger of an engine that has just been made.
pub open spec fn empty_ledger() -> Ledger {
    Ledger { accounts: Map::empty(), deposits: Map::empty() }
}

/// Held funds are exactly the disputed deposits: starting from an empty engine, after
/// any sequence of transactions that each fit, each account's held funds are the sum of
/// its deposits under dispute, and every deposit belongs to a known client. Excluded:
/// a deposit that reuses the id of a deposit under dispute (ids are assumed unique),
/// which replaces that record and so drops its amount from the sum.
pub proof fn held_is_the_sum_of_disputed_deposits(txs: Seq<Tx>)
    requires
        forall|i: int|
            0 <= i < txs.len() ==> fits(run(empty_ledger(), txs.take(i)), #[trigger] txs[i]),
        forall|i: int|
            0 <= i < txs.len() ==> !overwrites_disputed(
                run(empty_ledger(), txs.take(i)),
                #[trigger] txs[i],
            ),
    ensures
        ledger_wf(run(empty_ledger(), txs)),
        held_matches_disputes(run(empty_ledger(), txs)),
    decreases txs.len(),
{
    if txs.len() == 0 {
        assert(empty_ledger().deposits.dom() =~= Set::<u32>::empty());
    } else {
        let prefix = txs.drop_last();
        assert forall|i: int| 0 <= i < prefix.len() implies fits(
            run(empty_ledger(), prefix.take(i)),
            #[trigger] prefix[i],
        ) && !overwrites_disputed(run(empty_ledger(), prefix.take(i)), prefix[i]) by {
            assert(prefix.take(i) =~= txs.take(i));
            assert(prefix[i] == txs[i]);
        }
        held_is_the_sum_of_disputed_deposits(prefix);
        let i = txs.len() - 1;
        assert(txs.take(i) =~= prefix);
        assert(fits(run(empty_ledger(), prefix), txs[i]));
        assert(!overwrites_disputed(run(empty_ledger(), prefix), txs[i]));
        step_keeps_held_matching(run(empty_ledger(), prefix), txs.last());
        step_keeps_wf(run(empty_ledger(), prefix), txs.last());
    }
}

/// What deposit `id` keeps in client `c`'s total: its amount when it is `c`'s and has
/// not been charged back.
pub open spec fn kept_amount(d: Map<u32, DepositRecord>, c: u16, id: u32) -> int {
    if d[id].client == c && d[id].state != DepositState::ChargedBack {
        d[id].amount.units as int
    } else {
        0
    }
}

/// The sum of client `c`'s deposits that have not been charged back.
pub open spec fn kept_total(d: Map<u32, DepositRecord>, c: u16) -> int {
    sum_over(d.dom(), |id: u32| kept_amount(d, c, id))
}

/// What a transaction withdraws from client `c`: the amount of a withdrawal of `c`'s
/// that takes effect, else 0.
pub open spec fn withdrawal_effect(l: Ledger, tx: Tx, c: u16) -> int {
    match tx {
        Tx::Withdrawal { client, amount, .. } => if client == c && verdict(l, tx) is Ok {
            amount.units as int
        } else {
            0
        },
        _ => 0,
    }
}

/// The sum of what client `c` withdrew over a run from an empty engine.
pub open spec fn withdrawn(txs: Seq<Tx>, c: u16) -> int
    decreases txs.len(),
{
    if txs.len() == 0 {
        0
    } else {
        withdrawn(txs.drop_last(), c) + withdrawal_effect(
            run(empty_ledger(), txs.drop_last()),
            txs.last(),
            c,
        )
    }
}

/// The transaction is a deposit that takes effect under the id of a recorded deposit
/// that still counts in a total (not charged back), replacing its record.
pub open spec fn overwrites_kept(l: Ledger, tx: Tx) -> bool {
    tx matches Tx::Deposit { tx: id, .. } && verdict(l, tx) is Ok && l.deposits.contains_key(id)
        && l.deposits[id].state != DepositState::ChargedBack
}

/// Each account's total is its kept deposits less `w` of its client; a client without
/// an account has withdrawn nothing.
pub open spec fn totals_match(l: Ledger, w: spec_fn(u16) -> int) -> bool {
    &&& forall|c: u16| #[trigger]
        l.accounts.contains_key(c) ==> total_units(l.accounts[c]) == kept_total(l.deposits, c)
            - w(c)
    &&& forall|c: u16| !l.accounts.contains_key(c) ==> #[trigger] w(c) == 0
}

/// One transaction keeps the totals matching, with its withdrawal added to `w`.
proof fn step_keeps_totals_matching(l: Ledger, tx: Tx, w: spec_fn(u16) -> int)
    requires
        ledger_wf(l),
        fits(l, tx),
        held_matches_disputes(l),
        totals_match(l, w),
        !overwrites_kept(l, tx),
    ensures
        totals_match(step(l, tx), |c: u16| w(c) + withdrawal_effect(l, tx, c)),
{
    let c0 = tx.client_of();
    let t = touch(l, c0);
    let n = step(l, tx);
    let w2 = |c: u16| w(c) + withdrawal_effect(l, tx, c);
    let d = t.deposits;
    let nd = n.deposits;
    if !l.accounts.contains_key(c0) {
        let dl = l.deposits;
        assert forall|x: u32| dl.dom().contains(x) implies kept_amount(dl, c0, x) == 0 by {
            assert(l.accounts.contains_key(dl[x].client));
        }
        sum_of_zeros(dl.dom(), |id: u32| kept_amount(dl, c0, id));
    }
    assert forall|c: u16| #[trigger] n.accounts.contains_key(c) implies total_units(n.accounts[c])
        == kept_total(nd, c) - w2(c) by {
        let h1 = |id: u32| kept_amount(d, c, id);
        let h2 = |id: u32| kept_amount(nd, c, id);
        assert(t.accounts.contains_key(c));
        assert(total_units(t.accounts[c]) == sum_over(d.dom(), h1) - w(c));
        if verdict(l, tx) is Err {
            assert(nd == d);
            assert(w2(c) == w(c));
        } else {
            match tx {
                Tx::Deposit { tx: id, .. } => {
                    assert(w2(c) == w(c));
                    if d.contains_key(id) {
                        assert(nd.dom() =~= d.dom());
                        sum_change_one(d.dom(), h1, h2, id);
                    } else {
                        assert(nd.dom() =~= d.dom().insert(id));
                        sum_congruent(d.dom(), h1, h2);
                        sum_insert(d.dom(), h2, id);
                    }
                    assert(kept_total(nd, c) == sum_over(nd.dom(), h2));
                },
                Tx::Withdrawal { .. } => {
                    assert(nd =~= d);
                },
                Tx::Dispute { tx: id, .. } | Tx::Resolve { tx: id, .. } | Tx::Chargeback {
                    tx: id,
                    ..
                } => {
                    assert(w2(c) == w(c));
                    assert(nd.dom() =~= d.dom());
                    sum_change_one(d.dom(), h1, h2, id);
                    assert(kept_total(nd, c) == sum_over(nd.dom(), h2));
                    if c != c0 {
                        assert(n.accounts[c] == t.accounts[c]);
                        assert(h1(id) == 0);
                        assert(h2(id) == 0);
                    } else {
                        assert(d[id].client == c0);
                    }
                },
            }
        }
    }
    assert forall|c: u16| !n.accounts.contains_key(c) implies #[trigger] w2(c) == 0 by {
        assert(!l.accounts.contains_key(c));
        assert(c != c0);
    }
}

/// Accounting over a run: starting from an empty engine, after any sequence of
/// transactions that each fit, each account's total is the sum of its deposits that
/// have not been charged back, less the sum of its withdrawals that took effect.
/// Excluded: a deposit that reuses the id of a deposit that has not been charged back
/// (ids are assumed unique), which replaces that record.
pub proof fn total_is_kept_deposits_less_withdrawals(txs: Seq<Tx>)
    requires
        forall|i: int|
            0 <= i < txs.len() ==> fits(run(empty_ledger(), txs.take(i)), #[trigger] txs[i]),
        forall|i: int|
            0 <= i < txs.len() ==> !overwrites_kept(
                run(empty_ledger(), txs.take(i)),
                #[trigger] txs[i],
            ),
    ensures
        held_matches_disputes(run(empty_ledger(), txs)),
        forall|c: u16| #[trigger]
            run(empty_ledger(), txs).accounts.contains_key(c) ==> total_units(
                run(empty_ledger(), txs).accounts[c],
            ) == kept_total(run(empty_ledger(), txs).deposits, c) - withdrawn(txs, c),
        forall|c: u16| !run(empty_ledger(), txs).accounts.contains_key(c) ==> #[trigger] withdrawn(
            txs,
            c,
        ) == 0,
    decreases txs.len(),
{
    assert forall|i: int| 0 <= i < txs.len() implies !overwrites_disputed(
        run(empty_ledger(), txs.take(i)),
        #[trigger] txs[i],
    ) by {
        assert(!overwrites_kept(run(empty_ledger(), txs.take(i)), txs[i]));
    }
    held_is_the_sum_of_disputed_deposits(txs);
    if txs.len() == 0 {
        assert(empty_ledger().deposits.dom() =~= Set::<u32>::empty());
    } else {
        let prefix = txs.drop_last();
        assert forall|i: int| 0 <= i < prefix.len() implies fits(
            run(empty_ledger(), prefix.take(i)),
            #[trigger] prefix[i],
        ) && !overwrites_kept(run(empty_ledger(), prefix.take(i)), prefix[i]) by {
            assert(prefix.take(i) =~= txs.take(i));
            assert(prefix[i] == txs[i]);
        }
        total_is_kept_deposits_less_withdrawals(prefix);
        held_is_the_sum_of_disputed_deposits(prefix);
        let i = txs.len() - 1;
        assert(txs.take(i) =~= prefix);
        let l = run(empty_ledger(), prefix);
        assert(fits(l, txs[i]));
        assert(!overwrites_kept(l, txs[i]));
        let w = |c: u16| withdrawn(prefix, c);
        assert(totals_match(l, w));
        step_keeps_totals_matching(l, txs.last(), w);
        let w2 = |c: u16| w(c) + withdrawal_effect(l, txs.last(), c);
        assert forall|c: u16| #[trigger] w2(c) == withdrawn(txs, c) by {}
        assert forall|c: u16| !run(empty_ledger(), txs).accounts.contains_key(c) implies #[trigger] withdrawn(
            txs,
            c,
        ) == 0 by {
            assert(w2(c) == withdrawn(txs, c));
        }
    }
}

} // verus!
