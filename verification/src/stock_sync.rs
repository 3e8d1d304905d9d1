//! Reconciliation: the units that the ledger sold are taken off the durable
//! stock, prize by prize, and the ledger's sold counters start again at zero.

use crate::ledger::Ledger;
use crate::ledger::LedgerState;
use crate::models::Prize;
use crate::prize_cache::PrizeCache;
use crate::store::Store;
use crate::store::StoreState;
use vstd::prelude::*;

verus! {

/// What the fetch-and-reset of a sold counter brought: a failed call, or a
/// counter that does not exist, counts as nothing sold.
pub open spec fn pending(reply: Option<Option<i64>>) -> i64 {
    match reply {
        Some(Some(delta)) => delta,
        _ => 0,
    }
}

/// What the fetch-and-reset of a sold counter brought.
pub fn pending_delta(reply: Option<Option<i64>>) -> (delta: i64)
    ensures
        delta == pending(reply),
{
    match reply {
        Some(Some(delta)) => delta,
        _ => 0,
    }
}

/// Whether a delta is written to the durable store: only a positive one is.
pub fn needs_flush(delta: i64) -> (flush: bool)
    ensures
        flush == (delta > 0),
{
    delta > 0
}

/// Reconciliation of one prize: its sold counter is taken and reset, and
/// what it held is taken off the durable stock.
pub open spec fn reconcile_one(ledger: LedgerState, store: StoreState, id: u128) -> (
    LedgerState,
    StoreState,
) {
    let (after, delta) = ledger.take_sold(id);
    (after, store.apply_sold(id, delta))
}

/// Reconciliation of the prizes `ids`, one after the other.
pub open spec fn reconcile_all(ledger: LedgerState, store: StoreState, ids: Seq<u128>) -> (
    LedgerState,
    StoreState,
)
    decreases ids.len(),
{
    if ids.len() == 0 {
        (ledger, store)
    } else {
        let (l, s) = reconcile_all(ledger, store, ids.drop_last());
        reconcile_one(l, s, ids.last())
    }
}

/// One cycle of reconciliation: every enabled prize is reconciled.
pub open spec fn reconciled(ledger: LedgerState, store: StoreState) -> (LedgerState, StoreState) {
    reconcile_all(ledger, store, store.enabled_ids())
}

/// Runs one cycle of reconciliation over every enabled prize.
pub fn reconcile(store: &mut Store, ledger: &mut Ledger)
    ensures
        (final(ledger)@, final(store)@) == reconciled(old(ledger)@, old(store)@),
{
    let ids = store.enabled_ids();
    let mut i: usize = 0;
    while i < ids.len()
        invariant
            i <= ids.len(),
            (ledger@, store@) == reconcile_all(old(ledger)@, old(store)@, ids@.take(i as int)),
        decreases ids.len() - i,
    {
        let delta = ledger.take_sold(ids[i]);
        if needs_flush(delta) {
            store.apply_sold(ids[i], delta);
        }
        assert(ids@.take(i as int + 1).drop_last() =~= ids@.take(i as int));
        i = i + 1;
    }
    assert(ids@.take(ids.len() as int) =~= ids@);
}

/// Refreshes the cache from the store: the enabled prizes, in row order,
/// replace the snapshot.
pub fn refresh_cache(cache: &mut PrizeCache, store: &Store)
    ensures
        final(cache)@ == store@.enabled_lite(),
{
    cache.refresh_once(Some(store.enabled_lite()));
}

/// The ledger after the stock of each enabled prize among `prizes` was
/// seeded from the prize's remaining count, one after the other.
pub open spec fn seed_each(ledger: LedgerState, prizes: Seq<Prize>) -> LedgerState
    decreases prizes.len(),
{
    if prizes.len() == 0 {
        ledger
    } else {
        let before = seed_each(ledger, prizes.drop_last());
        if prizes.last().is_enabled {
            before.seeded(prizes.last().id, prizes.last().remaining_count)
        } else {
            before
        }
    }
}

/// Seeds the ledger's stock counter of every enabled prize from the store.
pub fn seed_ledger(store: &Store, ledger: &mut Ledger)
    ensures
        final(ledger)@ == seed_each(old(ledger)@, store@.prizes),
{
    let rows = store.prizes();
    let mut i: usize = 0;
    while i < rows.len()
        invariant
            i <= rows.len(),
            ledger@ == seed_each(old(ledger)@, rows@.take(i as int)),
        decreases rows.len() - i,
    {
        if rows[i].is_enabled {
            ledger.seed(rows[i].id, rows[i].remaining_count);
        }
        assert(rows@.take(i as int + 1).drop_last() =~= rows@.take(i as int));
        i = i + 1;
    }
    assert(rows@.take(rows.len() as int) =~= rows@);
}

} // verus!
