//! What holds of every sequence of draws and of every cycle of
//! reconciliation. The operations of the ledger and of the store are each one
//! indivisible step, so whatever callers do at the same time amounts to some
//! sequence of draws; the statements below hold of all of them.

use crate::error::AppError;
use crate::ledger::COOLDOWN_SECS;
use crate::ledger::LedgerState;
use crate::ledger::stock_to_seed;
use crate::lottery_service::cooldown_running;
use crate::lottery_service::DrawRequest;
use crate::lottery_service::DrawResult;
use crate::lottery_service::fallback_draw;
use crate::lottery_service::fallback_pool;
use crate::lottery_service::fast_draw;
use crate::lottery_service::fast_pool;
use crate::lottery_service::selection;
use crate::lottery_service::won_prize;
use crate::models::Prize;
use crate::prize_cache::PrizeLite;
use crate::prize_cache::probabilities;
use crate::selector::lemma_winner_exists;
use crate::stock_sync::reconcile_all;
use crate::stock_sync::reconcile_one;
use crate::stock_sync::reconciled;
use crate::stock_sync::seed_each;
use crate::store::eligible;
use crate::store::enabled_of;
use crate::store::enabled;
use crate::store::EnabledPrize;
use crate::store::lemma_decrement_stock;
use crate::store::lemma_enabled_listed;
use crate::store::lemma_filter_map_step;
use crate::store::lemma_position_unique;
use crate::store::lemma_with_remaining_at;
use crate::store::lite_of_enabled;
use crate::store::lite_of;
use crate::store::reconciled_count;
use crate::store::StoreState;
use vstd::prelude::*;

verus! {

/// The ledger and the store after the draws `reqs` were made one after the
/// other on the fast path.
pub open spec fn fast_run(
    ledger: LedgerState,
    store: StoreState,
    cache: Seq<PrizeLite>,
    reqs: Seq<DrawRequest>,
) -> (LedgerState, StoreState)
    decreases reqs.len(),
{
    if reqs.len() == 0 {
        (ledger, store)
    } else {
        let (l, s) = fast_run(ledger, store, cache, reqs.drop_last());
        let after = fast_draw(l, s, cache, reqs.last());
        (after.0, after.1)
    }
}

/// The outcome of the draw `reqs[k]` in that sequence.
pub open spec fn fast_outcome(
    ledger: LedgerState,
    store: StoreState,
    cache: Seq<PrizeLite>,
    reqs: Seq<DrawRequest>,
    k: int,
) -> Result<DrawResult, AppError> {
    let (l, s) = fast_run(ledger, store, cache, reqs.take(k));
    fast_draw(l, s, cache, reqs[k]).2
}

/// How many of the draws `reqs` on the fast path won the prize.
pub open spec fn fast_wins(
    ledger: LedgerState,
    store: StoreState,
    cache: Seq<PrizeLite>,
    reqs: Seq<DrawRequest>,
    prize: u128,
) -> nat
    decreases reqs.len(),
{
    if reqs.len() == 0 {
        0
    } else {
        let before = fast_wins(ledger, store, cache, reqs.drop_last(), prize);
        if won_prize(fast_outcome(ledger, store, cache, reqs, reqs.len() - 1), prize) {
            before + 1
        } else {
            before
        }
    }
}

/// One draw on the fast path moves a unit of a prize from stock to sold
/// exactly when it wins that prize, and leaves the prize rows alone.
pub proof fn lemma_fast_draw_counters(
    ledger: LedgerState,
    store: StoreState,
    cache: Seq<PrizeLite>,
    req: DrawRequest,
    prize: u128,
)
    requires
        ledger.wf(),
    ensures
        ({
            let (after, kept, outcome) = fast_draw(ledger, store, cache, req);
            let won: int = if won_prize(outcome, prize) {
                1
            } else {
                0
            };
            &&& after.wf()
            &&& after.stock(prize) == ledger.stock(prize) - won
            &&& after.sold(prize) == ledger.sold(prize) + won
            &&& kept.prizes == store.prizes
        }),
{
    let pool = fast_pool(cache, store);
    let weights = probabilities(pool);
    lemma_winner_exists(weights, req.roll as int);
    match selection(weights, req.roll) {
        Ok(Some(i)) => {
            let picked = pool[i].id;
            if !ledger.cooling(req.uid, req.now) && ledger.stock(picked) > 0 {
                assert(ledger.counters.contains_key(picked));
                assert(ledger.counters[picked].wf());
            }
        },
        _ => {},
    }
}

/// No oversell on the fast path: however many draws are made, a prize is won
/// at most as often as its stock counter allowed at the start. Each win
/// moves one unit from the stock counter to the sold counter, and the prize
/// rows of the store are not touched.
pub proof fn lemma_no_oversell_fast(
    ledger: LedgerState,
    store: StoreState,
    cache: Seq<PrizeLite>,
    reqs: Seq<DrawRequest>,
    prize: u128,
)
    requires
        ledger.wf(),
    ensures
        fast_wins(ledger, store, cache, reqs, prize) <= ledger.stock(prize),
        fast_run(ledger, store, cache, reqs).0.wf(),
        fast_run(ledger, store, cache, reqs).0.stock(prize) == ledger.stock(prize) - fast_wins(
            ledger,
            store,
            cache,
            reqs,
            prize,
        ),
        fast_run(ledger, store, cache, reqs).0.sold(prize) == ledger.sold(prize) + fast_wins(
            ledger,
            store,
            cache,
            reqs,
            prize,
        ),
        fast_run(ledger, store, cache, reqs).1.prizes == store.prizes,
    decreases reqs.len(),
{
    if reqs.len() > 0 {
        let head = reqs.drop_last();
        lemma_no_oversell_fast(ledger, store, cache, head, prize);
        let (l, s) = fast_run(ledger, store, cache, head);
        lemma_fast_draw_counters(l, s, cache, reqs.last(), prize);
        assert(reqs.take(reqs.len() - 1) =~= head);
    }
    if ledger.counters.contains_key(prize) {
        assert(ledger.counters[prize].wf());
    }
    let end = fast_run(ledger, store, cache, reqs).0;
    if end.counters.contains_key(prize) {
        assert(end.counters[prize].wf());
    }
}

/// The store after the draws `reqs` were made one after the other against
/// the store alone.
pub open spec fn fallback_run(store: StoreState, reqs: Seq<DrawRequest>) -> StoreState
    decreases reqs.len(),
{
    if reqs.len() == 0 {
        store
    } else {
        fallback_draw(fallback_run(store, reqs.drop_last()), reqs.last()).0
    }
}

/// The outcome of the draw `reqs[k]` in that sequence.
pub open spec fn fallback_outcome(store: StoreState, reqs: Seq<DrawRequest>, k: int) -> Result<
    DrawResult,
    AppError,
> {
    fallback_draw(fallback_run(store, reqs.take(k)), reqs[k]).1
}

/// How many of the draws `reqs` against the store alone won the prize.
pub open spec fn fallback_wins(store: StoreState, reqs: Seq<DrawRequest>, prize: u128) -> nat
    decreases reqs.len(),
{
    if reqs.len() == 0 {
        0
    } else {
        let before = fallback_wins(store, reqs.drop_last(), prize);
        if won_prize(fallback_outcome(store, reqs, reqs.len() - 1), prize) {
            before + 1
        } else {
            before
        }
    }
}

/// One draw against the store takes a unit off a prize's remaining count
/// exactly when it wins that prize.
pub proof fn lemma_fallback_draw_stock(store: StoreState, req: DrawRequest, prize: u128)
    requires
        store.wf(),
    ensures
        ({
            let (after, outcome) = fallback_draw(store, req);
            let won: int = if won_prize(outcome, prize) {
                1
            } else {
                0
            };
            &&& after.wf()
            &&& after.remaining(prize) == store.remaining(prize) - won
        }),
{
    let pool = fallback_pool(store);
    let weights = probabilities(pool);
    lemma_winner_exists(weights, req.roll as int);
    if !cooldown_running(store.last_draw_at(req.uid), req.now) {
        match selection(weights, req.roll) {
            Ok(Some(i)) => {
                lemma_decrement_stock(store, pool[i].id, prize);
            },
            _ => {},
        }
    }
}

/// No oversell against the store: however many draws are made, a prize is
/// won at most as often as its remaining count allowed at the start, and
/// each win takes exactly one unit off that count.
pub proof fn lemma_no_oversell_fallback(store: StoreState, reqs: Seq<DrawRequest>, prize: u128)
    requires
        store.wf(),
    ensures
        fallback_wins(store, reqs, prize) <= store.remaining(prize),
        fallback_run(store, reqs).wf(),
        fallback_run(store, reqs).remaining(prize) == store.remaining(prize) - fallback_wins(
            store,
            reqs,
            prize,
        ),
    decreases reqs.len(),
{
    if reqs.len() > 0 {
        let head = reqs.drop_last();
        lemma_no_oversell_fallback(store, head, prize);
        lemma_fallback_draw_stock(fallback_run(store, head), reqs.last(), prize);
        assert(reqs.take(reqs.len() - 1) =~= head);
    }
    lemma_remaining_not_negative(fallback_run(store, reqs), prize);
}

/// In a well-formed store no remaining count is negative.
pub proof fn lemma_remaining_not_negative(store: StoreState, prize: u128)
    requires
        store.wf(),
    ensures
        store.remaining(prize) >= 0,
{
    match store.position(prize) {
        Some(i) => {
            assert(store.holds_at(prize, i));
            assert(store.prizes[i].stock_in_range());
        },
        None => {},
    }
}

/// Whether the user's cooldown flag lasts at least until `instant`.
pub open spec fn cooling_until(ledger: LedgerState, user: u128, instant: int) -> bool {
    ledger.cooldown.contains_key(user) && ledger.cooldown[user] >= instant
}

/// Whether the user's last draw in the store is at `instant` or later.
pub open spec fn drew_since(store: StoreState, user: u128, instant: int) -> bool {
    store.last_draw.contains_key(user) && store.last_draw[user] >= instant
}

/// One draw on the fast path never shortens a cooldown; a draw that is
/// accepted starts the user's cooldown, in the ledger and in the store; and a
/// draw with a roll within its bounds by a user whose cooldown runs is
/// refused with the rate limit.
pub proof fn lemma_fast_draw_cooldown(
    ledger: LedgerState,
    store: StoreState,
    cache: Seq<PrizeLite>,
    req: DrawRequest,
    user: u128,
    instant: int,
)
    ensures
        ({
            let (after, kept, outcome) = fast_draw(ledger, store, cache, req);
            &&& kept.prizes == store.prizes
            &&& cooling_until(ledger, user, instant) ==> cooling_until(after, user, instant)
            &&& outcome is Ok && req.uid == user ==> cooling_until(
                after,
                user,
                req.now + COOLDOWN_SECS,
            ) && drew_since(kept, user, req.now as int)
            &&& cooling_until(ledger, req.uid, req.now + 1) && selection(
                probabilities(fast_pool(cache, store)),
                req.roll,
            ) is Ok ==> outcome == Err::<DrawResult, AppError>(AppError::rate_limited())
        }),
{
}

/// After the draws `reqs[..k]` on the fast path, of which `reqs[i]` was
/// accepted, the cooldown of that draw's user lasts at least the window from
/// that draw on, and the prize rows are as they were.
proof fn lemma_fast_run_cooldown(
    ledger: LedgerState,
    store: StoreState,
    cache: Seq<PrizeLite>,
    reqs: Seq<DrawRequest>,
    i: int,
    k: int,
)
    requires
        0 <= i < k <= reqs.len(),
        fast_outcome(ledger, store, cache, reqs, i) is Ok,
    ensures
        cooling_until(
            fast_run(ledger, store, cache, reqs.take(k)).0,
            reqs[i].uid,
            reqs[i].now + COOLDOWN_SECS,
        ),
    decreases k,
{
    let head = reqs.take(k - 1);
    assert(reqs.take(k).drop_last() =~= head);
    assert(reqs.take(k).last() == reqs[k - 1]);
    let (l, s) = fast_run(ledger, store, cache, head);
    if k - 1 > i {
        lemma_fast_run_cooldown(ledger, store, cache, reqs, i, k - 1);
    }
    lemma_fast_draw_cooldown(l, s, cache, reqs[k - 1], reqs[i].uid, reqs[i].now + COOLDOWN_SECS);
}

/// The fast path leaves the prize rows of the store as they were.
pub proof fn lemma_fast_run_keeps_prizes(
    ledger: LedgerState,
    store: StoreState,
    cache: Seq<PrizeLite>,
    reqs: Seq<DrawRequest>,
)
    ensures
        fast_run(ledger, store, cache, reqs).1.prizes == store.prizes,
    decreases reqs.len(),
{
    if reqs.len() > 0 {
        lemma_fast_run_keeps_prizes(ledger, store, cache, reqs.drop_last());
        let (l, s) = fast_run(ledger, store, cache, reqs.drop_last());
        lemma_fast_draw_cooldown(l, s, cache, reqs.last(), 0, 0);
    }
}

/// Cooldown exclusivity on the fast path: in any sequence of draws, once a
/// draw of a user was accepted, every later draw of that user made less than
/// the cooldown window after it, with a roll within its bounds, is refused
/// with the rate limit.
pub proof fn lemma_cooldown_exclusive_fast(
    ledger: LedgerState,
    store: StoreState,
    cache: Seq<PrizeLite>,
    reqs: Seq<DrawRequest>,
    i: int,
    j: int,
)
    requires
        0 <= i < j < reqs.len(),
        reqs[i].uid == reqs[j].uid,
        reqs[j].now < reqs[i].now + COOLDOWN_SECS,
        fast_outcome(ledger, store, cache, reqs, i) is Ok,
        selection(probabilities(fast_pool(cache, store)), reqs[j].roll) is Ok,
    ensures
        fast_outcome(ledger, store, cache, reqs, j) == Err::<DrawResult, AppError>(
            AppError::rate_limited(),
        ),
{
    lemma_fast_run_cooldown(ledger, store, cache, reqs, i, j);
    lemma_fast_run_keeps_prizes(ledger, store, cache, reqs.take(j));
    let (l, s) = fast_run(ledger, store, cache, reqs.take(j));
    assert(fast_pool(cache, s) == fast_pool(cache, store));
    lemma_fast_draw_cooldown(l, s, cache, reqs[j], reqs[j].uid, 0);
}

/// One draw against the store never moves a user's last draw back; a draw
/// that is accepted sets the user's last draw; and a draw by a user who drew
/// less than the cooldown window before is refused with the rate limit.
pub proof fn lemma_fallback_draw_cooldown(
    store: StoreState,
    req: DrawRequest,
    user: u128,
    instant: int,
)
    requires
        store.wf(),
    ensures
        ({
            let (after, outcome) = fallback_draw(store, req);
            &&& after.wf()
            &&& drew_since(store, user, instant) ==> drew_since(after, user, instant)
            &&& outcome is Ok && req.uid == user ==> drew_since(after, user, req.now as int)
            &&& drew_since(store, req.uid, req.now - COOLDOWN_SECS + 1) ==> outcome == Err::<
                DrawResult,
                AppError,
            >(AppError::rate_limited())
        }),
{
    let pool = fallback_pool(store);
    if !cooldown_running(store.last_draw_at(req.uid), req.now) {
        match selection(probabilities(pool), req.roll) {
            Ok(Some(i)) => {
                lemma_decrement_stock(store, pool[i].id, pool[i].id);
            },
            _ => {},
        }
    }
}

/// After the draws `reqs[..k]` against the store, of which `reqs[i]` was
/// accepted, the last draw of that draw's user is at that draw or later.
proof fn lemma_fallback_run_cooldown(store: StoreState, reqs: Seq<DrawRequest>, i: int, k: int)
    requires
        store.wf(),
        0 <= i < k <= reqs.len(),
        fallback_outcome(store, reqs, i) is Ok,
    ensures
        fallback_run(store, reqs.take(k)).wf(),
        drew_since(fallback_run(store, reqs.take(k)), reqs[i].uid, reqs[i].now as int),
    decreases k,
{
    let head = reqs.take(k - 1);
    assert(reqs.take(k).drop_last() =~= head);
    assert(reqs.take(k).last() == reqs[k - 1]);
    if k - 1 > i {
        lemma_fallback_run_cooldown(store, reqs, i, k - 1);
    } else {
        lemma_no_oversell_fallback(store, head, 0);
    }
    lemma_fallback_draw_cooldown(
        fallback_run(store, head),
        reqs[k - 1],
        reqs[i].uid,
        reqs[i].now as int,
    );
}

/// Cooldown exclusivity against the store: in any sequence of draws, once a
/// draw of a user was accepted, every later draw of that user made less than
/// the cooldown window after it is refused with the rate limit.
pub proof fn lemma_cooldown_exclusive_fallback(
    store: StoreState,
    reqs: Seq<DrawRequest>,
    i: int,
    j: int,
)
    requires
        store.wf(),
        0 <= i < j < reqs.len(),
        reqs[i].uid == reqs[j].uid,
        reqs[j].now < reqs[i].now + COOLDOWN_SECS,
        fallback_outcome(store, reqs, i) is Ok,
    ensures
        fallback_outcome(store, reqs, j) == Err::<DrawResult, AppError>(AppError::rate_limited()),
{
    lemma_fallback_run_cooldown(store, reqs, i, j);
    lemma_fallback_draw_cooldown(fallback_run(store, reqs.take(j)), reqs[j], reqs[j].uid, 0);
}

/// Cooldown exclusivity from the fast path to the store: after a draw that
/// the fast path accepted and wrote down, a draw of the same user against
/// the store, made less than the cooldown window later, is refused with the
/// rate limit.
pub proof fn lemma_cooldown_fast_then_fallback(
    ledger: LedgerState,
    store: StoreState,
    cache: Seq<PrizeLite>,
    first: DrawRequest,
    second: DrawRequest,
)
    requires
        first.uid == second.uid,
        second.now < first.now + COOLDOWN_SECS,
        fast_draw(ledger, store, cache, first).2 is Ok,
    ensures
        fallback_draw(fast_draw(ledger, store, cache, first).1, second).1 == Err::<
            DrawResult,
            AppError,
        >(AppError::rate_limited()),
{
    lemma_fast_draw_cooldown(ledger, store, cache, first, first.uid, 0);
}

/// What remains of a count after `sold` units are taken off it, never less
/// than zero.
pub open spec fn settled(remaining: int, sold: int) -> int {
    if remaining - sold > 0 {
        remaining - sold
    } else {
        0
    }
}

/// Reconciliation of one prize resets that prize's sold counter alone, takes
/// what it held off that prize's remaining count alone, and touches neither
/// stock counters nor cooldowns.
pub proof fn lemma_reconcile_one(ledger: LedgerState, store: StoreState, id: u128, prize: u128)
    requires
        ledger.wf(),
        store.wf(),
    ensures
        ({
            let (l, s) = reconcile_one(ledger, store, id);
            &&& l.wf()
            &&& s.wf()
            &&& l.stock(prize) == ledger.stock(prize)
            &&& l.cooldown == ledger.cooldown
            &&& s.position(prize) == store.position(prize)
            &&& prize == id ==> l.sold(prize) == 0 && s.remaining(prize) == settled(
                store.remaining(prize),
                ledger.sold(prize),
            )
            &&& prize != id ==> l.sold(prize) == ledger.sold(prize) && s.remaining(prize)
                == store.remaining(prize)
            &&& ledger.sold(id) == 0 ==> s == store
        }),
{
    lemma_remaining_not_negative(store, prize);
    if ledger.counters.contains_key(id) {
        assert(ledger.counters[id].wf());
    }
    let (after, delta) = ledger.take_sold(id);
    assert(delta == ledger.sold(id));
    match store.position(id) {
        Some(i) if delta > 0 => {
            assert(store.holds_at(id, i));
            assert(store.prizes[i].stock_in_range());
            let left = reconciled_count(store.prizes[i].remaining_count, delta) as i64;
            lemma_with_remaining_at(store, i, left, prize);
        },
        _ => {},
    }
}

/// Reconciliation of a list of prizes resets the sold counter of each prize
/// in the list, takes what it held off that prize's remaining count, and
/// leaves every other prize, every stock counter and every cooldown alone.
pub proof fn lemma_reconcile_all(
    ledger: LedgerState,
    store: StoreState,
    ids: Seq<u128>,
    prize: u128,
)
    requires
        ledger.wf(),
        store.wf(),
    ensures
        ({
            let (l, s) = reconcile_all(ledger, store, ids);
            &&& l.wf()
            &&& s.wf()
            &&& l.stock(prize) == ledger.stock(prize)
            &&& l.cooldown == ledger.cooldown
            &&& s.position(prize) == store.position(prize)
            &&& ids.contains(prize) ==> l.sold(prize) == 0 && s.remaining(prize) == settled(
                store.remaining(prize),
                ledger.sold(prize),
            )
            &&& !ids.contains(prize) ==> l.sold(prize) == ledger.sold(prize) && s.remaining(prize)
                == store.remaining(prize)
        }),
    decreases ids.len(),
{
    lemma_remaining_not_negative(store, prize);
    if ledger.counters.contains_key(prize) {
        assert(ledger.counters[prize].wf());
    }
    if ids.len() > 0 {
        let head = ids.drop_last();
        let id = ids.last();
        lemma_reconcile_all(ledger, store, head, prize);
        let (l, s) = reconcile_all(ledger, store, head);
        lemma_reconcile_one(l, s, id, prize);
        assert(ids =~= head.push(id));
        assert(ids.contains(prize) <==> head.contains(prize) || id == prize) by {
            if head.contains(prize) {
                let k = choose|k: int| 0 <= k < head.len() && head[k] == prize;
                assert(ids[k] == prize);
            }
            if id == prize {
                assert(ids[ids.len() - 1] == prize);
            }
        }
    }
}

/// Reconciliation convergence: after any draws on the fast path, of which
/// `n` won an enabled prize whose sold counter started at zero and whose
/// stock counter did not exceed the durable remaining count, one cycle of
/// reconciliation takes exactly `n` off the durable remaining count and
/// leaves the sold counter at zero.
pub proof fn lemma_reconciliation_converges(
    ledger: LedgerState,
    store: StoreState,
    cache: Seq<PrizeLite>,
    reqs: Seq<DrawRequest>,
    prize: u128,
)
    requires
        ledger.wf(),
        store.wf(),
        ledger.sold(prize) == 0,
        ledger.stock(prize) <= store.remaining(prize),
        store.position(prize) matches Some(i) && store.prizes[i].is_enabled,
    ensures
        ({
            let n = fast_wins(ledger, store, cache, reqs, prize);
            let (l, s) = fast_run(ledger, store, cache, reqs);
            let (synced, durable) = reconciled(l, s);
            &&& durable.remaining(prize) == store.remaining(prize) - n
            &&& synced.sold(prize) == 0
            &&& synced.stock(prize) == ledger.stock(prize) - n
        }),
{
    lemma_no_oversell_fast(ledger, store, cache, reqs, prize);
    let (l, s) = fast_run(ledger, store, cache, reqs);
    let i = store.position(prize).unwrap();
    assert(store.holds_at(prize, i));
    lemma_enabled_listed(s, i);
    lemma_reconcile_all(l, s, s.enabled_ids(), prize);
}

/// Reconciliation under zero delta: a cycle of reconciliation made while
/// the sold counter of every enabled prize is zero leaves the store as it
/// was, and with it every remaining count.
pub proof fn lemma_reconcile_zero_delta(ledger: LedgerState, store: StoreState)
    requires
        ledger.wf(),
        store.wf(),
        forall|id: u128| #[trigger] store.enabled_ids().contains(id) ==> ledger.sold(id) == 0,
    ensures
        reconciled(ledger, store).1 == store,
{
    let ids = store.enabled_ids();
    assert forall|k: int| 0 <= k < ids.len() implies ledger.sold(#[trigger] ids[k]) == 0 by {
        assert(ids.contains(ids[k]));
    }
    lemma_reconcile_zero_delta_of(ledger, store, ids);
}

/// Reconciliation of prizes whose sold counters are all zero leaves the
/// store as it was.
proof fn lemma_reconcile_zero_delta_of(ledger: LedgerState, store: StoreState, ids: Seq<u128>)
    requires
        ledger.wf(),
        store.wf(),
        forall|k: int| 0 <= k < ids.len() ==> ledger.sold(#[trigger] ids[k]) == 0,
    ensures
        reconcile_all(ledger, store, ids).1 == store,
    decreases ids.len(),
{
    if ids.len() > 0 {
        let head = ids.drop_last();
        let id = ids.last();
        assert forall|k: int| 0 <= k < head.len() implies ledger.sold(#[trigger] head[k]) == 0 by {
            assert(head[k] == ids[k]);
        }
        lemma_reconcile_zero_delta_of(ledger, store, head);
        lemma_reconcile_all(ledger, store, head, id);
        let (l, s) = reconcile_all(ledger, store, head);
        assert(ledger.sold(ids[ids.len() - 1]) == 0);
        lemma_reconcile_one(l, s, id, id);
    }
}

/// Seeding the first `k` prize rows leaves sold counters and cooldowns
/// alone and sets the stock counter of each enabled prize among them.
proof fn lemma_seed_prefix(ledger: LedgerState, store: StoreState, k: int, prize: u128)
    requires
        ledger.wf(),
        store.wf(),
        0 <= k <= store.prizes.len(),
    ensures
        ({
            let l = seed_each(ledger, store.prizes.take(k));
            &&& l.wf()
            &&& l.sold(prize) == ledger.sold(prize)
            &&& l.cooldown == ledger.cooldown
            &&& forall|j: int|
                0 <= j < k && (#[trigger] store.prizes[j]).id == prize && store.prizes[j].is_enabled
                    ==> l.stock(prize) == stock_to_seed(
                    store.prizes[j].remaining_count,
                    ledger.sold(prize) as i64,
                )
        }),
    decreases k,
{
    if ledger.counters.contains_key(prize) {
        assert(ledger.counters[prize].wf());
    }
    if k > 0 {
        let rows = store.prizes.take(k);
        assert(rows.drop_last() =~= store.prizes.take(k - 1));
        assert(rows.last() == store.prizes[k - 1]);
        lemma_seed_prefix(ledger, store, k - 1, prize);
        let before = seed_each(ledger, store.prizes.take(k - 1));
        let row = store.prizes[k - 1];
        if row.is_enabled {
            lemma_seed_prefix(ledger, store, k - 1, row.id);
            if before.counters.contains_key(row.id) {
                assert(before.counters[row.id].wf());
            }
            let l = before.seeded(row.id, row.remaining_count);
            assert(l.wf());
            assert forall|j: int|
                0 <= j < k && (#[trigger] store.prizes[j]).id == prize
                    && store.prizes[j].is_enabled implies l.stock(prize) == stock_to_seed(
                store.prizes[j].remaining_count,
                ledger.sold(prize) as i64,
            ) by {
                if j < k - 1 {
                    assert(store.prizes[j].id != store.prizes[k - 1].id);
                }
            }
        }
    }
}

/// Seeding: after the ledger was seeded from the store, the stock counter of
/// every enabled prize is the durable remaining count less the units sold
/// and not yet reconciled, so that stock and sold together never exceed what
/// the store holds; sold counters and cooldowns are as they were.
pub proof fn lemma_seeding(ledger: LedgerState, store: StoreState, prize: u128)
    requires
        ledger.wf(),
        store.wf(),
        store.position(prize) matches Some(i) && store.prizes[i].is_enabled,
    ensures
        ({
            let l = seed_each(ledger, store.prizes);
            &&& l.wf()
            &&& l.sold(prize) == ledger.sold(prize)
            &&& l.cooldown == ledger.cooldown
            &&& l.stock(prize) == settled(store.remaining(prize), ledger.sold(prize))
            &&& l.stock(prize) <= store.remaining(prize)
        }),
{
    lemma_seed_prefix(ledger, store, store.prizes.len() as int, prize);
    assert(store.prizes.take(store.prizes.len() as int) =~= store.prizes);
    let i = store.position(prize).unwrap();
    assert(store.holds_at(prize, i));
    assert(store.prizes[i].stock_in_range());
    if ledger.counters.contains_key(prize) {
        assert(ledger.counters[prize].wf());
    }
}

/// Whether every enabled prize has stock, in the store and in the ledger.
pub open spec fn all_enabled_in_stock(ledger: LedgerState, store: StoreState) -> bool {
    forall|i: int|
        0 <= i < store.prizes.len() && (#[trigger] store.prizes[i]).is_enabled
            ==> store.prizes[i].remaining_count > 0 && ledger.stock(store.prizes[i].id) > 0
}

/// While every enabled prize among the first `k` rows has stock, the two
/// paths see the same prizes among them.
proof fn lemma_pools_agree_prefix(store: StoreState, k: int)
    requires
        0 <= k <= store.prizes.len(),
        forall|i: int|
            0 <= i < store.prizes.len() && (#[trigger] store.prizes[i]).is_enabled
                ==> store.prizes[i].remaining_count > 0,
    ensures
        store.prizes.take(k).filter(enabled()).map_values(|p: Prize| lite_of(p))
            == store.prizes.take(k).filter(eligible()).map_values(
            |p: Prize| enabled_of(p),
        ).map_values(|p: EnabledPrize| lite_of_enabled(p)),
    decreases k,
{
    let rows = store.prizes;
    if k == 0 {
        reveal(Seq::filter);
        assert(rows.take(0).filter(enabled()).map_values(|p: Prize| lite_of(p)) =~= rows.take(
            0,
        ).filter(eligible()).map_values(|p: Prize| enabled_of(p)).map_values(
            |p: EnabledPrize| lite_of_enabled(p),
        ));
    } else {
        lemma_pools_agree_prefix(store, k - 1);
        lemma_filter_map_step(rows, k - 1, enabled(), |p: Prize| lite_of(p));
        lemma_filter_map_step(rows, k - 1, eligible(), |p: Prize| enabled_of(p));
        let before = rows.take(k - 1).filter(eligible()).map_values(|p: Prize| enabled_of(p));
        if rows[k - 1].is_enabled {
            assert(before.push(enabled_of(rows[k - 1])).map_values(
                |p: EnabledPrize| lite_of_enabled(p),
            ) =~= before.map_values(|p: EnabledPrize| lite_of_enabled(p)).push(
                lite_of(rows[k - 1]),
            ));
        }
    }
}

/// Fallback equivalence: while every enabled prize has stock in the store
/// and in the ledger and the cache is empty, a draw by a user whose cooldown
/// runs on neither side has the same outcome on the fast path as against the
/// store alone.
pub proof fn lemma_paths_agree(ledger: LedgerState, store: StoreState, req: DrawRequest)
    requires
        ledger.wf(),
        store.wf(),
        all_enabled_in_stock(ledger, store),
        !ledger.cooling(req.uid, req.now),
        !cooldown_running(store.last_draw_at(req.uid), req.now),
    ensures
        fast_draw(ledger, store, Seq::empty(), req).2 == fallback_draw(store, req).1,
{
    lemma_pools_agree_prefix(store, store.prizes.len() as int);
    assert(store.prizes.take(store.prizes.len() as int) =~= store.prizes);
    let pool = fast_pool(Seq::empty(), store);
    assert(pool == fallback_pool(store));
    let weights = probabilities(pool);
    lemma_winner_exists(weights, req.roll as int);
    match selection(weights, req.roll) {
        Ok(Some(i)) => {
            let kept = store.prizes.filter(enabled());
            assert(pool[i] == lite_of(kept[i]));
            store.prizes.lemma_filter_pred(enabled(), i);
            assert(kept.contains(kept[i]));
            store.prizes.lemma_filter_contains_rev(enabled(), kept[i]);
            let j = choose|j: int| 0 <= j < store.prizes.len() && store.prizes[j] == kept[i];
            assert(store.holds_at(pool[i].id, j));
            lemma_position_unique(store, pool[i].id, j);
            lemma_decrement_stock(store, pool[i].id, pool[i].id);
        },
        _ => {},
    }
}

/// Records are only ever appended: after a draw on either path, and after a
/// cycle of reconciliation, the records that were there are still there, in
/// their places and unchanged.
pub proof fn lemma_records_append_only(
    ledger: LedgerState,
    store: StoreState,
    cache: Seq<PrizeLite>,
    req: DrawRequest,
)
    requires
        ledger.wf(),
        store.wf(),
    ensures
        store.records.is_prefix_of(fast_draw(ledger, store, cache, req).1.records),
        store.records.is_prefix_of(fallback_draw(store, req).0.records),
        reconciled(ledger, store).1.records == store.records,
{
    let pool = fallback_pool(store);
    if !cooldown_running(store.last_draw_at(req.uid), req.now) {
        match selection(probabilities(pool), req.roll) {
            Ok(Some(i)) => {
                lemma_decrement_stock(store, pool[i].id, pool[i].id);
            },
            _ => {},
        }
    }
    lemma_reconcile_keeps_records(ledger, store, store.enabled_ids());
}

/// Reconciliation of a list of prizes leaves the records and the users'
/// last draws as they were.
proof fn lemma_reconcile_keeps_records(ledger: LedgerState, store: StoreState, ids: Seq<u128>)
    requires
        ledger.wf(),
        store.wf(),
    ensures
        reconcile_all(ledger, store, ids).1.records == store.records,
        reconcile_all(ledger, store, ids).1.last_draw == store.last_draw,
    decreases ids.len(),
{
    if ids.len() > 0 {
        lemma_reconcile_keeps_records(ledger, store, ids.drop_last());
    }
}

/// Whether the rows `after` are the rows `before` with nothing changed but
/// remaining counts.
pub open spec fn only_remaining_changed(before: Seq<Prize>, after: Seq<Prize>) -> bool {
    &&& after.len() == before.len()
    &&& forall|i: int|
        0 <= i < before.len() ==> #[trigger] after[i] == before[i].with_remaining(
            after[i].remaining_count,
        )
}

/// Reconciliation of a list of prizes changes nothing of the prize rows but
/// remaining counts.
proof fn lemma_reconcile_changes_remaining_only(
    ledger: LedgerState,
    store: StoreState,
    ids: Seq<u128>,
)
    ensures
        only_remaining_changed(store.prizes, reconcile_all(ledger, store, ids).1.prizes),
    decreases ids.len(),
{
    if ids.len() > 0 {
        lemma_reconcile_changes_remaining_only(ledger, store, ids.drop_last());
        let (l, s) = reconcile_all(ledger, store, ids.drop_last());
        let after = reconcile_one(l, s, ids.last()).1;
        assert forall|i: int| 0 <= i < store.prizes.len() implies #[trigger] after.prizes[i]
            == store.prizes[i].with_remaining(after.prizes[i].remaining_count) by {
            assert(s.prizes[i] == store.prizes[i].with_remaining(s.prizes[i].remaining_count));
        }
    }
}

/// The rows of the store change in their remaining counts alone: whatever
/// is drawn on either path and whenever the ledger is reconciled, no row is
/// added or removed, and every prize keeps its identity, its name, its
/// weight, its gate and the stock it was created with.
pub proof fn lemma_only_remaining_changes(
    ledger: LedgerState,
    store: StoreState,
    cache: Seq<PrizeLite>,
    req: DrawRequest,
)
    ensures
        fast_draw(ledger, store, cache, req).1.prizes == store.prizes,
        only_remaining_changed(store.prizes, fallback_draw(store, req).0.prizes),
        only_remaining_changed(store.prizes, reconciled(ledger, store).1.prizes),
{
    lemma_reconcile_changes_remaining_only(ledger, store, store.enabled_ids());
}

} // verus!
