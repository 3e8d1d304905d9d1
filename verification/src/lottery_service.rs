//! The draw: selection of a prize, commitment of the decision on the fast
//! path or in the durable store, and the record of the outcome.

use crate::chance::fresh_id;
use crate::chance::random_roll;
use crate::chance::now_secs;
use crate::error::rate_limited;
use crate::error::selection_fault;
use crate::error::AppError;
use crate::ledger::decode_commit;
use crate::ledger::decode_cooldown;
use crate::ledger::Commit;
use crate::ledger::Ledger;
use crate::ledger::LedgerState;
use crate::ledger::COOLDOWN_SECS;
use crate::models::LotteryRecord;
use crate::prize_cache::probabilities;
use crate::prize_cache::weights_of;
use crate::prize_cache::PrizeCache;
use crate::prize_cache::PrizeLite;
use crate::selector::in_bounds;
use crate::selector::roll_in_bounds;
use crate::selector::roll_limit;
use crate::selector::select;
use crate::selector::sum_weights;
use crate::selector::winner;
use crate::store::lite_of_enabled;
use crate::store::EnabledPrize;
use crate::store::Store;
use crate::store::StoreState;
use vstd::prelude::*;

verus! {

/// What a draw gave.
#[derive(Debug)]
pub struct DrawResult {
    pub won: bool,
    pub prize_id: Option<u128>,
    pub prize_name: Option<String>,
}

/// One draw with everything that decides it: who draws, when, the roll, and
/// the identifier of the record to write.
#[derive(Clone, Copy, Debug)]
pub struct DrawRequest {
    pub uid: u128,
    pub now: i64,
    pub roll: i128,
    pub record_id: u128,
}

impl DrawResult {
    /// The result of a draw that won nothing.
    pub open spec fn no_win() -> DrawResult {
        DrawResult { won: false, prize_id: None, prize_name: None }
    }

    /// The result of a draw that won the prize.
    pub open spec fn win(prize: PrizeLite) -> DrawResult {
        DrawResult { won: true, prize_id: Some(prize.id), prize_name: Some(prize.name) }
    }
}

/// Whether a draw's outcome is a win of the prize `prize`.
pub open spec fn won_prize(outcome: Result<DrawResult, AppError>, prize: u128) -> bool {
    outcome matches Ok(r) && r.won && r.prize_id == Some(prize)
}

/// The selection for a roll: a fault for a roll outside its bounds, else the
/// index of the winning prize or `None`.
pub open spec fn selection(weights: Seq<i32>, roll: i128) -> Result<Option<int>, AppError> {
    if roll_in_bounds(weights, roll as int) {
        Ok(winner(weights, roll as int))
    } else {
        Err(AppError::selection_fault())
    }
}

/// The outcome of a draw that selected a prize, by the ledger's answer.
pub open spec fn commit_outcome(prize: PrizeLite, commit: Commit) -> Result<DrawResult, AppError> {
    match commit {
        Commit::Denied => Err(AppError::rate_limited()),
        Commit::OutOfStock => Ok(DrawResult::no_win()),
        Commit::Committed => Ok(DrawResult::win(prize)),
    }
}

/// The outcome of a draw that selected no prize, by the ledger's answer.
pub open spec fn cooldown_outcome(accepted: bool) -> Result<DrawResult, AppError> {
    if accepted {
        Ok(DrawResult::no_win())
    } else {
        Err(AppError::rate_limited())
    }
}

/// What a draw on the fast path does after it asked the ledger.
#[derive(Debug)]
pub enum Next {
    /// The ledger answered: the draw ends with this outcome.
    Settled(Result<DrawResult, AppError>),
    /// The ledger could not be reached: the draw is made against the store.
    Fallback,
}

/// What follows the ledger's reply to a commit of `prize`; `None` is a
/// ledger that could not be reached.
pub open spec fn next_after_commit(prize: PrizeLite, reply: Option<i64>) -> Next {
    match reply {
        Some(code) => Next::Settled(commit_outcome(prize, Commit::of_code(code))),
        None => Next::Fallback,
    }
}

/// What follows the ledger's reply to a cooldown-only request; `None` is a
/// ledger that could not be reached.
pub open spec fn next_after_cooldown(reply: Option<i64>) -> Next {
    match reply {
        Some(code) => Next::Settled(cooldown_outcome(code != 0)),
        None => Next::Fallback,
    }
}

/// Whether a user who last drew at `last` must still wait at `now`.
pub open spec fn cooldown_running(last: Option<i64>, now: i64) -> bool {
    last matches Some(at) && now - at < COOLDOWN_SECS
}

/// The outcome of a draw against the store that selected a prize, by what
/// the conditional decrement returned.
pub open spec fn decrement_outcome(prize: PrizeLite, left: Option<i64>) -> DrawResult {
    if left is Some {
        DrawResult::win(prize)
    } else {
        DrawResult::no_win()
    }
}

/// The record of a draw.
pub open spec fn record_of(req: DrawRequest, result: DrawResult) -> LotteryRecord {
    LotteryRecord {
        id: req.record_id,
        user_id: req.uid,
        prize_id: result.prize_id,
        prize_name: result.prize_name,
        created_at: req.now,
    }
}

/// The store after the outcome of a draw was written down; an error leaves
/// no trace.
pub open spec fn persisted(
    store: StoreState,
    req: DrawRequest,
    outcome: Result<DrawResult, AppError>,
) -> StoreState {
    match outcome {
        Ok(result) => store.recorded(record_of(req, result)),
        Err(_) => store,
    }
}

/// The prizes that a draw on the fast path selects from: the cache's
/// snapshot, or the store's enabled prizes while the cache is empty.
pub open spec fn fast_pool(cache: Seq<PrizeLite>, store: StoreState) -> Seq<PrizeLite> {
    if cache.len() == 0 {
        store.enabled_lite()
    } else {
        cache
    }
}

/// The prizes that a draw against the store selects from.
pub open spec fn fallback_pool(store: StoreState) -> Seq<PrizeLite> {
    store.enabled_in_stock().map_values(|p: EnabledPrize| lite_of_enabled(p))
}

/// A draw on the fast path: the ledger and the store after it, and its outcome.
pub open spec fn fast_draw(
    ledger: LedgerState,
    store: StoreState,
    cache: Seq<PrizeLite>,
    req: DrawRequest,
) -> (LedgerState, StoreState, Result<DrawResult, AppError>) {
    let pool = fast_pool(cache, store);
    match selection(probabilities(pool), req.roll) {
        Err(e) => (ledger, store, Err(e)),
        Ok(Some(i)) => {
            let (after, commit) = ledger.cooldown_and_decrement(
                req.uid,
                pool[i].id,
                req.now,
                COOLDOWN_SECS,
            );
            let outcome = commit_outcome(pool[i], commit);
            (after, persisted(store, req, outcome), outcome)
        },
        Ok(None) => {
            let (after, accepted) = ledger.cooldown_only(req.uid, req.now, COOLDOWN_SECS);
            let outcome = cooldown_outcome(accepted);
            (after, persisted(store, req, outcome), outcome)
        },
    }
}

/// A draw against the store alone: the store after it, and its outcome.
pub open spec fn fallback_draw(store: StoreState, req: DrawRequest) -> (
    StoreState,
    Result<DrawResult, AppError>,
) {
    if cooldown_running(store.last_draw_at(req.uid), req.now) {
        (store, Err(AppError::rate_limited()))
    } else {
        let pool = fallback_pool(store);
        match selection(probabilities(pool), req.roll) {
            Err(e) => (store, Err(e)),
            Ok(Some(i)) => {
                let (after, left) = store.decrement_stock(pool[i].id);
                let result = decrement_outcome(pool[i], left);
                (after.recorded(record_of(req, result)), Ok(result))
            },
            Ok(None) => (store.recorded(record_of(req, DrawResult::no_win())), Ok(
                DrawResult::no_win(),
            )),
        }
    }
}

/// Whether `req` is a draw by `uid` at `now` whose roll lies within the
/// bounds that the prizes in `pool` give.
pub open spec fn fair_request(req: DrawRequest, uid: u128, now: i64, pool: Seq<PrizeLite>) -> bool {
    &&& req.uid == uid
    &&& req.now == now
    &&& roll_in_bounds(probabilities(pool), req.roll as int)
}

/// Whether a draw by `uid` at `now` with some roll within its bounds leads
/// from the ledger and the store `before` to those `after` with `outcome`:
/// on the fast path while the ledger can be reached, else against the store
/// alone with the ledger left as it is.
pub open spec fn drawn(
    ledger_before: LedgerState,
    store_before: StoreState,
    cache: Seq<PrizeLite>,
    ledger_reachable: bool,
    uid: u128,
    now: i64,
    ledger_after: LedgerState,
    store_after: StoreState,
    outcome: Result<DrawResult, AppError>,
) -> bool {
    if ledger_reachable {
        exists|req: DrawRequest|
            fair_request(req, uid, now, fast_pool(cache, store_before)) && #[trigger] fast_draw(
                ledger_before,
                store_before,
                cache,
                req,
            ) == (ledger_after, store_after, outcome)
    } else {
        ledger_after == ledger_before && exists|req: DrawRequest|
            fair_request(req, uid, now, fallback_pool(store_before)) && #[trigger] fallback_draw(
                store_before,
                req,
            ) == (store_after, outcome)
    }
}

/// The result of a draw that won nothing.
pub fn no_win() -> (result: DrawResult)
    ensures
        result == DrawResult::no_win(),
{
    DrawResult { won: false, prize_id: None, prize_name: None }
}

/// The result of a draw that won the prize.
pub fn win(prize: &PrizeLite) -> (result: DrawResult)
    ensures
        result == DrawResult::win(*prize),
{
    DrawResult { won: true, prize_id: Some(prize.id), prize_name: Some(prize.name.clone()) }
}

/// Draws a roll within the bounds that the weights give.
pub fn roll_for(weights: &Vec<i32>) -> (roll: i128)
    ensures
        roll_in_bounds(weights@, roll as int),
{
    random_roll(roll_limit(sum_weights(weights)))
}

/// Selects for a roll: a fault for a roll outside its bounds, else the index
/// of the first prize whose cumulative weight reaches the roll, or `None`.
pub fn checked_select(weights: &Vec<i32>, roll: i128) -> (picked: Result<Option<usize>, AppError>)
    ensures
        match picked {
            Ok(Some(i)) => selection(weights@, roll) == Ok::<Option<int>, AppError>(Some(i as int))
                && i < weights.len(),
            Ok(None) => selection(weights@, roll) == Ok::<Option<int>, AppError>(None),
            Err(e) => selection(weights@, roll) == Err::<Option<int>, AppError>(e),
        },
{
    if !in_bounds(weights, roll) {
        return Err(selection_fault());
    }
    Ok(select(weights, roll))
}

/// The outcome of a draw that selected `prize`, by the ledger's answer: a
/// denial is the rate limit, an empty stock is no win, a commit is the win.
pub fn settle_commit(prize: &PrizeLite, commit: Commit) -> (outcome: Result<DrawResult, AppError>)
    ensures
        outcome == commit_outcome(*prize, commit),
{
    match commit {
        Commit::Denied => Err(rate_limited()),
        Commit::OutOfStock => Ok(no_win()),
        Commit::Committed => Ok(win(prize)),
    }
}

/// The outcome of a draw that selected no prize, by the ledger's answer.
pub fn settle_cooldown(accepted: bool) -> (outcome: Result<DrawResult, AppError>)
    ensures
        outcome == cooldown_outcome(accepted),
{
    if accepted {
        Ok(no_win())
    } else {
        Err(rate_limited())
    }
}

/// Decides what follows the ledger's reply to a commit of `prize`: the
/// outcome that the reply stands for, or the fallback where the ledger could
/// not be reached.
pub fn after_commit(prize: &PrizeLite, reply: Option<i64>) -> (next: Next)
    ensures
        next == next_after_commit(*prize, reply),
{
    match reply {
        Some(code) => Next::Settled(settle_commit(prize, decode_commit(code))),
        None => Next::Fallback,
    }
}

/// Decides what follows the ledger's reply to a cooldown-only request.
pub fn after_cooldown(reply: Option<i64>) -> (next: Next)
    ensures
        next == next_after_cooldown(reply),
{
    match reply {
        Some(code) => Next::Settled(settle_cooldown(decode_cooldown(code))),
        None => Next::Fallback,
    }
}

/// Whether a user who last drew at `last` must still wait at `now`.
pub fn is_cooldown_running(last: Option<i64>, now: i64) -> (running: bool)
    ensures
        running == cooldown_running(last, now),
{
    match last {
        Some(at) => (now as i128) - (at as i128) < COOLDOWN_SECS as i128,
        None => false,
    }
}

/// The outcome of a draw against the store that selected `prize`: a win if
/// the conditional decrement found stock, else no win.
pub fn settle_decrement(prize: &PrizeLite, left: Option<i64>) -> (result: DrawResult)
    ensures
        result == decrement_outcome(*prize, left),
{
    if left.is_some() {
        win(prize)
    } else {
        no_win()
    }
}

/// The record of a draw.
pub fn make_record(req: &DrawRequest, result: &DrawResult) -> (record: LotteryRecord)
    ensures
        record == record_of(*req, *result),
{
    let prize_name = match &result.prize_name {
        Some(name) => Some(name.clone()),
        None => None,
    };
    LotteryRecord {
        id: req.record_id,
        user_id: req.uid,
        prize_id: result.prize_id,
        prize_name,
        created_at: req.now,
    }
}

/// Writes the outcome of a draw down; an error leaves no trace.
fn persist(store: &mut Store, req: &DrawRequest, outcome: &Result<DrawResult, AppError>)
    ensures
        final(store)@ == persisted(old(store)@, *req, *outcome),
{
    match outcome {
        Ok(result) => {
            store.record_draw(make_record(req, result));
        },
        Err(_) => {},
    }
}

/// The prizes that a draw on the fast path selects from.
pub fn fast_pool_of(cache: &PrizeCache, store: &Store) -> (pool: Vec<PrizeLite>)
    ensures
        pool@ == fast_pool(cache@, store@),
{
    let snapshot = cache.snapshot();
    if snapshot.len() == 0 {
        store.enabled_lite()
    } else {
        snapshot
    }
}

/// The prizes that a draw against the store selects from.
pub fn fallback_pool_of(store: &Store) -> (pool: Vec<PrizeLite>)
    ensures
        pool@ == fallback_pool(store@),
{
    let eligible = store.list_enabled_prizes();
    let mut pool: Vec<PrizeLite> = Vec::new();
    let mut i: usize = 0;
    while i < eligible.len()
        invariant
            i <= eligible.len(),
            pool@ == eligible@.take(i as int).map_values(|p: EnabledPrize| lite_of_enabled(p)),
        decreases eligible.len() - i,
    {
        let p = &eligible[i];
        pool.push(PrizeLite { id: p.id, name: p.name.clone(), probability: p.probability });
        assert(eligible@.take(i as int).push(eligible@[i as int]) =~= eligible@.take(i as int + 1));
        assert(pool@ =~= eligible@.take(i as int + 1).map_values(
            |p: EnabledPrize| lite_of_enabled(p),
        ));
        i = i + 1;
    }
    assert(eligible@.take(eligible.len() as int) =~= eligible@);
    pool
}

/// One draw on the fast path, decided by `req`.
///
/// Selects from the snapshot of the cache, or from the store's enabled
/// prizes while the cache is empty. A selected prize is committed by the
/// ledger's cooldown-and-decrement, no prize by its cooldown-only. A denial
/// is the rate limit; an empty stock is no win. Every outcome but an error
/// is written down in the store.
pub fn draw_fast(store: &mut Store, ledger: &mut Ledger, cache: &PrizeCache, req: DrawRequest) -> (outcome:
    Result<DrawResult, AppError>)
    ensures
        (final(ledger)@, final(store)@, outcome) == fast_draw(
            old(ledger)@,
            old(store)@,
            cache@,
            req,
        ),
{
    let pool = fast_pool_of(cache, store);
    let weights = weights_of(&pool);
    match checked_select(&weights, req.roll) {
        Err(e) => Err(e),
        Ok(Some(i)) => {
            let commit = ledger.cooldown_and_decrement(req.uid, pool[i].id, req.now, COOLDOWN_SECS);
            let outcome = settle_commit(&pool[i], commit);
            persist(store, &req, &outcome);
            outcome
        },
        Ok(None) => {
            let accepted = ledger.cooldown_only(req.uid, req.now, COOLDOWN_SECS);
            let outcome = settle_cooldown(accepted);
            persist(store, &req, &outcome);
            outcome
        },
    }
}

/// One draw against the store alone, decided by `req`.
///
/// Refuses with the rate limit while the user's cooldown runs. Else selects
/// among the enabled prizes that have stock and takes one unit of a selected
/// prize by the conditional decrement; a decrement that found no stock is no
/// win. The outcome is written down in the store.
pub fn draw_fallback(store: &mut Store, req: DrawRequest) -> (outcome: Result<
    DrawResult,
    AppError,
>)
    ensures
        (final(store)@, outcome) == fallback_draw(old(store)@, req),
{
    if is_cooldown_running(store.last_draw_at(req.uid), req.now) {
        return Err(rate_limited());
    }
    let pool = fallback_pool_of(store);
    let weights = weights_of(&pool);
    match checked_select(&weights, req.roll) {
        Err(e) => Err(e),
        Ok(Some(i)) => {
            let left = store.decrement_stock(pool[i].id);
            let result = settle_decrement(&pool[i], left);
            store.record_draw(make_record(&req, &result));
            Ok(result)
        },
        Ok(None) => {
            let result = no_win();
            store.record_draw(make_record(&req, &result));
            Ok(result)
        },
    }
}

/// A draw on the fast path with a roll and a record identifier taken from
/// chance: some draw by `uid` at `now` whose roll lies within its bounds.
pub fn draw_with_redis(
    store: &mut Store,
    ledger: &mut Ledger,
    cache: &PrizeCache,
    uid: u128,
    now: i64,
) -> (outcome: Result<DrawResult, AppError>)
    ensures
        exists|req: DrawRequest|
            fair_request(req, uid, now, fast_pool(cache@, old(store)@)) && #[trigger] fast_draw(
                old(ledger)@,
                old(store)@,
                cache@,
                req,
            ) == (final(ledger)@, final(store)@, outcome),
        outcome is Err ==> outcome == Err::<DrawResult, AppError>(AppError::rate_limited()),
{
    let pool = fast_pool_of(cache, store);
    let weights = weights_of(&pool);
    let req = DrawRequest { uid, now, roll: roll_for(&weights), record_id: fresh_id() };
    draw_fast(store, ledger, cache, req)
}

/// A draw against the store alone with a roll and a record identifier taken
/// from chance: some draw by `uid` at `now` whose roll lies within its bounds.
pub fn draw_sql_only(store: &mut Store, uid: u128, now: i64) -> (outcome: Result<
    DrawResult,
    AppError,
>)
    ensures
        exists|req: DrawRequest|
            fair_request(req, uid, now, fallback_pool(old(store)@)) && #[trigger] fallback_draw(
                old(store)@,
                req,
            ) == (final(store)@, outcome),
        outcome is Err ==> outcome == Err::<DrawResult, AppError>(AppError::rate_limited()),
{
    let pool = fallback_pool_of(store);
    let weights = weights_of(&pool);
    let req = DrawRequest { uid, now, roll: roll_for(&weights), record_id: fresh_id() };
    draw_fallback(store, req)
}

/// A draw at the instant `now`: on the fast path while the ledger can be
/// reached, else against the store alone, which then leaves the ledger as it
/// is.
pub fn draw_at(
    store: &mut Store,
    ledger: &mut Ledger,
    cache: &PrizeCache,
    ledger_reachable: bool,
    uid: u128,
    now: i64,
) -> (outcome: Result<DrawResult, AppError>)
    ensures
        drawn(
            old(ledger)@,
            old(store)@,
            cache@,
            ledger_reachable,
            uid,
            now,
            final(ledger)@,
            final(store)@,
            outcome,
        ),
        outcome is Err ==> outcome == Err::<DrawResult, AppError>(AppError::rate_limited()),
{
    if ledger_reachable {
        draw_with_redis(store, ledger, cache, uid, now)
    } else {
        draw_sql_only(store, uid, now)
    }
}

/// A draw at the present instant of the clock: on the fast path while the
/// ledger can be reached, else against the store alone.
pub fn draw(
    store: &mut Store,
    ledger: &mut Ledger,
    cache: &PrizeCache,
    ledger_reachable: bool,
    uid: u128,
) -> (outcome: Result<DrawResult, AppError>)
    ensures
        exists|now: i64| #[trigger]
            drawn(
                old(ledger)@,
                old(store)@,
                cache@,
                ledger_reachable,
                uid,
                now,
                final(ledger)@,
                final(store)@,
                outcome,
            ),
        outcome is Err ==> outcome == Err::<DrawResult, AppError>(AppError::rate_limited()),
{
    draw_at(store, ledger, cache, ledger_reachable, uid, now_secs())
}

} // verus!
