use fast_lottery_engine::error::AppError;
use fast_lottery_engine::ledger::{Commit, Ledger};
use fast_lottery_engine::lottery_service::{
    after_commit, after_cooldown, checked_select, draw, draw_at, draw_fallback, draw_fast,
    draw_sql_only,
    draw_with_redis, fallback_pool_of, fast_pool_of, is_cooldown_running, make_record, no_win,
    roll_for, settle_commit, settle_cooldown, settle_decrement, win, DrawRequest, DrawResult, Next,
};
use fast_lottery_engine::prize_cache::{PrizeCache, PrizeLite};
use fast_lottery_engine::stock_sync::seed_ledger;
use fast_lottery_engine::store::Store;

const RATE_LIMITED: &str = "抽奖频率过高，请稍后再试";

fn store_with(prizes: &[(u128, &str, i64, i32, bool)]) -> Store {
    let mut store = Store::new();
    for (id, name, total, probability, enabled) in prizes {
        store
            .create_prize(*id, 1, name.to_string(), None, *total, *probability, *enabled)
            .unwrap();
    }
    store
}

fn req(uid: u128, now: i64, roll: i128) -> DrawRequest {
    DrawRequest { uid, now, roll, record_id: 1000 + uid }
}

fn is_rate_limited(r: &Result<DrawResult, AppError>) -> bool {
    matches!(r, Err(AppError::BadRequest(m)) if *m == RATE_LIMITED)
}

fn is_win_of(r: &Result<DrawResult, AppError>, id: u128, name: &str) -> bool {
    match r {
        Ok(d) => d.won && d.prize_id == Some(id) && d.prize_name.as_deref() == Some(name),
        Err(_) => false,
    }
}

fn is_no_win(r: &Result<DrawResult, AppError>) -> bool {
    match r {
        Ok(d) => !d.won && d.prize_id.is_none() && d.prize_name.is_none(),
        Err(_) => false,
    }
}

#[test]
fn three_winners_then_out_of_stock_on_fast_path() {
    let mut store = store_with(&[(7, "gold", 3, 100, true)]);
    let mut ledger = Ledger::new();
    seed_ledger(&store, &mut ledger);
    let mut cache = PrizeCache::new();
    cache.refresh_once(Some(store.enabled_lite()));
    for uid in 1..=3u128 {
        let r = draw_fast(&mut store, &mut ledger, &cache, req(uid, 100, 50));
        assert!(is_win_of(&r, 7, "gold"));
    }
    let r = draw_fast(&mut store, &mut ledger, &cache, req(4, 100, 50));
    assert!(is_no_win(&r));
    assert!(!is_rate_limited(&r));
    assert_eq!(ledger.stock(7), 0);
    assert_eq!(ledger.sold(7), 3);
    // the durable count waits for reconciliation
    assert_eq!(store.remaining(7), 3);
    assert_eq!(store.records().len(), 4);
    assert_eq!(store.records()[0].prize_id, Some(7));
    assert_eq!(store.records()[3].prize_id, None);
}

#[test]
fn three_winners_then_out_of_stock_with_random_rolls() {
    let mut store = store_with(&[(7, "gold", 3, 100, true)]);
    let mut ledger = Ledger::new();
    seed_ledger(&store, &mut ledger);
    let mut cache = PrizeCache::new();
    cache.refresh_once(Some(store.enabled_lite()));
    for uid in 1..=3u128 {
        let r = draw_with_redis(&mut store, &mut ledger, &cache, uid, 100);
        assert!(is_win_of(&r, 7, "gold"));
    }
    let r = draw_with_redis(&mut store, &mut ledger, &cache, 4, 100);
    assert!(is_no_win(&r));
}

#[test]
fn second_draw_within_window_is_rate_limited_on_fast_path() {
    let mut store = store_with(&[(7, "gold", 30, 100, true)]);
    let mut ledger = Ledger::new();
    seed_ledger(&store, &mut ledger);
    let cache = PrizeCache::new();
    let first = draw_fast(&mut store, &mut ledger, &cache, req(1, 1000, 1));
    assert!(is_win_of(&first, 7, "gold"));
    let second = draw_fast(&mut store, &mut ledger, &cache, req(1, 1059, 1));
    assert!(is_rate_limited(&second));
    assert_eq!(ledger.stock(7), 29);
    assert_eq!(store.records().len(), 1);
    let third = draw_fast(&mut store, &mut ledger, &cache, req(1, 1060, 1));
    assert!(is_win_of(&third, 7, "gold"));
    assert_eq!(store.last_draw_at(1), Some(1060));
}

#[test]
fn no_win_roll_still_starts_cooldown_on_fast_path() {
    let mut store = store_with(&[(1, "a", 10, 50, true), (2, "b", 10, 30, true)]);
    let mut ledger = Ledger::new();
    seed_ledger(&store, &mut ledger);
    let cache = PrizeCache::new();
    let r = draw_fast(&mut store, &mut ledger, &cache, req(9, 0, 85));
    assert!(is_no_win(&r));
    assert!(ledger.is_cooling(9, 59));
    let r = draw_fast(&mut store, &mut ledger, &cache, req(9, 10, 10));
    assert!(is_rate_limited(&r));
    assert_eq!(ledger.stock(1), 10);
}

#[test]
fn fast_path_selects_by_roll_and_order() {
    let mut store = store_with(&[(1, "a", 10, 50, true), (2, "b", 10, 30, true)]);
    let mut ledger = Ledger::new();
    seed_ledger(&store, &mut ledger);
    let cache = PrizeCache::new();
    assert!(is_win_of(&draw_fast(&mut store, &mut ledger, &cache, req(1, 0, 10)), 1, "a"));
    assert!(is_win_of(&draw_fast(&mut store, &mut ledger, &cache, req(2, 0, 55)), 2, "b"));
    assert!(is_no_win(&draw_fast(&mut store, &mut ledger, &cache, req(3, 0, 85))));
}

#[test]
fn roll_outside_bounds_is_a_selection_fault() {
    let mut store = store_with(&[(1, "a", 10, 50, true)]);
    let mut ledger = Ledger::new();
    seed_ledger(&store, &mut ledger);
    let cache = PrizeCache::new();
    for roll in [0i128, -1, 101, i128::MAX, i128::MIN] {
        let r = draw_fast(&mut store, &mut ledger, &cache, req(1, 0, roll));
        assert!(matches!(r, Err(AppError::Internal("selection invariant violated"))));
        let r = draw_fallback(&mut store, req(1, 0, roll));
        assert!(matches!(r, Err(AppError::Internal("selection invariant violated"))));
    }
    assert!(!ledger.is_cooling(1, 0));
    assert_eq!(store.records().len(), 0);
    assert_eq!(store.remaining(1), 10);
}

#[test]
fn fast_path_prefers_cache_over_store() {
    let mut store = store_with(&[(1, "a", 10, 100, true)]);
    let mut ledger = Ledger::new();
    seed_ledger(&store, &mut ledger);
    ledger.seed(5, 1);
    let mut cache = PrizeCache::new();
    let pool = fast_pool_of(&cache, &store);
    assert_eq!(pool.len(), 1);
    assert_eq!(pool[0].id, 1);
    cache.refresh_once(Some(vec![PrizeLite { id: 5, name: "cached".to_string(), probability: 100 }]));
    let pool = fast_pool_of(&cache, &store);
    assert_eq!(pool.len(), 1);
    assert_eq!(pool[0].id, 5);
    let r = draw_fast(&mut store, &mut ledger, &cache, req(1, 0, 1));
    assert!(is_win_of(&r, 5, "cached"));
}

#[test]
fn unseeded_ledger_reports_out_of_stock_as_no_win() {
    let mut store = store_with(&[(1, "a", 10, 100, true)]);
    let mut ledger = Ledger::new();
    let cache = PrizeCache::new();
    let r = draw_fast(&mut store, &mut ledger, &cache, req(1, 0, 1));
    assert!(is_no_win(&r));
    assert!(ledger.is_cooling(1, 1));
}

#[test]
fn fallback_wins_once_then_no_win_for_single_unit() {
    let mut store = store_with(&[(7, "gold", 1, 100, true)]);
    let first = draw_fallback(&mut store, req(1, 500, 50));
    assert!(is_win_of(&first, 7, "gold"));
    assert_eq!(store.remaining(7), 0);
    let second = draw_fallback(&mut store, req(2, 500, 50));
    assert!(is_no_win(&second));
    assert!(!is_rate_limited(&second));
    assert_eq!(store.remaining(7), 0);
    assert_eq!(store.records().len(), 2);
}

#[test]
fn fast_path_matches_fallback_for_single_unit() {
    let mut store = store_with(&[(7, "gold", 1, 100, true)]);
    let mut ledger = Ledger::new();
    seed_ledger(&store, &mut ledger);
    let cache = PrizeCache::new();
    let first = draw_fast(&mut store, &mut ledger, &cache, req(1, 500, 50));
    assert!(is_win_of(&first, 7, "gold"));
    let second = draw_fast(&mut store, &mut ledger, &cache, req(2, 500, 50));
    assert!(is_no_win(&second));
}

#[test]
fn fallback_rate_limits_within_window() {
    let mut store = store_with(&[(7, "gold", 10, 100, true)]);
    assert!(is_win_of(&draw_fallback(&mut store, req(1, 1000, 1)), 7, "gold"));
    assert!(is_rate_limited(&draw_fallback(&mut store, req(1, 1000, 1))));
    assert!(is_rate_limited(&draw_fallback(&mut store, req(1, 1059, 1))));
    assert_eq!(store.remaining(7), 9);
    assert_eq!(store.records().len(), 1);
    assert!(is_win_of(&draw_fallback(&mut store, req(1, 1060, 1)), 7, "gold"));
    assert_eq!(store.remaining(7), 8);
}

#[test]
fn fallback_after_fast_path_draw_is_rate_limited() {
    let mut store = store_with(&[(7, "gold", 10, 100, true)]);
    let mut ledger = Ledger::new();
    seed_ledger(&store, &mut ledger);
    let cache = PrizeCache::new();
    assert!(is_win_of(&draw_fast(&mut store, &mut ledger, &cache, req(1, 1000, 1)), 7, "gold"));
    assert!(is_rate_limited(&draw_fallback(&mut store, req(1, 1030, 1))));
}

#[test]
fn fallback_selects_only_among_prizes_with_stock() {
    let mut store = store_with(&[(1, "a", 0, 50, true), (2, "b", 5, 30, true), (3, "c", 5, 90, false)]);
    let pool = fallback_pool_of(&store);
    assert_eq!(pool.len(), 1);
    assert_eq!(pool[0].id, 2);
    assert!(is_win_of(&draw_fallback(&mut store, req(1, 0, 30)), 2, "b"));
    assert!(is_no_win(&draw_fallback(&mut store, req(2, 0, 31))));
}

#[test]
fn draw_on_empty_store_never_wins() {
    let mut store = Store::new();
    let mut ledger = Ledger::new();
    let cache = PrizeCache::new();
    for (uid, roll) in [(1u128, 1i128), (2, 50), (3, 100)] {
        assert!(is_no_win(&draw_fast(&mut store, &mut ledger, &cache, req(uid, 0, roll))));
        assert!(is_no_win(&draw_fallback(&mut store, req(uid + 10, 0, roll))));
    }
}

#[test]
fn draw_takes_the_fast_path_only_while_the_ledger_is_reachable() {
    let mut store = store_with(&[(7, "gold", 2, 100, true)]);
    let mut ledger = Ledger::new();
    seed_ledger(&store, &mut ledger);
    let cache = PrizeCache::new();
    let r = draw_at(&mut store, &mut ledger, &cache, true, 1, 0);
    assert!(is_win_of(&r, 7, "gold"));
    assert_eq!(ledger.stock(7), 1);
    assert_eq!(store.remaining(7), 2);
    let r = draw_at(&mut store, &mut ledger, &cache, false, 2, 0);
    assert!(is_win_of(&r, 7, "gold"));
    assert_eq!(ledger.stock(7), 1);
    assert_eq!(store.remaining(7), 1);
    let r = draw_at(&mut store, &mut ledger, &cache, false, 2, 30);
    assert!(is_rate_limited(&r));
}

#[test]
fn draw_by_the_clock_rate_limits_the_immediate_retry() {
    let mut store = store_with(&[(7, "gold", 5, 100, true)]);
    let mut ledger = Ledger::new();
    seed_ledger(&store, &mut ledger);
    let cache = PrizeCache::new();
    let first = draw(&mut store, &mut ledger, &cache, true, 1);
    assert!(is_win_of(&first, 7, "gold"));
    let second = draw(&mut store, &mut ledger, &cache, true, 1);
    assert!(is_rate_limited(&second));
    let other = draw(&mut store, &mut ledger, &cache, false, 2);
    assert!(is_win_of(&other, 7, "gold"));
    let again = draw(&mut store, &mut ledger, &cache, false, 2);
    assert!(is_rate_limited(&again));
    let at = store.last_draw_at(1).unwrap();
    assert!(at > 1_600_000_000);
    assert_eq!(store.records()[0].created_at, at);
}

#[test]
fn random_rolls_vary() {
    let weights = vec![50, 30];
    let first = roll_for(&weights);
    let mut varied = false;
    for _ in 0..1000 {
        if roll_for(&weights) != first {
            varied = true;
        }
    }
    assert!(varied);
}

#[test]
fn records_of_random_draws_get_distinct_identifiers() {
    let mut store = store_with(&[(7, "gold", 5, 100, true)]);
    let mut ledger = Ledger::new();
    seed_ledger(&store, &mut ledger);
    let cache = PrizeCache::new();
    for uid in 0..3u128 {
        assert!(draw_with_redis(&mut store, &mut ledger, &cache, uid, 0).is_ok());
    }
    let ids: Vec<u128> = store.records().iter().map(|r| r.id).collect();
    assert_ne!(ids[0], ids[1]);
    assert_ne!(ids[1], ids[2]);
    assert_ne!(ids[0], ids[2]);
}

#[test]
fn random_draws_never_oversell() {
    let mut store = store_with(&[(1, "a", 5, 50, true), (2, "b", 3, 30, true)]);
    let mut ledger = Ledger::new();
    seed_ledger(&store, &mut ledger);
    let cache = PrizeCache::new();
    let mut wins_a = 0;
    let mut wins_b = 0;
    for uid in 0..200u128 {
        match draw_with_redis(&mut store, &mut ledger, &cache, uid, 0) {
            Ok(d) if d.won => {
                if d.prize_id == Some(1) {
                    wins_a += 1;
                } else {
                    assert_eq!(d.prize_id, Some(2));
                    wins_b += 1;
                }
            }
            Ok(_) => {}
            Err(e) => panic!("unexpected error {:?}", e),
        }
    }
    assert!(wins_a <= 5);
    assert!(wins_b <= 3);
    assert_eq!(ledger.stock(1), 5 - wins_a);
    assert_eq!(ledger.sold(2), wins_b);
    assert_eq!(store.records().len(), 200);
}

#[test]
fn random_fallback_draws_never_oversell() {
    let mut store = store_with(&[(1, "a", 5, 50, true), (2, "b", 3, 30, true)]);
    let mut wins = 0;
    for uid in 0..200u128 {
        match draw_sql_only(&mut store, uid, 0) {
            Ok(d) if d.won => wins += 1,
            Ok(_) => {}
            Err(e) => panic!("unexpected error {:?}", e),
        }
    }
    assert!(wins <= 8);
    assert_eq!(store.remaining(1) + store.remaining(2), 8 - wins);
}

#[test]
fn random_roll_lies_within_bounds() {
    let light = vec![50, 30];
    let heavy = vec![100, 150];
    let empty: Vec<i32> = Vec::new();
    for _ in 0..500 {
        let r = roll_for(&light);
        assert!((1..=100).contains(&r));
        let r = roll_for(&heavy);
        assert!((1..=250).contains(&r));
        let r = roll_for(&empty);
        assert!((1..=100).contains(&r));
    }
}

#[test]
fn checked_select_rejects_rolls_outside_bounds() {
    let weights = vec![50, 30];
    assert!(matches!(checked_select(&weights, 10), Ok(Some(0))));
    assert!(matches!(checked_select(&weights, 55), Ok(Some(1))));
    assert!(matches!(checked_select(&weights, 85), Ok(None)));
    assert!(matches!(checked_select(&weights, 100), Ok(None)));
    assert!(matches!(
        checked_select(&weights, 101),
        Err(AppError::Internal("selection invariant violated"))
    ));
    assert!(matches!(
        checked_select(&weights, 0),
        Err(AppError::Internal("selection invariant violated"))
    ));
}

#[test]
fn outcomes_of_ledger_answers() {
    let prize = PrizeLite { id: 9, name: "nine".to_string(), probability: 1 };
    assert!(is_rate_limited(&settle_commit(&prize, Commit::Denied)));
    assert!(is_no_win(&settle_commit(&prize, Commit::OutOfStock)));
    assert!(is_win_of(&settle_commit(&prize, Commit::Committed), 9, "nine"));
    assert!(is_no_win(&settle_cooldown(true)));
    assert!(is_rate_limited(&settle_cooldown(false)));
    assert!(is_no_win(&Ok(no_win())));
    assert!(is_win_of(&Ok(win(&prize)), 9, "nine"));
    assert!(is_win_of(&Ok(settle_decrement(&prize, Some(0))), 9, "nine"));
    assert!(is_no_win(&Ok(settle_decrement(&prize, None))));
}

#[test]
fn next_step_after_ledger_reply() {
    let prize = PrizeLite { id: 9, name: "nine".to_string(), probability: 1 };
    assert!(matches!(after_commit(&prize, None), Next::Fallback));
    assert!(matches!(after_cooldown(None), Next::Fallback));
    match after_commit(&prize, Some(1)) {
        Next::Settled(r) => assert!(is_win_of(&r, 9, "nine")),
        Next::Fallback => panic!("fallback"),
    }
    match after_commit(&prize, Some(-1)) {
        Next::Settled(r) => assert!(is_no_win(&r)),
        Next::Fallback => panic!("fallback"),
    }
    match after_commit(&prize, Some(0)) {
        Next::Settled(r) => assert!(is_rate_limited(&r)),
        Next::Fallback => panic!("fallback"),
    }
    match after_cooldown(Some(1)) {
        Next::Settled(r) => assert!(is_no_win(&r)),
        Next::Fallback => panic!("fallback"),
    }
    match after_cooldown(Some(0)) {
        Next::Settled(r) => assert!(is_rate_limited(&r)),
        Next::Fallback => panic!("fallback"),
    }
}

#[test]
fn cooldown_by_last_draw() {
    assert!(!is_cooldown_running(None, 0));
    assert!(is_cooldown_running(Some(100), 100));
    assert!(is_cooldown_running(Some(100), 159));
    assert!(!is_cooldown_running(Some(100), 160));
    assert!(is_cooldown_running(Some(100), 50));
    assert!(!is_cooldown_running(Some(i64::MIN), i64::MAX));
    assert!(is_cooldown_running(Some(i64::MAX), i64::MIN));
}

#[test]
fn record_of_a_draw() {
    let prize = PrizeLite { id: 9, name: "nine".to_string(), probability: 1 };
    let request = DrawRequest { uid: 4, now: 77, roll: 1, record_id: 555 };
    let rec = make_record(&request, &win(&prize));
    assert_eq!(rec.id, 555);
    assert_eq!(rec.user_id, 4);
    assert_eq!(rec.prize_id, Some(9));
    assert_eq!(rec.prize_name.as_deref(), Some("nine"));
    assert_eq!(rec.created_at, 77);
    let rec = make_record(&request, &no_win());
    assert_eq!(rec.prize_id, None);
    assert_eq!(rec.prize_name, None);
}
