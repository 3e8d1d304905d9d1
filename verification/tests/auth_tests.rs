use fast_lottery_engine::auth::{
    claims_for, ensure_admin, hash_password, hashed, issue_claims, judged, now_ts,
    verify_password, Claims, TOKEN_LIFETIME_SECS,
};
use fast_lottery_engine::chance::{instant_from, word_from};
use fast_lottery_engine::config::Config;
use fast_lottery_engine::error::{database_error, rate_limited, selection_fault, AppError};
use fast_lottery_engine::ids::read_id;
use fast_lottery_engine::ledger::stock_key;
use fast_lottery_engine::models::{ActivityStatus, JwtResponse, LoginDto, RegisterDto};
use fast_lottery_engine::routes::{
    check_admin_login, check_registration, check_username_free, login_user, mint_prefix, user_of,
    AdminLoginDto, BenchMintReq,
};

#[test]
fn clock_is_past_the_epoch() {
    assert!(now_ts() > 1_600_000_000);
    let secs = fast_lottery_engine::chance::now_secs();
    assert!(secs > 1_600_000_000);
    assert!((secs - now_ts() as i64).abs() <= 2);
}

#[test]
fn readings_of_the_clock_as_instants_and_words() {
    assert_eq!(instant_from(None), 0);
    assert_eq!(instant_from(Some(0)), 0);
    assert_eq!(instant_from(Some(1_700_000_000)), 1_700_000_000);
    assert_eq!(instant_from(Some(i64::MAX as u64)), i64::MAX);
    assert_eq!(instant_from(Some(i64::MAX as u64 + 1)), i64::MAX);
    assert_eq!(instant_from(Some(u64::MAX)), i64::MAX);
    assert_eq!(word_from(None), 0);
    assert_eq!(word_from(Some(0)), 0);
    assert_eq!(word_from(Some(1_700_000_000)), 1_700_000_000usize);
    assert_eq!(word_from(Some(u64::MAX)), u64::MAX as usize);
}

#[test]
fn a_fresh_hash_accepts_its_own_password_only() {
    for pw in ["secret123", "", "密码密码", "a b c"] {
        let hash = hash_password(pw).unwrap();
        assert!(matches!(verify_password(pw, &hash), Ok(true)));
        assert!(matches!(verify_password("something else", &hash), Ok(false)));
    }
}

#[test]
fn claims_tell_admin_from_user_and_expire_in_a_week() {
    let c = claims_for("abc", false, 1000);
    assert_eq!(c.sub, "user");
    assert_eq!(c.uid, "abc");
    assert_eq!(c.exp, 1000 + 60 * 60 * 24 * 7);
    assert!(!c.is_admin);
    let c = claims_for("admin", true, 0);
    assert_eq!(c.sub, "admin");
    assert_eq!(c.exp, TOKEN_LIFETIME_SECS);
    assert!(c.is_admin);
}

#[test]
fn claims_are_not_issued_past_the_end_of_time() {
    assert!(issue_claims("x", false, usize::MAX).is_none());
    assert!(issue_claims("x", false, usize::MAX - TOKEN_LIFETIME_SECS + 1).is_none());
    let c = issue_claims("x", false, usize::MAX - TOKEN_LIFETIME_SECS).unwrap();
    assert_eq!(c.exp, usize::MAX);
}

#[test]
fn only_admins_are_admitted() {
    assert!(ensure_admin(&claims_for("a", true, 0)).is_ok());
    assert!(matches!(ensure_admin(&claims_for("a", false, 0)), Err(AppError::Forbidden)));
}

#[test]
fn password_round_trip() {
    let hash = hash_password("secret123").unwrap();
    assert_ne!(hash, "secret123");
    assert!(hash.starts_with("$argon2"));
    assert!(matches!(verify_password("secret123", &hash), Ok(true)));
    assert!(matches!(verify_password("secret124", &hash), Ok(false)));
}

#[test]
fn unreadable_hash_is_an_internal_error() {
    assert!(matches!(
        verify_password("secret123", "HASH"),
        Err(AppError::Internal("bad password hash"))
    ));
    assert!(matches!(verify_password("HASH", "HASH"), Err(AppError::Internal("bad password hash"))));
    assert!(matches!(judged(None), Err(AppError::Internal("bad password hash"))));
    assert!(matches!(judged(Some(true)), Ok(true)));
    assert!(matches!(judged(Some(false)), Ok(false)));
}

#[test]
fn failure_of_the_hasher_is_an_internal_error() {
    assert!(matches!(
        hashed(Err(argon2::password_hash::Error::Password)),
        Err(AppError::Internal("password hash failed"))
    ));
    assert!(matches!(hashed(Ok("h".to_string())), Ok(h) if h == "h"));
}

#[test]
fn two_hashes_of_one_password_differ() {
    let a = hash_password("secret123").unwrap();
    let b = hash_password("secret123").unwrap();
    assert_ne!(a, b);
}

#[test]
fn identifiers_as_text() {
    assert_eq!(stock_key(0), "lottery:stock:00000000-0000-0000-0000-000000000000");
    assert_eq!(
        read_id("a1a2a3a4-b1b2-c1c2-d1d2-d3d4d5d6d7d8"),
        Some(0xa1a2a3a4b1b2c1c2d1d2d3d4d5d6d7d8)
    );
    assert_eq!(read_id("A1A2A3A4B1B2C1C2D1D2D3D4D5D6D7D8"), Some(0xa1a2a3a4b1b2c1c2d1d2d3d4d5d6d7d8));
    assert_eq!(read_id("admin"), None);
    assert_eq!(read_id(""), None);
    let key = stock_key(u128::MAX);
    assert_eq!(read_id(&key["lottery:stock:".len()..]), Some(u128::MAX));
}

#[test]
fn token_speaks_for_the_user_in_its_claim() {
    let c = claims_for("00000000-0000-0000-0000-00000000002a", false, 0);
    assert!(matches!(user_of(&c), Ok(42)));
    let c = claims_for("admin", true, 0);
    assert!(matches!(user_of(&c), Err(AppError::Unauthorized)));
}

#[test]
fn registration_rules() {
    let dto = |u: &str, p: &str| RegisterDto {
        username: u.to_string(),
        password: p.to_string(),
        email: None,
    };
    assert!(check_registration(&dto("user1", "secret123")).is_ok());
    assert!(check_registration(&dto("u", "123456")).is_ok());
    assert!(check_registration(&dto("  u  ", "123456")).is_ok());
    assert!(matches!(
        check_registration(&dto("u", "12345")),
        Err(AppError::BadRequest("用户名或密码不合法"))
    ));
    assert!(matches!(
        check_registration(&dto("", "secret123")),
        Err(AppError::BadRequest("用户名或密码不合法"))
    ));
    assert!(matches!(
        check_registration(&dto(" \t\n ", "secret123")),
        Err(AppError::BadRequest("用户名或密码不合法"))
    ));
    // the length of a password is counted in bytes
    assert!(check_registration(&dto("u", "密码")).is_ok());
    assert!(check_registration(&dto("u", "密a")).is_err());
}

#[test]
fn taken_username_is_refused() {
    assert!(check_username_free(false).is_ok());
    assert!(matches!(check_username_free(true), Err(AppError::BadRequest("用户名已存在"))));
}

fn config() -> Config {
    Config::from_values(
        Some("postgres://db".to_string()),
        Some("SECRET-REDACTED".to_string()),
        None,
        None,
        Some("hunter2".to_string()),
    )
    .unwrap()
}

#[test]
fn config_defaults_and_required_values() {
    let cfg = config();
    assert_eq!(cfg.database_url, "postgres://db");
    assert_eq!(cfg.jwt_secret, "SECRET-REDACTED");
    assert_eq!(cfg.server_addr, "0.0.0.0:8080");
    assert_eq!(cfg.admin_username, "admin");
    assert_eq!(cfg.admin_password, "hunter2");
    let all = Config::from_values(
        Some("a".to_string()),
        Some("b".to_string()),
        Some("c".to_string()),
        Some("d".to_string()),
        None,
    )
    .unwrap();
    assert_eq!(all.server_addr, "c");
    assert_eq!(all.admin_username, "d");
    assert_eq!(all.admin_password, "admin");
    assert!(matches!(
        Config::from_values(None, Some("b".to_string()), None, None, None),
        Err(AppError::Internal("DATABASE_URL not set"))
    ));
    assert!(matches!(
        Config::from_values(None, None, None, None, None),
        Err(AppError::Internal("DATABASE_URL not set"))
    ));
    assert!(matches!(
        Config::from_values(Some("a".to_string()), None, None, None, None),
        Err(AppError::Internal("JWT_SECRET not set"))
    ));
}

#[test]
fn admin_login_needs_both_name_and_password() {
    let cfg = config();
    let dto = |u: &str, p: &str| AdminLoginDto { username: u.to_string(), password: p.to_string() };
    assert!(check_admin_login(&cfg, &dto("admin", "hunter2")).is_ok());
    assert!(matches!(check_admin_login(&cfg, &dto("admin", "x")), Err(AppError::Unauthorized)));
    assert!(matches!(check_admin_login(&cfg, &dto("root", "hunter2")), Err(AppError::Unauthorized)));
    assert!(matches!(check_admin_login(&cfg, &dto("", "")), Err(AppError::Unauthorized)));
}

#[test]
fn login_by_stored_credentials() {
    let hash = hash_password("secret123").unwrap();
    let dto = |p: &str| LoginDto { username: "user1".to_string(), password: p.to_string() };
    assert!(matches!(login_user(Some((7, hash.clone())), &dto("secret123")), Ok(7)));
    assert!(matches!(login_user(Some((7, hash)), &dto("wrong")), Err(AppError::Unauthorized)));
    assert!(matches!(login_user(None, &dto("secret123")), Err(AppError::Unauthorized)));
    assert!(matches!(
        login_user(Some((7, "HASH".to_string())), &dto("secret123")),
        Err(AppError::Internal("bad password hash"))
    ));
}

#[test]
fn mint_prefix_defaults() {
    assert_eq!(mint_prefix(&BenchMintReq { count: 3, prefix: None }), "bench_user_");
    assert_eq!(mint_prefix(&BenchMintReq { count: 3, prefix: Some("p_".to_string()) }), "p_");
}

#[test]
fn errors_and_their_responses() {
    let cases: Vec<(AppError, u16, &str, &str)> = vec![
        (AppError::BadRequest("oops"), 400, "00-01-00", "oops"),
        (AppError::Unauthorized, 401, "01-01-00", "未授权"),
        (AppError::Forbidden, 403, "01-02-00", "禁止访问"),
        (AppError::NotFound, 404, "04-04-00", "未找到"),
        (AppError::Internal("secret detail"), 500, "05-00-00", "服务器内部错误"),
    ];
    for (e, status, code, message) in cases {
        assert_eq!(e.status(), status);
        assert_eq!(e.error_code(), code);
        assert_eq!(e.message(), message);
    }
    assert!(matches!(rate_limited(), AppError::BadRequest("抽奖频率过高，请稍后再试")));
    assert!(matches!(database_error(), AppError::Internal("database error")));
    assert!(matches!(selection_fault(), AppError::Internal("selection invariant violated")));
    assert_eq!(rate_limited().status(), 400);
}

#[test]
fn activity_status_names_round_trip() {
    let all = [
        (ActivityStatus::Planned, "planned"),
        (ActivityStatus::Ongoing, "ongoing"),
        (ActivityStatus::Paused, "paused"),
        (ActivityStatus::Ended, "ended"),
    ];
    for (status, name) in all {
        assert_eq!(status.name(), name);
        assert_eq!(ActivityStatus::from_name(name), Some(status));
    }
    assert_eq!(ActivityStatus::from_name("Ongoing"), None);
    assert_eq!(ActivityStatus::from_name(""), None);
    assert_eq!(ActivityStatus::from_name("done"), None);
}

#[test]
fn token_response_and_claims_fields() {
    assert_eq!(JwtResponse::new("abc".to_string()).token, "abc");
    let c = Claims { sub: "user".to_string(), uid: "1".to_string(), exp: 5, is_admin: false };
    assert_eq!(c.exp, 5);
    assert_eq!(c.sub, "user");
}
