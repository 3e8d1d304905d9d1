//! Tokens and passwords: what a token claims and until when, and the hashing
//! and checking of passwords.

use crate::chance::clock_now;
use crate::chance::since_epoch;
use crate::chance::whole_seconds;
use crate::chance::word_from;
use crate::chance::word_of;
use crate::error::AppError;
use crate::error::AppResult;
use argon2::password_hash::PasswordHasher;
use argon2::password_hash::PasswordVerifier;
use vstd::prelude::*;
use vstd::string::*;

verus! {

/// The number of seconds for which a token is valid: seven days.
pub const TOKEN_LIFETIME_SECS: usize = 604800;

/// The subject of an administrator's token.
pub const ADMIN_SUBJECT: &'static str = "admin";

/// The subject of a user's token.
pub const USER_SUBJECT: &'static str = "user";

/// The message of a password that could not be hashed.
pub const PASSWORD_HASH_FAILED: &'static str = "password hash failed";

/// The message of a stored hash that cannot be read.
pub const BAD_PASSWORD_HASH: &'static str = "bad password hash";

/// What a token claims.
#[derive(Debug)]
pub struct Claims {
    pub sub: String,
    pub uid: String,
    pub exp: usize,
    pub is_admin: bool,
}

/// The error of the password hashing functions.
#[verifier::external_type_specification]
#[verifier::external_body]
pub struct ExPasswordHashError(argon2::password_hash::Error);

/// What checking a password against a stored hash gives: `None` for a hash
/// that cannot be read, else whether the password matches it.
pub uninterp spec fn password_check(pw: Seq<char>, hash: Seq<char>) -> Option<bool>;

/// Hashes a password with a fresh random salt.
///
/// Calls `argon2::password_hash::SaltString::generate` with the operating
/// system's generator and `PasswordHasher::hash_password` of
/// `argon2::Argon2::default()`, and writes the hash as text. The salt is
/// random, so which hash comes back is not claimed, nor that one does.
/// Trusted, as the crate's documented usage shows it: a hash that comes back
/// is one that checking the same password against it accepts. The call
/// fails only where the operating system's generator does.
#[verifier::external_body]
fn argon2_hash(pw: &str) -> (hashed: Result<String, argon2::password_hash::Error>)
    ensures
        hashed matches Ok(text) ==> password_check(pw@, text@) == Some(true),
{
    let salt = argon2::password_hash::SaltString::generate(&mut rand::rngs::OsRng);
    argon2::Argon2::default().hash_password(pw.as_bytes(), &salt).map(|h| h.to_string())
}

/// Checks a password against a stored hash.
///
/// Reads the hash with `argon2::PasswordHash::new` and calls
/// `PasswordVerifier::verify_password` of `argon2::Argon2::default()`.
/// Trusted: the result is `password_check` of the two texts, `None` where
/// the hash cannot be read.
#[verifier::external_body]
fn argon2_check(pw: &str, hash: &str) -> (checked: Option<bool>)
    ensures
        checked == password_check(pw@, hash@),
{
    match argon2::PasswordHash::new(hash) {
        Ok(parsed) => Some(argon2::Argon2::default().verify_password(pw.as_bytes(), &parsed).is_ok()),
        Err(_) => None,
    }
}

/// The seconds since the epoch, by the system clock, as far as they fit a
/// machine word; zero for a clock that stands before the epoch.
pub fn now_ts() -> (secs: usize)
    ensures
        exists|reading: Option<u64>| secs == #[trigger] word_of(reading),
{
    let reading = match since_epoch(&clock_now()) {
        Some(elapsed) => Some(whole_seconds(&elapsed)),
        None => None,
    };
    word_from(reading)
}

/// The claims of a token issued at `now` for `uid`: the subject tells an
/// administrator from a user, and the token expires after the token lifetime.
pub fn claims_for(uid: &str, is_admin: bool, now: usize) -> (claims: Claims)
    requires
        now + TOKEN_LIFETIME_SECS <= usize::MAX,
    ensures
        claims.sub@ == if is_admin {
            ADMIN_SUBJECT@
        } else {
            USER_SUBJECT@
        },
        claims.uid@ == uid@,
        claims.exp == now + TOKEN_LIFETIME_SECS,
        claims.is_admin == is_admin,
{
    let sub = if is_admin {
        String::from_str(ADMIN_SUBJECT)
    } else {
        String::from_str(USER_SUBJECT)
    };
    Claims { sub, uid: String::from_str(uid), exp: now + TOKEN_LIFETIME_SECS, is_admin }
}

/// The claims of a token for `uid` issued at `now`, or `None` where the
/// expiry would not fit the machine's numbers.
pub fn issue_claims(uid: &str, is_admin: bool, now: usize) -> (claims: Option<Claims>)
    ensures
        claims is Some <==> now + TOKEN_LIFETIME_SECS <= usize::MAX,
        claims matches Some(c) ==> {
            &&& c.sub@ == if is_admin {
                ADMIN_SUBJECT@
            } else {
                USER_SUBJECT@
            }
            &&& c.uid@ == uid@
            &&& c.exp == now + TOKEN_LIFETIME_SECS
            &&& c.is_admin == is_admin
        },
{
    if now <= usize::MAX - TOKEN_LIFETIME_SECS {
        Some(claims_for(uid, is_admin, now))
    } else {
        None
    }
}

/// Admits administrators only: a token of anyone else is forbidden.
pub fn ensure_admin(claims: &Claims) -> (admitted: AppResult<()>)
    ensures
        admitted == if claims.is_admin {
            Ok::<(), AppError>(())
        } else {
            Err::<(), AppError>(AppError::Forbidden)
        },
{
    if !claims.is_admin {
        return Err(AppError::Forbidden);
    }
    Ok(())
}

/// What hashing a password returns for each result of the hasher: the hash,
/// or an internal error.
pub fn hashed(result: Result<String, argon2::password_hash::Error>) -> (hash: AppResult<String>)
    ensures
        hash == match result {
            Ok(text) => Ok::<String, AppError>(text),
            Err(_) => Err::<String, AppError>(AppError::Internal(PASSWORD_HASH_FAILED)),
        },
{
    match result {
        Ok(text) => Ok(text),
        Err(_) => Err(AppError::Internal(PASSWORD_HASH_FAILED)),
    }
}

/// Hashes a password with a fresh random salt. A hash that is returned is
/// one that checking the same password against it accepts; whatever the
/// hasher did, a failure is the internal error of a password that could not
/// be hashed.
pub fn hash_password(pw: &str) -> (hash: AppResult<String>)
    ensures
        hash matches Ok(text) ==> password_check(pw@, text@) == Some(true),
        hash is Err ==> hash == Err::<String, AppError>(AppError::Internal(PASSWORD_HASH_FAILED)),
{
    hashed(argon2_hash(pw))
}

/// What checking a password returns for each result of the check: whether
/// the password matched, or an internal error for a hash that cannot be read.
pub fn judged(checked: Option<bool>) -> (verdict: AppResult<bool>)
    ensures
        verdict == match checked {
            Some(matches) => Ok::<bool, AppError>(matches),
            None => Err::<bool, AppError>(AppError::Internal(BAD_PASSWORD_HASH)),
        },
{
    match checked {
        Some(matches) => Ok(matches),
        None => Err(AppError::Internal(BAD_PASSWORD_HASH)),
    }
}

/// Checks a password against a stored hash: whether it matches, or an
/// internal error for a hash that cannot be read.
pub fn verify_password(pw: &str, hash: &str) -> (verdict: AppResult<bool>)
    ensures
        verdict == match password_check(pw@, hash@) {
            Some(matches) => Ok::<bool, AppError>(matches),
            None => Err::<bool, AppError>(AppError::Internal(BAD_PASSWORD_HASH)),
        },
{
    judged(argon2_check(pw, hash))
}

} // verus!
