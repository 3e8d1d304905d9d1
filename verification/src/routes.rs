//! What the request handlers decide: whether a registration is acceptable,
//! whether a login is the administrator's, and who a token speaks for.

use crate::auth::password_check;
use crate::auth::verify_password;
use crate::auth::Claims;
use crate::config::Config;
use crate::error::AppError;
use crate::error::AppResult;
use crate::ids::parsed_uuid;
use crate::ids::read_id;
use crate::models::LoginDto;
use crate::models::RegisterDto;
use vstd::prelude::*;
use vstd::string::*;
use vstd::utf8::encode_utf8;

verus! {

/// The message for a registration whose name or password is not acceptable.
pub const INVALID_REGISTRATION: &'static str = "用户名或密码不合法";

/// The message for a registration under a name that is taken.
pub const USERNAME_TAKEN: &'static str = "用户名已存在";

/// The least number of bytes of a password.
pub const MIN_PASSWORD_BYTES: usize = 6;

/// The prefix of the names of minted users where the request gives none.
pub const DEFAULT_MINT_PREFIX: &'static str = "bench_user_";

/// What an administrator sends to log in.
#[derive(Debug)]
pub struct AdminLoginDto {
    pub username: String,
    pub password: String,
}

/// A request to mint tokens for `count` users.
#[derive(Debug)]
pub struct BenchMintReq {
    pub count: usize,
    pub prefix: Option<String>,
}

/// A text with the white space at both ends taken off.
pub uninterp spec fn trimmed(text: Seq<char>) -> Seq<char>;

/// Takes the white space off both ends of a text.
///
/// Calls `str::trim`. Trusted: the result is `trimmed` of the text.
#[verifier::external_body]
fn trim(text: &str) -> (inner: &str)
    ensures
        inner@ == trimmed(text@),
{
    text.trim()
}

/// The number of bytes of a text, as a machine number.
pub open spec fn byte_count(text: Seq<char>) -> usize {
    encode_utf8(text).len() as usize
}

/// Whether a registration is acceptable: the name holds more than white
/// space and the password has the least number of bytes.
pub open spec fn acceptable_registration(username: Seq<char>, password: Seq<char>) -> bool {
    trimmed(username).len() > 0 && byte_count(password) >= MIN_PASSWORD_BYTES
}

/// Accepts a registration whose name holds more than white space and whose
/// password is long enough; refuses any other as a bad request.
pub fn check_registration(dto: &RegisterDto) -> (checked: AppResult<()>)
    ensures
        checked == if acceptable_registration(dto.username@, dto.password@) {
            Ok::<(), AppError>(())
        } else {
            Err::<(), AppError>(AppError::BadRequest(INVALID_REGISTRATION))
        },
{
    if trim(dto.username.as_str()).is_empty() || dto.password.as_str().len() < MIN_PASSWORD_BYTES {
        return Err(AppError::BadRequest(INVALID_REGISTRATION));
    }
    Ok(())
}

/// Refuses a registration under a name that is taken as a bad request.
pub fn check_username_free(taken: bool) -> (checked: AppResult<()>)
    ensures
        checked == if taken {
            Err::<(), AppError>(AppError::BadRequest(USERNAME_TAKEN))
        } else {
            Ok::<(), AppError>(())
        },
{
    if taken {
        return Err(AppError::BadRequest(USERNAME_TAKEN));
    }
    Ok(())
}

/// Admits the administrator: the name and the password must both be the
/// configured ones, else the login is unauthorized.
pub fn check_admin_login(cfg: &Config, dto: &AdminLoginDto) -> (checked: AppResult<()>)
    ensures
        checked == if dto.username@ == cfg.admin_username@ && dto.password@
            == cfg.admin_password@ {
            Ok::<(), AppError>(())
        } else {
            Err::<(), AppError>(AppError::Unauthorized)
        },
{
    if dto.username != cfg.admin_username || dto.password != cfg.admin_password {
        return Err(AppError::Unauthorized);
    }
    Ok(())
}

/// What a login returns for the stored credentials and the check of the
/// password: the user, or unauthorized for an unknown name or a wrong
/// password, or the internal error of a hash that cannot be read.
pub open spec fn login_outcome(found: Option<(u128, String)>, password: Seq<char>) -> AppResult<
    u128,
> {
    match found {
        None => Err(AppError::Unauthorized),
        Some((uid, hash)) => match password_check(password, hash@) {
            None => Err(AppError::Internal(crate::auth::BAD_PASSWORD_HASH)),
            Some(false) => Err(AppError::Unauthorized),
            Some(true) => Ok(uid),
        },
    }
}

/// Logs a user in: `found` is the identifier and the password hash stored
/// under the name that `dto` gives, or `None` for an unknown name.
pub fn login_user(found: Option<(u128, String)>, dto: &LoginDto) -> (user: AppResult<u128>)
    ensures
        user == login_outcome(found, dto.password@),
{
    match found {
        None => Err(AppError::Unauthorized),
        Some((uid, hash)) => match verify_password(dto.password.as_str(), hash.as_str()) {
            Err(e) => Err(e),
            Ok(false) => Err(AppError::Unauthorized),
            Ok(true) => Ok(uid),
        },
    }
}

/// The user a token speaks for: the identifier that its `uid` claim stands
/// for; a claim that stands for none is unauthorized.
pub fn user_of(claims: &Claims) -> (user: AppResult<u128>)
    ensures
        user == match parsed_uuid(claims.uid@) {
            Some(id) => Ok::<u128, AppError>(id),
            None => Err::<u128, AppError>(AppError::Unauthorized),
        },
{
    match read_id(claims.uid.as_str()) {
        Some(id) => Ok(id),
        None => Err(AppError::Unauthorized),
    }
}

/// The prefix of the names of the users to mint.
pub fn mint_prefix(req: &BenchMintReq) -> (prefix: String)
    ensures
        prefix@ == match req.prefix {
            Some(text) => text@,
            None => DEFAULT_MINT_PREFIX@,
        },
{
    match &req.prefix {
        Some(text) => text.clone(),
        None => String::from_str(DEFAULT_MINT_PREFIX),
    }
}

} // verus!
