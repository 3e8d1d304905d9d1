//! The settings of the service.

use crate::error::AppError;
use vstd::prelude::*;
use vstd::string::*;

verus! {

/// The address the server listens on where none is set.
pub const DEFAULT_SERVER_ADDR: &'static str = "0.0.0.0:8080";

/// The administrator's name and password where none is set.
pub const DEFAULT_ADMIN: &'static str = "admin";

/// The message for a service started without a database.
pub const DATABASE_URL_NOT_SET: &'static str = "DATABASE_URL not set";

/// The message for a service started without a secret for its tokens.
pub const JWT_SECRET_NOT_SET: &'static str = "JWT_SECRET not set";

/// The settings of the service.
#[derive(Clone, Debug)]
pub struct Config {
    pub database_url: String,
    pub jwt_secret: String,
    pub server_addr: String,
    pub admin_username: String,
    pub admin_password: String,
}

/// The text of a setting: its value where it is set, else the default.
pub open spec fn setting_or(value: Option<String>, default: &str) -> Seq<char> {
    match value {
        Some(text) => text@,
        None => default@,
    }
}

/// The value of a setting, or the default where it is not set.
fn or_default(value: Option<String>, default: &str) -> (text: String)
    ensures
        text@ == setting_or(value, default),
{
    match value {
        Some(text) => text,
        None => String::from_str(default),
    }
}

impl Config {
    /// The settings from the values found in the environment, `None` for a
    /// variable that is not set. The database and the token secret must be
    /// set; the others have defaults.
    pub fn from_values(
        database_url: Option<String>,
        jwt_secret: Option<String>,
        server_addr: Option<String>,
        admin_username: Option<String>,
        admin_password: Option<String>,
    ) -> (cfg: Result<Config, AppError>)
        ensures
            database_url is None ==> cfg == Err::<Config, AppError>(
                AppError::Internal(DATABASE_URL_NOT_SET),
            ),
            database_url is Some && jwt_secret is None ==> cfg == Err::<Config, AppError>(
                AppError::Internal(JWT_SECRET_NOT_SET),
            ),
            database_url is Some && jwt_secret is Some ==> (cfg matches Ok(c) && {
                &&& Some(c.database_url) == database_url
                &&& Some(c.jwt_secret) == jwt_secret
                &&& c.server_addr@ == setting_or(server_addr, DEFAULT_SERVER_ADDR)
                &&& c.admin_username@ == setting_or(admin_username, DEFAULT_ADMIN)
                &&& c.admin_password@ == setting_or(admin_password, DEFAULT_ADMIN)
            }),
    {
        let database_url = match database_url {
            Some(url) => url,
            None => {
                return Err(AppError::Internal(DATABASE_URL_NOT_SET));
            },
        };
        let jwt_secret = match jwt_secret {
            Some(secret) => secret,
            None => {
                return Err(AppError::Internal(JWT_SECRET_NOT_SET));
            },
        };
        Ok(
            Config {
                database_url,
                jwt_secret,
                server_addr: or_default(server_addr, DEFAULT_SERVER_ADDR),
                admin_username: or_default(admin_username, DEFAULT_ADMIN),
                admin_password: or_default(admin_password, DEFAULT_ADMIN),
            },
        )
    }
}

} // verus!
