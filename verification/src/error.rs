//! The errors that the library's operations return, and what each one tells
//! the caller.

use vstd::prelude::*;

verus! {

/// The message of a draw that came before the user's cooldown had run out.
pub const RATE_LIMITED: &'static str = "抽奖频率过高，请稍后再试";

/// The message of a failure of the durable store.
pub const DATABASE_ERROR: &'static str = "database error";

/// The message of a roll that lies outside the bounds computed from the weights.
pub const SELECTION_FAULT: &'static str = "selection invariant violated";

/// An error of the application.
#[derive(Debug)]
pub enum AppError {
    BadRequest(&'static str),
    Unauthorized,
    Forbidden,
    NotFound,
    Internal(&'static str),
}

/// The result of an operation of the application.
pub type AppResult<T> = Result<T, AppError>;

impl AppError {
    /// The error of a draw made while the cooldown is running.
    pub open spec fn rate_limited() -> AppError {
        AppError::BadRequest(RATE_LIMITED)
    }

    /// The error of a failure of the durable store.
    pub open spec fn database() -> AppError {
        AppError::Internal(DATABASE_ERROR)
    }

    /// The error of a roll outside its bounds.
    pub open spec fn selection_fault() -> AppError {
        AppError::Internal(SELECTION_FAULT)
    }

    /// The status that a response with this error carries.
    pub open spec fn status_code(self) -> int {
        match self {
            AppError::BadRequest(_) => 400,
            AppError::Unauthorized => 401,
            AppError::Forbidden => 403,
            AppError::NotFound => 404,
            AppError::Internal(_) => 500,
        }
    }

    /// The status of the response that reports this error.
    pub fn status(&self) -> (code: u16)
        ensures
            code == self.status_code(),
    {
        match self {
            AppError::BadRequest(_) => 400,
            AppError::Unauthorized => 401,
            AppError::Forbidden => 403,
            AppError::NotFound => 404,
            AppError::Internal(_) => 500,
        }
    }

    /// The code by which clients tell the kinds of error apart.
    pub fn error_code(&self) -> (code: &'static str)
        ensures
            self is BadRequest ==> code@ == "00-01-00"@,
            self is Unauthorized ==> code@ == "01-01-00"@,
            self is Forbidden ==> code@ == "01-02-00"@,
            self is NotFound ==> code@ == "04-04-00"@,
            self is Internal ==> code@ == "05-00-00"@,
    {
        match self {
            AppError::BadRequest(_) => "00-01-00",
            AppError::Unauthorized => "01-01-00",
            AppError::Forbidden => "01-02-00",
            AppError::NotFound => "04-04-00",
            AppError::Internal(_) => "05-00-00",
        }
    }

    /// The text shown to the user: the request's own fault is told as it is,
    /// an internal one is not.
    pub fn message(&self) -> (text: &'static str)
        ensures
            self matches AppError::BadRequest(m) ==> text == m,
            self is Unauthorized ==> text@ == "未授权"@,
            self is Forbidden ==> text@ == "禁止访问"@,
            self is NotFound ==> text@ == "未找到"@,
            self is Internal ==> text@ == "服务器内部错误"@,
    {
        match self {
            AppError::BadRequest(m) => m,
            AppError::Unauthorized => "未授权",
            AppError::Forbidden => "禁止访问",
            AppError::NotFound => "未找到",
            AppError::Internal(_) => "服务器内部错误",
        }
    }
}

/// The error of a draw made while the cooldown is running.
pub fn rate_limited() -> (e: AppError)
    ensures
        e == AppError::rate_limited(),
{
    AppError::BadRequest(RATE_LIMITED)
}

/// The error of a failure of the durable store.
pub fn database_error() -> (e: AppError)
    ensures
        e == AppError::database(),
{
    AppError::Internal(DATABASE_ERROR)
}

/// The error of a roll outside its bounds.
pub fn selection_fault() -> (e: AppError)
    ensures
        e == AppError::selection_fault(),
{
    AppError::Internal(SELECTION_FAULT)
}

} // verus!
