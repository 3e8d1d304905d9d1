//! The rows of the durable store and the values exchanged with callers.
//! Identifiers are 128-bit numbers and instants are seconds since the epoch.

use vstd::prelude::*;
use vstd::string::*;

verus! {

/// A campaign's state.
#[derive(Clone, Copy, Debug, PartialEq, Eq, Structural)]
pub enum ActivityStatus {
    Planned,
    Ongoing,
    Paused,
    Ended,
}

impl ActivityStatus {
    /// The name under which the state is stored and sent: the variant's name
    /// in lower case.
    pub open spec fn spec_name(self) -> Seq<char> {
        match self {
            ActivityStatus::Planned => "planned"@,
            ActivityStatus::Ongoing => "ongoing"@,
            ActivityStatus::Paused => "paused"@,
            ActivityStatus::Ended => "ended"@,
        }
    }

    /// The name under which the state is stored and sent.
    pub fn name(self) -> (text: &'static str)
        ensures
            text@ == self.spec_name(),
    {
        match self {
            ActivityStatus::Planned => "planned",
            ActivityStatus::Ongoing => "ongoing",
            ActivityStatus::Paused => "paused",
            ActivityStatus::Ended => "ended",
        }
    }

    /// The state that a name stands for; `None` for any other text.
    pub fn from_name(text: &str) -> (status: Option<ActivityStatus>)
        ensures
            match status {
                Some(s) => text@ == s.spec_name(),
                None => text@ != "planned"@ && text@ != "ongoing"@ && text@ != "paused"@ && text@
                    != "ended"@,
            },
    {
        if str_eq(text, "planned") {
            Some(ActivityStatus::Planned)
        } else if str_eq(text, "ongoing") {
            Some(ActivityStatus::Ongoing)
        } else if str_eq(text, "paused") {
            Some(ActivityStatus::Paused)
        } else if str_eq(text, "ended") {
            Some(ActivityStatus::Ended)
        } else {
            None
        }
    }
}

/// Whether two texts are the same.
fn str_eq(a: &str, b: &str) -> (same: bool)
    ensures
        same == (a@ == b@),
{
    String::from_str(a) == String::from_str(b)
}

/// A prize as the durable store holds it.
#[derive(Clone, Debug)]
pub struct Prize {
    pub id: u128,
    pub activity_id: u128,
    pub name: String,
    pub description: Option<String>,
    /// The stock the prize was created with.
    pub total_count: i64,
    /// The units still to be won.
    pub remaining_count: i64,
    /// The weight of the prize in a draw.
    pub probability: i32,
    pub is_enabled: bool,
}

/// One draw as it is written down: who drew, and what was won, if anything.
#[derive(Clone, Debug)]
pub struct LotteryRecord {
    pub id: u128,
    pub user_id: u128,
    pub prize_id: Option<u128>,
    pub prize_name: Option<String>,
    pub created_at: i64,
}

/// What a new user sends to register.
#[derive(Debug)]
pub struct RegisterDto {
    pub username: String,
    pub password: String,
    pub email: Option<String>,
}

/// What a user sends to log in.
#[derive(Debug)]
pub struct LoginDto {
    pub username: String,
    pub password: String,
}

/// The token handed out after a successful login.
#[derive(Debug)]
pub struct JwtResponse {
    pub token: String,
}

impl JwtResponse {
    /// The response that hands out `token`.
    pub fn new(token: String) -> (response: JwtResponse)
        ensures
            response.token == token,
    {
        JwtResponse { token }
    }
}

impl Prize {
    /// The stock lies between zero and the stock the prize was created with.
    pub open spec fn stock_in_range(self) -> bool {
        0 <= self.remaining_count <= self.total_count
    }

    /// The same prize with another remaining count.
    pub open spec fn with_remaining(self, remaining: i64) -> Prize {
        Prize { remaining_count: remaining, ..self }
    }
}

} // verus!
