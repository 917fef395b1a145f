//! The errors that the server's handlers answer with.

use vstd::prelude::*;
use vstd::string::*;
use crate::text::{decimal, render_decimal};

verus! {

pub enum CodeHarmonyResponseError {
    InternalError(i32, String),
    BadRequest(i32, String),
    DatabaseConnection,
    RedisConnection,
    NotLoggedIn,
    DatabaseQueryFailed,
    CouldntParseRows,
}

/// `n` in decimal, with a leading `-` when negative.
pub open spec fn int_text(n: int) -> Seq<char> {
    if n < 0 {
        "-"@ + decimal((-n) as nat)
    } else {
        decimal(n as nat)
    }
}

/// Writes `n` in decimal.
pub fn render_int(n: i32) -> (r: String)
    ensures
        r@ == int_text(n as int),
{
    if n < 0 {
        let magnitude = (-(n as i64)) as usize;
        let mut r = String::from_str("-");
        r.append(render_decimal(magnitude).as_str());
        r
    } else {
        render_decimal(n as usize)
    }
}

/// The JSON body for an error with code `code` and message `msg`.
pub open spec fn coded_text(code: int, msg: Seq<char>) -> Seq<char> {
    "{\"errcode\": "@ + int_text(code) + ", \"msg\": \""@ + msg + "\"}"@
}

impl CodeHarmonyResponseError {
    /// The HTTP status that the error is answered with.
    pub fn status_code(&self) -> (r: u16)
        ensures
            r == match self {
                CodeHarmonyResponseError::BadRequest(_, _) => 400u16,
                CodeHarmonyResponseError::NotLoggedIn => 401u16,
                _ => 500u16,
            },
    {
        match self {
            CodeHarmonyResponseError::InternalError(_, _) => 500,
            CodeHarmonyResponseError::BadRequest(_, _) => 400,
            CodeHarmonyResponseError::DatabaseConnection => 500,
            CodeHarmonyResponseError::RedisConnection => 500,
            CodeHarmonyResponseError::NotLoggedIn => 401,
            CodeHarmonyResponseError::DatabaseQueryFailed => 500,
            CodeHarmonyResponseError::CouldntParseRows => 500,
        }
    }

    /// The JSON body that the error is answered with.
    pub fn message(&self) -> (r: String)
        ensures
            r@ == match self {
                CodeHarmonyResponseError::InternalError(c, m) => coded_text(*c as int, m@),
                CodeHarmonyResponseError::BadRequest(c, m) => coded_text(*c as int, m@),
                CodeHarmonyResponseError::DatabaseConnection => coded_text(
                    0,
                    "Couldn't connect to database"@,
                ),
                CodeHarmonyResponseError::RedisConnection => coded_text(
                    0,
                    "Couldn't connect to Redis"@,
                ),
                CodeHarmonyResponseError::NotLoggedIn => "{\"errcode\":401, \"msg\": \"Not logged in \"}"@,
                CodeHarmonyResponseError::DatabaseQueryFailed => "{\"errcode\":900, \"msg\": \"Database query failed \"}"@,
                CodeHarmonyResponseError::CouldntParseRows => "{\"errcode\":901, \"msg\": \"Couldn't parse rows\"}"@,
            },
    {
        match self {
            CodeHarmonyResponseError::InternalError(c, m) => coded(*c, m.as_str()),
            CodeHarmonyResponseError::BadRequest(c, m) => coded(*c, m.as_str()),
            CodeHarmonyResponseError::DatabaseConnection => coded(0, "Couldn't connect to database"),
            CodeHarmonyResponseError::RedisConnection => coded(0, "Couldn't connect to Redis"),
            CodeHarmonyResponseError::NotLoggedIn => String::from_str(
                "{\"errcode\":401, \"msg\": \"Not logged in \"}",
            ),
            CodeHarmonyResponseError::DatabaseQueryFailed => String::from_str(
                "{\"errcode\":900, \"msg\": \"Database query failed \"}",
            ),
            CodeHarmonyResponseError::CouldntParseRows => String::from_str(
                "{\"errcode\":901, \"msg\": \"Couldn't parse rows\"}",
            ),
        }
    }
}

fn coded(code: i32, msg: &str) -> (r: String)
    ensures
        r@ == coded_text(code as int, msg@),
{
    let mut r = String::from_str("{\"errcode\": ");
    r.append(render_int(code).as_str());
    r.append(", \"msg\": \"");
    r.append(msg);
    r.append("\"}");
    r
}

} // verus!
