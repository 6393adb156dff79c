//! Account, session and request records of the administration service.

use crate::calendar::Date;
use crate::text::text_eq;
use vstd::prelude::*;

verus! {

/// Where an enrollee stands on the day of admission.
#[derive(Clone, Copy, Debug, PartialEq, Eq, Structural)]
pub enum Status {
    Wait,
    Processed,
    Absent,
}

/// The lower-case name of a status.
pub open spec fn status_text(s: Status) -> Seq<char> {
    match s {
        Status::Wait => "wait"@,
        Status::Processed => "processed"@,
        Status::Absent => "absent"@,
    }
}

impl Status {
    /// The status named `input` ("wait", "processed" or "absent").
    pub fn from_str(input: &str) -> (r: Result<Status, &'static str>)
        ensures
            input@ == "wait"@ ==> r == Ok::<Status, &'static str>(Status::Wait),
            input@ == "processed"@ ==> r == Ok::<Status, &'static str>(Status::Processed),
            input@ == "absent"@ ==> r == Ok::<Status, &'static str>(Status::Absent),
            r is Ok <==> (input@ == "wait"@ || input@ == "processed"@ || input@ == "absent"@),
            r is Err ==> r == Err::<Status, &'static str>("Failed to determine status from input"),
    {
        proof {
            reveal_strlit("wait");
            reveal_strlit("processed");
            reveal_strlit("absent");
            assert("wait"@.len() == 4);
            assert("processed"@.len() == 9);
            assert("absent"@.len() == 6);
        }
        if text_eq(input, "wait") {
            Ok(Status::Wait)
        } else if text_eq(input, "processed") {
            Ok(Status::Processed)
        } else if text_eq(input, "absent") {
            Ok(Status::Absent)
        } else {
            Err("Failed to determine status from input")
        }
    }

    /// The status's lower-case name.
    pub fn as_str(&self) -> (r: &'static str)
        ensures
            r@ == status_text(*self),
    {
        match self {
            Status::Wait => "wait",
            Status::Processed => "processed",
            Status::Absent => "absent",
        }
    }
}

/// An enrollee with their place in the queue.
#[derive(Clone, Debug)]
pub struct Enrollee {
    pub id: i64,
    pub last_name: String,
    pub name: String,
    pub patronymic: String,
    pub date: Date,
    /// Minutes since midnight.
    pub time: u32,
    pub status: Status,
    pub username: String,
    pub phone_number: String,
}

/// What an account may do.
#[derive(Clone, Copy, Debug, PartialEq, Eq, Structural)]
pub enum Role {
    Admin,
    User,
}

/// A stored account.
#[derive(Clone, Debug)]
pub struct User {
    pub id: i32,
    pub username: String,
    pub email: String,
    pub password: String,
    pub role: Role,
}

/// What a session knows of its account.
#[derive(Clone, Debug)]
pub struct AuthInfo {
    pub id: i32,
    pub username: String,
    pub role: Role,
}

/// The claims of an access token.
#[derive(Clone, Debug)]
pub struct AccessToken {
    pub sub: i32,
    pub exp: i64,
    pub username: String,
    pub role: Role,
}

impl AuthInfo {
    /// The session view of a stored account.
    pub fn from_user(user: User) -> (r: AuthInfo)
        ensures
            r.id == user.id,
            r.username@ == user.username@,
            r.role == user.role,
    {
        AuthInfo { id: user.id, username: user.username, role: user.role }
    }

    /// The session view of an access token's claims.
    pub fn from_token(token: AccessToken) -> (r: AuthInfo)
        ensures
            r.id == token.sub,
            r.username@ == token.username@,
            r.role == token.role,
    {
        AuthInfo { id: token.sub, username: token.username, role: token.role }
    }
}

impl AccessToken {
    /// Claims for `info` that expire at `exp` (seconds since the epoch).
    pub fn for_session(info: AuthInfo, exp: i64) -> (r: AccessToken)
        ensures
            r.sub == info.id,
            r.exp == exp,
            r.username@ == info.username@,
            r.role == info.role,
    {
        AccessToken { sub: info.id, exp, username: info.username, role: info.role }
    }
}

/// A refusal sent back to a client: a message and an HTTP status code.
#[derive(Clone, Debug)]
pub struct Error {
    pub message: String,
    pub status: u16,
}

/// The status code of a refusal that names none.
pub const BAD_REQUEST: u16 = 400;

impl Error {
    /// A refusal with `message` and status 400.
    pub fn from_message(message: &str) -> (r: Error)
        ensures
            r.message@ == message@,
            r.status == BAD_REQUEST,
    {
        Error { message: message.to_owned(), status: BAD_REQUEST }
    }

    /// A refusal with `message` and `status`.
    pub fn with_status(message: &str, status: u16) -> (r: Error)
        ensures
            r.message@ == message@,
            r.status == status,
    {
        Error { message: message.to_owned(), status }
    }
}

/// Verifier of client tokens against the reCAPTCHA service.
#[derive(Clone, Debug)]
pub struct ReCaptcha {
    pub token: String,
}

impl ReCaptcha {
    pub fn new(token: String) -> (r: ReCaptcha)
        ensures
            r.token@ == token@,
    {
        ReCaptcha { token }
    }
}

/// An enrollee entered into the queue by an administrator.
#[derive(Clone, Debug)]
pub struct QueueInfo {
    pub last_name: String,
    pub name: String,
    pub patronymic: String,
    pub phone_number: String,
    pub date: String,
    pub time: String,
}

/// A request to open an account.
#[derive(Clone, Debug)]
pub struct RegistrationInfo {
    pub username: String,
    pub password: String,
    pub email: String,
    pub token: String,
}

/// A request to sign in.
#[derive(Clone, Debug)]
pub struct LoginInfo {
    pub username: String,
    pub password: String,
    pub fingerprint: String,
}

} // verus!
