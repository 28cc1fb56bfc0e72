//! Errors that the service answers with, their statuses and texts, and the
//! report of a task that has exited.

use vstd::prelude::*;
use vstd::string::StringExecFns;
use crate::model::texts;

verus! {

/// Status of a redirect.
pub const STATUS_SEE_OTHER: u16 = 303;

/// Status for a caller that is not entitled.
pub const STATUS_UNAUTHORIZED: u16 = 401;

/// Status for a failure of the service itself.
pub const STATUS_INTERNAL_SERVER_ERROR: u16 = 500;

/// Why credentials were not accepted. Each variant carries the cause.
#[derive(Debug)]
pub enum AuthError {
    /// The credentials are wrong.
    InvalidCredentials(String),
    /// The check itself failed.
    UnexpectedError(String),
}

impl AuthError {
    /// The text of the error: a fixed one for wrong credentials, the cause
    /// itself otherwise.
    pub fn message(&self) -> (text: String)
        ensures
            text@ == match *self {
                AuthError::InvalidCredentials(_) => "Invalid credentials."@,
                AuthError::UnexpectedError(cause) => cause@,
            },
    {
        match self {
            AuthError::InvalidCredentials(_) => "Invalid credentials.".to_string(),
            AuthError::UnexpectedError(cause) => cause.clone(),
        }
    }
}

/// Why a login failed. Each variant carries the cause.
#[derive(Debug)]
pub enum LoginError {
    /// The credentials were not accepted.
    AuthError(String),
    /// Something else failed.
    UnexpectedError(String),
}

impl LoginError {
    /// The login error that an authentication error becomes. The cause is
    /// the text of the authentication error.
    pub fn from_auth(e: &AuthError) -> (r: LoginError)
        ensures
            match (*e, r) {
                (AuthError::InvalidCredentials(_), LoginError::AuthError(text)) => text@
                    == "Invalid credentials."@,
                (AuthError::UnexpectedError(cause), LoginError::UnexpectedError(text)) => text@
                    == cause@,
                _ => false,
            },
    {
        match e {
            AuthError::InvalidCredentials(_) => LoginError::AuthError(e.message()),
            AuthError::UnexpectedError(_) => LoginError::UnexpectedError(e.message()),
        }
    }

    /// The text shown to the user.
    pub fn message(&self) -> (text: String)
        ensures
            text@ == match *self {
                LoginError::AuthError(_) => "Authentication failed"@,
                LoginError::UnexpectedError(_) => "Something went wrong"@,
            },
    {
        match self {
            LoginError::AuthError(_) => "Authentication failed".to_string(),
            LoginError::UnexpectedError(_) => "Something went wrong".to_string(),
        }
    }

    /// The status of the answer: always a redirect, back to the login page.
    pub fn status_code(&self) -> (status: u16)
        ensures
            status == STATUS_SEE_OTHER,
    {
        STATUS_SEE_OTHER
    }
}

/// The parameters of a confirmation link.
#[derive(Debug)]
pub struct Parameters {
    pub subscription_token: String,
}

/// Why a subscription was not confirmed.
#[derive(Debug)]
pub enum ConfirmError {
    /// The database failed; the variant carries the cause.
    DatabaseError(String),
    /// No subscriber goes with the token.
    SubscriptionIdNotFound,
}

impl ConfirmError {
    /// The status of the answer.
    pub fn status_code(&self) -> (status: u16)
        ensures
            status == match *self {
                ConfirmError::DatabaseError(_) => STATUS_INTERNAL_SERVER_ERROR,
                ConfirmError::SubscriptionIdNotFound => STATUS_UNAUTHORIZED,
            },
    {
        match self {
            ConfirmError::DatabaseError(_) => STATUS_INTERNAL_SERVER_ERROR,
            ConfirmError::SubscriptionIdNotFound => STATUS_UNAUTHORIZED,
        }
    }

    /// The text of the error.
    pub fn message(&self) -> (text: String)
        ensures
            text@ == match *self {
                ConfirmError::DatabaseError(cause) => cause@,
                ConfirmError::SubscriptionIdNotFound =>
                    "No subscriber found based on the given subscription token link"@,
            },
    {
        match self {
            ConfirmError::DatabaseError(cause) => cause.clone(),
            ConfirmError::SubscriptionIdNotFound =>
                "No subscriber found based on the given subscription token link".to_string(),
        }
    }
}

/// An error's text followed by the texts of its causes, outermost first:
/// the text and an empty line, then for each cause a line `Caused by:` and
/// the cause on a line of its own behind a tab.
pub open spec fn chain_text(message: Seq<char>, causes: Seq<Seq<char>>) -> Seq<char>
    decreases causes.len(),
{
    if causes.len() == 0 {
        message + "\n\n"@
    } else {
        chain_text(message, causes.drop_last()) + "Caused by:\n\t"@ + causes.last() + "\n"@
    }
}

/// Writes out an error with the whole chain of its causes.
pub fn error_chain_fmt(message: &str, causes: &Vec<String>) -> (text: String)
    ensures
        text@ == chain_text(message@, texts(causes@)),
{
    let mut text = String::from_str(message);
    text.append("\n\n");
    let mut i: usize = 0;
    assert(texts(causes@).subrange(0, 0) =~= Seq::empty());
    while i < causes.len()
        invariant
            i <= causes.len(),
            text@ == chain_text(message@, texts(causes@).subrange(0, i as int)),
        decreases causes.len() - i,
    {
        text.append("Caused by:\n\t");
        text.append(causes[i].as_str());
        text.append("\n");
        proof {
            let upto = texts(causes@).subrange(0, i + 1);
            assert(upto.drop_last() =~= texts(causes@).subrange(0, i as int));
            assert(upto.last() == causes@[i as int]@);
        }
        i += 1;
    }
    assert(texts(causes@).subrange(0, i as int) =~= texts(causes@));
    text
}

/// How grave a report is.
#[derive(Clone, Copy, Debug, PartialEq, Eq, Structural)]
pub enum Level {
    Info,
    Error,
}

/// What is logged when a task has exited.
#[derive(Debug)]
pub struct ExitReport {
    pub level: Level,
    pub message: String,
    /// The text of the error, where there was one.
    pub cause: Option<String>,
}

/// The level of the report on `outcome`: an error unless the task ran to
/// its end without one.
pub open spec fn exit_level(outcome: Result<Result<(), String>, String>) -> Level {
    match outcome {
        Ok(Ok(())) => Level::Info,
        _ => Level::Error,
    }
}

/// The message of the report on `outcome` for the task `task_name`.
pub open spec fn exit_message(
    task_name: Seq<char>,
    outcome: Result<Result<(), String>, String>,
) -> Seq<char> {
    match outcome {
        Ok(Ok(())) => task_name + " has exited"@,
        Ok(Err(_)) => task_name + " failed"@,
        Err(_) => task_name + " task failed to complete"@,
    }
}

/// The cause in the report on `outcome`.
pub open spec fn exit_cause(outcome: Result<Result<(), String>, String>) -> Option<Seq<char>> {
    match outcome {
        Ok(Ok(())) => None,
        Ok(Err(e)) => Some(e@),
        Err(e) => Some(e@),
    }
}

/// The text of the cause, if there is one.
pub open spec fn cause_view(cause: Option<String>) -> Option<Seq<char>> {
    match cause {
        Some(text) => Some(text@),
        None => None,
    }
}

/// Reports how the task `task_name` has exited. The outer error is that of
/// a task that could not be run to its end, the inner one that of a task
/// that ended with an error.
pub fn report_exit(task_name: &str, outcome: &Result<Result<(), String>, String>) -> (report:
    ExitReport)
    ensures
        report.level == exit_level(*outcome),
        report.message@ == exit_message(task_name@, *outcome),
        cause_view(report.cause) == exit_cause(*outcome),
{
    let mut message = String::from_str(task_name);
    match outcome {
        Ok(Ok(())) => {
            message.append(" has exited");
            ExitReport { level: Level::Info, message, cause: None }
        },
        Ok(Err(e)) => {
            message.append(" failed");
            ExitReport { level: Level::Error, message, cause: Some(e.clone()) }
        },
        Err(e) => {
            message.append(" task failed to complete");
            ExitReport { level: Level::Error, message, cause: Some(e.clone()) }
        },
    }
}

} // verus!
