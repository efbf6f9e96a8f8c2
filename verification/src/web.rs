//! What the HTTP boundary decides: who the caller is, and what an error
//! looks like in a reply.

use vstd::prelude::*;
use vstd::string::StringExecFns;
use crate::scraping::ScrapeError;
use crate::security::{UserCtx, utx_from_token};

verus! {

/// The status of every error reply.
pub const ERROR_STATUS: u16 = 400;

/// An error as it travels to the HTTP boundary.
#[derive(Clone, Debug, PartialEq, Eq)]
pub struct WebErrorMessage {
    /// The kind of the error, as the reply names it.
    pub typ: &'static str,
    /// The details, for the server's log.
    pub message: String,
}

/// The errors of the web layer itself.
#[derive(Clone, Debug, PartialEq, Eq)]
pub enum Error {
    /// The folder of static files does not exist.
    FailStartWebFolderNotFound(String),
    /// A request came without the `X-Auth-Token` header.
    FailAuthMissingXAuth,
}

/// The reply that an error ends in: a status and the body's `error` field.
#[derive(Clone, Debug, PartialEq, Eq)]
pub struct ErrorReply {
    pub status: u16,
    pub error: String,
}

impl Error {
    /// The message of the error.
    pub fn message(&self) -> (text: String)
        ensures
            text@ == (match self {
                Error::FailStartWebFolderNotFound(folder) =>
                    "Web server failed to start because web-folder '"@ + folder@ + "' not found."@,
                Error::FailAuthMissingXAuth => "Fail authentication missing X-Auth-Token header."@,
            }),
    {
        match self {
            Error::FailStartWebFolderNotFound(folder) => {
                "Web server failed to start because web-folder '".to_owned().concat(
                    folder.as_str(),
                ).concat("' not found.")
            },
            Error::FailAuthMissingXAuth => {
                "Fail authentication missing X-Auth-Token header.".to_owned()
            },
        }
    }
}

impl WebErrorMessage {
    /// An error of the given kind with the given details.
    pub fn new(typ: &'static str, message: String) -> (e: WebErrorMessage)
        ensures
            e.typ@ == typ@,
            e.message@ == message@,
    {
        WebErrorMessage { typ, message }
    }

    /// A failed scrape as an error of the web layer.
    pub fn from_scrape_error(error: &ScrapeError) -> (e: WebErrorMessage)
        ensures
            e.typ@ == "web::Error"@,
            e.message@ == (match error {
                ScrapeError::Decode => "invalid url encoding"@,
                ScrapeError::Fetch(_) => "could not retrieve page"@,
            }),
    {
        WebErrorMessage { typ: "web::Error", message: error.message() }
    }
}

/// Decides who the caller is from the `X-Auth-Token` header of a request.
/// A request without the header is refused; a token gives the user that it
/// stands for.
pub fn do_auth(xauth: Option<String>) -> (result: Result<UserCtx, Error>)
    ensures
        match xauth {
            Some(token) => result matches Ok(utx) && utx.user_id@ == token@,
            None => result == Err::<UserCtx, Error>(Error::FailAuthMissingXAuth),
        },
{
    match xauth {
        Some(token) => match utx_from_token(token.as_str()) {
            Ok(utx) => Ok(utx),
            Err(_) => Err(Error::FailAuthMissingXAuth),
        },
        None => Err(Error::FailAuthMissingXAuth),
    }
}

/// Decides the reply for a refused request. The reply names the kind of
/// the error that the request was refused with, if there is one, and
/// always carries the status [`ERROR_STATUS`].
pub fn handle_rejection(cause: Option<&WebErrorMessage>) -> (reply: ErrorReply)
    ensures
        reply.status == ERROR_STATUS,
        reply.error@ == (match cause {
            Some(e) => e.typ@,
            None => "Unhandled rejection"@,
        }),
{
    let error = match cause {
        Some(e) => e.typ.to_owned(),
        None => "Unhandled rejection".to_owned(),
    };
    ErrorReply { status: ERROR_STATUS, error }
}

} // verus!
