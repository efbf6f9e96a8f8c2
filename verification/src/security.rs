//! Caller identity: an opaque token stands, one to one, for a user.

use vstd::prelude::*;
use vstd::string::StringExecFns;

verus! {

/// The identity of the caller of a request.
#[derive(Clone, Debug, PartialEq, Eq)]
pub struct UserCtx {
    pub user_id: String,
}

/// Why a token gives no identity.
#[derive(Clone, Debug, PartialEq, Eq)]
pub enum Error {
    /// The token does not stand for a user.
    InvalidToken(String),
}

impl Error {
    /// The message of the error.
    pub fn message(&self) -> (text: String)
        ensures
            text@ == (match self {
                Error::InvalidToken(token) => "Invalid Token "@ + token@,
            }),
    {
        match self {
            Error::InvalidToken(token) => "Invalid Token ".to_owned().concat(token.as_str()),
        }
    }
}

/// The identity that a token stands for: the user whose identifier is the
/// token itself. Every token stands for a user.
pub fn utx_from_token(token: &str) -> (result: Result<UserCtx, Error>)
    ensures
        result matches Ok(utx) && utx.user_id@ == token@,
{
    Ok(UserCtx { user_id: token.to_owned() })
}

} // verus!
