//! Everything that can go wrong, and what the client is told about it.
use crate::rps::models::RPSError;
use vstd::prelude::*;

verus! {

/// Why a user was not let in.
#[derive(Debug, Clone, Copy, PartialEq, Eq)]
pub enum AuthenticationError {
    UserNotFound,
    UserAlreadyExists,
    BadPassword,
    InvalidToken,
}

/// The HTTP status of an authentication error.
pub open spec fn auth_status(error: AuthenticationError) -> u16 {
    match error {
        AuthenticationError::UserNotFound => 404,
        AuthenticationError::UserAlreadyExists => 409,
        AuthenticationError::BadPassword => 401,
        AuthenticationError::InvalidToken => 401,
    }
}

/// The name of an authentication error.
pub open spec fn auth_text(error: AuthenticationError) -> Seq<char> {
    match error {
        AuthenticationError::UserNotFound => "User not found"@,
        AuthenticationError::UserAlreadyExists => "Username taken"@,
        AuthenticationError::BadPassword => "Invalid credentials"@,
        AuthenticationError::InvalidToken => "Invalid token"@,
    }
}

impl AuthenticationError {
    /// The HTTP status that answers the error: not found, conflict, or
    /// unauthorized.
    pub fn status_code(&self) -> (code: u16)
        ensures
            code == auth_status(*self),
    {
        match self {
            AuthenticationError::UserNotFound => 404,
            AuthenticationError::UserAlreadyExists => 409,
            AuthenticationError::BadPassword => 401,
            AuthenticationError::InvalidToken => 401,
        }
    }

    /// The name of the error.
    pub fn to_string(&self) -> (text: String)
        ensures
            text@ == auth_text(*self),
    {
        match self {
            AuthenticationError::UserNotFound => "User not found".to_owned(),
            AuthenticationError::UserAlreadyExists => "Username taken".to_owned(),
            AuthenticationError::BadPassword => "Invalid credentials".to_owned(),
            AuthenticationError::InvalidToken => "Invalid token".to_owned(),
        }
    }
}

/// Every error of the server. Errors of the layers below carry nothing that
/// the client is told, so only their kind is kept.
#[derive(Debug, Clone, Copy)]
pub enum GlobalError {
    DieselError,
    FileSystemError,
    JwtError,
    BcryptError,
    SerdeError,
    ActixError,
    R2D2Error,
    AuthenticationError(AuthenticationError),
    RPSError(RPSError),
}

/// What the client is told about an error.
pub open spec fn message_text(error: GlobalError) -> Seq<char> {
    match error {
        GlobalError::AuthenticationError(AuthenticationError::UserNotFound) => "Not found"@,
        GlobalError::AuthenticationError(AuthenticationError::UserAlreadyExists) => "Username taken"@,
        GlobalError::AuthenticationError(AuthenticationError::BadPassword) => "Invalid credentials"@,
        GlobalError::AuthenticationError(AuthenticationError::InvalidToken) => "Token either missing or expired"@,
        _ => "Internal server error"@,
    }
}

/// The HTTP status of an error: that of an authentication error, and
/// internal server error for every other.
pub open spec fn status_of(error: GlobalError) -> u16 {
    match error {
        GlobalError::AuthenticationError(e) => auth_status(e),
        _ => 500,
    }
}

/// The name of an error: the quoted name of an authentication error, and the
/// same name for every error of the layers below.
pub open spec fn error_text(error: GlobalError) -> Seq<char> {
    match error {
        GlobalError::AuthenticationError(AuthenticationError::UserNotFound) => "`User not found`"@,
        GlobalError::AuthenticationError(AuthenticationError::UserAlreadyExists) => "`Username taken`"@,
        GlobalError::AuthenticationError(AuthenticationError::BadPassword) => "`Invalid credentials`"@,
        GlobalError::AuthenticationError(AuthenticationError::InvalidToken) => "`Invalid token`"@,
        _ => "INTERNAL SERVER ERROR"@,
    }
}

/// The body of the answer to a failed request.
#[derive(Debug)]
pub struct ErrorResponse {
    pub code: u16,
    pub error: String,
    pub message: String,
}

impl GlobalError {
    /// What the client is told about the error.
    pub fn message(&self) -> (text: String)
        ensures
            text@ == message_text(*self),
    {
        match self {
            GlobalError::AuthenticationError(e) => match e {
                AuthenticationError::UserNotFound => "Not found".to_owned(),
                AuthenticationError::UserAlreadyExists => "Username taken".to_owned(),
                AuthenticationError::BadPassword => "Invalid credentials".to_owned(),
                AuthenticationError::InvalidToken => "Token either missing or expired".to_owned(),
            },
            _ => "Internal server error".to_owned(),
        }
    }

    /// The HTTP status that answers the error.
    pub fn status_code(&self) -> (code: u16)
        ensures
            code == status_of(*self),
    {
        match self {
            GlobalError::AuthenticationError(e) => e.status_code(),
            _ => 500,
        }
    }

    /// The name of the error. An error of the engine has no name.
    pub fn to_string(&self) -> (text: String)
        requires
            !(self is RPSError),
        ensures
            text@ == error_text(*self),
    {
        match self {
            GlobalError::AuthenticationError(e) => match e {
                AuthenticationError::UserNotFound => "`User not found`".to_owned(),
                AuthenticationError::UserAlreadyExists => "`Username taken`".to_owned(),
                AuthenticationError::BadPassword => "`Invalid credentials`".to_owned(),
                AuthenticationError::InvalidToken => "`Invalid token`".to_owned(),
            },
            _ => "INTERNAL SERVER ERROR".to_owned(),
        }
    }

    /// The body of the answer to a request that failed with `error`.
    pub fn respond(error: GlobalError) -> (body: ErrorResponse)
        requires
            !(error is RPSError),
        ensures
            body.code == status_of(error),
            body.error@ == error_text(error),
            body.message@ == message_text(error),
    {
        ErrorResponse { code: error.status_code(), error: error.to_string(), message: error.message() }
    }
}

} // verus!
