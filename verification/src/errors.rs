use vstd::prelude::*;

verus! {

/// The error taxonomy every failure of the core resolves into before it
/// reaches a caller.  Messages come from a small fixed set of strings; no
/// lower-level store or cryptography error crosses this boundary.
#[derive(Debug)]
pub enum ServiceError {
    /// Credential, signature, expiry or session-currency failure.
    Unauthorized { error_message: String },
    /// Store or hashing failure.
    InternalServerError { error_message: String },
    /// Malformed or missing input, including an absent credential header.
    BadRequest { error_message: String },
    /// Resource absent, or present but owned by another account.
    NotFound { error_message: String },
    /// Signup collision: the username or the email is already registered.
    Conflict { error_message: String },
}

impl ServiceError {
    /// The message carried by the error, whichever variant it is.
    pub open spec fn spec_message(&self) -> Seq<char> {
        match self {
            ServiceError::Unauthorized { error_message } => error_message@,
            ServiceError::InternalServerError { error_message } => error_message@,
            ServiceError::BadRequest { error_message } => error_message@,
            ServiceError::NotFound { error_message } => error_message@,
            ServiceError::Conflict { error_message } => error_message@,
        }
    }

    /// The HTTP status the error surfaces as.
    pub fn status_code(&self) -> (code: u16)
        ensures
            code == self.spec_status_code(),
    {
        match self {
            ServiceError::Unauthorized { .. } => 401,
            ServiceError::InternalServerError { .. } => 500,
            ServiceError::BadRequest { .. } => 400,
            ServiceError::NotFound { .. } => 404,
            ServiceError::Conflict { .. } => 409,
        }
    }

    pub open spec fn spec_status_code(&self) -> u16 {
        match self {
            ServiceError::Unauthorized { .. } => 401,
            ServiceError::InternalServerError { .. } => 500,
            ServiceError::BadRequest { .. } => 400,
            ServiceError::NotFound { .. } => 404,
            ServiceError::Conflict { .. } => 409,
        }
    }

    /// A copy of the message, for the response envelope.
    pub fn message(&self) -> (r: String)
        ensures
            r@ == self.spec_message(),
    {
        match self {
            ServiceError::Unauthorized { error_message } => error_message.clone(),
            ServiceError::InternalServerError { error_message } => error_message.clone(),
            ServiceError::BadRequest { error_message } => error_message.clone(),
            ServiceError::NotFound { error_message } => error_message.clone(),
            ServiceError::Conflict { error_message } => error_message.clone(),
        }
    }
}

} // verus!
