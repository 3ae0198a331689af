//! The service's errors and the HTTP status each is answered with.
use vstd::prelude::*;
use crate::auth::AuthError;
use crate::authorizer::AuthorizerError;

verus! {

/// An error of a request handler, with its message where it has one.
#[derive(Debug)]
pub enum ProverError {
    Parse(String),
    FileWriteError(String),
    InfallibleError,
    CustomError(String),
    SendError(String),
    Auth(AuthError),
    InternalServerError(String),
    Authorizer(AuthorizerError),
}

/// The HTTP status of an authentication error: 401 for an unauthorized key, else 400.
pub open spec fn auth_status(e: AuthError) -> u16 {
    match e {
        AuthError::Unauthorized => 401,
        _ => 400,
    }
}

/// The HTTP status of a key store error: 500 where the store itself failed (its file
/// could not be read, or a key's bytes could not be converted), else 400.
pub open spec fn authorizer_status(e: AuthorizerError) -> u16 {
    match e {
        AuthorizerError::FileAccessError | AuthorizerError::DataError => 500,
        _ => 400,
    }
}

impl ProverError {
    /// The HTTP status: 400 for bad input, 401 for an unauthorized key, 500 for a
    /// failure of the service itself.
    pub open spec fn spec_status(&self) -> u16 {
        match self {
            ProverError::Parse(_) | ProverError::CustomError(_) => 400,
            ProverError::FileWriteError(_) | ProverError::InfallibleError | ProverError::SendError(_)
            | ProverError::InternalServerError(_) => 500,
            ProverError::Auth(e) => auth_status(*e),
            ProverError::Authorizer(e) => authorizer_status(*e),
        }
    }

    pub fn status(&self) -> (r: u16)
        ensures
            r == self.spec_status(),
    {
        match self {
            ProverError::Parse(_) | ProverError::CustomError(_) => 400,
            ProverError::FileWriteError(_) | ProverError::InfallibleError | ProverError::SendError(_)
            | ProverError::InternalServerError(_) => 500,
            ProverError::Auth(e) => match e {
                AuthError::Unauthorized => 401,
                _ => 400,
            },
            ProverError::Authorizer(e) => match e {
                AuthorizerError::FileAccessError | AuthorizerError::DataError => 500,
                _ => 400,
            },
        }
    }
}

} // verus!
