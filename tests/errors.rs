use prover::auth::AuthError;
use prover::authorizer::AuthorizerError;
use prover::errors::ProverError;

#[test]
fn error_statuses() {
    assert_eq!(ProverError::Parse("x".to_string()).status(), 400);
    assert_eq!(ProverError::CustomError("x".to_string()).status(), 400);
    assert_eq!(ProverError::FileWriteError("x".to_string()).status(), 500);
    assert_eq!(ProverError::SendError("x".to_string()).status(), 500);
    assert_eq!(ProverError::InternalServerError("x".to_string()).status(), 500);
    assert_eq!(ProverError::InfallibleError.status(), 500);
    assert_eq!(ProverError::Auth(AuthError::Unauthorized).status(), 401);
    assert_eq!(ProverError::Auth(AuthError::InvalidToken).status(), 400);
    assert_eq!(ProverError::Auth(AuthError::InvalidSignature).status(), 400);
    assert_eq!(ProverError::Authorizer(AuthorizerError::FileAccessError).status(), 500);
    assert_eq!(ProverError::Authorizer(AuthorizerError::DataError).status(), 500);
    assert_eq!(ProverError::Authorizer(AuthorizerError::FormatError).status(), 400);
    assert_eq!(ProverError::Authorizer(AuthorizerError::VerifyingKeyError).status(), 400);
}
