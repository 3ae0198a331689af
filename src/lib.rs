//! A proof-generation service core: request authentication, key authorization,
//! a job store with a lifecycle, a task scheduler's decisions and a completion
//! notifier's event stream.

pub mod job;
pub mod encoding;
pub mod crypto;
pub mod authorizer;
pub mod signed_request;
pub mod auth;
pub mod sse;
pub mod prover_input;
pub mod scheduler;
pub mod errors;
