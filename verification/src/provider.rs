//! The provider core: contract, credentials, discovery, execution and
//! normalization of streamed answers.
pub mod contract;
pub mod credential;
pub mod discovery;
pub mod failure;
pub mod fake;
pub mod go;
pub mod execution;
pub mod normalize;
pub mod secret_service;
