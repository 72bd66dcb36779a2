//! AI assistance: the provider error type.
pub mod provider;
