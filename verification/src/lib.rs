//! Deterministic derivation of per-service passwords from one master secret.

pub mod config;
pub mod digest;
pub mod encoding;
pub mod generator;
pub mod substitution;
pub mod text;
pub mod url_helper;
pub mod validator;
