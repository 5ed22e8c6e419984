//! Clients of outside services.
pub mod github;
