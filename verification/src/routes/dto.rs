//! The shapes the HTTP handlers read from queries and write as JSON.
pub mod jobs;
pub mod modules;
pub mod releases;
