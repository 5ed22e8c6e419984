//! Release catalogue of a multi-module repository: tag parsing, version
//! ordering, release selection, rendering and identifier decoding.
pub mod clients;
pub mod config;
pub mod domain;
pub mod jobs;
pub mod persistence;
pub mod routes;
pub mod text;
pub mod time;

pub use crate::routes::render;
