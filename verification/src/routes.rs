//! The logic behind the HTTP endpoints.
pub mod dto;
pub mod modules;
pub mod negotiate;
pub mod releases;
pub mod render;
pub mod transactions;
pub mod web;
