//! The data the service deals in: modules, their versions and releases, and
//! background jobs.
pub mod job;
pub mod module;
pub mod order;
pub mod release;
