//! The GitHub releases and milestones of the repository.
pub mod client;
pub mod paging;
pub mod parse;
