//! Line search over text: which lines of a file hold a query, with or without
//! regard to case, and how the command line and the environment settle the
//! choice between the two.

pub mod config;
pub mod lines;
pub mod runner;
pub mod search;
pub mod subsequence;
pub mod text;

pub use config::{Config, ConfigError};
pub use runner::{run, RunError};
pub use search::{search, search_case_insensitive};
