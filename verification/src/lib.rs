//! Manage many Git repositories at once.

pub mod chars;
pub mod cli;
pub mod config;
pub mod discovery;
pub mod error;
pub mod git;
pub mod meaning;
pub mod mode;
pub mod native;
pub mod numbers;
pub mod offsets;
pub mod order;
pub mod paths;
pub mod quick;
pub mod scanning;
pub mod tui;

pub use error::{AppError, Result};
