//! A small line-search engine: split a text into lines, keep the lines that
//! contain a pattern, and lay the matches out for the console or for a file.

pub mod config;
pub mod lines;
pub mod matcher;
pub mod search;
pub mod sink;
pub mod text;

pub use config::{Cli, ConfigError, OutputTarget};
pub use search::{search, search_case_insensitive, search_with};
pub use sink::{join_lines, run, Rendered};
