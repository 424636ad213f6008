//! Line search over in-memory text: the lines of a text that contain a
//! query, matched exactly or after lowercasing, and the configuration that
//! selects between the two.

pub mod config;
pub mod laws;
pub mod lines;
pub mod search;
pub mod text;

pub use config::{search, Config, ConfigError};
pub use lines::split_lines;
pub use search::{search_case_insensitive, search_case_sensitive};
pub use text::{chars_of, contains, contains_chars};
