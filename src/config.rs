//! The configuration of one search, resolved from the argument list and the
//! presence of the `IGNORE_CASE` variable.
use vstd::prelude::*;
use crate::lines::views;
use crate::search::{
    matching_lines, matching_lines_folded, search_case_insensitive, search_case_sensitive,
};

verus! {

broadcast use vstd::string::group_string_axioms;

/// What one search runs with.
pub struct Config {
    /// The text to look for.
    pub query: String,
    /// The file to search in.
    pub file_path: String,
    /// Whether lines and query are compared in lowercase.
    pub ignore_case: bool,
}

/// Why a configuration could not be resolved.
#[derive(Debug, Clone, Copy, PartialEq, Eq, Structural)]
pub enum ConfigError {
    /// No argument after the program name.
    MissingQuery,
    /// No argument after the query.
    MissingFilePath,
}

impl ConfigError {
    /// A short description for the user.
    pub fn message(&self) -> (r: &'static str)
        ensures
            *self == ConfigError::MissingQuery ==> r@ == "Query is missing."@,
            *self == ConfigError::MissingFilePath ==> r@ == "File path is missing."@,
    {
        match self {
            ConfigError::MissingQuery => "Query is missing.",
            ConfigError::MissingFilePath => "File path is missing.",
        }
    }
}

impl Config {
    /// Resolves a configuration from `args`, whose first element is the
    /// program name, and from the value of `IGNORE_CASE` if it is set. The
    /// second and third elements are the query and the file path; further
    /// elements are ignored. Case is ignored exactly when the variable is
    /// set, whatever its value.
    pub fn build(args: Vec<String>, ignore_case_var: Option<String>) -> (r: Result<
        Config,
        ConfigError,
    >)
        ensures
            args@.len() <= 1 ==> r == Err::<Config, ConfigError>(ConfigError::MissingQuery),
            args@.len() == 2 ==> r == Err::<Config, ConfigError>(ConfigError::MissingFilePath),
            args@.len() >= 3 ==> r is Ok,
            r is Ok ==> r->Ok_0.query@ == args@[1]@ && r->Ok_0.file_path@ == args@[2]@
                && r->Ok_0.ignore_case == ignore_case_var is Some,
    {
        if args.len() < 2 {
            return Err(ConfigError::MissingQuery);
        }
        let query = args[1].clone();
        if args.len() < 3 {
            return Err(ConfigError::MissingFilePath);
        }
        let file_path = args[2].clone();
        let ignore_case = ignore_case_var.is_some();
        Ok(Config { query, file_path, ignore_case })
    }
}

/// The lines of `contents` that match the configured query, in the mode the
/// configuration selects.
pub fn search<'a>(config: &Config, contents: &'a str) -> (r: Vec<&'a str>)
    ensures
        config.ignore_case ==> views(r@) == matching_lines_folded(contents@, config.query@),
        !config.ignore_case ==> views(r@) == matching_lines(contents@, config.query@),
{
    if config.ignore_case {
        search_case_insensitive(config.query.as_str(), contents)
    } else {
        search_case_sensitive(config.query.as_str(), contents)
    }
}

} // verus!
