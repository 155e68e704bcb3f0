//! The run configuration, built from the command-line tokens.
use vstd::prelude::*;

verus! {

/// Why a configuration could not be built.
#[derive(Clone, Copy, Debug, PartialEq, Eq, Structural)]
pub enum ConfigError {
    /// No token after the program name.
    MissingQuery,
    /// A query, but no file name after it.
    MissingFilename,
}

impl ConfigError {
    /// A short description for the user.
    pub fn message(&self) -> (r: &'static str)
        ensures
            *self == ConfigError::MissingQuery ==> r@ == "no query given"@,
            *self == ConfigError::MissingFilename ==> r@ == "no file name given"@,
    {
        match self {
            ConfigError::MissingQuery => "no query given",
            ConfigError::MissingFilename => "no file name given",
        }
    }
}

/// What to search for, where, and whether case counts.
pub struct Config {
    pub query: String,
    pub filename: String,
    pub case_sensitive: bool,
}

impl Config {
    /// Builds a configuration from the tokens of a command line: the first
    /// token (the program's name) is skipped, the second is the query and the
    /// third the file name; further tokens are ignored. The search ignores
    /// case exactly when `case_insensitive` is set.
    pub fn new(args: &[String], case_insensitive: bool) -> (r: Result<Config, ConfigError>)
        ensures
            args@.len() < 2 <==> r == Err::<Config, ConfigError>(ConfigError::MissingQuery),
            args@.len() == 2 <==> r == Err::<Config, ConfigError>(ConfigError::MissingFilename),
            args@.len() >= 3 <==> r is Ok,
            r matches Ok(c) ==> {
                &&& c.query@ == args@[1]@
                &&& c.filename@ == args@[2]@
                &&& c.case_sensitive == !case_insensitive
            },
    {
        if args.len() < 2 {
            return Err(ConfigError::MissingQuery);
        }
        if args.len() < 3 {
            return Err(ConfigError::MissingFilename);
        }
        let query = args[1].clone();
        let filename = args[2].clone();
        Ok(Config { query, filename, case_sensitive: !case_insensitive })
    }
}

} // verus!
