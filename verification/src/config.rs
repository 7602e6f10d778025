//! What one run of the search is asked to do.

use vstd::prelude::*;
use crate::search::Mode;
use crate::text::same_text;

verus! {

/// The settings of one run: what to look for, where, and how strictly.
#[derive(Debug)]
pub struct Config {
    /// The text to look for. It may be empty, and then selects every line.
    pub query: String,
    /// The path of the file to search.
    pub filename: String,
    /// Whether case matters.
    pub strict: bool,
}

/// Why no configuration could be made.
#[derive(Clone, Copy, PartialEq, Eq, Debug, Structural)]
pub enum ConfigError {
    /// The arguments do not name both a file and a query.
    MissingArguments,
}

/// The value of the `STRICT` variable asks for a strict search: it is set,
/// and is exactly `1` or `true`.
pub open spec fn asks_strict(value: Option<Seq<char>>) -> bool {
    value == Some("1"@) || value == Some("true"@)
}

/// The view of an optional string.
pub open spec fn view_of(value: Option<&str>) -> Option<Seq<char>> {
    match value {
        Some(text) => Some(text@),
        None => None,
    }
}

impl ConfigError {
    /// The message to show the user.
    pub fn message(&self) -> (text: &'static str)
        ensures
            text@ == "Not enough arguments!"@,
    {
        match self {
            ConfigError::MissingArguments => "Not enough arguments!",
        }
    }
}

impl Config {
    /// Builds the configuration from the command line, program name first,
    /// and from the value of the `STRICT` variable, `None` where it is unset.
    /// The file is the second argument and the query the third; further
    /// arguments are ignored.
    pub fn new(args: &Vec<String>, strict_var: Option<&str>) -> (made: Result<Config, ConfigError>)
        ensures
            args@.len() < 3 ==> made == Err::<Config, ConfigError>(ConfigError::MissingArguments),
            args@.len() >= 3 ==> made is Ok && made->Ok_0.filename@ == args@[1]@
                && made->Ok_0.query@ == args@[2]@ && made->Ok_0.strict == asks_strict(
                view_of(strict_var),
            ),
    {
        if args.len() < 3 {
            return Err(ConfigError::MissingArguments);
        }
        let strict = match strict_var {
            Some(value) => same_text(value, "1") || same_text(value, "true"),
            None => false,
        };
        Ok(Config { query: args[2].clone(), filename: args[1].clone(), strict })
    }

    /// The search mode that the configuration asks for.
    pub fn mode(&self) -> (mode: Mode)
        ensures
            mode == if self.strict {
                Mode::CaseSensitive
            } else {
                Mode::CaseInsensitive
            },
    {
        if self.strict {
            Mode::CaseSensitive
        } else {
            Mode::CaseInsensitive
        }
    }
}

} // verus!
