//! The settings of one search, checked once when they are put together.

use vstd::prelude::*;

verus! {

/// Where the matching lines go.
#[derive(Debug, PartialEq, Eq)]
pub enum OutputTarget {
    /// To the console, one line after the other.
    Console,
    /// Into the file at this path, as one text.
    File(String),
}

/// Why settings were turned down.
#[derive(Debug, Clone, Copy, PartialEq, Eq, Structural)]
pub enum ConfigError {
    /// The pattern is empty.
    EmptyPattern,
    /// The path of the file to search is empty.
    EmptyPath,
}

/// The settings as plain values.
pub struct CliView {
    /// The text to look for.
    pub pattern: Seq<char>,
    /// The path of the file to search.
    pub path: Seq<char>,
    /// Whether case is left aside.
    pub ignore_case: bool,
    /// The path of the file that takes the matches, if there is one.
    pub output: Option<Seq<char>>,
}

/// The settings of one search. A value of this type always holds a pattern
/// and a path that are not empty; nothing changes it once it is made.
#[derive(Debug)]
pub struct Cli {
    pattern: String,
    path: String,
    ignore_case: bool,
    output: Option<String>,
}

impl View for Cli {
    type V = CliView;

    closed spec fn view(&self) -> CliView {
        CliView {
            pattern: self.pattern@,
            path: self.path@,
            ignore_case: self.ignore_case,
            output: match self.output {
                Some(out) => Some(out@),
                None => None,
            },
        }
    }
}

impl Cli {
    #[verifier::type_invariant]
    spec fn non_empty(&self) -> bool {
        self.pattern@.len() > 0 && self.path@.len() > 0
    }

    /// Puts the settings together. An empty pattern is turned down first, an
    /// empty path after it; everything else is taken as it is given.
    pub fn new(pattern: String, path: String, ignore_case: bool, output: Option<String>) -> (made:
        Result<Cli, ConfigError>)
        ensures
            match made {
                Ok(cli) => {
                    &&& pattern@.len() > 0
                    &&& path@.len() > 0
                    &&& cli@ == (CliView {
                        pattern: pattern@,
                        path: path@,
                        ignore_case,
                        output: match output {
                            Some(out) => Some(out@),
                            None => None,
                        },
                    })
                },
                Err(ConfigError::EmptyPattern) => pattern@.len() == 0,
                Err(ConfigError::EmptyPath) => pattern@.len() > 0 && path@.len() == 0,
            },
    {
        if pattern.as_str().is_empty() {
            Err(ConfigError::EmptyPattern)
        } else if path.as_str().is_empty() {
            Err(ConfigError::EmptyPath)
        } else {
            Ok(Cli { pattern, path, ignore_case, output })
        }
    }

    /// The text to look for. It is never empty.
    pub fn pattern(&self) -> (pattern: &str)
        ensures
            pattern@ == self@.pattern,
            pattern@.len() > 0,
    {
        proof {
            use_type_invariant(self);
        }
        self.pattern.as_str()
    }

    /// The path of the file to search. It is never empty.
    pub fn path(&self) -> (path: &str)
        ensures
            path@ == self@.path,
            path@.len() > 0,
    {
        proof {
            use_type_invariant(self);
        }
        self.path.as_str()
    }

    /// Whether case is left aside.
    pub fn ignore_case(&self) -> (ignore_case: bool)
        ensures
            ignore_case == self@.ignore_case,
    {
        self.ignore_case
    }

    /// Whether case counts: it does unless it is left aside.
    pub fn case_sensitive(&self) -> (case_sensitive: bool)
        ensures
            case_sensitive == !self@.ignore_case,
    {
        !self.ignore_case
    }

    /// Where the matching lines go: into a file where an output path was
    /// given, to the console where none was.
    pub fn target(&self) -> (target: OutputTarget)
        ensures
            match target {
                OutputTarget::Console => self@.output is None,
                OutputTarget::File(path) => self@.output == Some(path@),
            },
    {
        match &self.output {
            Some(out) => OutputTarget::File(out.clone()),
            None => OutputTarget::Console,
        }
    }
}

} // verus!
