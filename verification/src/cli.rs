//! The command-line options, as a plain value: one flag per category, the
//! target length, and the optional output path and exclude/include strings.
//! The argument parser itself lives with the binary; it hands over a value
//! of this type.

use vstd::prelude::*;

verus! {

/// Command-line options for the password generator.
pub struct Cli {
    /// Use UPPERCASE letters [A-Z]
    pub uppercase: bool,
    /// Use lowercase letters [a-z]
    pub lowercase: bool,
    /// Use digits [0-9]
    pub digits: bool,
    /// Use braces
    pub braces: bool,
    /// Use punctuation
    pub punctuation: bool,
    /// Use quotes
    pub quotes: bool,
    /// Use dashes
    pub dashes: bool,
    /// Use math symbols
    pub math: bool,
    /// Use logograms
    pub logograms: bool,
    /// The required password length
    pub length: usize,
    /// Output in a txt file
    pub output: Option<String>,
    /// Excluded chars
    pub exclude: Option<String>,
    /// Included chars
    pub included: Option<String>,
}

impl Cli {
    /// The required password length.
    pub fn length(&self) -> (r: usize)
        ensures
            r == self.length,
    {
        self.length
    }

    /// The output file path, when one was given.
    pub fn output(&self) -> (r: Option<String>)
        ensures
            r == self.output,
    {
        match &self.output {
            Some(s) => Some(s.clone()),
            None => None,
        }
    }

    /// The excluded characters, when any were given.
    pub fn exclude(&self) -> (r: Option<String>)
        ensures
            r == self.exclude,
    {
        match &self.exclude {
            Some(s) => Some(s.clone()),
            None => None,
        }
    }

    /// The included characters, when any were given.
    pub fn included(&self) -> (r: Option<String>)
        ensures
            r == self.included,
    {
        match &self.included {
            Some(s) => Some(s.clone()),
            None => None,
        }
    }
}

} // verus!
