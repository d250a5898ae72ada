//! Invocation configuration and its error kinds.
//!
//! A [`Config`] is built from the positional command-line arguments plus an
//! explicit case-sensitivity toggle. Looking that toggle up (for example in
//! the environment) and reading the target file are the driver's business and
//! happen outside this crate; the driver reports an [`ErrorKind`] and stops.

use vstd::prelude::*;

verus! {

/// The closed set of driver-level failures. The matchers themselves never
/// fail; only building a configuration or reading the file can.
#[derive(Clone, Copy, Debug, PartialEq, Eq)]
pub enum ErrorKind {
    /// Fewer positional arguments than required.
    Argument,
    /// The target file could not be read.
    Io,
}

impl ErrorKind {
    /// A short diagnostic for this error kind.
    pub fn message(&self) -> (r: &'static str)
        ensures
            *self is Argument ==> r@ == "not enough arguments"@,
            *self is Io ==> r@ == "could not read the file"@,
    {
        match self {
            ErrorKind::Argument => "not enough arguments",
            ErrorKind::Io => "could not read the file",
        }
    }
}

/// What one invocation searches for, where, and how.
pub struct Config {
    /// The substring being searched for.
    pub query: String,
    /// The path of the file to search; only the driver ever opens it.
    pub file_path: String,
    /// Whether to fold case before comparing.
    pub ignore_case: bool,
}

impl Config {
    /// Build a configuration from the argument list: the program name, then
    /// the query, then the file path. Fails, and only fails, when fewer than
    /// three arguments are given. The caller supplies `ignore_case`
    /// explicitly; no global state is consulted.
    pub fn build(args: &Vec<String>, ignore_case: bool) -> (r: Result<Config, ErrorKind>)
        ensures
            match r {
                Ok(c) => {
                    &&& args@.len() >= 3
                    &&& c.query@ == args@[1]@
                    &&& c.file_path@ == args@[2]@
                    &&& c.ignore_case == ignore_case
                },
                Err(e) => args@.len() < 3 && e is Argument,
            },
    {
        if args.len() < 3 {
            return Err(ErrorKind::Argument);
        }
        let query = args[1].clone();
        let file_path = args[2].clone();
        Ok(Config { query, file_path, ignore_case })
    }
}

} // verus!
