//! Resolving raw command-line tokens into a validated configuration.

use vstd::prelude::*;

verus! {

/// Why resolving the command-line tokens failed.
#[derive(Clone, Copy, Debug, PartialEq, Eq)]
pub enum ArgumentError {
    /// No query token followed the program name.
    MissingQuery,
    /// A query token was present but no file-path token followed it.
    MissingFilePath,
}

impl ArgumentError {
    /// A short diagnostic naming the missing argument.
    pub fn message(&self) -> (r: &'static str)
        ensures
            *self == ArgumentError::MissingQuery ==> r@ == "Didn't get a query string"@,
            *self == ArgumentError::MissingFilePath ==> r@ == "Didn't get a file path"@,
    {
        match self {
            ArgumentError::MissingQuery => "Didn't get a query string",
            ArgumentError::MissingFilePath => "Didn't get a file path",
        }
    }
}

/// The immutable configuration of one invocation.
pub struct Args {
    /// The substring to search for.
    pub query: String,
    /// The path of the file whose text is searched; not validated here.
    pub file_path: String,
    /// With this flag set, matching ignores case.
    pub ignore_case: bool,
}

impl Args {
    /// Resolve the raw argument tokens into a configuration.
    ///
    /// The first token is the program's own invocation name and is skipped;
    /// a query token and a file-path token must follow, in that order, and
    /// any further tokens are ignored.  Whether matching ignores case is
    /// handed in by the caller, who derives it from the presence of the
    /// `IGNORE_CASE` environment variable.
    pub fn build(tokens: &Vec<String>, ignore_case: bool) -> (r: Result<Args, ArgumentError>)
        ensures
            tokens@.len() >= 3 ==> (r matches Ok(a) && a.query@ == tokens@[1]@ && a.file_path@
                == tokens@[2]@ && a.ignore_case == ignore_case),
            tokens@.len() < 2 ==> r == Err::<Args, ArgumentError>(ArgumentError::MissingQuery),
            tokens@.len() == 2 ==> r == Err::<Args, ArgumentError>(ArgumentError::MissingFilePath),
    {
        if tokens.len() < 2 {
            return Err(ArgumentError::MissingQuery);
        }
        if tokens.len() < 3 {
            return Err(ArgumentError::MissingFilePath);
        }
        let query = tokens[1].clone();
        let file_path = tokens[2].clone();
        Ok(Args { query, file_path, ignore_case })
    }
}

} // verus!
