//! Failures in deriving a target's names from the invocation.

use vstd::prelude::*;

verus! {

/// A name that a target needs could not be derived from the given paths.
#[derive(Debug, PartialEq, Eq, Structural)]
pub enum ConfigError {
    /// The output directory has no final component that is valid text.
    PackageName,
    /// The input path has no file name that is valid text.
    FileName,
}

impl ConfigError {
    /// A message for the user.
    pub fn message(&self) -> (r: &'static str) {
        match self {
            ConfigError::PackageName => "Could not determine package name from the output directory",
            ConfigError::FileName => "Could not infer a file name from INPUT",
        }
    }
}

} // verus!
