//! The caller-facing error taxonomy of the note store.

use vstd::prelude::*;
use vstd::string::StringExecFns;

verus! {

/// Every way a note operation can fail, as a closed set of variants: the
/// storage itself failed, the requested path is unusable, the requested path
/// would escape the vault root, or the caller handed in an empty path.
#[derive(Debug, PartialEq, Eq)]
pub enum VaultError {
    /// IO error
    IoError { reason: String },
    /// Invalid path: the request, with the underlying cause
    InvalidPath { input: String, cause: String },
    /// The request would escape the vault root
    PathTraversal { input: String },
    /// The caller handed in an empty path
    EmptyPath,
}

impl VaultError {
    pub fn io(reason: String) -> (r: Self)
        ensures
            r matches VaultError::IoError { reason: m } && m@ == reason@,
    {
        VaultError::IoError { reason }
    }

    pub fn invalid_path(input: String, cause: String) -> (r: Self)
        ensures
            r matches VaultError::InvalidPath { input: i, cause: c } && i@ == input@ && c@
                == cause@,
    {
        VaultError::InvalidPath { input, cause }
    }

    pub fn invalid_path_traversal(input: String) -> (r: Self)
        ensures
            r matches VaultError::PathTraversal { input: i } && i@ == input@,
    {
        VaultError::PathTraversal { input }
    }

    /// The human-readable reason that is propagated to the caller.
    pub fn message(&self) -> (r: String)
        ensures
            self matches VaultError::IoError { reason } ==> r@ == "IO error: "@ + reason@,
            self matches VaultError::InvalidPath { input, cause } ==> r@ == "Invalid path \""@
                + input@ + "\": "@ + cause@,
            self matches VaultError::PathTraversal { input } ==> r@
                == "Invalid Path: path traversal detected: \""@ + input@ + "\""@,
            self is EmptyPath ==> r@ == "path cannot be empty"@,
    {
        match self {
            VaultError::IoError { reason } => "IO error: ".to_owned().concat(reason.as_str()),
            VaultError::InvalidPath { input, cause } => "Invalid path \"".to_owned().concat(
                input.as_str(),
            ).concat("\": ").concat(cause.as_str()),
            VaultError::PathTraversal { input } => "Invalid Path: path traversal detected: \""
                .to_owned().concat(input.as_str()).concat("\""),
            VaultError::EmptyPath => "path cannot be empty".to_owned(),
        }
    }
}

} // verus!
