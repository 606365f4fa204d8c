//! Top-level application errors: configuration and startup failures.

use vstd::prelude::*;
use vstd::string::StringExecFns;

verus! {

/// What can go wrong before the server is able to serve: the configured
/// vault path is unusable, an argument is bad, or something unexpected.
#[derive(Debug, PartialEq, Eq)]
pub enum AppError {
    /// Vault Path Error
    VaultPathNotExist { reason: String },
    /// Argument Error
    ArgumentError { reason: String },
    /// UnexpectedError
    UnexpectedError { reason: String },
}

impl AppError {
    pub fn vault_path_error(reason: String) -> (r: Self)
        ensures
            r matches AppError::VaultPathNotExist { reason: m } && m@ == reason@,
    {
        AppError::VaultPathNotExist { reason }
    }

    pub fn argument_error(reason: String) -> (r: Self)
        ensures
            r matches AppError::ArgumentError { reason: m } && m@ == reason@,
    {
        AppError::ArgumentError { reason }
    }

    pub fn unexpected_error(reason: String) -> (r: Self)
        ensures
            r matches AppError::UnexpectedError { reason: m } && m@ == reason@,
    {
        AppError::UnexpectedError { reason }
    }

    /// The human-readable account of the error, which each kind carries.
    pub fn message(&self) -> (r: String)
        ensures
            self matches AppError::VaultPathNotExist { reason } ==> r@ == reason@,
            self matches AppError::ArgumentError { reason } ==> r@ == reason@,
            self matches AppError::UnexpectedError { reason } ==> r@ == reason@,
    {
        match self {
            AppError::VaultPathNotExist { reason } => reason.clone(),
            AppError::ArgumentError { reason } => reason.clone(),
            AppError::UnexpectedError { reason } => reason.clone(),
        }
    }
}

/// Reject a transport name that matches no supported transport.  Both
/// supported transports are matched by the caller before this is reached, so
/// every call reports an argument error naming the valid options.
pub fn handle_transport_arg_error(transport: &str) -> (r: Result<(), AppError>)
    ensures
        r matches Err(e) && (e matches AppError::ArgumentError { reason } && reason@
            == "Unknown transport '"@ + transport@ + "'. Valid options: stdio,http"@),
{
    let msg = "Unknown transport '".to_owned().concat(transport).concat(
        "'. Valid options: stdio,http",
    );
    Err(AppError::argument_error(msg))
}

} // verus!
