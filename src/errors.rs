//! Errors of the listening TCP transport and of its configuration.

use vstd::prelude::*;

verus! {

/// Failure to start the listening TCP transport.
#[derive(Clone, Copy, Debug, PartialEq, Eq)]
pub enum ServerError {
    BindFailed,
}

/// Failure to load the listening transport's configuration.
#[derive(Clone, Copy, Debug, PartialEq, Eq)]
pub enum ServerConfigError {
    FailedToLoadConfig,
}

impl ServerError {
    /// A human-readable description of the error.
    pub fn message(&self) -> (r: &'static str)
        ensures
            r@ == "Server Listener Bind Failed"@,
    {
        match self {
            ServerError::BindFailed => "Server Listener Bind Failed",
        }
    }
}

impl ServerConfigError {
    /// A human-readable description of the error.
    pub fn message(&self) -> (r: &'static str)
        ensures
            r@ == "Failed To Load Server Config"@,
    {
        match self {
            ServerConfigError::FailedToLoadConfig => "Failed To Load Server Config",
        }
    }
}

} // verus!
