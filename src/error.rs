//! Errors that end a run.
use vstd::prelude::*;

verus! {

/// An error that ends a run, with its message.
#[derive(Debug, Clone, PartialEq)]
pub enum AppError {
    GenericError(String),
}

impl AppError {
    /// The message the error carries.
    pub fn description(&self) -> (r: &str)
        ensures
            match self {
                AppError::GenericError(m) => r@ == m@,
            },
    {
        match self {
            AppError::GenericError(message) => message.as_str(),
        }
    }
}

} // verus!
