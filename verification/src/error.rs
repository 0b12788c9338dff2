//! The library's error type.
use vstd::prelude::*;

verus! {

/// What went wrong.
#[derive(Clone, Debug)]
pub enum AppError {
    /// The kubeconfig could not be used.
    Kubeconfig(String),
    /// The API server refused or failed.
    Kube(String),
    /// What was asked for is not there.
    NotFound(String),
    /// Anything else.
    Other(String),
}

/// A result whose error is an [`AppError`].
pub type AppResult<T> = Result<T, AppError>;

impl AppError {
    /// The text of the error.
    pub open spec fn text(self) -> Seq<char> {
        match self {
            AppError::Kubeconfig(m) => m@,
            AppError::Kube(m) => m@,
            AppError::NotFound(m) => m@,
            AppError::Other(m) => m@,
        }
    }

    /// The text of the error.
    pub fn message(&self) -> (r: String)
        ensures
            r@ == self.text(),
    {
        match self {
            AppError::Kubeconfig(m) => m.clone(),
            AppError::Kube(m) => m.clone(),
            AppError::NotFound(m) => m.clone(),
            AppError::Other(m) => m.clone(),
        }
    }

    /// An [`AppError::Other`] with this text.
    pub open spec fn is_other(self, m: Seq<char>) -> bool {
        self is Other && self.text() == m
    }

    /// An [`AppError::NotFound`] with this text.
    pub open spec fn is_not_found(self, m: Seq<char>) -> bool {
        self is NotFound && self.text() == m
    }
}

/// An [`AppError::Other`] with the text `m`.
pub fn other(m: &str) -> (r: AppError)
    ensures
        r.is_other(m@),
{
    AppError::Other(m.to_owned())
}

} // verus!
