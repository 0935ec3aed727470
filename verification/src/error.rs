//! The errors of the library.

use crate::text::{contains, occurs_in};
use vstd::prelude::*;

verus! {

/// What can go wrong in a run.
#[derive(Debug)]
pub enum AppError {
    /// GitHub answered with a failure; the text is the body of its answer.
    GitHubApi(String),
    /// The call did not reach GitHub or no answer came back.
    Transport(String),
    /// A document could not be read as what it should be.
    Serialization(String),
    /// The configuration asks for what cannot be done.
    Validation(String),
    /// A file could not be read or written, or a program could not be run.
    Io(String),
}

/// The model of an [`AppError`].
pub enum ErrorModel {
    GitHubApi(Seq<char>),
    Transport(Seq<char>),
    Serialization(Seq<char>),
    Validation(Seq<char>),
    Io(Seq<char>),
}

impl View for AppError {
    type V = ErrorModel;

    open spec fn view(&self) -> ErrorModel {
        match self {
            AppError::GitHubApi(s) => ErrorModel::GitHubApi(s@),
            AppError::Transport(s) => ErrorModel::Transport(s@),
            AppError::Serialization(s) => ErrorModel::Serialization(s@),
            AppError::Validation(s) => ErrorModel::Validation(s@),
            AppError::Io(s) => ErrorModel::Io(s@),
        }
    }
}

impl DeepView for AppError {
    type V = ErrorModel;

    open spec fn deep_view(&self) -> ErrorModel {
        self@
    }
}

impl ErrorModel {
    /// The text that the error carries.
    pub open spec fn text(self) -> Seq<char> {
        match self {
            ErrorModel::GitHubApi(s) => s,
            ErrorModel::Transport(s) => s,
            ErrorModel::Serialization(s) => s,
            ErrorModel::Validation(s) => s,
            ErrorModel::Io(s) => s,
        }
    }

    /// What the error is called in a report.
    pub open spec fn label(self) -> Seq<char> {
        match self {
            ErrorModel::GitHubApi(_) => "GitHub API error: "@,
            ErrorModel::Transport(_) => "HTTP error: "@,
            ErrorModel::Serialization(_) => "Serialization error: "@,
            ErrorModel::Validation(_) => "Validation error: "@,
            ErrorModel::Io(_) => "IO error: "@,
        }
    }

    /// The error says that what was asked for does not exist: GitHub
    /// answered with a failure whose body holds `404`.
    pub open spec fn is_not_found(self) -> bool {
        match self {
            ErrorModel::GitHubApi(s) => occurs_in("404"@, s),
            _ => false,
        }
    }
}

impl AppError {
    /// The error as a line of a report: what it is called, then its text.
    pub fn message(&self) -> (r: String)
        ensures
            r@ == self@.label() + self@.text(),
    {
        match self {
            AppError::GitHubApi(s) => crate::text::joined("GitHub API error: ", s.as_str()),
            AppError::Transport(s) => crate::text::joined("HTTP error: ", s.as_str()),
            AppError::Serialization(s) => crate::text::joined("Serialization error: ", s.as_str()),
            AppError::Validation(s) => crate::text::joined("Validation error: ", s.as_str()),
            AppError::Io(s) => crate::text::joined("IO error: ", s.as_str()),
        }
    }

    /// Tests whether the error says that what was asked for does not exist.
    pub fn is_not_found(&self) -> (r: bool)
        ensures
            r == self@.is_not_found(),
    {
        match self {
            AppError::GitHubApi(s) => contains(s.as_str(), "404"),
            _ => false,
        }
    }
}

impl Clone for AppError {
    fn clone(&self) -> (r: Self)
        ensures
            r@ == self@,
    {
        match self {
            AppError::GitHubApi(s) => AppError::GitHubApi(s.clone()),
            AppError::Transport(s) => AppError::Transport(s.clone()),
            AppError::Serialization(s) => AppError::Serialization(s.clone()),
            AppError::Validation(s) => AppError::Validation(s.clone()),
            AppError::Io(s) => AppError::Io(s.clone()),
        }
    }
}

/// The model of a result: the model of what it holds.
pub open spec fn outcome<T: DeepView>(r: Result<T, AppError>) -> Result<T::V, ErrorModel> {
    match r {
        Ok(v) => Ok(v.deep_view()),
        Err(e) => Err(e@),
    }
}

/// The outcome of a call that must succeed, or of what could not even be
/// tried.
pub type AppResult<T> = Result<T, AppError>;

} // verus!
