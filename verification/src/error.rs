use vstd::prelude::*;

verus! {

/// Errors that the API reports to its callers, each with a human readable message.
pub enum AppError {
    BadRequest(String),
    Unauthorized(String),
    Forbidden(String),
    NotFound(String),
    Conflict(String),
    Unprocessable(String),
}

/// The mathematical picture of an [`AppError`]: its kind and the characters of its message.
pub enum ErrorView {
    BadRequest(Seq<char>),
    Unauthorized(Seq<char>),
    Forbidden(Seq<char>),
    NotFound(Seq<char>),
    Conflict(Seq<char>),
    Unprocessable(Seq<char>),
}

impl View for AppError {
    type V = ErrorView;

    open spec fn view(&self) -> ErrorView {
        match self {
            AppError::BadRequest(m) => ErrorView::BadRequest(m@),
            AppError::Unauthorized(m) => ErrorView::Unauthorized(m@),
            AppError::Forbidden(m) => ErrorView::Forbidden(m@),
            AppError::NotFound(m) => ErrorView::NotFound(m@),
            AppError::Conflict(m) => ErrorView::Conflict(m@),
            AppError::Unprocessable(m) => ErrorView::Unprocessable(m@),
        }
    }
}

/// `outcome` is `Ok` exactly when no problem is expected, and otherwise carries
/// precisely the expected error.
pub open spec fn reports<T>(outcome: Result<T, AppError>, problem: Option<ErrorView>) -> bool {
    match outcome {
        Ok(_) => problem is None,
        Err(e) => problem == Some(e@),
    }
}

} // verus!
