//! The errors of the library.

use vstd::prelude::*;

verus! {

/// What went wrong.
#[derive(Debug)]
pub enum UdemyError {
    /// A JSON value lacked the named field, or it had the wrong type.
    Json(String),
    /// A JSON document did not have the expected overall shape.
    JsonFormat,
    /// A text was not a JSON document.
    InvalidJson,
    /// The course URL did not have the expected form.
    InvalidUrl(String),
    /// No course name could be read from the course URL.
    NoCourseName(String),
    /// No portal name could be read from the course URL.
    NoPortalName(String),
    /// The named course is not among the subscribed courses.
    CourseNotFound(String),
    /// No video quality could be chosen.
    NoQuality,
    /// A command was executed before its parameters were set.
    MissingParams,
    /// An input or output operation failed; the text describes it.
    Io(String),
}

/// The mathematical value of a [`UdemyError`].
pub enum ErrorView {
    Json(Seq<char>),
    JsonFormat,
    InvalidJson,
    InvalidUrl(Seq<char>),
    NoCourseName(Seq<char>),
    NoPortalName(Seq<char>),
    CourseNotFound(Seq<char>),
    NoQuality,
    MissingParams,
    Io(Seq<char>),
}

impl View for UdemyError {
    type V = ErrorView;

    open spec fn view(&self) -> ErrorView {
        match self {
            UdemyError::Json(k) => ErrorView::Json(k@),
            UdemyError::JsonFormat => ErrorView::JsonFormat,
            UdemyError::InvalidJson => ErrorView::InvalidJson,
            UdemyError::InvalidUrl(u) => ErrorView::InvalidUrl(u@),
            UdemyError::NoCourseName(u) => ErrorView::NoCourseName(u@),
            UdemyError::NoPortalName(u) => ErrorView::NoPortalName(u@),
            UdemyError::CourseNotFound(n) => ErrorView::CourseNotFound(n@),
            UdemyError::NoQuality => ErrorView::NoQuality,
            UdemyError::MissingParams => ErrorView::MissingParams,
            UdemyError::Io(m) => ErrorView::Io(m@),
        }
    }
}

/// The error for a missing or mistyped JSON field.
pub fn json_error(key: &str) -> (e: UdemyError)
    ensures
        e@ == ErrorView::Json(key@),
{
    UdemyError::Json(key.to_owned())
}

} // verus!
