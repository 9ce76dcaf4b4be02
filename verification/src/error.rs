use crate::text::text_of;
use crate::util::{decimal, decimal_text};
use vstd::prelude::*;

verus! {

/// Why a build stopped. Each kind names the path that it is about; nothing is retried.
#[derive(Debug, PartialEq)]
pub enum Error {
    /// A directory of the source tree could not be read.
    SummarizeFailed { path: String, cause: String },
    /// A directory has no file that could be its chapter's content.
    MissingChapterContent { path: String },
    /// A line of the summary file is none of the forms that a summary is made of. Lines are
    /// counted from 1.
    InvalidSummaryFormat { line: usize },
    /// A chapter's content does not lie under the source directory, or has no name from
    /// which an output file could be named.
    InvalidChapterPath { path: String },
    /// A chapter could not be rendered.
    RenderFailed { path: String, cause: String },
    /// A file or directory of the output could not be created.
    WriteFailed { path: String, cause: String },
}

/// What an [`Error`] is in contracts.
pub enum ErrorView {
    SummarizeFailed { path: Seq<char>, cause: Seq<char> },
    MissingChapterContent { path: Seq<char> },
    InvalidSummaryFormat { line: nat },
    InvalidChapterPath { path: Seq<char> },
    RenderFailed { path: Seq<char>, cause: Seq<char> },
    WriteFailed { path: Seq<char>, cause: Seq<char> },
}

impl View for Error {
    type V = ErrorView;

    open spec fn view(&self) -> ErrorView {
        match *self {
            Error::SummarizeFailed { path, cause } => ErrorView::SummarizeFailed {
                path: path@,
                cause: cause@,
            },
            Error::MissingChapterContent { path } => ErrorView::MissingChapterContent {
                path: path@,
            },
            Error::InvalidSummaryFormat { line } => ErrorView::InvalidSummaryFormat {
                line: line as nat,
            },
            Error::InvalidChapterPath { path } => ErrorView::InvalidChapterPath { path: path@ },
            Error::RenderFailed { path, cause } => ErrorView::RenderFailed {
                path: path@,
                cause: cause@,
            },
            Error::WriteFailed { path, cause } => ErrorView::WriteFailed {
                path: path@,
                cause: cause@,
            },
        }
    }
}

/// What an error says to the person who runs the build.
pub open spec fn message_of(error: ErrorView) -> Seq<char> {
    match error {
        ErrorView::SummarizeFailed { path, cause } => "Failed to read contents of "@ + path
            + ": "@ + cause,
        ErrorView::MissingChapterContent { path } => "Could not find content for chapter "@ + path
            + ". Create a index or a summary."@,
        ErrorView::InvalidSummaryFormat { line } => "The summary is not valid at line "@
            + decimal_text(line),
        ErrorView::InvalidChapterPath { path } => "Failed to create the url for "@ + path,
        ErrorView::RenderFailed { path, cause } => "Failed to render "@ + path + ": "@ + cause,
        ErrorView::WriteFailed { path, cause } => "Failed to write "@ + path + ": "@ + cause,
    }
}

impl Error {
    /// What the error says, with the path that it is about.
    pub fn message(&self) -> (message: String)
        ensures
            message@ == message_of(self@),
    {
        match self {
            Error::SummarizeFailed { path, cause } => String::from_str(
                "Failed to read contents of ",
            ).concat(path.as_str()).concat(": ").concat(cause.as_str()),
            Error::MissingChapterContent { path } => String::from_str(
                "Could not find content for chapter ",
            ).concat(path.as_str()).concat(". Create a index or a summary."),
            Error::InvalidSummaryFormat { line } => {
                let number = text_of(&decimal(*line));
                String::from_str("The summary is not valid at line ").concat(number.as_str())
            },
            Error::InvalidChapterPath { path } => String::from_str(
                "Failed to create the url for ",
            ).concat(path.as_str()),
            Error::RenderFailed { path, cause } => String::from_str("Failed to render ").concat(
                path.as_str(),
            ).concat(": ").concat(cause.as_str()),
            Error::WriteFailed { path, cause } => String::from_str("Failed to write ").concat(
                path.as_str(),
            ).concat(": ").concat(cause.as_str()),
        }
    }
}

impl Clone for Error {
    fn clone(&self) -> (copy: Self)
        ensures
            copy@ == self@,
    {
        match self {
            Error::SummarizeFailed { path, cause } => Error::SummarizeFailed {
                path: path.clone(),
                cause: cause.clone(),
            },
            Error::MissingChapterContent { path } => Error::MissingChapterContent {
                path: path.clone(),
            },
            Error::InvalidSummaryFormat { line } => Error::InvalidSummaryFormat { line: *line },
            Error::InvalidChapterPath { path } => Error::InvalidChapterPath { path: path.clone() },
            Error::RenderFailed { path, cause } => Error::RenderFailed {
                path: path.clone(),
                cause: cause.clone(),
            },
            Error::WriteFailed { path, cause } => Error::WriteFailed {
                path: path.clone(),
                cause: cause.clone(),
            },
        }
    }
}

} // verus!
