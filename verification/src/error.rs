//! Error kinds reported by the conversion pipeline.

use vstd::prelude::*;

verus! {

/// Error returned by the conversion pipeline.
///
/// `EmptyHtml` and `InvalidOption` are validation failures, reported before
/// any shared resource is touched. `BrowserError` collapses every
/// engine-interaction failure (process start, context creation, navigation,
/// readiness wait, render) into one kind with a descriptive message.
/// `GenerationError`, `IoError` and `Utf8Error` are reserved for the
/// surrounding I/O layer and are not produced by the core pipeline.
#[derive(Debug, Clone)]
pub enum PdfError {
    /// I/O failure in the surrounding layer, with its message.
    IoError(String),
    /// Generic PDF generation failure.
    GenerationError(String),
    /// Input bytes were not valid UTF-8.
    Utf8Error(String),
    /// Browser-engine failure, with a descriptive message.
    BrowserError(String),
    /// A malformed option value.
    InvalidOption(String),
    /// The HTML input was empty or all whitespace.
    EmptyHtml,
}

impl PdfError {
    /// True for the validation failure on blank input.
    pub fn is_empty_html(&self) -> (r: bool)
        ensures
            r == (*self is EmptyHtml),
    {
        match self {
            PdfError::EmptyHtml => true,
            _ => false,
        }
    }

    /// True for an engine-interaction failure.
    pub fn is_browser_error(&self) -> (r: bool)
        ensures
            r == (*self is BrowserError),
    {
        match self {
            PdfError::BrowserError(_) => true,
            _ => false,
        }
    }
}

/// Failure record surfaced to callers of the surrounding layer, carrying
/// the output of the command that failed.
#[derive(Debug)]
pub struct PdfGeneratorError {
    /// Output from the command that failed.
    pub command_output: String,
}

impl PdfGeneratorError {
    /// Wrap a failed command's output.
    pub fn new(command_output: String) -> (e: PdfGeneratorError)
        ensures
            e.command_output == command_output,
    {
        PdfGeneratorError { command_output }
    }
}

} // verus!
