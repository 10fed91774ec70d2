//! Error types of the workbook surface, and their meaning as plain values.

use crate::text::text_view;
use vstd::prelude::*;

verus! {

/// The spreadsheet error codes.
#[derive(Clone, Copy, Debug, PartialEq, Eq, Structural)]
pub enum ExcelErrorKind {
    Null,
    Ref,
    Name,
    Value,
    Div,
    Na,
    Num,
    Error,
    NImpl,
    Spill,
    Calc,
    Circ,
    Cancelled,
}

/// Where an error arose.
#[derive(Clone, Debug, PartialEq, Eq)]
pub struct ErrorContext {
    pub row: Option<u32>,
    pub col: Option<u32>,
    pub origin_row: Option<u32>,
    pub origin_col: Option<u32>,
    pub origin_sheet: Option<String>,
}

/// What an error carries besides its code, message and place.
#[derive(Clone, Debug, PartialEq, Eq)]
pub enum ExcelErrorExtra {
    Nothing,
    /// The size that a spilled result would have taken.
    Spill { expected_rows: u32, expected_cols: u32 },
    /// Any other payload, as text.
    Other(String),
}

/// A spreadsheet error.
#[derive(Clone, Debug, PartialEq, Eq)]
pub struct ExcelError {
    pub kind: ExcelErrorKind,
    pub message: Option<String>,
    pub context: Option<ErrorContext>,
    pub extra: ExcelErrorExtra,
}

/// An [`ExcelError`] with its message as a character sequence.
pub struct ErrorView {
    pub kind: ExcelErrorKind,
    pub message: Option<Seq<char>>,
    pub context: Option<ErrorContext>,
    pub extra: ExcelErrorExtra,
}

impl View for ExcelError {
    type V = ErrorView;

    open spec fn view(&self) -> ErrorView {
        ErrorView {
            kind: self.kind,
            message: text_view(self.message),
            context: self.context,
            extra: self.extra,
        }
    }
}

/// The error of code `kind` with message `message` and nothing else.
pub open spec fn error_of(kind: ExcelErrorKind, message: Seq<char>) -> ErrorView {
    ErrorView { kind, message: Some(message), context: None, extra: ExcelErrorExtra::Nothing }
}

impl ExcelError {
    /// An error of code `kind`, without message, place or payload.
    pub fn new(kind: ExcelErrorKind) -> (e: ExcelError)
        ensures
            e@ == (ErrorView { kind, message: None, context: None, extra: ExcelErrorExtra::Nothing }),
    {
        ExcelError { kind, message: None, context: None, extra: ExcelErrorExtra::Nothing }
    }

    /// The same error with `message` in place of its message.
    pub fn with_message(self, message: String) -> (e: ExcelError)
        ensures
            e@ == (ErrorView { message: Some(message@), ..self@ }),
    {
        ExcelError {
            kind: self.kind,
            message: Some(message),
            context: self.context,
            extra: self.extra,
        }
    }
}

/// A refusal of an engine edit: its text, and the spreadsheet error behind it
/// where there is one.
#[derive(Clone, Debug, PartialEq, Eq)]
pub struct EditorError {
    pub text: String,
    pub excel: Option<ExcelError>,
}

/// The error of a workbook operation.
#[derive(Clone, Debug, PartialEq, Eq)]
pub enum IoError {
    /// A spreadsheet error of the engine.
    Engine(ExcelError),
    /// Any other refusal, with the part of the system that gave it.
    Backend { backend: String, message: String },
}

/// An [`IoError`] with its texts as character sequences.
pub enum IoErrorView {
    Engine(ErrorView),
    Backend { backend: Seq<char>, message: Seq<char> },
}

impl View for IoError {
    type V = IoErrorView;

    open spec fn view(&self) -> IoErrorView {
        match self {
            IoError::Engine(e) => IoErrorView::Engine(e@),
            IoError::Backend { backend, message } => IoErrorView::Backend {
                backend: backend@,
                message: message@,
            },
        }
    }
}

/// The refusal `message` of `backend`.
pub open spec fn backend_error(backend: Seq<char>, message: Seq<char>) -> IoErrorView {
    IoErrorView::Backend { backend, message }
}

/// A refused edit: the spreadsheet error behind it, else a refusal of the editor.
pub open spec fn editor_error(e: EditorError) -> IoErrorView {
    match e.excel {
        Some(excel) => IoErrorView::Engine(excel@),
        None => backend_error("editor"@, e.text@),
    }
}

/// A result with its error as a plain value.
pub open spec fn excel_view<T>(r: Result<T, ExcelError>) -> Result<T, ErrorView> {
    match r {
        Ok(v) => Ok(v),
        Err(e) => Err(e@),
    }
}

/// A result with its error as a plain value.
pub open spec fn io_view<T>(r: Result<T, IoError>) -> Result<T, IoErrorView> {
    match r {
        Ok(v) => Ok(v),
        Err(e) => Err(e@),
    }
}

/// An engine result as the result of a workbook operation.
pub open spec fn engine_outcome<T>(r: Result<T, ExcelError>) -> Result<T, IoErrorView> {
    match r {
        Ok(v) => Ok(v),
        Err(e) => Err(IoErrorView::Engine(e@)),
    }
}

/// An edit result as the result of a workbook operation, the spreadsheet error
/// behind a refusal set free.
pub open spec fn editor_outcome<T>(r: Result<T, EditorError>) -> Result<T, IoErrorView> {
    match r {
        Ok(v) => Ok(v),
        Err(e) => Err(editor_error(e)),
    }
}

/// An edit result as the result of a workbook operation, every refusal taken as
/// one of the editor.
pub open spec fn editor_backend_outcome<T>(r: Result<T, EditorError>) -> Result<T, IoErrorView> {
    match r {
        Ok(v) => Ok(v),
        Err(e) => Err(backend_error("editor"@, e.text@)),
    }
}

impl IoError {
    /// The refusal `text` of `backend`.
    pub fn from_backend(backend: &str, text: String) -> (e: IoError)
        ensures
            e@ == backend_error(backend@, text@),
    {
        IoError::Backend { backend: backend.to_owned(), message: text }
    }

    /// The error of a refused edit, see [`editor_error`].
    pub fn from_editor(error: EditorError) -> (e: IoError)
        ensures
            e@ == editor_error(error),
    {
        match error.excel {
            Some(excel) => IoError::Engine(excel),
            None => IoError::from_backend("editor", error.text),
        }
    }

    /// An engine result as the result of a workbook operation.
    pub fn engine_result<T>(r: Result<T, ExcelError>) -> (out: Result<T, IoError>)
        ensures
            io_view(out) == engine_outcome(r),
    {
        match r {
            Ok(v) => Ok(v),
            Err(e) => Err(IoError::Engine(e)),
        }
    }

    /// An edit result as the result of a workbook operation.
    pub fn editor_result<T>(r: Result<T, EditorError>) -> (out: Result<T, IoError>)
        ensures
            io_view(out) == editor_outcome(r),
    {
        match r {
            Ok(v) => Ok(v),
            Err(e) => Err(IoError::from_editor(e)),
        }
    }

    /// An edit result as the result of a workbook operation, every refusal taken
    /// as one of the editor.
    pub fn editor_backend_result<T>(r: Result<T, EditorError>) -> (out: Result<T, IoError>)
        ensures
            io_view(out) == editor_backend_outcome(r),
    {
        match r {
            Ok(v) => Ok(v),
            Err(e) => Err(IoError::from_backend("editor", e.text)),
        }
    }
}

} // verus!
