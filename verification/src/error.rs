//! Failure values surfaced to the caller.

use vstd::prelude::*;

verus! {

/// A discrete failure: a missing piece, malformed geometry, a failed
/// export, or an internal fault. The payload names the subject.
#[derive(Clone, Debug)]
pub enum AppError {
    NotFound(String),
    InvalidGeometry(String),
    ExportFailed(String),
    Internal(String),
}

/// The message text an `AppError` renders to.
pub open spec fn ipc_error_chars(e: AppError) -> Seq<char> {
    match e {
        AppError::NotFound(m) => "Not found: "@ + m@,
        AppError::InvalidGeometry(m) => "Invalid geometry: "@ + m@,
        AppError::ExportFailed(m) => "Export failed: "@ + m@,
        AppError::Internal(m) => "Internal error: "@ + m@,
    }
}

/// Render an `AppError` as a plain string for the IPC boundary.
pub fn to_ipc_error(e: AppError) -> (r: String)
    ensures
        r@ == ipc_error_chars(e),
{
    match e {
        AppError::NotFound(m) => String::from_str("Not found: ").concat(m.as_str()),
        AppError::InvalidGeometry(m) => String::from_str("Invalid geometry: ").concat(m.as_str()),
        AppError::ExportFailed(m) => String::from_str("Export failed: ").concat(m.as_str()),
        AppError::Internal(m) => String::from_str("Internal error: ").concat(m.as_str()),
    }
}

} // verus!
