//! What the dispatch layer decides before an outcome reaches the caller.

use crate::models::{opt_text, AppError, AppErrorView, ErrorCategory, ScanResult};
use crate::settings::{set_last_scanned_folder, AppSettings};
use vstd::prelude::*;

verus! {

/// The error that a scan is allowed to surface: an invalid path as it is, any
/// other as an unknown failure that keeps the detail only.
pub open spec fn surfaced_scan_error(error: AppErrorView) -> AppErrorView {
    if error.category == ErrorCategory::InvalidPath {
        error
    } else {
        AppErrorView {
            category: ErrorCategory::Unknown,
            message: "Scan failed"@,
            detail: error.detail,
        }
    }
}

/// Passes the outcome of a scan on to the caller, with its error narrowed to
/// what a scan is allowed to surface.
pub fn scan_folder(outcome: Result<ScanResult, AppError>) -> (surfaced: Result<
    ScanResult,
    AppError,
>)
    ensures
        match outcome {
            Ok(found) => surfaced == Ok::<ScanResult, AppError>(found),
            Err(error) => surfaced is Err && surfaced->Err_0@ == surfaced_scan_error(error@),
        },
{
    match outcome {
        Ok(found) => Ok(found),
        Err(error) => match error.category {
            ErrorCategory::InvalidPath => Err(error),
            _ => Err(AppError::new(ErrorCategory::Unknown, "Scan failed", error.detail)),
        },
    }
}

/// Takes the folder that the user picked, if any: it is recorded as the folder
/// scanned last and handed back.
pub fn select_folder(settings: &mut AppSettings, picked: Option<String>) -> (folder: Option<String>)
    ensures
        opt_text(folder) == opt_text(picked),
        final(settings)@ == match picked {
            Some(path) => old(settings)@.with_folder(path@),
            None => old(settings)@,
        },
{
    match picked {
        Some(path) => {
            set_last_scanned_folder(settings, path.as_str());
            Some(path)
        },
        None => None,
    }
}

/// Passes on the text of a file that was read, or reports why it could not be.
pub fn read_text_file(content: Result<String, String>) -> (result: Result<String, AppError>)
    ensures
        match content {
            Ok(text) => result == Ok::<String, AppError>(text),
            Err(reason) => result is Err && result->Err_0@ == (AppErrorView {
                category: ErrorCategory::Unknown,
                message: "Failed to read file"@,
                detail: Some(reason@),
            }),
        },
{
    match content {
        Ok(text) => Ok(text),
        Err(reason) => Err(
            AppError::new(ErrorCategory::Unknown, "Failed to read file", Some(reason)),
        ),
    }
}

/// Reports whether the mapping file path could be saved.
pub fn set_mapping_file_path(saved: Result<(), String>) -> (result: Result<(), AppError>)
    ensures
        match saved {
            Ok(_) => result is Ok,
            Err(reason) => result is Err && result->Err_0@ == (AppErrorView {
                category: ErrorCategory::Unknown,
                message: "Failed to save settings"@,
                detail: Some(reason@),
            }),
        },
{
    match saved {
        Ok(_) => Ok(()),
        Err(reason) => Err(
            AppError::new(ErrorCategory::Unknown, "Failed to save settings", Some(reason)),
        ),
    }
}

} // verus!
