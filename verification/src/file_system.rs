//! The outcomes of saving to a file picked by the user: the error values,
//! the numeric codes the saving script reports them under, and their texts.

use vstd::prelude::*;
use vstd::string::StringExecFns;

verus! {

/// Why a save failed.
#[derive(Clone, Copy, Debug, PartialEq, Eq, Structural)]
pub enum FileSystemError {
    /// The value handed back on success is not a file handle.
    NotAFileSystemFileHandle,
    /// The value thrown is not one of the known codes.
    InvalidErrorType,
    /// The script reported one of its own errors.
    JsError(FileSystemJsError),
}

/// The errors the saving script reports, each under its own code.
#[derive(Clone, Copy, Debug, PartialEq, Eq, Structural)]
pub enum FileSystemJsError {
    /// None of the errors below matched.
    UnknownError,
    /// An unknown error of the file picker.
    ShowSaveFilePickerUnknown,
    /// The user dismissed the picker, or the chosen file was deemed too
    /// sensitive.
    ShowSaveFilePickerAbort,
    /// The call was blocked by the same-origin policy or was not made from a
    /// user interaction.
    ShowSaveFilePickerSecurity,
    /// The accepted types could not be processed.
    ShowSaveFilePickerType,
    /// An unknown error of opening the file for writing.
    CreateWritableUnknown,
    /// Permission for the handle is not granted in read-write mode.
    CreateWritableNotAllowed,
    /// The entry was not found.
    CreateWritableNotFound,
    /// No lock could be acquired on the file.
    CreateWritableNoModificationAllowed,
    /// A malware scan or safe-browsing check failed.
    CreateWritableAbort,
    /// An unknown error of writing.
    WriteUnknown,
    /// Permission is not granted.
    WriteNotAllowed,
    /// The file would exceed the storage quota.
    WriteQuotaExceeded,
    /// The data is undefined, or position or size are not valid.
    WriteType,
    /// An unknown error of closing.
    CloseUnknown,
    /// The stream to close is locked.
    CloseType,
}

/// The script's errors by code: the error at position `c` is reported under
/// code `c`. Codes 6 and 7 both stand for `CreateWritableNotAllowed`.
pub open spec fn errors_by_code() -> Seq<FileSystemJsError> {
    seq![
        FileSystemJsError::UnknownError,
        FileSystemJsError::ShowSaveFilePickerUnknown,
        FileSystemJsError::ShowSaveFilePickerAbort,
        FileSystemJsError::ShowSaveFilePickerSecurity,
        FileSystemJsError::ShowSaveFilePickerType,
        FileSystemJsError::CreateWritableUnknown,
        FileSystemJsError::CreateWritableNotAllowed,
        FileSystemJsError::CreateWritableNotAllowed,
        FileSystemJsError::CreateWritableNoModificationAllowed,
        FileSystemJsError::CreateWritableAbort,
        FileSystemJsError::WriteUnknown,
        FileSystemJsError::WriteNotAllowed,
        FileSystemJsError::WriteQuotaExceeded,
        FileSystemJsError::WriteType,
        FileSystemJsError::CloseUnknown,
        FileSystemJsError::CloseType,
    ]
}

/// The error a thrown value stands for: a number below 16 is the script's
/// error of that code; any other number, and a value that is no number, is
/// `InvalidErrorType`.
pub open spec fn error_of(code: Option<u32>) -> FileSystemError {
    match code {
        Some(c) if c < errors_by_code().len() => FileSystemError::JsError(
            errors_by_code()[c as int],
        ),
        _ => FileSystemError::InvalidErrorType,
    }
}

/// The error a thrown value stands for, given the number it holds, if it
/// holds one.
pub fn error_from_code(code: Option<u32>) -> (r: FileSystemError)
    ensures
        r == error_of(code),
{
    match code {
        Some(0) => FileSystemError::JsError(FileSystemJsError::UnknownError),
        Some(1) => FileSystemError::JsError(FileSystemJsError::ShowSaveFilePickerUnknown),
        Some(2) => FileSystemError::JsError(FileSystemJsError::ShowSaveFilePickerAbort),
        Some(3) => FileSystemError::JsError(FileSystemJsError::ShowSaveFilePickerSecurity),
        Some(4) => FileSystemError::JsError(FileSystemJsError::ShowSaveFilePickerType),
        Some(5) => FileSystemError::JsError(FileSystemJsError::CreateWritableUnknown),
        Some(6) => FileSystemError::JsError(FileSystemJsError::CreateWritableNotAllowed),
        Some(7) => FileSystemError::JsError(FileSystemJsError::CreateWritableNotAllowed),
        Some(8) => FileSystemError::JsError(
            FileSystemJsError::CreateWritableNoModificationAllowed,
        ),
        Some(9) => FileSystemError::JsError(FileSystemJsError::CreateWritableAbort),
        Some(10) => FileSystemError::JsError(FileSystemJsError::WriteUnknown),
        Some(11) => FileSystemError::JsError(FileSystemJsError::WriteNotAllowed),
        Some(12) => FileSystemError::JsError(FileSystemJsError::WriteQuotaExceeded),
        Some(13) => FileSystemError::JsError(FileSystemJsError::WriteType),
        Some(14) => FileSystemError::JsError(FileSystemJsError::CloseUnknown),
        Some(15) => FileSystemError::JsError(FileSystemJsError::CloseType),
        Some(_) => FileSystemError::InvalidErrorType,
        None => FileSystemError::InvalidErrorType,
    }
}

/// The outcome of a save, given whether the script succeeded, whether the
/// value it handed back is a file handle, and the number it threw, if any.
/// Success with a file handle is the only good outcome.
pub fn save_outcome(succeeded: bool, is_file_handle: bool, code: Option<u32>) -> (r: Result<
    (),
    FileSystemError,
>)
    ensures
        r == (if succeeded {
            if is_file_handle {
                Ok::<(), FileSystemError>(())
            } else {
                Err::<(), FileSystemError>(FileSystemError::NotAFileSystemFileHandle)
            }
        } else {
            Err::<(), FileSystemError>(error_of(code))
        }),
{
    if succeeded {
        if is_file_handle {
            Ok(())
        } else {
            Err(FileSystemError::NotAFileSystemFileHandle)
        }
    } else {
        Err(error_from_code(code))
    }
}

impl FileSystemJsError {
    /// The text of the error.
    pub open spec fn text(self) -> Seq<char> {
        match self {
            Self::UnknownError => "Unknown error"@,
            Self::ShowSaveFilePickerUnknown => "Show save file picker unknown error"@,
            Self::ShowSaveFilePickerAbort => "Show save file picker abort error"@,
            Self::ShowSaveFilePickerSecurity => "Show save file picker security error"@,
            Self::ShowSaveFilePickerType => "Show save file picker type error"@,
            Self::CreateWritableUnknown => "Show create writable unknown error"@,
            Self::CreateWritableNotAllowed => "Create writable not allowed error"@,
            Self::CreateWritableNotFound => "Create writable not found error"@,
            Self::CreateWritableNoModificationAllowed => {
                "Create writable no modification allowed error"@
            },
            Self::CreateWritableAbort => "Create writable abort error"@,
            Self::WriteUnknown => "Write unknown error"@,
            Self::WriteNotAllowed => "Write not allowed error"@,
            Self::WriteQuotaExceeded => "Write quota exceeded error"@,
            Self::WriteType => "Write type error"@,
            Self::CloseUnknown => "Close unknown error"@,
            Self::CloseType => "Close type error"@,
        }
    }

    /// The text of the error, for display.
    pub fn message(&self) -> (r: &'static str)
        ensures
            r@ == self.text(),
    {
        match self {
            Self::UnknownError => "Unknown error",
            Self::ShowSaveFilePickerUnknown => "Show save file picker unknown error",
            Self::ShowSaveFilePickerAbort => "Show save file picker abort error",
            Self::ShowSaveFilePickerSecurity => "Show save file picker security error",
            Self::ShowSaveFilePickerType => "Show save file picker type error",
            Self::CreateWritableUnknown => "Show create writable unknown error",
            Self::CreateWritableNotAllowed => "Create writable not allowed error",
            Self::CreateWritableNotFound => "Create writable not found error",
            Self::CreateWritableNoModificationAllowed => {
                "Create writable no modification allowed error"
            },
            Self::CreateWritableAbort => "Create writable abort error",
            Self::WriteUnknown => "Write unknown error",
            Self::WriteNotAllowed => "Write not allowed error",
            Self::WriteQuotaExceeded => "Write quota exceeded error",
            Self::WriteType => "Write type error",
            Self::CloseUnknown => "Close unknown error",
            Self::CloseType => "Close type error",
        }
    }
}

impl FileSystemError {
    /// The text of the error: a script error's text follows `JS Error: `.
    pub open spec fn text(self) -> Seq<char> {
        match self {
            Self::NotAFileSystemFileHandle => "Not a filesystem file handle"@,
            Self::InvalidErrorType => "Invalid error type"@,
            Self::JsError(err) => "JS Error: "@ + err.text(),
        }
    }

    /// The text of the error, for display.
    pub fn message(&self) -> (r: String)
        ensures
            r@ == self.text(),
    {
        match self {
            Self::NotAFileSystemFileHandle => "Not a filesystem file handle".to_owned(),
            Self::InvalidErrorType => "Invalid error type".to_owned(),
            Self::JsError(err) => {
                let mut out = "JS Error: ".to_owned();
                out.append(err.message());
                out
            },
        }
    }
}

} // verus!
