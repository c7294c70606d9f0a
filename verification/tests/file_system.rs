use librarian::file_system::error_from_code;
use librarian::file_system::save_outcome;
use librarian::file_system::FileSystemError;
use librarian::file_system::FileSystemJsError;

#[test]
fn every_code_has_its_error() {
    let expected = [
        FileSystemJsError::UnknownError,
        FileSystemJsError::ShowSaveFilePickerUnknown,
        FileSystemJsError::ShowSaveFilePickerAbort,
        FileSystemJsError::ShowSaveFilePickerSecurity,
        FileSystemJsError::ShowSaveFilePickerType,
        FileSystemJsError::CreateWritableUnknown,
        FileSystemJsError::CreateWritableNotAllowed,
        FileSystemJsError::CreateWritableNotAllowed,
        FileSystemJsError::CreateWritableNoModificationAllowed,
        FileSystemJsError::CreateWritableAbort,
        FileSystemJsError::WriteUnknown,
        FileSystemJsError::WriteNotAllowed,
        FileSystemJsError::WriteQuotaExceeded,
        FileSystemJsError::WriteType,
        FileSystemJsError::CloseUnknown,
        FileSystemJsError::CloseType,
    ];
    for (code, error) in expected.iter().enumerate() {
        assert_eq!(error_from_code(Some(code as u32)), FileSystemError::JsError(*error));
    }
}

#[test]
fn unknown_codes_are_invalid() {
    assert_eq!(error_from_code(Some(16)), FileSystemError::InvalidErrorType);
    assert_eq!(error_from_code(Some(u32::MAX)), FileSystemError::InvalidErrorType);
    assert_eq!(error_from_code(None), FileSystemError::InvalidErrorType);
}

#[test]
fn save_outcome_by_case() {
    assert_eq!(save_outcome(true, true, None), Ok(()));
    assert_eq!(save_outcome(true, true, Some(3)), Ok(()));
    assert_eq!(save_outcome(true, false, None), Err(FileSystemError::NotAFileSystemFileHandle));
    assert_eq!(
        save_outcome(false, false, Some(12)),
        Err(FileSystemError::JsError(FileSystemJsError::WriteQuotaExceeded))
    );
    assert_eq!(save_outcome(false, true, None), Err(FileSystemError::InvalidErrorType));
}

#[test]
fn error_texts() {
    assert_eq!(FileSystemError::NotAFileSystemFileHandle.message(), "Not a filesystem file handle");
    assert_eq!(FileSystemError::InvalidErrorType.message(), "Invalid error type");
    assert_eq!(
        FileSystemError::JsError(FileSystemJsError::WriteType).message(),
        "JS Error: Write type error"
    );
    assert_eq!(FileSystemJsError::UnknownError.message(), "Unknown error");
    assert_eq!(
        FileSystemJsError::ShowSaveFilePickerUnknown.message(),
        "Show save file picker unknown error"
    );
    assert_eq!(
        FileSystemJsError::ShowSaveFilePickerAbort.message(),
        "Show save file picker abort error"
    );
    assert_eq!(
        FileSystemJsError::ShowSaveFilePickerSecurity.message(),
        "Show save file picker security error"
    );
    assert_eq!(
        FileSystemJsError::ShowSaveFilePickerType.message(),
        "Show save file picker type error"
    );
    assert_eq!(
        FileSystemJsError::CreateWritableUnknown.message(),
        "Show create writable unknown error"
    );
    assert_eq!(
        FileSystemJsError::CreateWritableNotAllowed.message(),
        "Create writable not allowed error"
    );
    assert_eq!(
        FileSystemJsError::CreateWritableNotFound.message(),
        "Create writable not found error"
    );
    assert_eq!(
        FileSystemJsError::CreateWritableNoModificationAllowed.message(),
        "Create writable no modification allowed error"
    );
    assert_eq!(FileSystemJsError::CreateWritableAbort.message(), "Create writable abort error");
    assert_eq!(FileSystemJsError::WriteUnknown.message(), "Write unknown error");
    assert_eq!(FileSystemJsError::WriteNotAllowed.message(), "Write not allowed error");
    assert_eq!(FileSystemJsError::WriteQuotaExceeded.message(), "Write quota exceeded error");
    assert_eq!(FileSystemJsError::CloseUnknown.message(), "Close unknown error");
    assert_eq!(FileSystemJsError::CloseType.message(), "Close type error");
}
