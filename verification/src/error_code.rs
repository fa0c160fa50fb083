use vstd::prelude::*;
use crate::error::AppImageError;
use crate::text::str_eq;

verus! {

/// Codes by which errors are reported through the C interface.
#[derive(Debug, Clone, Copy, PartialEq, Eq, Structural)]
pub enum ErrorCode {
    Success,
    IoError,
    FormatError,
    StringConversionError,
    NulError,
    Utf8Error,
    DesktopEntryEditError,
    DesktopIntegrationError,
    SquashFsError,
    NotOpen,
    FileNotFound,
    NotAFile,
}

/// The number of each code, as the C interface gives it.
pub open spec fn code_number(c: ErrorCode) -> i32 {
    match c {
        ErrorCode::Success => 0,
        ErrorCode::IoError => 1,
        ErrorCode::FormatError => 2,
        ErrorCode::StringConversionError => 3,
        ErrorCode::NulError => 4,
        ErrorCode::Utf8Error => 5,
        ErrorCode::DesktopEntryEditError => 6,
        ErrorCode::DesktopIntegrationError => 7,
        ErrorCode::SquashFsError => 8,
        ErrorCode::NotOpen => 9,
        ErrorCode::FileNotFound => 10,
        ErrorCode::NotAFile => 11,
    }
}

/// The code reported for an error: format errors, SquashFS errors,
/// missing files, string conversions, desktop integration, a handler not
/// open and a non-file have codes of their own; every other error is an
/// I/O error.
pub open spec fn code_of(e: AppImageError) -> ErrorCode {
    match e {
        AppImageError::InvalidFormat(_) => ErrorCode::FormatError,
        AppImageError::SquashFs(_) => ErrorCode::SquashFsError,
        AppImageError::NotFound(_) => ErrorCode::FileNotFound,
        AppImageError::FileNotFound(_) => ErrorCode::FileNotFound,
        AppImageError::StringConversion(_) => ErrorCode::StringConversionError,
        AppImageError::NulError(_) => ErrorCode::StringConversionError,
        AppImageError::FromBytesWithNul(_) => ErrorCode::StringConversionError,
        AppImageError::DesktopIntegration(_) => ErrorCode::DesktopIntegrationError,
        AppImageError::NotOpen => ErrorCode::NotOpen,
        AppImageError::NotAFile => ErrorCode::NotAFile,
        _ => ErrorCode::IoError,
    }
}

impl ErrorCode {
    /// The code reported for `error`.
    pub fn from_error(error: &AppImageError) -> (r: ErrorCode)
        ensures
            r == code_of(*error),
    {
        match error {
            AppImageError::Io(_) => ErrorCode::IoError,
            AppImageError::InvalidFormat(_) => ErrorCode::FormatError,
            AppImageError::Elf(_) => ErrorCode::IoError,
            AppImageError::FileSystem(_) => ErrorCode::IoError,
            AppImageError::Archive(_) => ErrorCode::IoError,
            AppImageError::SquashFs(_) => ErrorCode::SquashFsError,
            AppImageError::NotSupported(_) => ErrorCode::IoError,
            AppImageError::InvalidParameter(_) => ErrorCode::IoError,
            AppImageError::NotFound(_) => ErrorCode::FileNotFound,
            AppImageError::PermissionDenied(_) => ErrorCode::IoError,
            AppImageError::OperationFailed(_) => ErrorCode::IoError,
            AppImageError::StringConversion(_)
            | AppImageError::NulError(_)
            | AppImageError::FromBytesWithNul(_) => ErrorCode::StringConversionError,
            AppImageError::DesktopIntegration(_) => ErrorCode::DesktopIntegrationError,
            AppImageError::NotOpen => ErrorCode::NotOpen,
            AppImageError::FileNotFound(_) => ErrorCode::FileNotFound,
            AppImageError::NotAFile => ErrorCode::NotAFile,
            AppImageError::InvalidPath(_) => ErrorCode::IoError,
            AppImageError::InvalidData(_) => ErrorCode::IoError,
            AppImageError::InvalidHeader(_) => ErrorCode::IoError,
            AppImageError::InvalidFooter(_) => ErrorCode::IoError,
            AppImageError::InvalidMagic(_) => ErrorCode::IoError,
            AppImageError::AlreadyExists(_) => ErrorCode::IoError,
            AppImageError::InvalidState(_) => ErrorCode::IoError,
            AppImageError::InvalidOperation(_) => ErrorCode::IoError,
        }
    }

    /// The number of the code.
    pub fn number(&self) -> (r: i32)
        ensures
            r == code_number(*self),
    {
        match self {
            ErrorCode::Success => 0,
            ErrorCode::IoError => 1,
            ErrorCode::FormatError => 2,
            ErrorCode::StringConversionError => 3,
            ErrorCode::NulError => 4,
            ErrorCode::Utf8Error => 5,
            ErrorCode::DesktopEntryEditError => 6,
            ErrorCode::DesktopIntegrationError => 7,
            ErrorCode::SquashFsError => 8,
            ErrorCode::NotOpen => 9,
            ErrorCode::FileNotFound => 10,
            ErrorCode::NotAFile => 11,
        }
    }
}

/// No two codes have the same number.
pub proof fn law_code_numbers_distinct(a: ErrorCode, b: ErrorCode)
    ensures
        code_number(a) == code_number(b) ==> a == b,
{
}

/// The code of a reported error message: a message that is exactly one of
/// the names below has its code; any other reports success.
pub open spec fn code_of_message(m: Seq<char>) -> ErrorCode {
    if m == "IO error"@ {
        ErrorCode::IoError
    } else if m == "Format error"@ {
        ErrorCode::FormatError
    } else if m == "String conversion error"@ {
        ErrorCode::StringConversionError
    } else if m == "Nul error"@ {
        ErrorCode::NulError
    } else if m == "UTF-8 error"@ {
        ErrorCode::Utf8Error
    } else if m == "Desktop entry edit error"@ {
        ErrorCode::DesktopEntryEditError
    } else if m == "Desktop integration error"@ {
        ErrorCode::DesktopIntegrationError
    } else if m == "SquashFS error"@ {
        ErrorCode::SquashFsError
    } else if m == "Handler is not open"@ {
        ErrorCode::NotOpen
    } else if m == "File not found"@ {
        ErrorCode::FileNotFound
    } else if m == "Not a file"@ {
        ErrorCode::NotAFile
    } else {
        ErrorCode::Success
    }
}

impl ErrorCode {
    /// The code of the last error message, if there is one (see
    /// `code_of_message`); success where there is none.
    pub fn from_last_error(last_error: Option<&str>) -> (r: ErrorCode)
        ensures
            match last_error {
                Some(m) => r == code_of_message(m@),
                None => r == ErrorCode::Success,
            },
    {
        match last_error {
            None => ErrorCode::Success,
            Some(m) => {
                if str_eq(m, "IO error") {
                    ErrorCode::IoError
                } else if str_eq(m, "Format error") {
                    ErrorCode::FormatError
                } else if str_eq(m, "String conversion error") {
                    ErrorCode::StringConversionError
                } else if str_eq(m, "Nul error") {
                    ErrorCode::NulError
                } else if str_eq(m, "UTF-8 error") {
                    ErrorCode::Utf8Error
                } else if str_eq(m, "Desktop entry edit error") {
                    ErrorCode::DesktopEntryEditError
                } else if str_eq(m, "Desktop integration error") {
                    ErrorCode::DesktopIntegrationError
                } else if str_eq(m, "SquashFS error") {
                    ErrorCode::SquashFsError
                } else if str_eq(m, "Handler is not open") {
                    ErrorCode::NotOpen
                } else if str_eq(m, "File not found") {
                    ErrorCode::FileNotFound
                } else if str_eq(m, "Not a file") {
                    ErrorCode::NotAFile
                } else {
                    ErrorCode::Success
                }
            },
        }
    }
}

} // verus!
