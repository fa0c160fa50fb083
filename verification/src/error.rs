use vstd::prelude::*;
use crate::text::{concat, decimal, push_str, u64_to_decimal};

verus! {

/// `std::io::Error`, carried through errors of this library.
#[verifier::external_type_specification]
#[verifier::external_body]
pub struct ExIoError(std::io::Error);

/// The message of an I/O error (`format!("{}", e)`); it depends on the
/// operating system, so nothing is claimed of it.
#[verifier::external_body]
pub(crate) fn io_error_text(e: &std::io::Error) -> String {
    format!("{}", e)
}

/// Error types for SquashFS operations.
#[derive(Debug)]
pub enum SquashError {
    Io(std::io::Error),
    InvalidMagic,
    UnsupportedBigEndian,
    UnsupportedVersion { major: u16, minor: u16 },
    InvalidBlockSize,
    Corrupted(String),
    Compression(String),
    InvalidInodeType(u16),
    InvalidDirectoryEntry,
    InvalidFragmentEntry,
    InvalidIdTable,
    InvalidLookupTable,
    InvalidXattrs,
    MemoryError(String),
    Other(String),
}

/// The message of a SquashFS error.
pub open spec fn squash_message(e: SquashError, io_text: Seq<char>) -> Seq<char> {
    match e {
        SquashError::Io(_) => "IO error: "@ + io_text,
        SquashError::InvalidMagic => "Invalid magic number"@,
        SquashError::UnsupportedBigEndian => "Unsupported big-endian filesystem"@,
        SquashError::UnsupportedVersion { major, minor } => "Unsupported version "@ + decimal(
            major as nat,
        ) + "."@ + decimal(minor as nat),
        SquashError::InvalidBlockSize => "Invalid block size"@,
        SquashError::Corrupted(s) => "Corrupted filesystem: "@ + s@,
        SquashError::Compression(s) => "Compression error: "@ + s@,
        SquashError::InvalidInodeType(t) => "Invalid inode type: "@ + decimal(t as nat),
        SquashError::InvalidDirectoryEntry => "Invalid directory entry"@,
        SquashError::InvalidFragmentEntry => "Invalid fragment entry"@,
        SquashError::InvalidIdTable => "Invalid id table"@,
        SquashError::InvalidLookupTable => "Invalid lookup table"@,
        SquashError::InvalidXattrs => "Invalid extended attributes"@,
        SquashError::MemoryError(s) => "Memory error: "@ + s@,
        SquashError::Other(s) => "Other error: "@ + s@,
    }
}

impl SquashError {
    /// The message that describes the error; for an I/O error it holds the
    /// text the operating system gives.
    pub fn message(&self) -> (r: String)
        ensures
            exists|t: Seq<char>| r@ == #[trigger] squash_message(*self, t),
            !(*self is Io) ==> r@ == squash_message(*self, Seq::empty()),
    {
        let r = match self {
            SquashError::Io(e) => {
                let t = io_error_text(e);
                let r = concat("IO error: ", t.as_str());
                assert(r@ == squash_message(*self, t@));
                assert(exists|u: Seq<char>| r@ == #[trigger] squash_message(*self, u));
                r
            },
            SquashError::InvalidMagic => String::from_str("Invalid magic number"),
            SquashError::UnsupportedBigEndian => String::from_str("Unsupported big-endian filesystem"),
            SquashError::UnsupportedVersion { major, minor } => {
                let mut r = String::from_str("Unsupported version ");
                let a = u64_to_decimal(*major as u64);
                push_str(&mut r, a.as_str());
                push_str(&mut r, ".");
                let b = u64_to_decimal(*minor as u64);
                push_str(&mut r, b.as_str());
                r
            },
            SquashError::InvalidBlockSize => String::from_str("Invalid block size"),
            SquashError::Corrupted(s) => concat("Corrupted filesystem: ", s.as_str()),
            SquashError::Compression(s) => concat("Compression error: ", s.as_str()),
            SquashError::InvalidInodeType(t) => {
                let d = u64_to_decimal(*t as u64);
                concat("Invalid inode type: ", d.as_str())
            },
            SquashError::InvalidDirectoryEntry => String::from_str("Invalid directory entry"),
            SquashError::InvalidFragmentEntry => String::from_str("Invalid fragment entry"),
            SquashError::InvalidIdTable => String::from_str("Invalid id table"),
            SquashError::InvalidLookupTable => String::from_str("Invalid lookup table"),
            SquashError::InvalidXattrs => String::from_str("Invalid extended attributes"),
            SquashError::MemoryError(s) => concat("Memory error: ", s.as_str()),
            SquashError::Other(s) => concat("Other error: ", s.as_str()),
        };
        proof {
            if !(*self is Io) {
                assert(r@ == squash_message(*self, Seq::empty()));
            }
        }
        r
    }
}

/// Settings for how errors and information are reported.
#[derive(Debug, Clone, Copy)]
pub struct ErrorState {
    /// Whether to exit on error.
    pub exit_on_error: bool,
    /// Whether to display info.
    pub display_info: bool,
}

impl ErrorState {
    /// The default settings: exit on error and display information.
    pub fn new() -> (r: Self)
        ensures
            r.exit_on_error && r.display_info,
    {
        ErrorState { exit_on_error: true, display_info: true }
    }
}

impl Default for ErrorState {
    fn default() -> (r: Self)
        ensures
            r.exit_on_error && r.display_info,
    {
        ErrorState::new()
    }
}

/// Base error type for all AppImage-related errors.
#[derive(Debug)]
pub enum AppImageError {
    Io(std::io::Error),
    InvalidFormat(String),
    Elf(String),
    FileSystem(String),
    Archive(String),
    SquashFs(String),
    NotSupported(String),
    InvalidParameter(String),
    NotFound(String),
    PermissionDenied(String),
    OperationFailed(String),
    StringConversion(String),
    NulError(String),
    FromBytesWithNul(String),
    DesktopIntegration(String),
    NotOpen,
    FileNotFound(String),
    NotAFile,
    InvalidPath(String),
    InvalidData(String),
    InvalidHeader(String),
    InvalidFooter(String),
    InvalidMagic(String),
    AlreadyExists(String),
    InvalidState(String),
    InvalidOperation(String),
}

/// Whether `m` is the message `prefix` followed by the text of `s`.
pub open spec fn message_is(m: Seq<char>, prefix: Seq<char>, s: String) -> bool {
    m == prefix + s@
}

/// Whether `m` is the message that describes error `e`.
pub open spec fn app_error_text(e: AppImageError, m: Seq<char>) -> bool {
    match e {
        AppImageError::InvalidFormat(s) => message_is(m, "Invalid format: "@, s),
        AppImageError::Elf(s) => message_is(m, "ELF error: "@, s),
        AppImageError::FileSystem(s) => message_is(m, "File system error: "@, s),
        AppImageError::Archive(s) => message_is(m, "Archive error: "@, s),
        AppImageError::SquashFs(s) => message_is(m, "SquashFS error: "@, s),
        AppImageError::NotSupported(s) => message_is(m, "Operation not supported: "@, s),
        AppImageError::InvalidParameter(s) => message_is(m, "Invalid parameter: "@, s),
        AppImageError::NotFound(s) => message_is(m, "Resource not found: "@, s),
        AppImageError::PermissionDenied(s) => message_is(m, "Permission denied: "@, s),
        AppImageError::OperationFailed(s) => message_is(m, "Operation failed: "@, s),
        AppImageError::StringConversion(s) => message_is(m, "String conversion error: "@, s),
        AppImageError::NulError(s) => message_is(m, "Null terminator error: "@, s),
        AppImageError::FromBytesWithNul(s) => message_is(m, "Invalid null-terminated string: "@, s),
        AppImageError::DesktopIntegration(s) => message_is(m, "Desktop integration error: "@, s),
        AppImageError::NotOpen => m == "Handler is not open"@,
        AppImageError::FileNotFound(s) => message_is(m, "File not found: "@, s),
        AppImageError::NotAFile => m == "Not a file"@,
        AppImageError::InvalidPath(s) => message_is(m, "Invalid path: "@, s),
        AppImageError::InvalidData(s) => message_is(m, "Invalid data: "@, s),
        AppImageError::InvalidHeader(s) => message_is(m, "Invalid header: "@, s),
        AppImageError::InvalidFooter(s) => message_is(m, "Invalid footer: "@, s),
        AppImageError::InvalidMagic(s) => message_is(m, "Invalid magic: "@, s),
        AppImageError::AlreadyExists(s) => message_is(m, "Already exists: "@, s),
        AppImageError::InvalidState(s) => message_is(m, "Invalid state: "@, s),
        AppImageError::InvalidOperation(s) => message_is(m, "Invalid operation: "@, s),
        AppImageError::Io(_) => exists|t: Seq<char>| m == "IO error: "@ + t,
    }
}

impl AppImageError {
    /// The message that describes the error.
    pub fn message(&self) -> (r: String)
        ensures
            app_error_text(*self, r@),
    {
        match self {
            AppImageError::Io(e) => {
                let t = io_error_text(e);
                concat("IO error: ", t.as_str())
            },
            AppImageError::InvalidFormat(s) => concat("Invalid format: ", s.as_str()),
            AppImageError::Elf(s) => concat("ELF error: ", s.as_str()),
            AppImageError::FileSystem(s) => concat("File system error: ", s.as_str()),
            AppImageError::Archive(s) => concat("Archive error: ", s.as_str()),
            AppImageError::SquashFs(s) => concat("SquashFS error: ", s.as_str()),
            AppImageError::NotSupported(s) => concat("Operation not supported: ", s.as_str()),
            AppImageError::InvalidParameter(s) => concat("Invalid parameter: ", s.as_str()),
            AppImageError::NotFound(s) => concat("Resource not found: ", s.as_str()),
            AppImageError::PermissionDenied(s) => concat("Permission denied: ", s.as_str()),
            AppImageError::OperationFailed(s) => concat("Operation failed: ", s.as_str()),
            AppImageError::StringConversion(s) => concat("String conversion error: ", s.as_str()),
            AppImageError::NulError(s) => concat("Null terminator error: ", s.as_str()),
            AppImageError::FromBytesWithNul(s) => concat("Invalid null-terminated string: ", s.as_str()),
            AppImageError::DesktopIntegration(s) => concat("Desktop integration error: ", s.as_str()),
            AppImageError::NotOpen => String::from_str("Handler is not open"),
            AppImageError::FileNotFound(s) => concat("File not found: ", s.as_str()),
            AppImageError::NotAFile => String::from_str("Not a file"),
            AppImageError::InvalidPath(s) => concat("Invalid path: ", s.as_str()),
            AppImageError::InvalidData(s) => concat("Invalid data: ", s.as_str()),
            AppImageError::InvalidHeader(s) => concat("Invalid header: ", s.as_str()),
            AppImageError::InvalidFooter(s) => concat("Invalid footer: ", s.as_str()),
            AppImageError::InvalidMagic(s) => concat("Invalid magic: ", s.as_str()),
            AppImageError::AlreadyExists(s) => concat("Already exists: ", s.as_str()),
            AppImageError::InvalidState(s) => concat("Invalid state: ", s.as_str()),
            AppImageError::InvalidOperation(s) => concat("Invalid operation: ", s.as_str()),
        }
    }
}

/// Error type for desktop integration operations.
#[derive(Debug)]
pub enum DesktopIntegrationError {
    Io(std::io::Error),
    DesktopIntegration(String),
    PermissionDenied(String),
    NotSupported(String),
    InvalidParameter(String),
    NotFound(String),
    OperationFailed(String),
}

/// Error type for desktop entry editing operations.
#[derive(Debug)]
pub enum DesktopEntryEditError {
    File(std::io::Error),
    Format(String),
    MissingField(String),
    InvalidValue(String),
    OperationFailed(String),
}

impl DesktopEntryEditError {
    /// The message that describes the error.
    pub fn message(&self) -> (r: String)
        ensures
            match self {
                DesktopEntryEditError::Format(s) => message_is(r@, "Format error: "@, *s),
                DesktopEntryEditError::MissingField(s) => message_is(r@, "Missing field: "@, *s),
                DesktopEntryEditError::InvalidValue(s) => message_is(r@, "Invalid value: "@, *s),
                DesktopEntryEditError::OperationFailed(s) => message_is(r@, "Operation failed: "@, *s),
                DesktopEntryEditError::File(_) => exists|t: Seq<char>| r@ == "File error: "@ + t,
            },
    {
        match self {
            DesktopEntryEditError::File(e) => {
                let t = io_error_text(e);
                concat("File error: ", t.as_str())
            },
            DesktopEntryEditError::Format(s) => concat("Format error: ", s.as_str()),
            DesktopEntryEditError::MissingField(s) => concat("Missing field: ", s.as_str()),
            DesktopEntryEditError::InvalidValue(s) => concat("Invalid value: ", s.as_str()),
            DesktopEntryEditError::OperationFailed(s) => concat("Operation failed: ", s.as_str()),
        }
    }
}

impl DesktopIntegrationError {
    /// The integration error that reports an AppImage error by its message.
    pub fn from_app_error(error: AppImageError) -> (r: Self)
        ensures
            r matches DesktopIntegrationError::DesktopIntegration(m) && app_error_text(error, m@),
    {
        DesktopIntegrationError::DesktopIntegration(error.message())
    }
}

impl DesktopIntegrationError {
    /// The integration error that reports a desktop entry editing error.
    pub fn from_edit_error(error: DesktopEntryEditError) -> (r: Self)
        ensures
            match r {
                DesktopIntegrationError::DesktopIntegration(m) => match error {
                    DesktopEntryEditError::Format(s) => message_is(m@, "Format error: "@, s),
                    DesktopEntryEditError::MissingField(s) => message_is(m@, "Missing field: "@, s),
                    DesktopEntryEditError::InvalidValue(s) => message_is(m@, "Invalid value: "@, s),
                    DesktopEntryEditError::OperationFailed(s) => message_is(m@, "Operation failed: "@, s),
                    DesktopEntryEditError::File(_) => exists|t: Seq<char>| m@ == "File error: "@ + t,
                },
                _ => false,
            },
    {
        DesktopIntegrationError::DesktopIntegration(error.message())
    }
}

impl From<std::io::Error> for AppImageError {
    fn from(error: std::io::Error) -> (r: Self) {
        AppImageError::Io(error)
    }
}

impl vstd::std_specs::convert::FromSpecImpl<std::io::Error> for AppImageError {
    open spec fn obeys_from_spec() -> bool {
        true
    }

    open spec fn from_spec(v: std::io::Error) -> Self {
        AppImageError::Io(v)
    }
}

/// Whether `m` is the message that describes integration error `e`.
pub open spec fn integration_error_text(e: DesktopIntegrationError, m: Seq<char>) -> bool {
    match e {
        DesktopIntegrationError::Io(_) => exists|t: Seq<char>| m == "IO error: "@ + t,
        DesktopIntegrationError::DesktopIntegration(s) => message_is(m, "Desktop integration error: "@, s),
        DesktopIntegrationError::PermissionDenied(s) => message_is(m, "Permission denied: "@, s),
        DesktopIntegrationError::NotSupported(s) => message_is(m, "Operation not supported: "@, s),
        DesktopIntegrationError::InvalidParameter(s) => message_is(m, "Invalid parameter: "@, s),
        DesktopIntegrationError::NotFound(s) => message_is(m, "Resource not found: "@, s),
        DesktopIntegrationError::OperationFailed(s) => message_is(m, "Operation failed: "@, s),
    }
}

impl DesktopIntegrationError {
    /// The message that describes the error.
    pub fn message(&self) -> (r: String)
        ensures
            integration_error_text(*self, r@),
    {
        match self {
            DesktopIntegrationError::Io(e) => {
                let t = io_error_text(e);
                concat("IO error: ", t.as_str())
            },
            DesktopIntegrationError::DesktopIntegration(s) => concat("Desktop integration error: ", s.as_str()),
            DesktopIntegrationError::PermissionDenied(s) => concat("Permission denied: ", s.as_str()),
            DesktopIntegrationError::NotSupported(s) => concat("Operation not supported: ", s.as_str()),
            DesktopIntegrationError::InvalidParameter(s) => concat("Invalid parameter: ", s.as_str()),
            DesktopIntegrationError::NotFound(s) => concat("Resource not found: ", s.as_str()),
            DesktopIntegrationError::OperationFailed(s) => concat("Operation failed: ", s.as_str()),
        }
    }
}

impl AppImageError {
    /// The AppImage error that reports an integration error by its message.
    pub fn from_integration_error(error: DesktopIntegrationError) -> (r: Self)
        ensures
            r matches AppImageError::DesktopIntegration(m) && integration_error_text(error, m@),
    {
        AppImageError::DesktopIntegration(error.message())
    }
}

/// Turns the error of a result into an AppImage error.
pub trait IntoAppImageStringError<T>: Sized {
    /// The result with its error reported as an AppImage error.
    fn into_appimage_string_error(self) -> Result<T, AppImageError>;
}

impl<T> IntoAppImageStringError<T> for Result<T, String> {
    /// A string error becomes a failed operation with that text.
    fn into_appimage_string_error(self) -> (r: Result<T, AppImageError>)
        ensures
            self matches Ok(v) ==> r == Ok::<T, AppImageError>(v),
            self matches Err(e) ==> (r matches Err(AppImageError::OperationFailed(m)) && m == e),
    {
        match self {
            Ok(v) => Ok(v),
            Err(e) => Err(AppImageError::OperationFailed(e)),
        }
    }
}

/// Turns the I/O error of a result into an AppImage error.
pub trait IntoAppImageIoError<T>: Sized {
    /// The result with its I/O error reported as an AppImage error.
    fn into_appimage_io_error(self) -> Result<T, AppImageError>;
}

impl<T> IntoAppImageIoError<T> for Result<T, std::io::Error> {
    /// An I/O error becomes the AppImage I/O error.
    fn into_appimage_io_error(self) -> (r: Result<T, AppImageError>)
        ensures
            self matches Ok(v) ==> r == Ok::<T, AppImageError>(v),
            self matches Err(e) ==> r == Err::<T, AppImageError>(AppImageError::Io(e)),
    {
        match self {
            Ok(v) => Ok(v),
            Err(e) => Err(AppImageError::Io(e)),
        }
    }
}

} // verus!
