use vstd::prelude::*;

verus! {

/// Errors of format detection.
#[derive(Debug)]
pub enum FormatError {
    Io(std::io::Error),
    Invalid(String),
}

/// Represents the different formats of AppImage files.
#[derive(Debug, Clone, Copy, PartialEq, Eq, Structural)]
pub enum AppImageFormat {
    /// Type 1 AppImage format (based on ISO9660).
    Type1,
    /// Type 2 AppImage format (based on SquashFS).
    Type2,
    /// Invalid or unknown format.
    Invalid,
}

/// How many leading bytes of a file format detection reads.
pub const FORMAT_HEADER_SIZE: usize = 32774;

/// Whether the header starts with the ELF magic bytes.
pub open spec fn has_elf_magic(b: Seq<u8>) -> bool {
    b[0] == 0x7f && b[1] == 0x45 && b[2] == 0x4c && b[3] == 0x46
}

/// Whether the header carries the AppImage magic bytes of the given type.
pub open spec fn has_appimage_magic(b: Seq<u8>, kind: u8) -> bool {
    b[8] == 0x41 && b[9] == 0x49 && b[10] == kind
}

/// Whether the header carries the ISO9660 signature "CD001".
pub open spec fn has_iso9660_signature(b: Seq<u8>) -> bool {
    b[32769] == 0x43 && b[32770] == 0x44 && b[32771] == 0x30 && b[32772] == 0x30 && b[32773] == 0x31
}

/// The format that the first bytes of a file show.
pub open spec fn detected_format(b: Seq<u8>) -> AppImageFormat {
    if !has_elf_magic(b) {
        AppImageFormat::Invalid
    } else if has_appimage_magic(b, 1) {
        AppImageFormat::Type1
    } else if has_appimage_magic(b, 2) {
        AppImageFormat::Type2
    } else if has_iso9660_signature(b) {
        AppImageFormat::Type1
    } else {
        AppImageFormat::Invalid
    }
}

/// The name of a format.
pub open spec fn format_name(f: AppImageFormat) -> Seq<char> {
    match f {
        AppImageFormat::Type1 => "Type 1"@,
        AppImageFormat::Type2 => "Type 2"@,
        AppImageFormat::Invalid => "Invalid"@,
    }
}

/// The format for a format number.
pub open spec fn format_from_number(value: u8) -> AppImageFormat {
    if value == 1 {
        AppImageFormat::Type1
    } else if value == 2 {
        AppImageFormat::Type2
    } else {
        AppImageFormat::Invalid
    }
}

impl AppImageFormat {
    /// Guess the format from the first `FORMAT_HEADER_SIZE` bytes of a file:
    /// an ELF file with the AppImage magic bytes of type 1 or 2, or an ELF
    /// file that holds an ISO9660 image (type 1 without magic bytes).
    pub fn from_header(header: &[u8]) -> (r: Self)
        requires
            header@.len() >= FORMAT_HEADER_SIZE,
        ensures
            r == detected_format(header@),
    {
        if header[0] != 0x7f || header[1] != 0x45 || header[2] != 0x4c || header[3] != 0x46 {
            return AppImageFormat::Invalid;
        }
        if header[8] == 0x41 && header[9] == 0x49 && header[10] == 0x01 {
            return AppImageFormat::Type1;
        }
        if header[8] == 0x41 && header[9] == 0x49 && header[10] == 0x02 {
            return AppImageFormat::Type2;
        }
        if Self::is_type1_without_magic(header) {
            return AppImageFormat::Type1;
        }
        AppImageFormat::Invalid
    }

    /// Whether the header shows a type 1 AppImage only by its ISO9660
    /// signature, without the AppImage magic bytes (a case worth a warning).
    pub fn is_type1_without_magic(header: &[u8]) -> (r: bool)
        requires
            header@.len() >= FORMAT_HEADER_SIZE,
        ensures
            r == has_iso9660_signature(header@),
    {
        header[32769] == 0x43 && header[32770] == 0x44 && header[32771] == 0x30 && header[32772]
            == 0x30 && header[32773] == 0x31
    }

    /// Check if the format is valid.
    pub fn is_valid(&self) -> (r: bool)
        ensures
            r == (*self != AppImageFormat::Invalid),
    {
        match self {
            AppImageFormat::Type1 | AppImageFormat::Type2 => true,
            AppImageFormat::Invalid => false,
        }
    }

    /// Get the format as a string.
    pub fn as_str(&self) -> (r: &'static str)
        ensures
            r@ == format_name(*self),
    {
        match self {
            AppImageFormat::Type1 => "Type 1",
            AppImageFormat::Type2 => "Type 2",
            AppImageFormat::Invalid => "Invalid",
        }
    }

    /// The format as text (the same as `as_str`).
    pub fn to_string(&self) -> (r: String)
        ensures
            r@ == format_name(*self),
    {
        String::from_str(self.as_str())
    }

    /// Get the format as a number.
    pub fn as_number(&self) -> (r: Option<u8>)
        ensures
            r == match self {
                AppImageFormat::Type1 => Some(1u8),
                AppImageFormat::Type2 => Some(2u8),
                AppImageFormat::Invalid => None::<u8>,
            },
    {
        match self {
            AppImageFormat::Type1 => Some(1),
            AppImageFormat::Type2 => Some(2),
            AppImageFormat::Invalid => None,
        }
    }
}

impl From<u8> for AppImageFormat {
    fn from(value: u8) -> (r: Self) {
        if value == 1 {
            AppImageFormat::Type1
        } else if value == 2 {
            AppImageFormat::Type2
        } else {
            AppImageFormat::Invalid
        }
    }
}

impl vstd::std_specs::convert::FromSpecImpl<u8> for AppImageFormat {
    open spec fn obeys_from_spec() -> bool {
        true
    }

    open spec fn from_spec(value: u8) -> Self {
        format_from_number(value)
    }
}

/// A valid format's number gives the format back.
pub proof fn law_format_number_roundtrip(f: AppImageFormat)
    requires
        f != AppImageFormat::Invalid,
    ensures
        format_from_number(if f == AppImageFormat::Type1 { 1u8 } else { 2u8 }) == f,
{
}

} // verus!
