use vstd::prelude::*;
use crate::elf::{elf_header_message, size_field_len, supported_elf_header, ElfFile};
use crate::error::AppImageError;
use crate::bytes::le_value;
use crate::format::{detected_format, AppImageFormat, FORMAT_HEADER_SIZE};
use crate::text::{concat, owned};

verus! {

/// An AppImage file: its path and its format.
#[derive(Clone)]
pub struct AppImage {
    pub path: String,
    pub format: AppImageFormat,
}

impl AppImage {
    /// The AppImage at `path`, whose first bytes are `header`: an error
    /// where the header does not show a known format.
    pub fn new(path: &str, header: &[u8]) -> (r: Result<Self, AppImageError>)
        requires
            header@.len() >= FORMAT_HEADER_SIZE,
        ensures
            detected_format(header@) == AppImageFormat::Invalid ==> (r matches Err(
                AppImageError::InvalidFormat(m),
            ) && m@ == "Unknown AppImage format: "@ + path@),
            detected_format(header@) != AppImageFormat::Invalid ==> (r matches Ok(a)
                && a.path@ == path@ && a.format == detected_format(header@)),
    {
        let format = AppImageFormat::from_header(header);
        if !format.is_valid() {
            return Err(AppImageError::InvalidFormat(concat("Unknown AppImage format: ", path)));
        }
        Ok(AppImage { path: owned(path), format })
    }

    /// The path of the file.
    pub fn get_path(&self) -> (r: &str)
        ensures
            r@ == self.path@,
    {
        self.path.as_str()
    }

    /// The offset of the payload: the size that the ELF header of the file
    /// records, read from its 16 identification bytes `ident` and the size
    /// field `size_bytes` that follows them. An error where the header is
    /// not a supported ELF header, with the ELF error's message.
    pub fn get_payload_offset(&self, ident: &[u8], size_bytes: &[u8]) -> (r: Result<i64, AppImageError>)
        requires
            ident@.len() >= 16,
            size_bytes@.len() >= size_field_len(ident@[4]),
        ensures
            supported_elf_header(ident@) ==> (r matches Ok(n) && n == le_value(
                size_bytes@.take(size_field_len(ident@[4]) as int),
            ) as u64 as i64),
            !supported_elf_header(ident@) ==> (r matches Err(AppImageError::Elf(m)) && m@
                == elf_header_message(ident@)),
    {
        match ElfFile::from_header(owned(self.path.as_str()), ident, size_bytes) {
            Ok(elf) => {
                let size = elf.get_size();
                Ok(#[verifier::truncate] (size as i64))
            },
            Err(e) => Err(AppImageError::Elf(e.message())),
        }
    }

    /// The format of the file.
    pub fn get_format(&self) -> (r: AppImageFormat)
        ensures
            r == self.format,
    {
        self.format
    }
}

} // verus!
