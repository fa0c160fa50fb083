use vstd::prelude::*;
use crate::bytes::{le_bytes_value, le_value};
use crate::error::io_error_text;
use crate::text::{concat, i64_to_decimal, push_str, signed_decimal};

verus! {

/// Errors of reading an ELF header.
#[derive(Debug)]
pub enum ElfError {
    Io(std::io::Error),
    InvalidFormat(String),
    UnsupportedClass(u8),
    UnsupportedData(u8),
}

/// Whether `m` is the message that describes `e`.
pub open spec fn elf_error_text(e: ElfError, m: Seq<char>) -> bool {
    match e {
        ElfError::Io(_) => exists|t: Seq<char>| m == "IO error: "@ + t,
        ElfError::InvalidFormat(s) => m == "Invalid ELF format: "@ + s@,
        ElfError::UnsupportedClass(c) => m == "Unsupported ELF class: "@ + signed_decimal(c as int),
        ElfError::UnsupportedData(d) => m == "Unsupported ELF data: "@ + signed_decimal(d as int),
    }
}

impl ElfError {
    /// The message that describes the error.
    pub fn message(&self) -> (r: String)
        ensures
            elf_error_text(*self, r@),
    {
        match self {
            ElfError::Io(e) => {
                let t = io_error_text(e);
                concat("IO error: ", t.as_str())
            },
            ElfError::InvalidFormat(s) => concat("Invalid ELF format: ", s.as_str()),
            ElfError::UnsupportedClass(c) => {
                let t = i64_to_decimal(*c as i64);
                concat("Unsupported ELF class: ", t.as_str())
            },
            ElfError::UnsupportedData(d) => {
                let t = i64_to_decimal(*d as i64);
                concat("Unsupported ELF data: ", t.as_str())
            },
        }
    }
}

/// Whether the identification bytes start with the ELF magic number.
pub open spec fn has_elf_magic(ident: Seq<u8>) -> bool {
    ident[0] == 0x7f && ident[1] == 0x45 && ident[2] == 0x4c && ident[3] == 0x46
}

/// Whether the identification bytes are those of a supported ELF file:
/// the magic number, a 32- or 64-bit class, either byte order, version 1.
pub open spec fn supported_elf_header(ident: Seq<u8>) -> bool {
    &&& has_elf_magic(ident)
    &&& ident[4] == 1 || ident[4] == 2
    &&& ident[5] == 1 || ident[5] == 2
    &&& ident[6] == 1
}

/// The message of the error that reading an unsupported header gives.
pub open spec fn elf_header_message(ident: Seq<u8>) -> Seq<char> {
    if !has_elf_magic(ident) {
        "Invalid ELF format: "@ + "Not an ELF file"@
    } else if ident[4] != 1 && ident[4] != 2 {
        "Unsupported ELF class: "@ + signed_decimal(ident[4] as int)
    } else if ident[5] != 1 && ident[5] != 2 {
        "Unsupported ELF data: "@ + signed_decimal(ident[5] as int)
    } else {
        "Invalid ELF format: "@ + ("Unsupported ELF version: "@ + signed_decimal(ident[6] as int))
    }
}

/// What the start of an ELF file tells.
#[derive(Debug)]
pub struct ElfFile {
    path: String,
    class: u8,
    data: u8,
    size: u64,
}

/// How many bytes follow the identification bytes for the size field of
/// an ELF file of the given class: four for 32-bit files, eight otherwise.
pub open spec fn size_field_len(class: u8) -> nat {
    if class == 1 {
        4
    } else {
        8
    }
}

impl ElfFile {
    /// The size recorded in the header.
    pub closed spec fn size_value(&self) -> u64 {
        self.size
    }

    /// The path the header was read from.
    pub closed spec fn path_value(&self) -> Seq<char> {
        self.path@
    }

    /// The number of bytes of the size field that follows the 16
    /// identification bytes: four for 32-bit files, eight otherwise.
    pub fn size_field_len(ident: &[u8]) -> (r: usize)
        requires
            ident@.len() >= 16,
        ensures
            r as nat == size_field_len(ident@[4]),
    {
        if ident[4] == 1 {
            4
        } else {
            8
        }
    }

    /// Read the 16 identification bytes of an ELF file and the size field
    /// that follows them (read as little-endian).
    pub fn from_header(path: String, ident: &[u8], size_bytes: &[u8]) -> (r: Result<Self, ElfError>)
        requires
            ident@.len() >= 16,
            size_bytes@.len() >= size_field_len(ident@[4]),
        ensures
            !(ident@[0] == 0x7f && ident@[1] == 0x45 && ident@[2] == 0x4c && ident@[3] == 0x46)
                ==> (r matches Err(ElfError::InvalidFormat(m)) && m@ == "Not an ELF file"@),
            (ident@[0] == 0x7f && ident@[1] == 0x45 && ident@[2] == 0x4c && ident@[3] == 0x46) ==> {
                if ident@[4] != 1 && ident@[4] != 2 {
                    r matches Err(ElfError::UnsupportedClass(c)) && c == ident@[4]
                } else if ident@[5] != 1 && ident@[5] != 2 {
                    r matches Err(ElfError::UnsupportedData(d)) && d == ident@[5]
                } else if ident@[6] != 1 {
                    r matches Err(ElfError::InvalidFormat(m)) && m@ == "Unsupported ELF version: "@
                        + signed_decimal(ident@[6] as int)
                } else {
                    r matches Ok(e) && e.size_value() as nat == le_value(
                        size_bytes@.take(size_field_len(ident@[4]) as int),
                    ) && e.path_value() == path@
                }
            },
    {
        if ident[0] != 0x7f || ident[1] != 0x45 || ident[2] != 0x4c || ident[3] != 0x46 {
            return Err(ElfError::InvalidFormat(String::from_str("Not an ELF file")));
        }
        let class = ident[4];
        if class != 1 && class != 2 {
            return Err(ElfError::UnsupportedClass(class));
        }
        let data = ident[5];
        if data != 1 && data != 2 {
            return Err(ElfError::UnsupportedData(data));
        }
        let version = ident[6];
        if version != 1 {
            let mut m = String::from_str("Unsupported ELF version: ");
            let v = i64_to_decimal(version as i64);
            push_str(&mut m, v.as_str());
            return Err(ElfError::InvalidFormat(m));
        }
        let n = Self::size_field_len(ident);
        let size = le_bytes_value(size_bytes, n);
        Ok(ElfFile { path, class, data, size })
    }

    /// Get the size recorded in the header.
    pub fn get_size(&self) -> (r: u64)
        ensures
            r == self.size_value(),
    {
        self.size
    }
}

} // verus!
