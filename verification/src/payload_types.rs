use vstd::prelude::*;
use crate::error::AppImageError;
use crate::text::{push_str, str_eq};

verus! {

/// Represents the type of entry in the AppImage payload.
#[derive(Debug, Clone, Copy, PartialEq, Eq, Structural)]
pub enum PayloadEntryType {
    /// Regular file
    File,
    /// Symbolic link
    Symlink,
    /// Directory
    Directory,
    /// Character device
    CharDevice,
    /// Block device
    BlockDevice,
    /// Named pipe (FIFO)
    Fifo,
    /// Socket
    Socket,
    /// Unknown entry type
    Unknown,
}

/// The entry type of a file mode, read from its file type bits.
pub open spec fn type_of_mode(mode: u32) -> PayloadEntryType {
    let t = mode & 0o170000;
    if t == 0o100000 {
        PayloadEntryType::File
    } else if t == 0o120000 {
        PayloadEntryType::Symlink
    } else if t == 0o040000 {
        PayloadEntryType::Directory
    } else if t == 0o020000 {
        PayloadEntryType::CharDevice
    } else if t == 0o060000 {
        PayloadEntryType::BlockDevice
    } else if t == 0o010000 {
        PayloadEntryType::Fifo
    } else if t == 0o140000 {
        PayloadEntryType::Socket
    } else {
        PayloadEntryType::Unknown
    }
}

/// The file type bits of an entry type.
pub open spec fn mode_of_type(t: PayloadEntryType) -> u32 {
    match t {
        PayloadEntryType::File => 0o100000,
        PayloadEntryType::Symlink => 0o120000,
        PayloadEntryType::Directory => 0o040000,
        PayloadEntryType::CharDevice => 0o020000,
        PayloadEntryType::BlockDevice => 0o060000,
        PayloadEntryType::Fifo => 0o010000,
        PayloadEntryType::Socket => 0o140000,
        PayloadEntryType::Unknown => 0,
    }
}

/// The name of an entry type.
pub open spec fn entry_type_name(t: PayloadEntryType) -> Seq<char> {
    match t {
        PayloadEntryType::File => "file"@,
        PayloadEntryType::Symlink => "symlink"@,
        PayloadEntryType::Directory => "directory"@,
        PayloadEntryType::CharDevice => "char"@,
        PayloadEntryType::BlockDevice => "block"@,
        PayloadEntryType::Fifo => "fifo"@,
        PayloadEntryType::Socket => "socket"@,
        PayloadEntryType::Unknown => "unknown"@,
    }
}

impl PayloadEntryType {
    /// Convert a mode_t value to a PayloadEntryType.
    pub fn from_mode(mode: u32) -> (r: Self)
        ensures
            r == type_of_mode(mode),
    {
        let t = mode & 0o170000;
        if t == 0o100000 {
            Self::File
        } else if t == 0o120000 {
            Self::Symlink
        } else if t == 0o040000 {
            Self::Directory
        } else if t == 0o020000 {
            Self::CharDevice
        } else if t == 0o060000 {
            Self::BlockDevice
        } else if t == 0o010000 {
            Self::Fifo
        } else if t == 0o140000 {
            Self::Socket
        } else {
            Self::Unknown
        }
    }

    /// Convert a PayloadEntryType to a mode_t value.
    pub fn to_mode(&self) -> (r: u32)
        ensures
            r == mode_of_type(*self),
    {
        match self {
            Self::File => 0o100000,
            Self::Symlink => 0o120000,
            Self::Directory => 0o040000,
            Self::CharDevice => 0o020000,
            Self::BlockDevice => 0o060000,
            Self::Fifo => 0o010000,
            Self::Socket => 0o140000,
            Self::Unknown => 0,
        }
    }

    /// Convert a string representation to a PayloadEntryType.
    pub fn from_str(s: &str) -> (r: Result<Self, AppImageError>)
        ensures
            (exists|t: PayloadEntryType| t != PayloadEntryType::Unknown && entry_type_name(t) == s@)
                ==> (r matches Ok(t) && t != PayloadEntryType::Unknown && entry_type_name(t) == s@),
            !(exists|t: PayloadEntryType| t != PayloadEntryType::Unknown && entry_type_name(t) == s@)
                ==> (r matches Err(AppImageError::InvalidParameter(m)) && m@
                == "Unknown entry type: "@ + s@),
    {
        proof {
            reveal_strlit("file");
            reveal_strlit("symlink");
            reveal_strlit("directory");
            reveal_strlit("char");
            reveal_strlit("block");
            reveal_strlit("fifo");
            reveal_strlit("socket");
            reveal_strlit("unknown");
        }
        if str_eq(s, "file") {
            proof {
                assert(entry_type_name(PayloadEntryType::File) == s@);
            }
            Ok(Self::File)
        } else if str_eq(s, "symlink") {
            proof {
                assert(entry_type_name(PayloadEntryType::Symlink) == s@);
            }
            Ok(Self::Symlink)
        } else if str_eq(s, "directory") {
            proof {
                assert(entry_type_name(PayloadEntryType::Directory) == s@);
            }
            Ok(Self::Directory)
        } else if str_eq(s, "char") {
            proof {
                assert(entry_type_name(PayloadEntryType::CharDevice) == s@);
            }
            Ok(Self::CharDevice)
        } else if str_eq(s, "block") {
            proof {
                assert(entry_type_name(PayloadEntryType::BlockDevice) == s@);
            }
            Ok(Self::BlockDevice)
        } else if str_eq(s, "fifo") {
            proof {
                assert(entry_type_name(PayloadEntryType::Fifo) == s@);
            }
            Ok(Self::Fifo)
        } else if str_eq(s, "socket") {
            proof {
                assert(entry_type_name(PayloadEntryType::Socket) == s@);
            }
            Ok(Self::Socket)
        } else {
            proof {
                assert forall|t: PayloadEntryType| t != PayloadEntryType::Unknown implies entry_type_name(t) != s@ by {
                    match t {
                        PayloadEntryType::File => {},
                        PayloadEntryType::Symlink => {},
                        PayloadEntryType::Directory => {},
                        PayloadEntryType::CharDevice => {},
                        PayloadEntryType::BlockDevice => {},
                        PayloadEntryType::Fifo => {},
                        PayloadEntryType::Socket => {},
                        PayloadEntryType::Unknown => {},
                    }
                }
            }
            let mut m = String::from_str("Unknown entry type: ");
            push_str(&mut m, s);
            Err(AppImageError::InvalidParameter(m))
        }
    }

    /// Check if the entry type is a regular file.
    pub fn is_file(&self) -> (r: bool)
        ensures
            r == (*self == PayloadEntryType::File),
    {
        matches!(self, Self::File)
    }

    /// Check if the entry type is a symbolic link.
    pub fn is_symlink(&self) -> (r: bool)
        ensures
            r == (*self == PayloadEntryType::Symlink),
    {
        matches!(self, Self::Symlink)
    }

    /// Check if the entry type is a directory.
    pub fn is_directory(&self) -> (r: bool)
        ensures
            r == (*self == PayloadEntryType::Directory),
    {
        matches!(self, Self::Directory)
    }

    /// Check if the entry type is a device (char or block).
    pub fn is_device(&self) -> (r: bool)
        ensures
            r == (*self == PayloadEntryType::CharDevice || *self == PayloadEntryType::BlockDevice),
    {
        matches!(self, Self::CharDevice | Self::BlockDevice)
    }

    /// Check if the entry type is a special file (fifo or socket).
    pub fn is_special(&self) -> (r: bool)
        ensures
            r == (*self == PayloadEntryType::Fifo || *self == PayloadEntryType::Socket),
    {
        matches!(self, Self::Fifo | Self::Socket)
    }

    /// The name of the entry type.
    pub fn to_string(&self) -> (r: String)
        ensures
            r@ == entry_type_name(*self),
    {
        match self {
            Self::File => String::from_str("file"),
            Self::Symlink => String::from_str("symlink"),
            Self::Directory => String::from_str("directory"),
            Self::CharDevice => String::from_str("char"),
            Self::BlockDevice => String::from_str("block"),
            Self::Fifo => String::from_str("fifo"),
            Self::Socket => String::from_str("socket"),
            Self::Unknown => String::from_str("unknown"),
        }
    }
}

/// Every known entry type survives the trip to a mode and back.
pub proof fn law_mode_roundtrip(t: PayloadEntryType)
    requires
        t != PayloadEntryType::Unknown,
    ensures
        type_of_mode(mode_of_type(t)) == t,
{
    let m = mode_of_type(t);
    assert(m & 0o170000 == m) by (bit_vector)
        requires m == 0o100000u32 || m == 0o120000u32 || m == 0o040000u32 || m == 0o020000u32
            || m == 0o060000u32 || m == 0o010000u32 || m == 0o140000u32;
}

/// A mode whose type bits name a known type keeps exactly those bits
/// through the trip to an entry type and back.
pub proof fn law_type_bits_roundtrip(mode: u32)
    requires
        type_of_mode(mode) != PayloadEntryType::Unknown,
    ensures
        mode_of_type(type_of_mode(mode)) == mode & 0o170000,
{
}

/// Names of distinct entry types are distinct.
pub proof fn law_entry_type_names_distinct(a: PayloadEntryType, b: PayloadEntryType)
    requires
        a != b,
    ensures
        entry_type_name(a) != entry_type_name(b),
{
    reveal_strlit("file");
    reveal_strlit("symlink");
    reveal_strlit("directory");
    reveal_strlit("char");
    reveal_strlit("block");
    reveal_strlit("fifo");
    reveal_strlit("socket");
    reveal_strlit("unknown");
    assert(entry_type_name(a).len() != entry_type_name(b).len() || entry_type_name(a)[0] != entry_type_name(b)[0]
        || entry_type_name(a)[1] != entry_type_name(b)[1] || entry_type_name(a)[2] != entry_type_name(b)[2]);
}

} // verus!
