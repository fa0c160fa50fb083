use vstd::prelude::*;

verus! {

pub const SQUASHFS_CACHED_FRAGMENTS: usize = 8;
pub const SQUASHFS_MAJOR: u16 = 4;
pub const SQUASHFS_MINOR: u16 = 0;
pub const SQUASHFS_MAGIC: u32 = 0x73717368;
pub const SQUASHFS_MAGIC_SWAP: u32 = 0x68737173;
pub const SQUASHFS_START: u32 = 0;
pub const SQUASHFS_METADATA_SIZE: usize = 8192;
pub const SQUASHFS_METADATA_LOG: u32 = 13;
pub const SQUASHFS_FILE_SIZE: usize = 131072;
pub const SQUASHFS_FILE_MAX_SIZE: usize = 1048576;
pub const SQUASHFS_FILE_MAX_LOG: u32 = 20;
pub const SQUASHFS_IDS: u32 = 65536;
pub const SQUASHFS_NAME_LEN: usize = 256;
pub const SQUASHFS_DIR_COUNT: u32 = 256;
pub const SQUASHFS_SYMLINK_MAX: u32 = 65535;
pub const SQUASHFS_INVALID: i64 = 0xffffffffffff;
pub const SQUASHFS_INVALID_FRAG: u32 = 0xffffffff;
pub const SQUASHFS_INVALID_XATTR: u32 = 0xffffffff;
pub const SQUASHFS_INVALID_BLK: i64 = -1;
pub const SQUASHFS_USED_BLK: i64 = -2;

/// Whether bit `k` of `v` is set.
pub open spec fn bit_set(v: u16, k: u16) -> bool {
    (v >> k) & 1 == 1
}

/// Filesystem flags of a superblock.
#[derive(Debug, Clone, Copy)]
pub struct SquashFsFlags(u16);

impl SquashFsFlags {
    pub const NOI: u16 = 0;
    pub const NOD: u16 = 1;
    pub const CHECK: u16 = 2;
    pub const NOF: u16 = 3;
    pub const NO_FRAG: u16 = 4;
    pub const ALWAYS_FRAG: u16 = 5;
    pub const DUPLICATE: u16 = 6;
    pub const EXPORT: u16 = 7;
    pub const NOX: u16 = 8;
    pub const NO_XATTR: u16 = 9;
    pub const COMP_OPT: u16 = 10;
    pub const NOID: u16 = 11;

    /// The flag bits.
    pub closed spec fn value(&self) -> u16 {
        self.0
    }

    /// The flags with the given bits.
    pub closed spec fn from_value(v: u16) -> SquashFsFlags {
        SquashFsFlags(v)
    }

    /// `from_value` keeps the bits.
    pub proof fn lemma_from_value(v: u16)
        ensures
            Self::from_value(v).value() == v,
    {
    }

    /// Flags are equal when their bits are.
    pub proof fn lemma_value_determines(a: SquashFsFlags, b: SquashFsFlags)
        requires
            a.value() == b.value(),
        ensures
            a == b,
    {
    }

    /// Flags with the given bits.
    pub fn new(flags: u16) -> (r: Self)
        ensures
            r.value() == flags,
    {
        Self(flags)
    }

    /// The flag bits.
    pub fn bits(&self) -> (r: u16)
        ensures
            r == self.value(),
    {
        self.0
    }

    /// Inodes are stored uncompressed.
    pub fn uncompressed_inodes(&self) -> (r: bool)
        ensures
            r == bit_set(self.value(), 0),
    {
        (self.0 >> 0u16) & 1 == 1
    }

    /// Data blocks are stored uncompressed.
    pub fn uncompressed_data(&self) -> (r: bool)
        ensures
            r == bit_set(self.value(), 1),
    {
        (self.0 >> 1u16) & 1 == 1
    }

    /// Fragments are stored uncompressed.
    pub fn uncompressed_fragments(&self) -> (r: bool)
        ensures
            r == bit_set(self.value(), 3),
    {
        (self.0 >> 3u16) & 1 == 1
    }

    /// No fragments are used.
    pub fn no_fragments(&self) -> (r: bool)
        ensures
            r == bit_set(self.value(), 4),
    {
        (self.0 >> 4u16) & 1 == 1
    }

    /// Fragments are always used.
    pub fn always_fragments(&self) -> (r: bool)
        ensures
            r == bit_set(self.value(), 5),
    {
        (self.0 >> 5u16) & 1 == 1
    }

    /// Duplicates are detected.
    pub fn duplicates(&self) -> (r: bool)
        ensures
            r == bit_set(self.value(), 6),
    {
        (self.0 >> 6u16) & 1 == 1
    }

    /// The filesystem is exportable.
    pub fn exportable(&self) -> (r: bool)
        ensures
            r == bit_set(self.value(), 7),
    {
        (self.0 >> 7u16) & 1 == 1
    }

    /// Extended attributes are stored uncompressed.
    pub fn uncompressed_xattrs(&self) -> (r: bool)
        ensures
            r == bit_set(self.value(), 8),
    {
        (self.0 >> 8u16) & 1 == 1
    }

    /// No extended attributes are stored.
    pub fn no_xattrs(&self) -> (r: bool)
        ensures
            r == bit_set(self.value(), 9),
    {
        (self.0 >> 9u16) & 1 == 1
    }

    /// Compressor options are stored.
    pub fn comp_opts(&self) -> (r: bool)
        ensures
            r == bit_set(self.value(), 10),
    {
        (self.0 >> 10u16) & 1 == 1
    }

    /// Ids are stored uncompressed.
    pub fn uncompressed_ids(&self) -> (r: bool)
        ensures
            r == bit_set(self.value(), 11),
    {
        (self.0 >> 11u16) & 1 == 1
    }
}

/// Inode types.
#[derive(Debug, Clone, Copy, PartialEq, Eq, Structural)]
pub enum SquashFsFileType {
    Dir,
    File,
    Symlink,
    BlkDev,
    ChrDev,
    Fifo,
    Socket,
    LDir,
    LReg,
    LSymlink,
    LBlkDev,
    LChrDev,
    LFifo,
    LSocket,
}

/// The number under which an inode type is stored.
pub open spec fn file_type_number(t: SquashFsFileType) -> u16 {
    match t {
        SquashFsFileType::Dir => 1,
        SquashFsFileType::File => 2,
        SquashFsFileType::Symlink => 3,
        SquashFsFileType::BlkDev => 4,
        SquashFsFileType::ChrDev => 5,
        SquashFsFileType::Fifo => 6,
        SquashFsFileType::Socket => 7,
        SquashFsFileType::LDir => 8,
        SquashFsFileType::LReg => 9,
        SquashFsFileType::LSymlink => 10,
        SquashFsFileType::LBlkDev => 11,
        SquashFsFileType::LChrDev => 12,
        SquashFsFileType::LFifo => 13,
        SquashFsFileType::LSocket => 14,
    }
}

impl SquashFsFileType {
    /// The number under which the type is stored.
    pub fn value(&self) -> (r: u16)
        ensures
            r == file_type_number(*self),
    {
        match self {
            Self::Dir => 1,
            Self::File => 2,
            Self::Symlink => 3,
            Self::BlkDev => 4,
            Self::ChrDev => 5,
            Self::Fifo => 6,
            Self::Socket => 7,
            Self::LDir => 8,
            Self::LReg => 9,
            Self::LSymlink => 10,
            Self::LBlkDev => 11,
            Self::LChrDev => 12,
            Self::LFifo => 13,
            Self::LSocket => 14,
        }
    }

    /// The inode type stored as `value`, for values 1 to 14.
    pub fn try_from(value: u16) -> (r: Result<Self, &'static str>)
        ensures
            1 <= value <= 14 ==> (r matches Ok(t) && file_type_number(t) == value),
            !(1 <= value <= 14) ==> (r matches Err(m) && m@ == "Invalid SquashFS file type"@),
    {
        match value {
            1 => Ok(Self::Dir),
            2 => Ok(Self::File),
            3 => Ok(Self::Symlink),
            4 => Ok(Self::BlkDev),
            5 => Ok(Self::ChrDev),
            6 => Ok(Self::Fifo),
            7 => Ok(Self::Socket),
            8 => Ok(Self::LDir),
            9 => Ok(Self::LReg),
            10 => Ok(Self::LSymlink),
            11 => Ok(Self::LBlkDev),
            12 => Ok(Self::LChrDev),
            13 => Ok(Self::LFifo),
            14 => Ok(Self::LSocket),
            _ => Err("Invalid SquashFS file type"),
        }
    }
}

/// Every inode type is read back from its number.
pub proof fn law_file_type_number_distinct(a: SquashFsFileType, b: SquashFsFileType)
    requires
        file_type_number(a) == file_type_number(b),
    ensures
        a == b,
{
}

/// Compression types as numbered on disk.
#[derive(Debug, Clone, Copy, PartialEq, Eq, Structural)]
pub enum CompressionType {
    Zlib,
    Lzma,
    Lzo,
    Xz,
    Lz4,
    Zstd,
}

/// The number under which a compression type is stored.
pub open spec fn compression_number(t: CompressionType) -> u16 {
    match t {
        CompressionType::Zlib => 1,
        CompressionType::Lzma => 2,
        CompressionType::Lzo => 3,
        CompressionType::Xz => 4,
        CompressionType::Lz4 => 5,
        CompressionType::Zstd => 6,
    }
}

impl CompressionType {
    /// The number under which the compression type is stored.
    pub fn value(&self) -> (r: u16)
        ensures
            r == compression_number(*self),
    {
        match self {
            Self::Zlib => 1,
            Self::Lzma => 2,
            Self::Lzo => 3,
            Self::Xz => 4,
            Self::Lz4 => 5,
            Self::Zstd => 6,
        }
    }

    /// The compression type stored as `value`, for values 1 to 6.
    pub fn try_from(value: u16) -> (r: Result<Self, &'static str>)
        ensures
            1 <= value <= 6 ==> (r matches Ok(t) && compression_number(t) == value),
            !(1 <= value <= 6) ==> (r matches Err(m) && m@ == "Invalid compression type"@),
    {
        match value {
            1 => Ok(Self::Zlib),
            2 => Ok(Self::Lzma),
            3 => Ok(Self::Lzo),
            4 => Ok(Self::Xz),
            5 => Ok(Self::Lz4),
            6 => Ok(Self::Zstd),
            _ => Err("Invalid compression type"),
        }
    }
}

/// The superblock of a SquashFS 4 filesystem.
#[derive(Debug, Clone, Copy)]
pub struct SquashFsSuperBlock {
    pub s_magic: u32,
    pub inodes: u32,
    pub mkfs_time: u32,
    pub block_size: u32,
    pub fragments: u32,
    pub compression: u16,
    pub block_log: u16,
    pub flags: SquashFsFlags,
    pub no_ids: u16,
    pub major: u16,
    pub minor: u16,
    pub root_inode: i64,
    pub bytes_used: i64,
    pub id_table_start: i64,
    pub xattr_id_table_start: i64,
    pub inode_table_start: i64,
    pub directory_table_start: i64,
    pub fragment_table_start: i64,
    pub lookup_table_start: i64,
}

impl SquashFsSuperBlock {
    /// The magic number is the SquashFS magic number.
    pub fn is_valid(&self) -> (r: bool)
        ensures
            r == (self.s_magic == SQUASHFS_MAGIC),
    {
        self.s_magic == 0x73717368
    }

    /// The magic number is the byte-swapped SquashFS magic number.
    pub fn is_big_endian(&self) -> (r: bool)
        ensures
            r == (self.s_magic == SQUASHFS_MAGIC_SWAP),
    {
        self.s_magic == 0x68737173
    }

    /// The version is 4.0.
    pub fn is_version_supported(&self) -> (r: bool)
        ensures
            r == (self.major == 4 && self.minor == 0),
    {
        self.major == 4 && self.minor <= 0
    }
}

#[derive(Debug, Clone, Copy)]
pub struct SquashFsDirIndex {
    pub index: u32,
    pub start_block: u32,
    pub size: u32,
}

#[derive(Debug, Clone, Copy)]
pub struct SquashFsBaseInodeHeader {
    pub inode_type: u16,
    pub mode: u16,
    pub uid: u16,
    pub guid: u16,
    pub mtime: u32,
    pub inode_number: u32,
}

#[derive(Debug, Clone, Copy)]
pub struct SquashFsIpcInodeHeader {
    pub base: SquashFsBaseInodeHeader,
    pub nlink: u32,
}

#[derive(Debug, Clone, Copy)]
pub struct SquashFsLIpcInodeHeader {
    pub base: SquashFsIpcInodeHeader,
    pub xattr: u32,
}

#[derive(Debug, Clone, Copy)]
pub struct SquashFsDevInodeHeader {
    pub base: SquashFsBaseInodeHeader,
    pub nlink: u32,
    pub rdev: u32,
}

#[derive(Debug, Clone, Copy)]
pub struct SquashFsLDevInodeHeader {
    pub base: SquashFsDevInodeHeader,
    pub xattr: u32,
}

#[derive(Debug, Clone, Copy)]
pub struct SquashFsSymlinkInodeHeader {
    pub base: SquashFsBaseInodeHeader,
    pub nlink: u32,
    pub symlink_size: u32,
}

#[derive(Debug, Clone, Copy)]
pub struct SquashFsRegInodeHeader {
    pub base: SquashFsBaseInodeHeader,
    pub start_block: u32,
    pub fragment: u32,
    pub offset: u32,
    pub file_size: u32,
}

#[derive(Debug, Clone, Copy)]
pub struct SquashFsLRegInodeHeader {
    pub base: SquashFsBaseInodeHeader,
    pub start_block: i64,
    pub file_size: i64,
    pub sparse: i64,
    pub nlink: u32,
    pub fragment: u32,
    pub offset: u32,
    pub xattr: u32,
}

#[derive(Debug, Clone, Copy)]
pub struct SquashFsDirInodeHeader {
    pub base: SquashFsBaseInodeHeader,
    pub start_block: u32,
    pub nlink: u32,
    pub file_size: u16,
    pub offset: u16,
    pub parent_inode: u32,
}

#[derive(Debug, Clone, Copy)]
pub struct SquashFsLDirInodeHeader {
    pub base: SquashFsBaseInodeHeader,
    pub nlink: u32,
    pub file_size: u32,
    pub start_block: u32,
    pub parent_inode: u32,
    pub i_count: u16,
    pub offset: u16,
    pub xattr: u32,
}

#[derive(Debug, Clone, Copy)]
pub struct SquashFsDirEntry {
    pub offset: u16,
    pub inode_number: i16,
    pub type_: u16,
    pub size: u16,
}

#[derive(Debug, Clone, Copy)]
pub struct SquashFsDirHeader {
    pub count: u32,
    pub start_block: u32,
    pub inode_number: u32,
}

#[derive(Debug, Clone, Copy)]
pub struct SquashFsFragmentEntry {
    pub start_block: i64,
    pub size: u32,
    pub unused: u32,
}

#[derive(Debug, Clone, Copy)]
pub struct SquashFsXattrEntry {
    pub type_: u16,
    pub size: u16,
}

#[derive(Debug, Clone, Copy)]
pub struct SquashFsXattrVal {
    pub vsize: u32,
}

#[derive(Debug, Clone, Copy)]
pub struct SquashFsXattrId {
    pub xattr: i64,
    pub count: u32,
    pub size: u32,
}

#[derive(Debug, Clone, Copy)]
pub struct SquashFsXattrTable {
    pub xattr_table_start: i64,
    pub xattr_ids: u32,
    pub unused: u32,
}

/// The VFS inode number for an inode at block `a`, byte `b`: the block
/// times 256 (kept to 32 bits), plus half the byte offset, plus one (so
/// block 1, byte 2 gives 258).
pub fn squashfs_mk_vfs_inode(a: u32, b: u32) -> (r: u32)
    requires
        (a as int * 256) % 0x1_0000_0000 + b as int / 2 + 1 <= u32::MAX,
    ensures
        r as int == (a as int * 256) % 0x1_0000_0000 + b as int / 2 + 1,
{
    let s: u32 = a << 8u32;
    let q: u32 = b >> 1u32;
    assert(s as int == (a as int * 256) % 0x1_0000_0000 && q as int == b as int / 2) by (bit_vector)
        requires s == a << 8u32, q == b >> 1u32;
    s + q + 1
}

/// The permission bits of a mode.
pub fn squashfs_mode(mode: u16) -> (r: u16)
    ensures
        r == mode & 0xfff,
        r as int == mode as int % 4096,
{
    let r = mode & 0xfff;
    assert(r as int == mode as int % 4096) by (bit_vector)
        requires r == mode & 0xfff;
    r
}

/// The size field of a block word: its low bits without the 0x8000 flag,
/// or 0x8000 when they are all zero.
pub fn squashfs_compressed_size(b: u32) -> (r: u32)
    ensures
        r == (if b & !0x8000u32 != 0 { b & !0x8000u32 } else { 0x8000u32 }),
{
    if (b & !0x8000u32) != 0 {
        b & !0x8000u32
    } else {
        0x8000
    }
}

/// Whether a block word carries the 0x8000 flag.
pub fn squashfs_compressed(b: u32) -> (r: bool)
    ensures
        r == (b & 0x8000u32 != 0),
{
    (b & 0x8000u32) != 0
}

/// A SquashFS inode reference: block and offset.
pub type SquashFsInode = u64;

/// The inode reference for `offset` within metadata block `start_block`.
pub fn squashfs_mkinode(start_block: u32, offset: u16) -> (r: u64)
    ensures
        r as int == start_block as int * 65536 + offset as int,
{
    let s: u64 = (start_block as u64) << 16u64;
    let r: u64 = s | (offset as u64);
    assert(r as int == start_block as int * 65536 + offset as int) by (bit_vector)
        requires s == (start_block as u64) << 16u64, r == s | (offset as u64);
    r
}

/// The offset part of an inode reference.
pub fn squashfs_inode_offset(inode: u64) -> (r: u16)
    ensures
        r as int == inode as int % 65536,
{
    let r = (inode & 0xFFFF) as u16;
    assert(r as int == inode as int % 65536) by (bit_vector)
        requires r == (inode & 0xFFFF) as u16;
    r
}

/// The block part of an inode reference (bits 16 to 47).
pub fn squashfs_inode_block(inode: u64) -> (r: u32)
    ensures
        r as int == (inode as int / 65536) % 0x1_0000_0000,
{
    let r = (inode >> 16u64) as u32;
    assert(r as int == (inode as int / 65536) % 0x1_0000_0000) by (bit_vector)
        requires r == (inode >> 16u64) as u32;
    r
}

/// An inode reference made of a block and an offset gives both back.
pub proof fn law_inode_reference_roundtrip(start_block: u32, offset: u16, inode: u64)
    requires
        inode as int == start_block as int * 65536 + offset as int,
    ensures
        inode as int % 65536 == offset as int,
        (inode as int / 65536) % 0x1_0000_0000 == start_block as int,
{
    assert((start_block as int * 65536 + offset as int) % 65536 == offset as int) by (nonlinear_arith)
        requires 0 <= offset < 65536, start_block >= 0;
    assert((start_block as int * 65536 + offset as int) / 65536 == start_block as int) by (nonlinear_arith)
        requires 0 <= offset < 65536, start_block >= 0;
}

} // verus!
