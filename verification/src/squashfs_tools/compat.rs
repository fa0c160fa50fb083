use vstd::prelude::*;
use crate::squashfs_tools::endian::{inswap_le16, inswap_le32, inswap_le64};
use crate::squashfs_tools::swap::{
    lemma_swapped16, lemma_swapped16_reverses, lemma_swapped32, lemma_swapped32_reverses,
    lemma_swapped64, lemma_swapped64_reverses, swapped16, swapped32, swapped64,
};
use crate::squashfs_tools::endian::{
    law_inswap16_involution, law_inswap32_involution, law_inswap64_involution,
};

verus! {

/// Bit of the super block flags that marks checked data.
pub const SQUASHFS_CHECK: u8 = 2;
/// Number of user ids a version 2 file system can hold.
pub const SQUASHFS_UIDS: u16 = 256;
/// Number of group ids a version 2 file system can hold.
pub const SQUASHFS_GUIDS: u16 = 255;
/// Number of inode types of the old formats.
pub const SQUASHFS_TYPES: u8 = 5;
/// Inode type of FIFOs and sockets in the old formats.
pub const SQUASHFS_IPC_TYPE: u8 = 0;
/// Size of an uncompressed metadata block.
pub const SQUASHFS_METADATA_SIZE: usize = 8192;
/// Size of a version 3 fragment table entry on disk.
pub const SQUASHFS_FRAGMENT_ENTRY_3_SIZE: usize = 12;
/// Size of a lookup table entry and of an index entry on disk.
pub const SQUASHFS_LOOKUP_ENTRY_SIZE: usize = 8;

/// Super block of a version 3 file system.
#[derive(Debug, Clone, Copy, PartialEq, Eq, Structural)]
pub struct SquashfsSuperBlock3 {
    pub s_magic: u32,
    pub inodes: u32,
    pub bytes_used_2: u32,
    pub uid_start_2: u32,
    pub guid_start_2: u32,
    pub inode_table_start_2: u32,
    pub directory_table_start_2: u32,
    pub s_major: u16,
    pub s_minor: u16,
    pub block_size_1: u16,
    pub block_log: u16,
    pub flags: u8,
    pub no_uids: u8,
    pub no_guids: u8,
    pub mkfs_time: i32,
    pub root_inode: u64,
    pub block_size: u32,
    pub fragments: u32,
    pub fragment_table_start_2: u32,
    pub bytes_used: i64,
    pub uid_start: i64,
    pub guid_start: i64,
    pub inode_table_start: i64,
    pub directory_table_start: i64,
    pub fragment_table_start: i64,
    pub lookup_table_start: i64,
}

/// Directory index entry of a version 3 file system.
#[derive(Debug, Clone, Copy, PartialEq, Eq, Structural)]
pub struct SquashfsDirIndex3 {
    pub index: u32,
    pub start_block: u32,
    pub size: u8,
}

/// Fields shared by every version 3 inode.
#[derive(Debug, Clone, Copy, PartialEq, Eq, Structural)]
pub struct SquashfsBaseInodeHeader3 {
    pub inode_type: u8,
    pub mode: u16,
    pub uid: u8,
    pub guid: u8,
    pub mtime: i32,
    pub inode_number: u32,
}

/// Version 3 inode of a FIFO or socket.
#[derive(Debug, Clone, Copy, PartialEq, Eq, Structural)]
pub struct SquashfsIpcInodeHeader3 {
    pub base: SquashfsBaseInodeHeader3,
    pub nlink: u32,
}

/// Version 3 inode of a device.
#[derive(Debug, Clone, Copy, PartialEq, Eq, Structural)]
pub struct SquashfsDevInodeHeader3 {
    pub base: SquashfsBaseInodeHeader3,
    pub nlink: u32,
    pub rdev: u16,
}

/// Version 3 inode of a symbolic link.
#[derive(Debug, Clone, Copy, PartialEq, Eq, Structural)]
pub struct SquashfsSymlinkInodeHeader3 {
    pub base: SquashfsBaseInodeHeader3,
    pub nlink: u32,
    pub symlink_size: u16,
}

/// Version 3 inode of a regular file.
#[derive(Debug, Clone, Copy, PartialEq, Eq, Structural)]
pub struct SquashfsRegInodeHeader3 {
    pub base: SquashfsBaseInodeHeader3,
    pub start_block: u64,
    pub fragment: u32,
    pub offset: u32,
    pub file_size: u32,
}

/// Version 3 inode of a large regular file.
#[derive(Debug, Clone, Copy, PartialEq, Eq, Structural)]
pub struct SquashfsLregInodeHeader3 {
    pub base: SquashfsBaseInodeHeader3,
    pub nlink: u32,
    pub start_block: u64,
    pub fragment: u32,
    pub offset: u32,
    pub file_size: i64,
}

/// Version 3 inode of a directory.
#[derive(Debug, Clone, Copy, PartialEq, Eq, Structural)]
pub struct SquashfsDirInodeHeader3 {
    pub base: SquashfsBaseInodeHeader3,
    pub nlink: u32,
    pub file_size: u32,
    pub offset: u32,
    pub start_block: u32,
    pub parent_inode: u32,
}

/// Version 3 inode of a large directory.
#[derive(Debug, Clone, Copy, PartialEq, Eq, Structural)]
pub struct SquashfsLdirInodeHeader3 {
    pub base: SquashfsBaseInodeHeader3,
    pub nlink: u32,
    pub start_block: u32,
    pub fragment: u32,
    pub offset: u32,
    pub file_size: i64,
    pub i_count: u16,
    pub parent_inode: u32,
}

/// Version 3 directory entry.
#[derive(Debug, Clone, Copy, PartialEq, Eq, Structural)]
pub struct SquashfsDirEntry3 {
    pub offset: u16,
    pub type_: u8,
    pub size: u8,
    pub inode_number: i16,
}

/// Version 3 directory header.
#[derive(Debug, Clone, Copy, PartialEq, Eq, Structural)]
pub struct SquashfsDirHeader3 {
    pub count: u8,
    pub start_block: u32,
    pub inode_number: u32,
}

/// Version 3 fragment table entry.
#[derive(Debug, Clone, Copy, PartialEq, Eq, Structural)]
pub struct SquashfsFragmentEntry3 {
    pub start_block: i64,
    pub size: u32,
    pub pending: u32,
}

/// Directory index entry of a version 2 file system.
#[derive(Debug, Clone, Copy, PartialEq, Eq, Structural)]
pub struct SquashfsDirIndex2 {
    pub index: u32,
    pub start_block: u32,
    pub size: u8,
}

/// Fields shared by every version 2 inode.
#[derive(Debug, Clone, Copy, PartialEq, Eq, Structural)]
pub struct SquashfsBaseInodeHeader2 {
    pub inode_type: u8,
    pub mode: u16,
    pub uid: u8,
    pub guid: u8,
}

/// Version 2 inode of a FIFO or socket.
#[derive(Debug, Clone, Copy, PartialEq, Eq, Structural)]
pub struct SquashfsIpcInodeHeader2 {
    pub base: SquashfsBaseInodeHeader2,
}

/// Version 2 inode of a device.
#[derive(Debug, Clone, Copy, PartialEq, Eq, Structural)]
pub struct SquashfsDevInodeHeader2 {
    pub base: SquashfsBaseInodeHeader2,
    pub rdev: u16,
}

/// Version 2 inode of a symbolic link.
#[derive(Debug, Clone, Copy, PartialEq, Eq, Structural)]
pub struct SquashfsSymlinkInodeHeader2 {
    pub base: SquashfsBaseInodeHeader2,
    pub symlink_size: u16,
}

/// Version 2 inode of a regular file.
#[derive(Debug, Clone, Copy, PartialEq, Eq, Structural)]
pub struct SquashfsRegInodeHeader2 {
    pub base: SquashfsBaseInodeHeader2,
    pub mtime: i32,
    pub start_block: u32,
    pub fragment: u32,
    pub offset: u32,
    pub file_size: u32,
}

/// Version 2 inode of a directory.
#[derive(Debug, Clone, Copy, PartialEq, Eq, Structural)]
pub struct SquashfsDirInodeHeader2 {
    pub base: SquashfsBaseInodeHeader2,
    pub file_size: u32,
    pub offset: u32,
    pub mtime: i32,
    pub start_block: u32,
}

/// Version 2 inode of a large directory.
#[derive(Debug, Clone, Copy, PartialEq, Eq, Structural)]
pub struct SquashfsLdirInodeHeader2 {
    pub base: SquashfsBaseInodeHeader2,
    pub file_size: u32,
    pub offset: u32,
    pub mtime: i32,
    pub start_block: u32,
    pub i_count: u16,
}

/// Version 2 directory header.
#[derive(Debug, Clone, Copy, PartialEq, Eq, Structural)]
pub struct SquashfsDirHeader2 {
    pub count: u8,
    pub start_block: u32,
}

/// Version 2 directory entry.
#[derive(Debug, Clone, Copy, PartialEq, Eq, Structural)]
pub struct SquashfsDirEntry2 {
    pub offset: u16,
    pub type_: u8,
    pub size: u8,
}

/// Version 2 fragment table entry.
#[derive(Debug, Clone, Copy, PartialEq, Eq, Structural)]
pub struct SquashfsFragmentEntry2 {
    pub start_block: u32,
    pub size: u32,
}

/// The 32-bit signed value with its four bytes in reverse order.
pub open spec fn swapped_i32(x: i32) -> i32 {
    swapped32(x as u32) as i32
}

/// The 64-bit unsigned value with its eight bytes in reverse order.
pub open spec fn swapped_u64(x: u64) -> u64 {
    swapped64(x as i64) as u64
}

fn swap16_value(x: u16) -> (r: u16)
    ensures
        r == swapped16(x),
{
    let r = inswap_le16(x);
    proof {
        lemma_swapped16(x, r);
    }
    r
}

fn swap32_value(x: u32) -> (r: u32)
    ensures
        r == swapped32(x),
{
    let r = inswap_le32(x);
    proof {
        lemma_swapped32(x, r);
    }
    r
}

fn swap64_value(x: i64) -> (r: i64)
    ensures
        r == swapped64(x),
{
    let r = inswap_le64(x);
    proof {
        lemma_swapped64(x, r);
    }
    r
}

fn swap_i32_value(x: i32) -> (r: i32)
    ensures
        r == swapped_i32(x),
{
    swap32_value(x as u32) as i32
}

fn swap_u64_value(x: u64) -> (r: u64)
    ensures
        r == swapped_u64(x),
{
    swap64_value(x as i64) as u64
}

/// The version 3 super block with the bytes of every multi-byte field
/// reversed; single-byte fields stay as they are.
pub open spec fn super_block_3_swapped(s: SquashfsSuperBlock3) -> SquashfsSuperBlock3 {
    SquashfsSuperBlock3 {
        s_magic: swapped32(s.s_magic),
        inodes: swapped32(s.inodes),
        bytes_used_2: swapped32(s.bytes_used_2),
        uid_start_2: swapped32(s.uid_start_2),
        guid_start_2: swapped32(s.guid_start_2),
        inode_table_start_2: swapped32(s.inode_table_start_2),
        directory_table_start_2: swapped32(s.directory_table_start_2),
        s_major: swapped16(s.s_major),
        s_minor: swapped16(s.s_minor),
        block_size_1: swapped16(s.block_size_1),
        block_log: swapped16(s.block_log),
        flags: s.flags,
        no_uids: s.no_uids,
        no_guids: s.no_guids,
        mkfs_time: swapped_i32(s.mkfs_time),
        root_inode: swapped_u64(s.root_inode),
        block_size: swapped32(s.block_size),
        fragments: swapped32(s.fragments),
        fragment_table_start_2: swapped32(s.fragment_table_start_2),
        bytes_used: swapped64(s.bytes_used),
        uid_start: swapped64(s.uid_start),
        guid_start: swapped64(s.guid_start),
        inode_table_start: swapped64(s.inode_table_start),
        directory_table_start: swapped64(s.directory_table_start),
        fragment_table_start: swapped64(s.fragment_table_start),
        lookup_table_start: swapped64(s.lookup_table_start),
    }
}

/// Convert a version 3 super block between its on-disk and its in-memory
/// byte order: the bytes of every multi-byte field are reversed.
pub fn swap_super_block_3(s: &mut SquashfsSuperBlock3)
    ensures
        *final(s) == super_block_3_swapped(*old(s)),
{
    s.s_magic = swap32_value(s.s_magic);
    s.inodes = swap32_value(s.inodes);
    s.bytes_used_2 = swap32_value(s.bytes_used_2);
    s.uid_start_2 = swap32_value(s.uid_start_2);
    s.guid_start_2 = swap32_value(s.guid_start_2);
    s.inode_table_start_2 = swap32_value(s.inode_table_start_2);
    s.directory_table_start_2 = swap32_value(s.directory_table_start_2);
    s.s_major = swap16_value(s.s_major);
    s.s_minor = swap16_value(s.s_minor);
    s.block_size_1 = swap16_value(s.block_size_1);
    s.block_log = swap16_value(s.block_log);
    s.mkfs_time = swap_i32_value(s.mkfs_time);
    s.root_inode = swap_u64_value(s.root_inode);
    s.block_size = swap32_value(s.block_size);
    s.fragments = swap32_value(s.fragments);
    s.fragment_table_start_2 = swap32_value(s.fragment_table_start_2);
    s.bytes_used = swap64_value(s.bytes_used);
    s.uid_start = swap64_value(s.uid_start);
    s.guid_start = swap64_value(s.guid_start);
    s.inode_table_start = swap64_value(s.inode_table_start);
    s.directory_table_start = swap64_value(s.directory_table_start);
    s.fragment_table_start = swap64_value(s.fragment_table_start);
    s.lookup_table_start = swap64_value(s.lookup_table_start);
}

/// Swapping the byte order of a version 3 super block twice gives it back.
pub proof fn law_swap_super_block_3_twice(s: SquashfsSuperBlock3)
    ensures
        super_block_3_swapped(super_block_3_swapped(s)) == s,
{
    lemma_swap_twice_u32(s.s_magic);
    lemma_swap_twice_u32(s.inodes);
    lemma_swap_twice_u32(s.bytes_used_2);
    lemma_swap_twice_u32(s.uid_start_2);
    lemma_swap_twice_u32(s.guid_start_2);
    lemma_swap_twice_u32(s.inode_table_start_2);
    lemma_swap_twice_u32(s.directory_table_start_2);
    lemma_swap_twice_u16(s.s_major);
    lemma_swap_twice_u16(s.s_minor);
    lemma_swap_twice_u16(s.block_size_1);
    lemma_swap_twice_u16(s.block_log);
    lemma_swap_twice_i32(s.mkfs_time);
    lemma_swap_twice_u64(s.root_inode);
    lemma_swap_twice_u32(s.block_size);
    lemma_swap_twice_u32(s.fragments);
    lemma_swap_twice_u32(s.fragment_table_start_2);
    lemma_swap_twice_i64(s.bytes_used);
    lemma_swap_twice_i64(s.uid_start);
    lemma_swap_twice_i64(s.guid_start);
    lemma_swap_twice_i64(s.inode_table_start);
    lemma_swap_twice_i64(s.directory_table_start);
    lemma_swap_twice_i64(s.fragment_table_start);
    lemma_swap_twice_i64(s.lookup_table_start);
}

proof fn lemma_swap_twice_u16(x: u16)
    ensures
        swapped16(swapped16(x)) == x,
{
    lemma_swapped16_reverses(x);
    lemma_swapped16_reverses(swapped16(x));
    law_inswap16_involution(x, swapped16(x), swapped16(swapped16(x)));
}

proof fn lemma_swap_twice_u32(x: u32)
    ensures
        swapped32(swapped32(x)) == x,
{
    lemma_swapped32_reverses(x);
    lemma_swapped32_reverses(swapped32(x));
    law_inswap32_involution(x, swapped32(x), swapped32(swapped32(x)));
}

proof fn lemma_swap_twice_i64(x: i64)
    ensures
        swapped64(swapped64(x)) == x,
{
    lemma_swapped64_reverses(x);
    lemma_swapped64_reverses(swapped64(x));
    law_inswap64_involution(x, swapped64(x), swapped64(swapped64(x)));
}

proof fn lemma_swap_twice_i32(x: i32)
    ensures
        swapped_i32(swapped_i32(x)) == x,
{
    let u = x as u32;
    let v = swapped32(u);
    assert((v as i32) as u32 == v) by (bit_vector);
    lemma_swap_twice_u32(u);
    assert((u as i32) == x) by (bit_vector)
        requires
            u == x as u32,
    ;
}

proof fn lemma_swap_twice_u64(x: u64)
    ensures
        swapped_u64(swapped_u64(x)) == x,
{
    let u = x as i64;
    let v = swapped64(u);
    assert((v as u64) as i64 == v) by (bit_vector);
    lemma_swap_twice_i64(u);
    assert((u as u64) == x) by (bit_vector)
        requires
            u == x as i64,
    ;
}

/// Bytes taken by the version 3 fragment table of `fragments` entries.
pub fn squashfs_fragment_bytes_3(fragments: u32) -> (r: usize)
    requires
        fragments * 12 <= usize::MAX,
    ensures
        r == fragments * 12,
{
    fragments as usize * SQUASHFS_FRAGMENT_ENTRY_3_SIZE
}

/// Metadata block that holds the end of the version 3 fragment table.
pub fn squashfs_fragment_index_3(fragments: u32) -> (r: usize)
    requires
        fragments * 12 <= usize::MAX,
    ensures
        r == (fragments * 12) / 8192,
{
    squashfs_fragment_bytes_3(fragments) / SQUASHFS_METADATA_SIZE
}

/// Offset of the end of the version 3 fragment table in its metadata block.
pub fn squashfs_fragment_index_offset_3(fragments: u32) -> (r: usize)
    requires
        fragments * 12 <= usize::MAX,
    ensures
        r == (fragments * 12) % 8192,
{
    squashfs_fragment_bytes_3(fragments) % SQUASHFS_METADATA_SIZE
}

/// Number of metadata blocks the version 3 fragment table spans.
pub fn squashfs_fragment_indexes_3(fragments: u32) -> (r: usize)
    requires
        fragments * 12 + 8192 <= usize::MAX,
    ensures
        r == (fragments * 12 + 8191) / 8192,
{
    (squashfs_fragment_bytes_3(fragments) + SQUASHFS_METADATA_SIZE - 1) / SQUASHFS_METADATA_SIZE
}

/// Bytes taken by the index of the version 3 fragment table.
pub fn squashfs_fragment_index_bytes_3(fragments: u32) -> (r: usize)
    requires
        fragments * 12 + 8192 <= usize::MAX,
    ensures
        r == (fragments * 12 + 8191) / 8192 * 8,
{
    let n = squashfs_fragment_indexes_3(fragments);
    assert(n * 8 <= usize::MAX) by (nonlinear_arith)
        requires
            n == (fragments * 12 + 8191) / 8192,
            fragments * 12 + 8192 <= usize::MAX,
    ;
    n * SQUASHFS_LOOKUP_ENTRY_SIZE
}

/// Bytes taken by the version 3 inode lookup table of `inodes` entries.
pub fn squashfs_lookup_bytes_3(inodes: u32) -> (r: usize)
    requires
        inodes * 8 <= usize::MAX,
    ensures
        r == inodes * 8,
{
    inodes as usize * SQUASHFS_LOOKUP_ENTRY_SIZE
}

/// Metadata block that holds the end of the version 3 lookup table.
pub fn squashfs_lookup_block_3(inodes: u32) -> (r: usize)
    requires
        inodes * 8 <= usize::MAX,
    ensures
        r == (inodes * 8) / 8192,
{
    squashfs_lookup_bytes_3(inodes) / SQUASHFS_METADATA_SIZE
}

/// Offset of the end of the version 3 lookup table in its metadata block.
pub fn squashfs_lookup_block_offset_3(inodes: u32) -> (r: usize)
    requires
        inodes * 8 <= usize::MAX,
    ensures
        r == (inodes * 8) % 8192,
{
    squashfs_lookup_bytes_3(inodes) % SQUASHFS_METADATA_SIZE
}

/// The end of the version 3 lookup table splits into its metadata block
/// and the offset in it: block * 8192 + offset is the table's size in
/// bytes, and the offset lies within a block; for every inode count.
pub proof fn law_lookup_block_split(inodes: u32)
    ensures
        (inodes * 8) / 8192 * 8192 + (inodes * 8) % 8192 == inodes * 8,
        0 <= (inodes * 8) % 8192 < 8192,
{
    vstd::arithmetic::div_mod::lemma_fundamental_div_mod(inodes * 8, 8192);
    vstd::arithmetic::mul::lemma_mul_is_commutative((inodes * 8) / 8192, 8192);
    vstd::arithmetic::div_mod::lemma_mod_bound(inodes * 8, 8192);
}

/// Number of metadata blocks the version 3 lookup table spans.
pub fn squashfs_lookup_blocks_3(inodes: u32) -> (r: usize)
    requires
        inodes * 8 + 8192 <= usize::MAX,
    ensures
        r == (inodes * 8 + 8191) / 8192,
{
    (squashfs_lookup_bytes_3(inodes) + SQUASHFS_METADATA_SIZE - 1) / SQUASHFS_METADATA_SIZE
}

/// Bytes taken by the index of the version 3 lookup table.
pub fn squashfs_lookup_block_bytes_3(inodes: u32) -> (r: usize)
    requires
        inodes * 8 + 8192 <= usize::MAX,
    ensures
        r == (inodes * 8 + 8191) / 8192 * 8,
{
    let n = squashfs_lookup_blocks_3(inodes);
    assert(n * 8 <= usize::MAX) by (nonlinear_arith)
        requires
            n == (inodes * 8 + 8191) / 8192,
            inodes * 8 + 8192 <= usize::MAX,
    ;
    n * SQUASHFS_LOOKUP_ENTRY_SIZE
}

} // verus!
