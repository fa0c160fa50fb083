use vstd::prelude::*;
use crate::error::SquashError;
use crate::payload_iterator::{le_at, read_le, unexpected_eof};
use crate::squashfs_tools::fs::{SquashFsFlags, SquashFsSuperBlock, SQUASHFS_MAGIC, SQUASHFS_MAGIC_SWAP};

verus! {

/// Size of a SquashFS 4 superblock on disk.
pub const SUPER_BLOCK_SIZE: usize = 96;
/// Largest metadata block.
pub const SQUASHFS_METADATA_SIZE: usize = 8192;

/// The superblock held by the first 96 bytes of `d`, all numbers
/// little-endian, in the order of the fields.
pub open spec fn super_block_of(d: Seq<u8>) -> SquashFsSuperBlock {
    SquashFsSuperBlock {
        s_magic: le_at(d, 0, 4) as u32,
        inodes: le_at(d, 4, 4) as u32,
        mkfs_time: le_at(d, 8, 4) as u32,
        block_size: le_at(d, 12, 4) as u32,
        fragments: le_at(d, 16, 4) as u32,
        compression: le_at(d, 20, 2) as u16,
        block_log: le_at(d, 22, 2) as u16,
        flags: SquashFsFlags::from_value(le_at(d, 24, 2) as u16),
        no_ids: le_at(d, 26, 2) as u16,
        major: le_at(d, 28, 2) as u16,
        minor: le_at(d, 30, 2) as u16,
        root_inode: le_at(d, 32, 8) as u64 as i64,
        bytes_used: le_at(d, 40, 8) as u64 as i64,
        id_table_start: le_at(d, 48, 8) as u64 as i64,
        xattr_id_table_start: le_at(d, 56, 8) as u64 as i64,
        inode_table_start: le_at(d, 64, 8) as u64 as i64,
        directory_table_start: le_at(d, 72, 8) as u64 as i64,
        fragment_table_start: le_at(d, 80, 8) as u64 as i64,
        lookup_table_start: le_at(d, 88, 8) as u64 as i64,
    }
}

/// Decode the superblock at the start of `data`.
fn decode_super_block(data: &[u8]) -> (r: SquashFsSuperBlock)
    requires
        data@.len() >= SUPER_BLOCK_SIZE,
    ensures
        r == super_block_of(data@),
{
    proof {
        SquashFsFlags::lemma_from_value(read_le_u16(data@, 24));
    }
    let flags = SquashFsFlags::new(read_le(data, 24, 2) as u16);
    let sb = SquashFsSuperBlock {
        s_magic: read_le(data, 0, 4) as u32,
        inodes: read_le(data, 4, 4) as u32,
        mkfs_time: read_le(data, 8, 4) as u32,
        block_size: read_le(data, 12, 4) as u32,
        fragments: read_le(data, 16, 4) as u32,
        compression: read_le(data, 20, 2) as u16,
        block_log: read_le(data, 22, 2) as u16,
        flags,
        no_ids: read_le(data, 26, 2) as u16,
        major: read_le(data, 28, 2) as u16,
        minor: read_le(data, 30, 2) as u16,
        root_inode: read_le(data, 32, 8) as i64,
        bytes_used: read_le(data, 40, 8) as i64,
        id_table_start: read_le(data, 48, 8) as i64,
        xattr_id_table_start: read_le(data, 56, 8) as i64,
        inode_table_start: read_le(data, 64, 8) as i64,
        directory_table_start: read_le(data, 72, 8) as i64,
        fragment_table_start: read_le(data, 80, 8) as i64,
        lookup_table_start: read_le(data, 88, 8) as i64,
    };
    proof {
        SquashFsFlags::lemma_value_determines(sb.flags, SquashFsFlags::from_value(le_at(data@, 24, 2) as u16));
    }
    sb
}

spec fn read_le_u16(d: Seq<u8>, a: int) -> u16 {
    le_at(d, a, 2) as u16
}

/// Read the superblock of a SquashFS 4 filesystem whose bytes are `data`:
/// an I/O error where it is shorter than a superblock; a refusal of a
/// byte-swapped or unknown magic number and of a version other than 4.0.
pub fn read_super(data: &[u8]) -> (r: Result<SquashFsSuperBlock, SquashError>)
    ensures
        data@.len() < SUPER_BLOCK_SIZE ==> r matches Err(SquashError::Io(_)),
        data@.len() >= SUPER_BLOCK_SIZE ==> ({
            let sb = super_block_of(data@);
            if sb.s_magic != SQUASHFS_MAGIC {
                if sb.s_magic == SQUASHFS_MAGIC_SWAP {
                    r matches Err(SquashError::UnsupportedBigEndian)
                } else {
                    r matches Err(SquashError::InvalidMagic)
                }
            } else if sb.major != 4 || sb.minor > 0 {
                r matches Err(SquashError::UnsupportedVersion { major, minor }) && major == sb.major
                    && minor == sb.minor
            } else {
                r matches Ok(s) && s == sb
            }
        }),
{
    if data.len() < SUPER_BLOCK_SIZE {
        return Err(SquashError::Io(unexpected_eof()));
    }
    let sb = decode_super_block(data);
    if sb.s_magic != SQUASHFS_MAGIC {
        if sb.s_magic == SQUASHFS_MAGIC_SWAP {
            return Err(SquashError::UnsupportedBigEndian);
        }
        return Err(SquashError::InvalidMagic);
    }
    if sb.major != 4 || sb.minor > 0 {
        return Err(SquashError::UnsupportedVersion { major: sb.major, minor: sb.minor });
    }
    Ok(sb)
}

/// The header of the metadata block at `start` of `d`: its size and
/// whether it is stored compressed (bit 15 of the 16-bit length).
pub open spec fn block_header(d: Seq<u8>, start: int) -> (nat, bool) {
    let c = le_at(d, start, 2);
    ((c % 32768) as nat, c >= 32768)
}

/// Whether reading the block at `start` into `block` stays within it: it
/// does unless the header is readable, its size allowed, its data there
/// and longer than `block`.
pub open spec fn block_fits(d: Seq<u8>, start: int, outlen: nat, block_len: nat) -> bool {
    start + 2 <= d.len() && block_header(d, start).0 <= outlen && start + 2 + block_header(
        d,
        start,
    ).0 <= d.len() ==> block_header(d, start).0 <= block_len
}

/// Read the metadata block at byte `start` of `data` into `block`: its
/// length, then its bytes (stored as they are, compressed or not); the
/// number of bytes and where the next block starts. Blocks longer than
/// `expected` (8192 where not given) are refused; data that ends early is
/// an I/O error.
pub fn read_block(data: &[u8], start: u64, expected: Option<usize>, block: &mut [u8]) -> (r: Result<
    (usize, u64),
    SquashError,
>)
    requires
        start + 2 + 32767 <= u64::MAX,
        block_fits(
            data@,
            start as int,
            match expected {
                Some(n) => n as nat,
                None => 8192nat,
            },
            old(block)@.len(),
        ),
    ensures
        final(block)@.len() == old(block)@.len(),
        ({
            let outlen: nat = match expected {
                Some(n) => n as nat,
                None => 8192nat,
            };
            if start + 2 > data@.len() {
                r matches Err(SquashError::Io(_)) && final(block)@ == old(block)@
            } else {
                let (size, _) = block_header(data@, start as int);
                if size > outlen {
                    r matches Err(SquashError::InvalidBlockSize) && final(block)@ == old(block)@
                } else if start + 2 + size > data@.len() {
                    r matches Err(SquashError::Io(_)) && final(block)@ == old(block)@
                } else {
                    r matches Ok((n, next)) && n == size && next == start + 2 + size
                        && final(block)@ == data@.subrange(start + 2, start + 2 + size) + old(
                        block,
                    )@.skip(size as int)
                }
            }
        }),
{
    let len = data.len();
    if start > len as u64 || (len as u64) - start < 2 {
        return Err(SquashError::Io(unexpected_eof()));
    }
    let s = start as usize;
    let c = read_le(data, s, 2);
    proof {
        crate::bytes::lemma_le_value_bound(data@.subrange(s as int, s + 2));
        reveal_with_fuel(crate::bytes::pow256, 3);
    }
    let size = (c % 32768) as usize;
    let outlen = match expected {
        Some(n) => n,
        None => SQUASHFS_METADATA_SIZE,
    };
    if size > outlen {
        return Err(SquashError::InvalidBlockSize);
    }
    if len - s - 2 < size {
        return Err(SquashError::Io(unexpected_eof()));
    }
    let ghost b0 = block@;
    let mut i: usize = 0;
    while i < size
        invariant
            s + 2 + size <= data@.len(),
            len == data@.len(),
            size <= block@.len(),
            block@.len() == b0.len(),
            i <= size,
            forall|k: int| 0 <= k < i ==> block@[k] == data@[s + 2 + k],
            forall|k: int| i <= k < block@.len() ==> block@[k] == b0[k],
        decreases size - i,
    {
        block[i] = data[s + 2 + i];
        i = i + 1;
    }
    assert(block@ =~= data@.subrange(start + 2, start + 2 + size) + b0.skip(size as int));
    Ok((size, start + 2 + size as u64))
}

/// Read the tables of the filesystem. Nothing more than the superblock is
/// read yet: the call always succeeds and changes nothing.
pub fn read_filesystem(root_name: Option<&str>, data: &[u8], s_blk: &mut SquashFsSuperBlock) -> (r: Result<(), SquashError>)
    ensures
        r is Ok,
        *final(s_blk) == *old(s_blk),
{
    Ok(())
}

} // verus!
