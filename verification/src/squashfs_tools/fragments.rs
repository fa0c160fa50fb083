use vstd::prelude::*;
use std::collections::HashMap;
use crate::error::SquashError;
use crate::squashfs_tools::caches_queues_lists::{same_buffer, with_used, Cache, FileBuffer as CacheBuffer};
use crate::squashfs_tools::compressor::{
    is_compression_error, CompressionType, Compressor, DefaultCompressor,
};
use crate::text::concat;

verus! {

broadcast use vstd::std_specs::hash::group_hash_axioms;

/// Where the data of a small file sits: in which fragment block, at which
/// offset, and how many bytes.
#[derive(Debug, Clone, Copy, PartialEq, Eq, Structural)]
pub struct Fragment {
    pub index: usize,
    pub offset: usize,
    pub size: usize,
    pub start_block: u64,
    pub checksum: u16,
}

/// What is known of a fragment already written: where it is and, once
/// computed, the checksum of its bytes.
#[derive(Debug, Clone, Copy, PartialEq, Eq, Structural)]
pub struct FileInfo {
    pub fragment: Fragment,
    pub fragment_checksum: u16,
    pub have_frag_checksum: bool,
}

/// The data of a file that goes into a fragment, with what fragment
/// processing finds out about it.
#[derive(Debug, Clone)]
pub struct FileBuffer {
    pub data: Vec<u8>,
    pub size: usize,
    pub file_size: u64,
    pub checksum: u16,
    pub fragment: Option<Fragment>,
    pub duplicate: bool,
    pub dupl_start: Option<FileInfo>,
}

/// One step of the checksum: rotate right by one bit, then add a non-zero byte.
pub open spec fn checksum_step(c: u16, b: u8) -> u16 {
    let r: u16 = if c & 1 != 0 {
        ((c >> 1u16) | 0x8000u16) as u16
    } else {
        (c >> 1u16) as u16
    };
    if b != 0 {
        ((r + b) % 0x10000) as u16
    } else {
        r
    }
}

/// The checksum of a block of bytes.
pub open spec fn checksum_of(s: Seq<u8>) -> u16
    decreases s.len(),
{
    if s.len() == 0 {
        0
    } else {
        checksum_step(checksum_of(s.drop_last()), s.last())
    }
}

/// Whether every byte of `s` is zero.
pub open spec fn all_zero(s: Seq<u8>) -> bool {
    forall|i: int| 0 <= i < s.len() ==> s[i] == 0
}

/// The checksum of a fragment that is already written, from what is known
/// of it and the data of its fragment block.
pub open spec fn candidate_checksum(c: FileInfo, block: Seq<u8>) -> u16 {
    if c.have_frag_checksum {
        c.fragment_checksum
    } else {
        checksum_of(block.subrange(c.fragment.offset as int, c.fragment.offset + c.fragment.size))
    }
}

/// Whether the written fragment `c`, in fragment block `block`, holds
/// exactly the data `data` of a file of `file_size` bytes with checksum
/// `checksum`.
pub open spec fn is_duplicate_of(
    c: FileInfo,
    block: Seq<u8>,
    data: Seq<u8>,
    file_size: u64,
    checksum: u16,
) -> bool {
    &&& c.fragment.size == file_size
    &&& candidate_checksum(c, block) == checksum
    &&& data == block.subrange(c.fragment.offset as int, c.fragment.offset + c.fragment.size)
}

/// Whether the `k`-th candidate is the first one that holds the data.
pub open spec fn first_duplicate(
    cs: Seq<FileInfo>,
    blocks: Seq<Vec<u8>>,
    data: Seq<u8>,
    file_size: u64,
    checksum: u16,
    k: int,
) -> bool {
    &&& 0 <= k < cs.len()
    &&& is_duplicate_of(cs[k], blocks[k]@, data, file_size, checksum)
    &&& forall|j: int|
        0 <= j < k ==> !is_duplicate_of(#[trigger] cs[j], blocks[j]@, data, file_size, checksum)
}

/// Fragment processing: the caches of fragment blocks and, for each file
/// size, the fragments already written that a new file might duplicate.
pub struct FragmentProcessor {
    pub fragment_cache: Cache,
    pub reserve_cache: Cache,
    pub writer_cache: Cache,
    pub dupl_frag: HashMap<u64, Vec<FileInfo>>,
    pub compressor: DefaultCompressor,
    pub block_size: usize,
    pub sparse_files: bool,
    pub start_offset: u64,
}

/// Bit of a fragment's size that marks its block as stored uncompressed.
pub const FRAGMENT_UNCOMPRESSED_BIT: usize = 0x80000000;

fn bytes_eq(a: &[u8], b: &[u8]) -> (r: bool)
    ensures
        r == (a@ == b@),
{
    if a.len() != b.len() {
        return false;
    }
    let mut i: usize = 0;
    while i < a.len()
        invariant
            a@.len() == b@.len(),
            i <= a@.len(),
            forall|k: int| 0 <= k < i ==> a@[k] == b@[k],
        decreases a@.len() - i,
    {
        if a[i] != b[i] {
            return false;
        }
        i = i + 1;
    }
    assert(a@ =~= b@);
    true
}

/// The checksum of a block of bytes, and whether every byte is zero.
fn checksum_and_sparse(data: &[u8]) -> (r: (u16, bool))
    ensures
        r.0 == checksum_of(data@),
        r.1 == all_zero(data@),
{
    let mut chksum: u16 = 0;
    let mut sparse = true;
    let mut i: usize = 0;
    while i < data.len()
        invariant
            i <= data@.len(),
            chksum == checksum_of(data@.take(i as int)),
            sparse == all_zero(data@.take(i as int)),
        decreases data@.len() - i,
    {
        let byte = data[i];
        proof {
            assert(data@.take(i + 1).drop_last() =~= data@.take(i as int));
            assert(data@.take(i + 1).last() == byte);
        }
        chksum = if chksum & 1 != 0 {
            (chksum >> 1) | 0x8000
        } else {
            chksum >> 1
        };
        if byte != 0 {
            sparse = false;
            chksum = chksum.wrapping_add(byte as u16);
        }
        proof {
            if sparse {
                assert forall|k: int| 0 <= k < i + 1 implies #[trigger] data@.take(i + 1)[k] == 0 by {
                    if k < i {
                        assert(data@.take(i as int)[k] == data@.take(i + 1)[k]);
                    }
                }
            } else {
                if byte == 0 {
                    let k = choose|k: int| 0 <= k < i && data@.take(i as int)[k] != 0;
                    assert(data@.take(i + 1)[k] != 0);
                }
            }
        }
        i = i + 1;
    }
    assert(data@.take(data@.len() as int) =~= data@);
    (chksum, sparse)
}

impl FragmentProcessor {
    /// A processor for blocks of `block_size` bytes, with empty caches of
    /// 1024 fragment blocks, 64 reserve blocks and 256 blocks being written.
    pub fn new(compressor: DefaultCompressor, block_size: usize, sparse_files: bool, start_offset: u64) -> (r: Self)
        ensures
            r.compressor == compressor,
            r.block_size == block_size && r.sparse_files == sparse_files && r.start_offset
                == start_offset,
            r.fragment_cache.wf() && r.fragment_cache.max_buffers == 1024 && r.fragment_cache.count
                == 0 && r.fragment_cache.hash_table@ == Map::<i64, CacheBuffer>::empty(),
            r.reserve_cache.wf() && r.reserve_cache.max_buffers == 64 && r.reserve_cache.count
                == 0 && r.reserve_cache.hash_table@ == Map::<i64, CacheBuffer>::empty(),
            r.writer_cache.wf() && r.writer_cache.max_buffers == 256 && r.writer_cache.count
                == 0 && r.writer_cache.hash_table@ == Map::<i64, CacheBuffer>::empty(),
            !r.fragment_cache.noshrink_lookup && !r.reserve_cache.noshrink_lookup,
            r.fragment_cache.buffer_size == block_size && r.reserve_cache.buffer_size == block_size,
            r.dupl_frag@ == Map::<u64, Vec<FileInfo>>::empty(),
    {
        FragmentProcessor {
            fragment_cache: Cache::new(block_size, 1024, false, false),
            reserve_cache: Cache::new(block_size, 64, false, false),
            writer_cache: Cache::new(block_size, 256, false, false),
            dupl_frag: HashMap::new(),
            compressor,
            block_size,
            sparse_files,
            start_offset,
        }
    }

    /// Store the checksum of the buffer's data in it; whether the data is
    /// all zero bytes.
    pub fn checksum_sparse(&self, buffer: &mut FileBuffer) -> (r: bool)
        ensures
            r == all_zero(old(buffer).data@),
            final(buffer).checksum == checksum_of(old(buffer).data@),
            final(buffer).data@ == old(buffer).data@,
            final(buffer).size == old(buffer).size,
            final(buffer).file_size == old(buffer).file_size,
            final(buffer).fragment == old(buffer).fragment,
            final(buffer).duplicate == old(buffer).duplicate,
            final(buffer).dupl_start == old(buffer).dupl_start,
    {
        let (c, sparse) = checksum_and_sparse(buffer.data.as_slice());
        buffer.checksum = c;
        sparse
    }

    /// The fragments already written for files of `file_size` bytes.
    pub fn duplicate_candidates(&self, file_size: u64) -> (r: Vec<FileInfo>)
        ensures
            self.dupl_frag@.contains_key(file_size) ==> r@ == self.dupl_frag@[file_size]@,
            !self.dupl_frag@.contains_key(file_size) ==> r@ == Seq::<FileInfo>::empty(),
    {
        match self.dupl_frag.get(&file_size) {
            Some(v) => vstd::slice::slice_to_vec(v.as_slice()),
            None => Vec::new(),
        }
    }

    /// The block of a fragment: from the fragment cache or the reserve cache
    /// where one holds it; else a new buffer of one of them filled with the
    /// block, from the cache of blocks being written or, failing that, from
    /// `disk_data`, the bytes read from the file system at the block's
    /// start; decompressed unless the fragment's size marks it as stored
    /// uncompressed.
    pub fn get_fragment(&mut self, fragment: &Fragment, disk_data: &[u8]) -> (r: Result<CacheBuffer, SquashError>)
        requires
            fragment.index <= i64::MAX,
            old(self).fragment_cache.wf(),
            old(self).reserve_cache.wf(),
            !old(self).fragment_cache.hash_table@.contains_key(fragment.index as i64)
                && !old(self).reserve_cache.hash_table@.contains_key(fragment.index as i64) ==> (old(self).fragment_cache.count < old(self).fragment_cache.max_buffers || old(self).reserve_cache.count < old(self).reserve_cache.max_buffers),
            !old(self).fragment_cache.noshrink_lookup,
            !old(self).reserve_cache.noshrink_lookup,
        ensures
            final(self).fragment_cache.wf(),
            final(self).reserve_cache.wf(),
            ({
                let idx = fragment.index as i64;
                let fc = old(self).fragment_cache.hash_table@;
                let rc = old(self).reserve_cache.hash_table@;
                let wc = old(self).writer_cache.hash_table@;
                if fc.contains_key(idx) {
                    r matches Ok(b) && same_buffer(b, with_used(fc[idx], true))
                } else if rc.contains_key(idx) {
                    r matches Ok(b) && same_buffer(b, with_used(rc[idx], true))
                } else {
                    let source = if wc.contains_key(idx) {
                        wc[idx].data@
                    } else {
                        disk_data@
                    };
                    let compressed = fragment.size & FRAGMENT_UNCOMPRESSED_BIT != 0;
                    if compressed && old(self).compressor.compression_type
                        != CompressionType::NoCompression {
                        r matches Err(SquashError::Other(m)) && m@ == "Decompression failed: "@
                            + "Compression error: "@ + "Decompression not implemented"@
                    } else {
                        r matches Ok(b) && b.data@ == source && b.index == 0 && !b.used
                    }
                }
            }),
    {
        let idx = fragment.index as i64;
        if let Some(buffer) = self.fragment_cache.lookup(idx) {
            return Ok(buffer);
        }
        if let Some(buffer) = self.reserve_cache.lookup(idx) {
            return Ok(buffer);
        }
        let mut buffer = match self.fragment_cache.get(idx) {
            Some(b) => b,
            None => match self.reserve_cache.get(idx) {
                Some(b) => b,
                None => {
                    return Err(SquashError::Other(String::from_str("No space in reserve cache")));
                },
            },
        };
        let compressed_buffer = self.writer_cache.lookup(idx);
        let compressed = fragment.size & FRAGMENT_UNCOMPRESSED_BIT != 0;
        if compressed {
            let decompressed = match &compressed_buffer {
                Some(c) => self.compressor.decompress(c.data.as_slice(), self.block_size),
                None => self.compressor.decompress(disk_data, self.block_size),
            };
            match decompressed {
                Ok(d) => {
                    buffer.data = d;
                },
                Err(e) => {
                    let m = e.message();
                    return Err(SquashError::Other(concat("Decompression failed: ", m.as_str())));
                },
            }
        } else {
            match &compressed_buffer {
                Some(c) => {
                    buffer.data = vstd::slice::slice_to_vec(c.data.as_slice());
                },
                None => {
                    buffer.data = vstd::slice::slice_to_vec(disk_data);
                },
            }
        }
        Ok(buffer)
    }

    /// Process the data of one small file against the fragments already
    /// written: store its checksum; drop its fragment if it is all zero
    /// bytes and sparse files are kept sparse; and, for a file that fits
    /// whole in its buffer, record where its duplicates start and whether
    /// one of `candidates` holds exactly its data; the candidates are the
    /// chain of fragments of its size, in order, and each one is compared
    /// until the first that holds it. `blocks[k]` is the fragment block
    /// that candidate `k` lies in.
    pub fn process_fragment(&self, buffer: FileBuffer, candidates: &[FileInfo], blocks: &[Vec<u8>]) -> (r: FileBuffer)
        requires
            candidates@.len() == blocks@.len(),
            forall|k: int|
                0 <= k < candidates@.len() && (#[trigger] candidates@[k]).fragment.size
                    == buffer.file_size ==> candidates@[k].fragment.offset
                    + candidates@[k].fragment.size <= blocks@[k]@.len(),
        ensures
            r.checksum == checksum_of(buffer.data@),
            r.data@ == buffer.data@,
            r.size == buffer.size,
            r.file_size == buffer.file_size,
            r.fragment == (if self.sparse_files && all_zero(buffer.data@) {
                None
            } else {
                buffer.fragment
            }),
            r.file_size != r.size ==> r.duplicate == buffer.duplicate && r.dupl_start
                == buffer.dupl_start,
            r.file_size == r.size ==> ({
                let cs = candidates@;
                if exists|k: int|
                    first_duplicate(cs, blocks@, buffer.data@, buffer.file_size, r.checksum, k) {
                    exists|k: int|
                        first_duplicate(cs, blocks@, buffer.data@, buffer.file_size, r.checksum, k)
                            && r.duplicate && r.dupl_start == Some(cs[k])
                } else {
                    !r.duplicate && r.dupl_start == (if cs.len() > 0 {
                        Some(cs[0])
                    } else {
                        None
                    })
                }
            }),
    {
        let ghost b0 = buffer;
        let mut buffer = buffer;
        let sparse = self.checksum_sparse(&mut buffer);
        if self.sparse_files && sparse {
            buffer.fragment = None;
        }
        if buffer.file_size != buffer.size as u64 {
            return buffer;
        }
        let file_size = buffer.file_size;
        buffer.dupl_start = if candidates.len() > 0 {
            Some(candidates[0])
        } else {
            None
        };
        buffer.duplicate = false;
        let ghost data = buffer.data@;
        let ghost cks = buffer.checksum;
        let mut k: usize = 0;
        while k < candidates.len()
            invariant_except_break
                !buffer.duplicate,
            invariant
                k <= candidates@.len(),
                candidates@.len() == blocks@.len(),
                buffer.data@ == data,
                buffer.checksum == cks,
                file_size == buffer.file_size,
                forall|j: int|
                    0 <= j < candidates@.len() && (#[trigger] candidates@[j]).fragment.size
                        == file_size ==> candidates@[j].fragment.offset
                        + candidates@[j].fragment.size <= blocks@[j]@.len(),
                forall|j: int|
                    0 <= j < k ==> !is_duplicate_of(
                        #[trigger] candidates@[j],
                        blocks@[j]@,
                        data,
                        file_size,
                        cks,
                    ),
                buffer.size == b0.size,
                buffer.fragment == (if self.sparse_files && all_zero(data) {
                    None
                } else {
                    b0.fragment
                }),
                !buffer.duplicate ==> buffer.dupl_start == (if candidates@.len() > 0 {
                    Some(candidates@[0])
                } else {
                    None
                }),
            ensures
                buffer.duplicate ==> first_duplicate(
                    candidates@,
                    blocks@,
                    data,
                    file_size,
                    cks,
                    k as int,
                ) && buffer.dupl_start == Some(candidates@[k as int]),
                !buffer.duplicate ==> forall|j: int|
                    0 <= j < candidates@.len() ==> !is_duplicate_of(
                        #[trigger] candidates@[j],
                        blocks@[j]@,
                        data,
                        file_size,
                        cks,
                    ),
            decreases candidates@.len() - k,
        {
            let c = candidates[k];
            if c.fragment.size as u64 == file_size {
                assert(c == candidates@[k as int]);
                assert(c.fragment.size == file_size);
                let block = blocks[k].as_slice();
                let blen = block.len();
                assert(c.fragment.offset + c.fragment.size <= blen);
                let start = c.fragment.offset;
                let end = c.fragment.offset + c.fragment.size;
                let frag = vstd::slice::slice_subrange(block, start, end);
                let checksum = if c.have_frag_checksum {
                    c.fragment_checksum
                } else {
                    let (s, _) = checksum_and_sparse(frag);
                    s
                };
                if checksum == buffer.checksum {
                    if bytes_eq(buffer.data.as_slice(), frag) {
                        buffer.dupl_start = Some(c);
                        buffer.duplicate = true;
                        break;
                    }
                }
            }
            k = k + 1;
        }
        buffer
    }
}

} // verus!
