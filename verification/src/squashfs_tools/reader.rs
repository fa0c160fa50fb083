use vstd::prelude::*;
use crate::error::SquashError;
use crate::squashfs_tools::processors::available_processors;
use crate::text::{decimal, push_str, u64_to_decimal};

verus! {

/// Bytes read ahead from a file, one block at a time.
pub const READAHEAD_SIZE: usize = 8192;
/// Number of slots of the read-ahead table.
pub const READAHEAD_ALLOC: usize = 0x100000;
/// Mask of a read-ahead slot index.
pub const READAHEAD_INDEX_MASK: u64 = 0xfffff;
/// Mask of an offset within a read-ahead block.
pub const READAHEAD_OFFSET_MASK: u64 = 8191;

/// A block of data read ahead of its use.
#[derive(Debug)]
pub struct Readahead {
    pub start: i64,
    pub size: usize,
    pub next: Option<Box<Readahead>>,
    pub data: Vec<u8>,
}

/// A buffer that a reader fills.
#[derive(Debug)]
pub struct Buffer {
    pub data: Vec<u8>,
    pub size: usize,
    pub capacity: usize,
}

/// A reader of the files of the tree being archived.
#[derive(Debug)]
pub struct Reader {
    pub id: usize,
    pub size: usize,
    pub type_: String,
    pub pathname: Option<String>,
    pub buffer: Buffer,
}

/// A file whose bytes back pseudo files, as the readers see it.
#[derive(Debug)]
pub struct PseudoFile {
    pub filename: String,
    pub fd: i32,
    pub current: i64,
    pub start: i64,
    pub data: Option<Box<PseudoData>>,
}

/// A range of a backing file, as the readers see it.
#[derive(Debug)]
pub struct PseudoData {
    pub length: i64,
    pub offset: i64,
    pub file: Box<PseudoFile>,
}

/// Blocks of `mbytes` megabytes for blocks of 2^`block_log` bytes.
pub open spec fn blocks_of(mbytes: usize, block_log: u32) -> usize {
    mbytes << ((20 - block_log) as u32)
}

/// Megabytes of `blocks` blocks of 2^`block_log` bytes, at least one.
pub open spec fn mbytes_of(blocks: usize, block_log: u32) -> usize {
    if blocks >> ((20 - block_log) as u32) > 0 {
        blocks >> ((20 - block_log) as u32)
    } else {
        1
    }
}

/// Whether the memory given to the readers (`rmbytes`) and writers
/// (`wmbytes`) is too little: a reader must get at least four blocks and a
/// block writer at least one block per processor, after each fragment
/// writer has taken one block per processor.
pub open spec fn memory_too_small(
    m: ReaderManager,
    rmbytes: usize,
    wmbytes: usize,
    block_log: u32,
    processors: usize,
) -> bool {
    let rblocks = blocks_of(rmbytes, block_log);
    let wblocks = blocks_of(wmbytes, block_log);
    let total_fwthread = processors * m.fragment_threads;
    ||| wblocks < total_fwthread
    ||| (wblocks - total_fwthread) / (m.block_threads as int) < processors
    ||| rblocks / m.reader_threads < 4
}

/// The least memory, in megabytes, that the thread counts need: what the
/// writers need, or what the readers need where that is more, eight
/// megabytes per megabyte of queued blocks.
pub open spec fn min_memory(m: ReaderManager, block_log: u32, processors: usize) -> nat {
    let twblocks = (processors * m.fragment_threads + processors * m.block_threads) as usize;
    let twmin_mem = mbytes_of(twblocks, block_log) * 8;
    let trmin_mem = mbytes_of((4 * m.reader_threads) as usize, block_log) * 8;
    if twmin_mem <= trmin_mem {
        trmin_mem as nat
    } else {
        twmin_mem as nat
    }
}

/// Whether the memory that the thread counts of `m` need on `processors`
/// processors can be counted in a machine word.
pub open spec fn memory_countable(m: ReaderManager, processors: usize) -> bool {
    &&& processors * m.fragment_threads + processors * m.block_threads <= usize::MAX / 8
    &&& 4 * m.reader_threads <= usize::MAX / 8
}

/// The message of a memory check that failed on `processors` processors.
pub open spec fn memory_check_message(
    m: ReaderManager,
    rmbytes: usize,
    wmbytes: usize,
    block_log: u32,
    processors: usize,
) -> Option<Seq<char>> {
    if !memory_countable(m, processors) {
        Some("Too many threads for the memory to be counted"@)
    } else if memory_too_small(m, rmbytes, wmbytes, block_log, processors) {
        Some("Insufficient memory for specified options! Please increase memory to "@ + decimal(
            min_memory(m, block_log, processors),
        ) + " Mbytes (-mem option)"@)
    } else {
        None
    }
}

/// Thread counts and memory totals of the readers.
#[derive(Debug)]
pub struct ReaderManager {
    pub reader_threads: usize,
    pub block_threads: usize,
    pub fragment_threads: usize,
    pub single_threaded: bool,
    pub sleep_time: u32,
    pub file_count: u32,
    pub block_count: u32,
    pub fragment_count: u32,
    pub total_rblocks: usize,
    pub total_rmbytes: usize,
    pub total_wblocks: usize,
    pub total_wmbytes: usize,
}

impl ReaderManager {
    /// Single-threaded, with one block reader and no fragment reader.
    pub fn new() -> (r: Self)
        ensures
            r.reader_threads == 0 && r.block_threads == 1 && r.fragment_threads == 0,
            r.single_threaded && r.sleep_time == 0,
            r.file_count == 0 && r.block_count == 0 && r.fragment_count == 0,
            r.total_rblocks == 0 && r.total_rmbytes == 0 && r.total_wblocks == 0
                && r.total_wmbytes == 0,
    {
        ReaderManager {
            reader_threads: 0,
            block_threads: 1,
            fragment_threads: 0,
            single_threaded: true,
            sleep_time: 0,
            file_count: 0,
            block_count: 0,
            fragment_count: 0,
            total_rblocks: 0,
            total_rmbytes: 0,
            total_wblocks: 0,
            total_wmbytes: 0,
        }
    }

    /// Set the number of fragment readers; the reader count follows.
    pub fn set_read_frag_threads(&mut self, fragments: usize)
        requires
            fragments + old(self).block_threads <= usize::MAX,
        ensures
            final(self).fragment_threads == fragments,
            final(self).reader_threads == fragments + old(self).block_threads,
            final(self).block_threads == old(self).block_threads,
            final(self).single_threaded == old(self).single_threaded,
    {
        self.fragment_threads = fragments;
        self.reader_threads = self.fragment_threads + self.block_threads;
    }

    /// Set the number of block readers; the reader count follows.
    pub fn set_read_block_threads(&mut self, blocks: usize)
        requires
            old(self).fragment_threads + blocks <= usize::MAX,
        ensures
            final(self).block_threads == blocks,
            final(self).reader_threads == old(self).fragment_threads + blocks,
            final(self).fragment_threads == old(self).fragment_threads,
            final(self).single_threaded == old(self).single_threaded,
    {
        self.block_threads = blocks;
        self.reader_threads = self.fragment_threads + self.block_threads;
    }

    /// One reader, which reads blocks.
    pub fn set_single_threaded(&mut self)
        ensures
            final(self).single_threaded,
            final(self).reader_threads == 1 && final(self).block_threads == 1
                && final(self).fragment_threads == 0,
            final(self).sleep_time == old(self).sleep_time,
    {
        self.single_threaded = true;
        self.reader_threads = 1;
        self.block_threads = 1;
        self.fragment_threads = 0;
    }

    /// The number of readers.
    pub fn get_reader_num(&self) -> (r: usize)
        ensures
            r == self.reader_threads,
    {
        self.reader_threads
    }

    /// Set how long readers sleep.
    pub fn set_sleep_time(&mut self, time: u32)
        ensures
            final(self).sleep_time == time,
            final(self).reader_threads == old(self).reader_threads,
            final(self).block_threads == old(self).block_threads,
            final(self).fragment_threads == old(self).fragment_threads,
            final(self).single_threaded == old(self).single_threaded,
    {
        self.sleep_time = time;
    }

    /// Check that `rmbytes` megabytes for the readers and `wmbytes` for the
    /// writers are enough for the thread counts on `processors`
    /// processors, and record them; where they are not, an error names the
    /// least memory needed and nothing changes.
    pub fn check_min_memory_with(
        &mut self,
        rmbytes: usize,
        wmbytes: usize,
        block_log: u32,
        processors: usize,
    ) -> (r: Result<(), SquashError>)
        requires
            block_log <= 20,
            old(self).reader_threads > 0,
            old(self).block_threads > 0,
            processors * old(self).fragment_threads + processors * old(self).block_threads
                <= usize::MAX / 8,
            4 * old(self).reader_threads <= usize::MAX / 8,
        ensures
            memory_too_small(*old(self), rmbytes, wmbytes, block_log, processors) ==> {
                &&& r matches Err(SquashError::Other(m))
                &&& m@ == "Insufficient memory for specified options! Please increase memory to "@
                    + decimal(min_memory(*old(self), block_log, processors)) + " Mbytes (-mem option)"@
                &&& *final(self) == *old(self)
            },
            !memory_too_small(*old(self), rmbytes, wmbytes, block_log, processors) ==> {
                &&& r is Ok
                &&& final(self).total_rblocks == blocks_of(rmbytes, block_log)
                &&& final(self).total_rmbytes == rmbytes
                &&& final(self).total_wblocks == blocks_of(wmbytes, block_log)
                &&& final(self).total_wmbytes == wmbytes
                &&& final(self).reader_threads == old(self).reader_threads
                &&& final(self).block_threads == old(self).block_threads
                &&& final(self).fragment_threads == old(self).fragment_threads
                &&& final(self).single_threaded == old(self).single_threaded
                &&& final(self).sleep_time == old(self).sleep_time
            },
    {
        let k: u32 = 20 - block_log;
        let rblocks: usize = rmbytes << k;
        let wblocks: usize = wmbytes << k;
        let per_rthread: usize = rblocks / self.reader_threads;
        assert(processors * self.fragment_threads <= usize::MAX) by (nonlinear_arith)
            requires
                processors * self.fragment_threads + processors * self.block_threads <= usize::MAX / 8,
                processors * self.block_threads >= 0,
        ;
        let total_fwthread: usize = processors * self.fragment_threads;
        let short: bool = if wblocks < total_fwthread {
            true
        } else {
            (wblocks - total_fwthread) / self.block_threads < processors || per_rthread < 4
        };
        if short {
            assert(processors * self.block_threads <= usize::MAX) by (nonlinear_arith)
                requires
                    processors * self.fragment_threads + processors * self.block_threads <= usize::MAX / 8,
                    processors * self.fragment_threads >= 0,
            ;
            let twblocks: usize = total_fwthread + processors * self.block_threads;
            let twmbytes: usize = if twblocks >> k > 0 {
                twblocks >> k
            } else {
                1
            };
            assert(twblocks >> k <= twblocks) by (bit_vector);
            let twmin_mem: usize = twmbytes * 8;
            let trblocks: usize = 4 * self.reader_threads;
            let trmbytes: usize = if trblocks >> k > 0 {
                trblocks >> k
            } else {
                1
            };
            assert(trblocks >> k <= trblocks) by (bit_vector);
            let trmin_mem: usize = trmbytes * 8;
            let min_mem: usize = if twmin_mem <= trmin_mem {
                trmin_mem
            } else {
                twmin_mem
            };
            let mut m = String::from_str("Insufficient memory for specified options! Please increase memory to ");
            let n = u64_to_decimal(min_mem as u64);
            push_str(&mut m, n.as_str());
            push_str(&mut m, " Mbytes (-mem option)");
            return Err(SquashError::Other(m));
        }
        self.total_rblocks = rblocks;
        self.total_rmbytes = rmbytes;
        self.total_wblocks = wblocks;
        self.total_wmbytes = wmbytes;
        Ok(())
    }

    /// Check the memory for the thread counts on the processors of this
    /// machine (see `check_min_memory_with`). Where the thread counts are
    /// so large that the needed memory cannot be counted, an error says
    /// so and nothing changes.
    pub fn check_min_memory(&mut self, rmbytes: usize, wmbytes: usize, block_log: u32) -> (r: Result<(), SquashError>)
        requires
            block_log <= 20,
            old(self).reader_threads > 0,
            old(self).block_threads > 0,
        ensures
            r is Ok ==> final(self).total_rmbytes == rmbytes && final(self).total_wmbytes == wmbytes
                && final(self).total_rblocks == blocks_of(rmbytes, block_log)
                && final(self).total_wblocks == blocks_of(wmbytes, block_log),
            r is Err ==> *final(self) == *old(self),
            final(self).reader_threads == old(self).reader_threads,
            final(self).block_threads == old(self).block_threads,
            final(self).fragment_threads == old(self).fragment_threads,
            exists|p: usize|
                p >= 1 && match #[trigger] memory_check_message(*old(self), rmbytes, wmbytes, block_log, p) {
                    None => r is Ok,
                    Some(msg) => r matches Err(SquashError::Other(m)) && m@ == msg,
                },
    {
        let processors = available_processors();
        let limit: usize = usize::MAX / 8;
        let fits = match processors.checked_mul(self.fragment_threads) {
            Some(f) => match processors.checked_mul(self.block_threads) {
                Some(b) => f <= limit && b <= limit - f,
                None => false,
            },
            None => false,
        };
        let ghost m0 = *self;
        assert(fits == (processors * self.fragment_threads + processors * self.block_threads <= limit))
            by (nonlinear_arith)
            requires
                fits == (processors * self.fragment_threads <= usize::MAX && processors * self.block_threads
                    <= usize::MAX && processors * self.fragment_threads <= limit && processors
                    * self.block_threads <= limit - processors * self.fragment_threads),
                processors * self.fragment_threads >= 0,
                processors * self.block_threads >= 0,
        ;
        if !fits || self.reader_threads > limit / 4 {
            let m = String::from_str("Too many threads for the memory to be counted");
            proof {
                reveal_strlit("Too many threads for the memory to be counted");
                assert(!memory_countable(m0, processors));
                assert(memory_check_message(m0, rmbytes, wmbytes, block_log, processors) == Some(m@));
            }
            return Err(SquashError::Other(m));
        }
        let r = self.check_min_memory_with(rmbytes, wmbytes, block_log, processors);
        assert(memory_countable(m0, processors));
        assert(match memory_check_message(m0, rmbytes, wmbytes, block_log, processors) {
            None => r is Ok,
            Some(msg) => r matches Err(SquashError::Other(m)) && m@ == msg,
        });
        r
    }

    /// The slot of the read-ahead table for the block holding byte `start`
    /// of a file.
    pub fn readahead_index(start: i64) -> (r: usize)
        requires
            start >= 0,
        ensures
            r == start / 8192 % 0x100000,
    {
        let s: u64 = start as u64;
        let r: u64 = (s >> 13u64) & READAHEAD_INDEX_MASK;
        assert((s >> 13u64) & 0xfffff == (s / 8192) % 0x100000) by (bit_vector);
        r as usize
    }

    /// Where byte `start` of a file lies within its read-ahead block.
    pub fn readahead_offset(start: i64) -> (r: usize)
        requires
            start >= 0,
        ensures
            r == start % 8192,
    {
        let s: u64 = start as u64;
        let r: u64 = s & READAHEAD_OFFSET_MASK;
        assert(s & 8191 == s % 8192) by (bit_vector);
        r as usize
    }
}

} // verus!
