use vstd::prelude::*;
use std::collections::HashMap;
use crate::squashfs_tools::caches_queues_lists::{FileBuffer, NextState};

verus! {

broadcast use vstd::std_specs::hash::group_hash_axioms;

/// The bucket of the hash table a number falls in.
pub open spec fn hash_of(n: i64) -> usize {
    (n & 0xffff) as usize
}

fn calculate_hash(n: i64) -> (r: usize)
    ensures
        r == hash_of(n),
{
    (n & 0xffff) as usize
}

/// The buffers waiting in bucket `h`, oldest first.
pub open spec fn bucket(m: Map<usize, Vec<FileBuffer>>, h: usize) -> Seq<FileBuffer> {
    if m.contains_key(h) {
        m[h]@
    } else {
        Seq::empty()
    }
}

/// Whether `e` is the block a reader expects next: block `block` of
/// version `version` of file `file_count`.
pub open spec fn is_expected_block(e: FileBuffer, file_count: i64, block: i64, version: u16) -> bool {
    e.file_count == file_count && e.block == block && e.version == version
}

/// Whether the `i`-th buffer of `s` is the first one that is the expected block.
pub open spec fn first_expected_block(s: Seq<FileBuffer>, file_count: i64, block: i64, version: u16, i: int) -> bool {
    &&& 0 <= i < s.len()
    &&& is_expected_block(s[i], file_count, block, version)
    &&& forall|j: int| 0 <= j < i ==> !is_expected_block(#[trigger] s[j], file_count, block, version)
}

/// Whether the `i`-th buffer of `s` is the first fragment of sequence number `sequence`.
pub open spec fn first_in_sequence(s: Seq<FileBuffer>, sequence: i64, i: int) -> bool {
    &&& 0 <= i < s.len()
    &&& s[i].sequence == sequence
    &&& forall|j: int| 0 <= j < i ==> (#[trigger] s[j]).sequence != sequence
}

/// A queue that hands out buffers in a fixed order: the blocks of each
/// file in order of file, version and block, and fragments in order of
/// their sequence number, whatever order they were put in.
pub struct SeqQueue {
    pub version: u16,
    pub fragment_count: i32,
    pub block_count: i32,
    pub sequence: i64,
    pub file_count: i64,
    pub block: i64,
    pub hash_table: HashMap<usize, Vec<FileBuffer>>,
}

/// The counters after a buffer of the given kind is added.
pub open spec fn counted_in(q: SeqQueue, e: FileBuffer, f: SeqQueue) -> bool {
    &&& e.fragment ==> f.fragment_count == q.fragment_count + 1 && f.block_count == q.block_count
    &&& !e.fragment ==> f.block_count == q.block_count + 1 && f.fragment_count == q.fragment_count
}

/// The counters after a buffer of the given kind is taken out.
pub open spec fn counted_out(q: SeqQueue, e: FileBuffer, f: SeqQueue) -> bool {
    &&& e.fragment ==> f.fragment_count == q.fragment_count - 1 && f.block_count == q.block_count
    &&& !e.fragment ==> f.block_count == q.block_count - 1 && f.fragment_count == q.fragment_count
}

/// Whether `f` is `q` with `e` added at the end of bucket `h`.
pub open spec fn added_to_bucket(q: SeqQueue, e: FileBuffer, h: usize, f: SeqQueue) -> bool {
    &&& bucket(f.hash_table@, h) == bucket(q.hash_table@, h).push(e)
    &&& forall|k: usize| k != h ==> #[trigger] bucket(f.hash_table@, k) == bucket(q.hash_table@, k)
}

/// Whether `f` is `q` with the `i`-th buffer of bucket `h` taken out.
pub open spec fn removed_from_bucket(q: SeqQueue, h: usize, i: int, f: SeqQueue) -> bool {
    &&& bucket(f.hash_table@, h) == bucket(q.hash_table@, h).remove(i)
    &&& forall|k: usize| k != h ==> #[trigger] bucket(f.hash_table@, k) == bucket(q.hash_table@, k)
}

/// The position a reader moves to after the block `e`: the next block, the
/// first block of the next version, or the first block of the next file.
pub open spec fn advanced_past(q: SeqQueue, e: FileBuffer, f: SeqQueue) -> bool {
    match e.next_state {
        NextState::NextVersion => f.version == q.version + 1 && f.block == 0 && f.file_count
            == q.file_count,
        NextState::NextBlock => f.block == q.block + 1 && f.version == q.version && f.file_count
            == q.file_count,
        NextState::NextFile => f.version == 0 && f.block == 0 && f.file_count == q.file_count + 1,
    }
}

impl SeqQueue {
    /// An empty queue that waits for block 0 of version 0 of file 1, and
    /// for fragment 1.
    pub fn new() -> (r: Self)
        ensures
            r.version == 0 && r.block == 0 && r.file_count == 1 && r.sequence == 1,
            r.fragment_count == 0 && r.block_count == 0,
            r.hash_table@ == Map::<usize, Vec<FileBuffer>>::empty(),
    {
        SeqQueue {
            version: 0,
            fragment_count: 0,
            block_count: 0,
            sequence: 1,
            file_count: 1,
            block: 0,
            hash_table: HashMap::new(),
        }
    }

    /// Drop every waiting buffer and reset the counters.
    pub fn flush(&mut self)
        ensures
            final(self).hash_table@ == Map::<usize, Vec<FileBuffer>>::empty(),
            final(self).fragment_count == 0 && final(self).block_count == 0,
            final(self).version == old(self).version && final(self).block == old(self).block,
            final(self).file_count == old(self).file_count && final(self).sequence == old(self).sequence,
    {
        self.hash_table.clear();
        self.fragment_count = 0;
        self.block_count = 0;
    }

    fn add_to_bucket(&mut self, h: usize, entry: FileBuffer)
        ensures
            bucket(final(self).hash_table@, h) == bucket(old(self).hash_table@, h).push(entry),
            forall|k: usize|
                k != h ==> #[trigger] bucket(final(self).hash_table@, k) == bucket(
                    old(self).hash_table@,
                    k,
                ),
            final(self).version == old(self).version && final(self).block == old(self).block,
            final(self).file_count == old(self).file_count && final(self).sequence == old(self).sequence,
            final(self).fragment_count == old(self).fragment_count && final(self).block_count
                == old(self).block_count,
    {
        let mut b = match self.hash_table.remove(&h) {
            Some(v) => v,
            None => Vec::new(),
        };
        b.push(entry);
        self.hash_table.insert(h, b);
    }

    fn take_from_bucket(&mut self, h: usize, i: usize) -> (r: FileBuffer)
        requires
            i < bucket(old(self).hash_table@, h).len(),
        ensures
            r == bucket(old(self).hash_table@, h)[i as int],
            bucket(final(self).hash_table@, h) == bucket(old(self).hash_table@, h).remove(i as int),
            forall|k: usize|
                k != h ==> #[trigger] bucket(final(self).hash_table@, k) == bucket(
                    old(self).hash_table@,
                    k,
                ),
            final(self).version == old(self).version && final(self).block == old(self).block,
            final(self).file_count == old(self).file_count && final(self).sequence == old(self).sequence,
            final(self).fragment_count == old(self).fragment_count && final(self).block_count
                == old(self).block_count,
    {
        let mut b = match self.hash_table.remove(&h) {
            Some(v) => v,
            None => Vec::new(),
        };
        let e = b.remove(i);
        self.hash_table.insert(h, b);
        e
    }

    fn count_in(&mut self, fragment: bool)
        requires
            fragment ==> old(self).fragment_count < i32::MAX,
            !fragment ==> old(self).block_count < i32::MAX,
        ensures
            fragment ==> final(self).fragment_count == old(self).fragment_count + 1
                && final(self).block_count == old(self).block_count,
            !fragment ==> final(self).block_count == old(self).block_count + 1
                && final(self).fragment_count == old(self).fragment_count,
            final(self).hash_table@ == old(self).hash_table@,
            final(self).version == old(self).version && final(self).block == old(self).block,
            final(self).file_count == old(self).file_count && final(self).sequence == old(self).sequence,
    {
        if fragment {
            self.fragment_count = self.fragment_count + 1;
        } else {
            self.block_count = self.block_count + 1;
        }
    }

    fn count_out(&mut self, fragment: bool)
        requires
            fragment ==> old(self).fragment_count > i32::MIN,
            !fragment ==> old(self).block_count > i32::MIN,
        ensures
            fragment ==> final(self).fragment_count == old(self).fragment_count - 1
                && final(self).block_count == old(self).block_count,
            !fragment ==> final(self).block_count == old(self).block_count - 1
                && final(self).fragment_count == old(self).fragment_count,
            final(self).hash_table@ == old(self).hash_table@,
            final(self).version == old(self).version && final(self).block == old(self).block,
            final(self).file_count == old(self).file_count && final(self).sequence == old(self).sequence,
    {
        if fragment {
            self.fragment_count = self.fragment_count - 1;
        } else {
            self.block_count = self.block_count - 1;
        }
    }

    /// Add a block of a file; it waits in the bucket of its file number.
    pub fn main_queue_put(&mut self, entry: FileBuffer)
        requires
            entry.fragment ==> old(self).fragment_count < i32::MAX,
            !entry.fragment ==> old(self).block_count < i32::MAX,
        ensures
            added_to_bucket(*old(self), entry, hash_of(entry.file_count), *final(self)),
            counted_in(*old(self), entry, *final(self)),
            final(self).version == old(self).version && final(self).block == old(self).block,
            final(self).file_count == old(self).file_count && final(self).sequence == old(self).sequence,
    {
        let h = calculate_hash(entry.file_count);
        let fragment = entry.fragment;
        self.add_to_bucket(h, entry);
        self.count_in(fragment);
    }

    /// Take the block the reader expects next, the oldest one if several
    /// wait, and move the reader past it; none if it has not arrived.
    pub fn main_queue_get(&mut self) -> (r: Option<FileBuffer>)
        requires
            old(self).fragment_count > i32::MIN,
            old(self).block_count > i32::MIN,
            old(self).version < u16::MAX,
            old(self).block < i64::MAX,
            old(self).file_count < i64::MAX,
        ensures
            ({
                let h = hash_of(old(self).file_count);
                let s = bucket(old(self).hash_table@, h);
                let fc = old(self).file_count;
                let b = old(self).block;
                let v = old(self).version;
                if exists|i: int| first_expected_block(s, fc, b, v, i) {
                    exists|i: int|
                        first_expected_block(s, fc, b, v, i) && r == Some(s[i]) && removed_from_bucket(
                            *old(self),
                            h,
                            i,
                            *final(self),
                        ) && counted_out(*old(self), s[i], *final(self)) && advanced_past(
                            *old(self),
                            s[i],
                            *final(self),
                        ) && final(self).sequence == old(self).sequence
                } else {
                    r is None && final(self).hash_table@ == old(self).hash_table@ && final(self).fragment_count == old(self).fragment_count && final(self).block_count == old(self).block_count && final(self).version == old(self).version && final(self).block
                        == old(self).block && final(self).file_count == old(self).file_count
                        && final(self).sequence == old(self).sequence
                }
            }),
    {
        let file_count = self.file_count;
        let block = self.block;
        let version = self.version;
        let h = calculate_hash(file_count);
        let ghost s = bucket(self.hash_table@, h);
        let pos: Option<usize> = match self.hash_table.get(&h) {
            None => None,
            Some(entries) => {
                let mut i: usize = 0;
                let mut found: Option<usize> = None;
                while i < entries.len()
                    invariant_except_break
                        found is None,
                    invariant
                        entries@ == s,
                        i <= s.len(),
                        forall|j: int|
                            0 <= j < i ==> !is_expected_block(
                                #[trigger] s[j],
                                file_count,
                                block,
                                version,
                            ),
                    ensures
                        found is None ==> forall|j: int|
                            0 <= j < s.len() ==> !is_expected_block(
                                #[trigger] s[j],
                                file_count,
                                block,
                                version,
                            ),
                        found matches Some(p) ==> first_expected_block(
                            s,
                            file_count,
                            block,
                            version,
                            p as int,
                        ),
                    decreases s.len() - i,
                {
                    let e = &entries[i];
                    if e.file_count == file_count && e.block == block && e.version == version {
                        found = Some(i);
                        break;
                    }
                    i = i + 1;
                }
                found
            },
        };
        match pos {
            None => {
                assert(!exists|i: int| first_expected_block(s, file_count, block, version, i));
                None
            },
            Some(p) => {
                let ghost q0 = *self;
                let entry = self.take_from_bucket(h, p);
                self.count_out(entry.fragment);
                match entry.next_state {
                    NextState::NextVersion => {
                        self.version = self.version + 1;
                        self.block = 0;
                    },
                    NextState::NextBlock => {
                        self.block = self.block + 1;
                    },
                    NextState::NextFile => {
                        self.version = 0;
                        self.block = 0;
                        self.file_count = self.file_count + 1;
                    },
                }
                assert(removed_from_bucket(q0, h, p as int, *self));
                Some(entry)
            },
        }
    }

    /// Add a fragment; it waits in the bucket of its sequence number.
    pub fn fragment_queue_put(&mut self, entry: FileBuffer)
        requires
            entry.fragment ==> old(self).fragment_count < i32::MAX,
            !entry.fragment ==> old(self).block_count < i32::MAX,
        ensures
            added_to_bucket(*old(self), entry, hash_of(entry.sequence), *final(self)),
            counted_in(*old(self), entry, *final(self)),
            final(self).version == old(self).version && final(self).block == old(self).block,
            final(self).file_count == old(self).file_count && final(self).sequence == old(self).sequence,
    {
        let h = calculate_hash(entry.sequence);
        let fragment = entry.fragment;
        self.add_to_bucket(h, entry);
        self.count_in(fragment);
    }

    /// Take the fragment with the next sequence number, the oldest one if
    /// several wait, and move on to the following number; none if it has
    /// not arrived.
    pub fn fragment_queue_get(&mut self) -> (r: Option<FileBuffer>)
        requires
            old(self).fragment_count > i32::MIN,
            old(self).block_count > i32::MIN,
            old(self).sequence < i64::MAX,
        ensures
            ({
                let h = hash_of(old(self).sequence);
                let s = bucket(old(self).hash_table@, h);
                if exists|i: int| first_in_sequence(s, old(self).sequence, i) {
                    exists|i: int|
                        first_in_sequence(s, old(self).sequence, i) && r == Some(s[i])
                            && removed_from_bucket(*old(self), h, i, *final(self)) && counted_out(
                            *old(self),
                            s[i],
                            *final(self),
                        ) && final(self).sequence == old(self).sequence + 1 && final(self).version
                            == old(self).version && final(self).block == old(self).block && final(self).file_count == old(self).file_count
                } else {
                    r is None && final(self).hash_table@ == old(self).hash_table@ && final(self).fragment_count == old(self).fragment_count && final(self).block_count == old(self).block_count && final(self).version == old(self).version && final(self).block
                        == old(self).block && final(self).file_count == old(self).file_count
                        && final(self).sequence == old(self).sequence
                }
            }),
    {
        let sequence = self.sequence;
        let h = calculate_hash(sequence);
        let ghost s = bucket(self.hash_table@, h);
        let pos: Option<usize> = match self.hash_table.get(&h) {
            None => None,
            Some(entries) => {
                let mut i: usize = 0;
                let mut found: Option<usize> = None;
                while i < entries.len()
                    invariant_except_break
                        found is None,
                    invariant
                        entries@ == s,
                        i <= s.len(),
                        forall|j: int| 0 <= j < i ==> (#[trigger] s[j]).sequence != sequence,
                    ensures
                        found is None ==> forall|j: int|
                            0 <= j < s.len() ==> (#[trigger] s[j]).sequence != sequence,
                        found matches Some(p) ==> first_in_sequence(s, sequence, p as int),
                    decreases s.len() - i,
                {
                    if entries[i].sequence == sequence {
                        found = Some(i);
                        break;
                    }
                    i = i + 1;
                }
                found
            },
        };
        match pos {
            None => {
                assert(!exists|i: int| first_in_sequence(s, sequence, i));
                None
            },
            Some(p) => {
                let ghost q0 = *self;
                let entry = self.take_from_bucket(h, p);
                self.count_out(entry.fragment);
                self.sequence = self.sequence + 1;
                assert(removed_from_bucket(q0, h, p as int, *self));
                Some(entry)
            },
        }
    }
}

} // verus!
