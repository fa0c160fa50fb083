use vstd::prelude::*;
use std::collections::HashMap;
use crate::bytes::zeroed;

verus! {

broadcast use vstd::std_specs::hash::group_hash_axioms;

/// What a reader of blocks does after a buffer.
#[derive(Debug, Clone, Copy, PartialEq, Eq, Structural)]
pub enum NextState {
    NextBlock,
    NextFile,
    NextVersion,
}

/// The kind of cache a buffer belongs to.
#[derive(Debug, Clone, Copy, PartialEq, Eq, Structural)]
pub enum CacheType {
    QueueCache,
    GenCache,
}

/// A block of file data with the bookkeeping of the caches and queues it
/// passes through.
#[derive(Debug, Clone)]
pub struct FileBuffer {
    pub index: i64,
    pub sequence: i64,
    pub file_count: i64,
    pub file_size: i64,
    pub block: i64,
    pub size: i32,
    pub c_byte: i32,
    pub checksum: u16,
    pub version: u16,
    pub thread: u16,
    pub used: bool,
    pub fragment: bool,
    pub error: bool,
    pub locked: bool,
    pub wait_on_unlock: bool,
    pub no_d: bool,
    pub duplicate: bool,
    pub next_state: NextState,
    pub cache_type: CacheType,
    pub hashed: bool,
    pub data: Vec<u8>,
}

/// Whether two buffers hold the same fields and the same data.
pub open spec fn same_buffer(a: FileBuffer, b: FileBuffer) -> bool {
    &&& a.index == b.index
    &&& a.sequence == b.sequence
    &&& a.file_count == b.file_count
    &&& a.file_size == b.file_size
    &&& a.block == b.block
    &&& a.size == b.size
    &&& a.c_byte == b.c_byte
    &&& a.checksum == b.checksum
    &&& a.version == b.version
    &&& a.thread == b.thread
    &&& a.used == b.used
    &&& a.fragment == b.fragment
    &&& a.error == b.error
    &&& a.locked == b.locked
    &&& a.wait_on_unlock == b.wait_on_unlock
    &&& a.no_d == b.no_d
    &&& a.duplicate == b.duplicate
    &&& a.next_state == b.next_state
    &&& a.cache_type == b.cache_type
    &&& a.hashed == b.hashed
    &&& a.data@ == b.data@
}

/// `b` with its `used` mark set to `used`.
pub open spec fn with_used(b: FileBuffer, used: bool) -> FileBuffer {
    FileBuffer { used, ..b }
}

impl FileBuffer {
    /// A fresh buffer of `size` zero bytes, every other field zero or unset.
    pub fn new(size: usize) -> (r: Self)
        ensures
            r.data@ == Seq::new(size as nat, |i: int| 0u8),
            r.index == 0 && r.sequence == 0 && r.file_count == 0 && r.file_size == 0 && r.block
                == 0,
            r.size == 0 && r.c_byte == 0 && r.checksum == 0 && r.version == 0 && r.thread == 0,
            !r.used && !r.fragment && !r.error && !r.locked && !r.wait_on_unlock && !r.no_d
                && !r.duplicate && !r.hashed,
            r.next_state == NextState::NextBlock,
            r.cache_type == CacheType::GenCache,
    {
        FileBuffer {
            index: 0,
            sequence: 0,
            file_count: 0,
            file_size: 0,
            block: 0,
            size: 0,
            c_byte: 0,
            checksum: 0,
            version: 0,
            thread: 0,
            used: false,
            fragment: false,
            error: false,
            locked: false,
            wait_on_unlock: false,
            no_d: false,
            duplicate: false,
            next_state: NextState::NextBlock,
            cache_type: CacheType::GenCache,
            hashed: false,
            data: zeroed(size),
        }
    }

    /// A copy of the buffer, data included.
    pub fn duplicate(&self) -> (r: Self)
        ensures
            same_buffer(r, *self),
    {
        FileBuffer {
            index: self.index,
            sequence: self.sequence,
            file_count: self.file_count,
            file_size: self.file_size,
            block: self.block,
            size: self.size,
            c_byte: self.c_byte,
            checksum: self.checksum,
            version: self.version,
            thread: self.thread,
            used: self.used,
            fragment: self.fragment,
            error: self.error,
            locked: self.locked,
            wait_on_unlock: self.wait_on_unlock,
            no_d: self.no_d,
            duplicate: self.duplicate,
            next_state: self.next_state,
            cache_type: self.cache_type,
            hashed: self.hashed,
            data: vstd::slice::slice_to_vec(self.data.as_slice()),
        }
    }
}

/// Why a queue operation did not go through.
#[derive(Debug, Clone, Copy, PartialEq, Eq, Structural)]
pub enum QueueError {
    Full,
    Empty,
    LockError,
    ThreadError,
}

/// A first-in first-out queue of items.
pub trait Queue<T> {
    /// Whether the queue is well formed.
    spec fn inv(&self) -> bool;

    /// Add an item at the end.
    fn put(&mut self, data: T) -> (r: Result<(), QueueError>)
        requires
            old(self).inv(),
        ensures
            final(self).inv(),
    ;

    /// Take the item at the front.
    fn get(&mut self) -> (r: Result<T, QueueError>)
        requires
            old(self).inv(),
        ensures
            final(self).inv(),
    ;

    /// Whether the queue holds no item.
    fn empty(&self) -> bool
        requires
            self.inv(),
    ;

    /// Drop every item.
    fn flush(&mut self)
        requires
            old(self).inv(),
        ensures
            final(self).inv(),
    ;
}

/// The queue after each item of `xs` is pushed onto `q`, in order (what
/// `push` does to the items of a queue with room).
pub open spec fn pushed_all<T>(q: Seq<T>, xs: Seq<T>) -> Seq<T>
    decreases xs.len(),
{
    if xs.len() == 0 {
        q
    } else {
        pushed_all(q.push(xs[0]), xs.drop_first())
    }
}

/// The items that popping `q` until it is empty gives, in order (what
/// `pop` gives from a queue with items).
pub open spec fn popped_all<T>(q: Seq<T>) -> Seq<T>
    decreases q.len(),
{
    if q.len() == 0 {
        Seq::empty()
    } else {
        seq![q[0]] + popped_all(q.drop_first())
    }
}

proof fn lemma_pushed_all<T>(q: Seq<T>, xs: Seq<T>)
    ensures
        pushed_all(q, xs) == q + xs,
    decreases xs.len(),
{
    if xs.len() > 0 {
        lemma_pushed_all(q.push(xs[0]), xs.drop_first());
        assert(q.push(xs[0]) + xs.drop_first() =~= q + xs);
    } else {
        assert(q + xs =~= q);
    }
}

proof fn lemma_popped_all<T>(q: Seq<T>)
    ensures
        popped_all(q) == q,
    decreases q.len(),
{
    if q.len() > 0 {
        lemma_popped_all(q.drop_first());
        assert(seq![q[0]] + q.drop_first() =~= q);
    } else {
        assert(q =~= Seq::<T>::empty());
    }
}

/// A queue is first in, first out: items pushed onto an empty queue are
/// popped in the order they were pushed.
pub proof fn law_queue_fifo<T>(xs: Seq<T>)
    ensures
        popped_all(pushed_all(Seq::<T>::empty(), xs)) == xs,
{
    lemma_pushed_all(Seq::<T>::empty(), xs);
    lemma_popped_all(Seq::<T>::empty() + xs);
    assert(Seq::<T>::empty() + xs =~= xs);
}

/// A bounded queue kept in a ring of slots, one more slot than items.
pub struct CircularQueue<T> {
    size: usize,
    read_pos: usize,
    write_pos: usize,
    data: Vec<Option<T>>,
}

/// Position of the `i`-th item of a ring of `size` slots that starts at `read`.
pub open spec fn ring_index(read: int, i: int, size: int) -> int {
    if read + i < size {
        read + i
    } else {
        read + i - size
    }
}

impl<T> CircularQueue<T> {
    /// Number of items held.
    pub closed spec fn len(&self) -> nat {
        if self.write_pos >= self.read_pos {
            (self.write_pos - self.read_pos) as nat
        } else {
            (self.write_pos + self.size - self.read_pos) as nat
        }
    }

    /// The most items the queue can hold.
    pub closed spec fn capacity(&self) -> nat {
        (self.size - 1) as nat
    }

    /// The ring holds `size` slots, both positions lie in it, and every slot
    /// between them holds an item.
    pub closed spec fn wf(&self) -> bool {
        &&& self.size >= 1
        &&& self.data@.len() == self.size
        &&& self.read_pos < self.size
        &&& self.write_pos < self.size
        &&& forall|i: int|
            0 <= i < self.len() ==> #[trigger] self.data@[ring_index(
                self.read_pos as int,
                i,
                self.size as int,
            )] is Some
    }

    /// An empty queue that holds at most `size` items.
    pub fn new(size: usize) -> (r: Self)
        requires
            size < usize::MAX,
        ensures
            r.inv(),
            r@ == Seq::<T>::empty(),
            r.capacity() == size,
    {
        let mut data: Vec<Option<T>> = Vec::new();
        let mut i: usize = 0;
        while i < size + 1
            invariant
                i <= size + 1,
                size < usize::MAX,
                data@.len() == i,
            decreases size + 1 - i,
        {
            data.push(None);
            i = i + 1;
        }
        CircularQueue { size: size + 1, read_pos: 0, write_pos: 0, data }
    }
}

impl<T> CircularQueue<T> {
    /// The item at the front, if there is one.
    pub(crate) fn front(&self) -> (r: Option<&T>)
        requires
            self.wf(),
        ensures
            self@.len() == 0 ==> r is None,
            self@.len() > 0 ==> r == Some(&self@[0]),
    {
        if self.read_pos == self.write_pos {
            None
        } else {
            assert(self.data@[ring_index(self.read_pos as int, 0, self.size as int)] is Some);
            self.data[self.read_pos].as_ref()
        }
    }
}

impl<T> View for CircularQueue<T> {
    type V = Seq<T>;

    /// The items, front first.
    closed spec fn view(&self) -> Seq<T> {
        Seq::new(
            self.len(),
            |i: int| self.data@[ring_index(self.read_pos as int, i, self.size as int)]->0,
        )
    }
}

impl<T> Queue<T> for CircularQueue<T> {
    open spec fn inv(&self) -> bool {
        self.wf()
    }

    /// Add an item at the end; a full queue refuses it.
    fn put(&mut self, data: T) -> (r: Result<(), QueueError>)
        ensures
            final(self).capacity() == old(self).capacity(),
            old(self)@.len() < old(self).capacity() ==> r is Ok && final(self)@ == old(self)@.push(
                data,
            ),
            old(self)@.len() >= old(self).capacity() ==> r == Err::<(), QueueError>(
                QueueError::Full,
            ) && final(self)@ == old(self)@,
    {
        let next = if self.write_pos + 1 == self.size {
            0
        } else {
            self.write_pos + 1
        };
        if next == self.read_pos {
            return Err(QueueError::Full);
        }
        let w = self.write_pos;
        let ghost old_view = self@;
        self.data.set(w, Some(data));
        self.write_pos = next;
        assert(self@ =~= old_view.push(data));
        Ok(())
    }

    /// Take the item at the front; an empty queue has none.
    fn get(&mut self) -> (r: Result<T, QueueError>)
        ensures
            final(self).capacity() == old(self).capacity(),
            old(self)@.len() > 0 ==> r == Ok::<T, QueueError>(old(self)@[0]) && final(self)@
                == old(self)@.drop_first(),
            old(self)@.len() == 0 ==> r == Err::<T, QueueError>(QueueError::Empty) && final(self)@
                == old(self)@,
    {
        if self.read_pos == self.write_pos {
            return Err(QueueError::Empty);
        }
        let rpos = self.read_pos;
        let ghost old_view = self@;
        let ghost old_data = self.data@;
        let ghost old_len = self.len();
        assert(self.data@[ring_index(rpos as int, 0, self.size as int)] is Some);
        let next = if self.read_pos + 1 == self.size {
            0
        } else {
            self.read_pos + 1
        };
        self.read_pos = next;
        let mut slot: Option<T> = None;
        core::mem::swap(&mut slot, &mut self.data[rpos]);
        assert forall|i: int| 0 <= i < self.len() implies #[trigger] self.data@[ring_index(
            self.read_pos as int,
            i,
            self.size as int,
        )] is Some by {
            assert(ring_index(self.read_pos as int, i, self.size as int) == ring_index(
                rpos as int,
                i + 1,
                self.size as int,
            ));
            assert(old_data[ring_index(rpos as int, i + 1, self.size as int)] is Some);
        }
        assert forall|i: int| 0 <= i < self.len() implies ring_index(
            self.read_pos as int,
            i,
            self.size as int,
        ) == ring_index(rpos as int, i + 1, self.size as int) by {}
        assert(self@ =~= old_view.drop_first());
        match slot {
            Some(v) => Ok(v),
            None => Err(QueueError::Empty),
        }
    }

    /// Whether the queue holds no item.
    fn empty(&self) -> (r: bool)
        ensures
            r == (self@.len() == 0),
    {
        self.read_pos == self.write_pos
    }

    /// Drop every item.
    fn flush(&mut self)
        ensures
            final(self)@ == Seq::<T>::empty(),
            final(self).capacity() == old(self).capacity(),
    {
        self.read_pos = self.write_pos;
    }
}

/// `s` without its first buffer of the given index, if it has one.
pub open spec fn without_first_index(s: Seq<FileBuffer>, index: i64) -> Seq<FileBuffer>
    decreases s.len(),
{
    if s.len() == 0 {
        s
    } else if s[0].index == index {
        s.drop_first()
    } else {
        seq![s[0]] + without_first_index(s.drop_first(), index)
    }
}

proof fn lemma_without_first_index(s: Seq<FileBuffer>, index: i64, i: int)
    requires
        0 <= i <= s.len(),
        forall|j: int| 0 <= j < i ==> #[trigger] s[j].index != index,
    ensures
        i < s.len() && s[i].index == index ==> without_first_index(s, index) == s.remove(i),
        i == s.len() ==> without_first_index(s, index) == s,
    decreases i,
{
    if i > 0 {
        let t = s.drop_first();
        assert forall|j: int| 0 <= j < i - 1 implies #[trigger] t[j].index != index by {
            assert(t[j] == s[j + 1]);
        }
        lemma_without_first_index(t, index, i - 1);
        if i < s.len() && s[i].index == index {
            assert(seq![s[0]] + t.remove(i - 1) =~= s.remove(i));
        }
        if i == s.len() {
            assert(seq![s[0]] + t =~= s);
        }
    } else {
        if s.len() > 0 && s[0].index == index {
            assert(s.drop_first() =~= s.remove(0));
        }
    }
}

/// A cache of buffers: buffers handed out, buffers kept for reuse, and a
/// table in which buffers that were handed back are found by their index.
pub struct Cache {
    pub max_buffers: usize,
    pub count: usize,
    pub buffer_size: usize,
    pub noshrink_lookup: bool,
    pub first_freelist: bool,
    pub used: i32,
    pub free_list: Vec<FileBuffer>,
    pub hash_table: HashMap<i64, FileBuffer>,
}

impl Cache {
    /// No more buffers have been made than the cache may hold.
    pub open spec fn wf(&self) -> bool {
        self.count <= self.max_buffers
    }

    /// An empty cache of at most `max_buffers` buffers of `buffer_size` bytes.
    pub fn new(buffer_size: usize, max_buffers: usize, noshrink_lookup: bool, first_freelist: bool) -> (r: Self)
        ensures
            r.wf(),
            r.max_buffers == max_buffers && r.buffer_size == buffer_size,
            r.noshrink_lookup == noshrink_lookup && r.first_freelist == first_freelist,
            r.count == 0 && r.used == 0,
            r.free_list@ == Seq::<FileBuffer>::empty(),
            r.hash_table@ == Map::<i64, FileBuffer>::empty(),
    {
        Cache {
            max_buffers,
            count: 0,
            buffer_size,
            noshrink_lookup,
            first_freelist,
            used: 0,
            free_list: Vec::new(),
            hash_table: HashMap::new(),
        }
    }

    /// The buffer the table holds under `index`, marked as in use. A
    /// buffer that was not in use is taken off the list of free buffers.
    pub fn lookup(&mut self, index: i64) -> (r: Option<FileBuffer>)
        ensures
            final(self).hash_table@ == old(self).hash_table@,
            final(self).count == old(self).count,
            final(self).max_buffers == old(self).max_buffers,
            final(self).buffer_size == old(self).buffer_size,
            final(self).noshrink_lookup == old(self).noshrink_lookup,
            final(self).first_freelist == old(self).first_freelist,
            !old(self).hash_table@.contains_key(index) ==> r is None && final(self).free_list@
                == old(self).free_list@ && final(self).used == old(self).used,
            old(self).hash_table@.contains_key(index) ==> ({
                let b = old(self).hash_table@[index];
                &&& r matches Some(x) && same_buffer(x, with_used(b, true))
                &&& b.used ==> final(self).free_list@ == old(self).free_list@ && final(self).used
                    == old(self).used
                &&& !b.used ==> final(self).free_list@ == without_first_index(
                    old(self).free_list@,
                    b.index,
                ) && final(self).used == old(self).used.wrapping_add(1)
            }),
    {
        let found = self.hash_table.get(&index);
        match found {
            None => None,
            Some(b) => {
                let was_used = b.used;
                let mut copy = b.duplicate();
                if !was_used {
                    let mut i: usize = 0;
                    let ghost fl = self.free_list@;
                    while i < self.free_list.len()
                        invariant
                            self.free_list@ == fl,
                            i <= fl.len(),
                            forall|j: int| 0 <= j < i ==> #[trigger] fl[j].index != copy.index,
                        ensures
                            self.free_list@ == fl,
                            i <= fl.len(),
                            forall|j: int| 0 <= j < i ==> #[trigger] fl[j].index != copy.index,
                            i < fl.len() ==> fl[i as int].index == copy.index,
                        decreases fl.len() - i,
                    {
                        if self.free_list[i].index == copy.index {
                            break;
                        }
                        i = i + 1;
                    }
                    proof {
                        lemma_without_first_index(fl, copy.index, i as int);
                    }
                    if i < self.free_list.len() {
                        self.free_list.remove(i);
                    }
                    self.used = self.used.wrapping_add(1);
                }
                copy.used = true;
                Some(copy)
            },
        }
    }

    /// A buffer to fill: one kept for reuse where the cache reuses them
    /// first, else a new one while fewer than `max_buffers` exist, else
    /// none (the caller would have to wait for one to be handed back).
    pub fn get(&mut self, index: i64) -> (r: Option<FileBuffer>)
        requires
            old(self).wf(),
        ensures
            final(self).wf(),
            final(self).hash_table@ == old(self).hash_table@,
            final(self).max_buffers == old(self).max_buffers,
            final(self).buffer_size == old(self).buffer_size,
            final(self).noshrink_lookup == old(self).noshrink_lookup,
            final(self).first_freelist == old(self).first_freelist,
            ({
                let reuse = old(self).noshrink_lookup && old(self).first_freelist
                    && old(self).free_list@.len() > 0;
                if reuse {
                    &&& r == Some(old(self).free_list@.last())
                    &&& final(self).free_list@ == old(self).free_list@.drop_last()
                    &&& final(self).count == old(self).count
                    &&& final(self).used == old(self).used.wrapping_add(1)
                } else if old(self).count < old(self).max_buffers {
                    &&& r matches Some(b) && b.data@ == Seq::new(
                        old(self).buffer_size as nat,
                        |i: int| 0u8,
                    ) && b.index == 0 && !b.used
                    &&& final(self).free_list@ == old(self).free_list@
                    &&& final(self).count == old(self).count + 1
                    &&& final(self).used == old(self).used.wrapping_add(1)
                } else {
                    &&& r is None
                    &&& final(self).free_list@ == old(self).free_list@
                    &&& final(self).count == old(self).count
                    &&& final(self).used == old(self).used
                }
            }),
    {
        if self.noshrink_lookup && self.first_freelist {
            if let Some(buffer) = self.free_list.pop() {
                self.used = self.used.wrapping_add(1);
                return Some(buffer);
            }
        }
        if self.count < self.max_buffers {
            let buffer = FileBuffer::new(self.buffer_size);
            self.count = self.count + 1;
            self.used = self.used.wrapping_add(1);
            return Some(buffer);
        }
        None
    }

    /// Hand a buffer back: it is marked as no longer in use and kept in the
    /// table under its index, in place of any buffer held there before.
    pub fn put(&mut self, buffer: FileBuffer)
        ensures
            final(self).hash_table@ == old(self).hash_table@.insert(
                buffer.index,
                with_used(buffer, false),
            ),
            final(self).free_list@ == old(self).free_list@,
            final(self).count == old(self).count,
            final(self).used == old(self).used,
            final(self).max_buffers == old(self).max_buffers,
            final(self).buffer_size == old(self).buffer_size,
            final(self).noshrink_lookup == old(self).noshrink_lookup,
            final(self).first_freelist == old(self).first_freelist,
    {
        let mut buffer = buffer;
        buffer.used = false;
        let index = buffer.index;
        self.hash_table.insert(index, buffer);
    }
}

/// A buffer handed back to a cache is what a lookup of its index then gives,
/// marked as in use again.
pub proof fn law_put_then_lookup(table: Map<i64, FileBuffer>, buffer: FileBuffer)
    ensures
        table.insert(buffer.index, with_used(buffer, false)).contains_key(buffer.index),
        with_used(table.insert(buffer.index, with_used(buffer, false))[buffer.index], true)
            == with_used(buffer, true),
{
}

} // verus!
