use vstd::prelude::*;
use crate::squashfs_tools::caches_queues_lists::{CircularQueue, FileBuffer, Queue, QueueError};

verus! {

/// Whether buffer `a` comes before buffer `b` in reading order: by file,
/// then version, then block.
pub open spec fn earlier(a: FileBuffer, b: FileBuffer) -> bool {
    if b.file_count == a.file_count {
        if b.version == a.version {
            a.block < b.block
        } else {
            a.version < b.version
        }
    } else {
        a.file_count < b.file_count
    }
}

fn earlier_buffer(new: &FileBuffer, old: &FileBuffer) -> (r: bool)
    ensures
        r == earlier(*new, *old),
{
    if old.file_count == new.file_count {
        if old.version == new.version {
            new.block < old.block
        } else {
            new.version < old.version
        }
    } else {
        new.file_count < old.file_count
    }
}

/// The queue of buffers read by one reader thread.
pub struct ReadQueueThread {
    queue: CircularQueue<FileBuffer>,
}

impl ReadQueueThread {
    /// Whether the queue is well formed.
    pub closed spec fn wf(&self) -> bool {
        self.queue.wf()
    }

    /// The buffers waiting, oldest first.
    pub closed spec fn items(&self) -> Seq<FileBuffer> {
        self.queue@
    }

    /// The most buffers the queue holds.
    pub closed spec fn capacity(&self) -> nat {
        self.queue.capacity()
    }

    /// An empty queue of at most `size` buffers.
    pub fn new(size: usize) -> (r: Self)
        requires
            size < usize::MAX,
        ensures
            r.wf(),
            r.items() == Seq::<FileBuffer>::empty(),
            r.capacity() == size,
    {
        ReadQueueThread { queue: CircularQueue::new(size) }
    }
}

/// Buffers read by several reader threads, each thread with its own queue,
/// handed out in reading order.
pub struct ReadQueue {
    threads: usize,
    count: i32,
    thread: Vec<ReadQueueThread>,
}

/// Whether the `id`-th queue of `qs` holds the first earliest front buffer:
/// it is not empty, no queue before it has a front buffer as early or
/// earlier, and no queue after it has an earlier one.
pub open spec fn earliest_front(qs: Seq<Seq<FileBuffer>>, id: int) -> bool {
    &&& 0 <= id < qs.len()
    &&& qs[id].len() > 0
    &&& forall|j: int|
        0 <= j < id && qs[j].len() > 0 ==> earlier(qs[id][0], #[trigger] qs[j][0])
    &&& forall|j: int|
        id < j < qs.len() && qs[j].len() > 0 ==> !earlier(#[trigger] qs[j][0], qs[id][0])
}

impl ReadQueue {
    /// Every queue is well formed and there is one per thread.
    pub closed spec fn wf(&self) -> bool {
        &&& self.threads == self.thread@.len()
        &&& forall|i: int| 0 <= i < self.thread@.len() ==> (#[trigger] self.thread@[i]).wf()
    }

    /// The buffers waiting in each thread's queue.
    pub closed spec fn queues(&self) -> Seq<Seq<FileBuffer>> {
        Seq::new(self.thread@.len(), |i: int| self.thread@[i].items())
    }

    /// The capacity of each thread's queue.
    pub closed spec fn capacities(&self) -> Seq<nat> {
        Seq::new(self.thread@.len(), |i: int| self.thread@[i].capacity())
    }

    /// The number of buffers put and not yet taken, counted as the
    /// original 32-bit counter does.
    pub closed spec fn count(&self) -> i32 {
        self.count
    }

    /// A queue with no reader threads.
    pub fn new() -> (r: Self)
        ensures
            r.wf(),
            r.queues() == Seq::<Seq<FileBuffer>>::empty(),
            r.count() == 0,
    {
        ReadQueue { threads: 0, count: 0, thread: Vec::new() }
    }

    /// Make one empty queue of at most `size` buffers for each of `threads`
    /// reader threads.
    pub fn set(&mut self, threads: usize, size: usize)
        requires
            size < usize::MAX,
        ensures
            final(self).wf(),
            final(self).queues() == Seq::new(threads as nat, |i: int| Seq::<FileBuffer>::empty()),
            final(self).capacities() == Seq::new(threads as nat, |i: int| size as nat),
            final(self).count() == old(self).count(),
    {
        let mut v: Vec<ReadQueueThread> = Vec::new();
        let mut i: usize = 0;
        while i < threads
            invariant
                i <= threads,
                size < usize::MAX,
                v@.len() == i,
                forall|k: int|
                    0 <= k < i ==> (#[trigger] v@[k]).wf() && v@[k].items() == Seq::<
                        FileBuffer,
                    >::empty() && v@[k].capacity() == size,
            decreases threads - i,
        {
            v.push(ReadQueueThread::new(size));
            i = i + 1;
        }
        self.threads = threads;
        self.thread = v;
        assert(self.queues() =~= Seq::new(threads as nat, |i: int| Seq::<FileBuffer>::empty()));
        assert(self.capacities() =~= Seq::new(threads as nat, |i: int| size as nat));
    }

    /// Add a buffer read by thread `id`; a full queue refuses it.
    pub fn put(&mut self, id: usize, buffer: FileBuffer) -> (r: Result<(), QueueError>)
        requires
            old(self).wf(),
            id < old(self).queues().len(),
        ensures
            final(self).wf(),
            final(self).capacities() == old(self).capacities(),
            old(self).queues()[id as int].len() < old(self).capacities()[id as int] ==> r is Ok
                && final(self).queues() == old(self).queues().update(
                id as int,
                old(self).queues()[id as int].push(buffer),
            ) && final(self).count() == old(self).count().wrapping_add(1),
            old(self).queues()[id as int].len() >= old(self).capacities()[id as int] ==> r
                == Err::<(), QueueError>(QueueError::Full) && final(self).queues() == old(self).queues() && final(self).count() == old(self).count(),
    {
        let ghost q0 = self.queues();
        let ghost c0 = self.capacities();
        let mut t = self.thread.remove(id);
        let r = t.queue.put(buffer);
        self.thread.insert(id, t);
        if r.is_ok() {
            self.count = self.count.wrapping_add(1);
        }
        assert(self.capacities() =~= c0);
        proof {
            if q0[id as int].len() < c0[id as int] {
                assert(self.queues() =~= q0.update(id as int, q0[id as int].push(buffer)));
            } else {
                assert(self.queues() =~= q0);
            }
        }
        r
    }

    /// Take the earliest buffer, in reading order, among the buffers at the
    /// front of the threads' queues; none if every queue is empty.
    pub fn get(&mut self) -> (r: Option<FileBuffer>)
        requires
            old(self).wf(),
        ensures
            final(self).wf(),
            final(self).capacities() == old(self).capacities(),
            (forall|i: int|
                0 <= i < old(self).queues().len() ==> (#[trigger] old(self).queues()[i]).len()
                    == 0) ==> r is None && final(self).queues() == old(self).queues()
                && final(self).count() == old(self).count(),
            (exists|i: int|
                0 <= i < old(self).queues().len() && (#[trigger] old(self).queues()[i]).len()
                    > 0) ==> exists|id: int|
                earliest_front(old(self).queues(), id) && r == Some(old(self).queues()[id][0])
                    && final(self).queues() == old(self).queues().update(
                    id,
                    old(self).queues()[id].drop_first(),
                ) && final(self).count() == old(self).count().wrapping_sub(1),
    {
        let ghost qs = self.queues();
        let mut best: Option<usize> = None;
        let mut i: usize = 0;
        while i < self.thread.len()
            invariant
                self.wf(),
                self.queues() == qs,
                i <= qs.len(),
                best is None ==> forall|j: int| 0 <= j < i ==> (#[trigger] qs[j]).len() == 0,
                best matches Some(b) ==> ({
                    &&& b < i
                    &&& qs[b as int].len() > 0
                    &&& forall|j: int|
                        0 <= j < b && qs[j].len() > 0 ==> earlier(qs[b as int][0], #[trigger] qs[j][0])
                    &&& forall|j: int|
                        b < j < i && qs[j].len() > 0 ==> !earlier(#[trigger] qs[j][0], qs[b as int][0])
                }),
            decreases qs.len() - i,
        {
            assert(self.thread@[i as int].wf());
            assert(qs[i as int] == self.thread@[i as int].items());
            match self.thread[i].queue.front() {
                None => {},
                Some(current) => {
                    match best {
                        None => {
                            best = Some(i);
                        },
                        Some(b) => {
                            assert(self.thread@[b as int].wf());
                            assert(qs[b as int] == self.thread@[b as int].items());
                            let bf = self.thread[b].queue.front();
                            match bf {
                                Some(bref) => {
                                    if earlier_buffer(current, bref) {
                                        best = Some(i);
                                    }
                                },
                                None => {},
                            }
                        },
                    }
                },
            }
            i = i + 1;
        }
        match best {
            None => None,
            Some(id) => {
                let ghost c0 = self.capacities();
                let mut t = self.thread.remove(id);
                let r = t.queue.get();
                self.thread.insert(id, t);
                self.count = self.count.wrapping_sub(1);
                assert(self.capacities() =~= c0);
                assert(self.queues() =~= qs.update(id as int, qs[id as int].drop_first()));
                assert(earliest_front(qs, id as int));
                match r {
                    Ok(v) => Some(v),
                    Err(_) => None,
                }
            },
        }
    }

    /// Drop every waiting buffer.
    pub fn flush(&mut self)
        requires
            old(self).wf(),
        ensures
            final(self).wf(),
            final(self).queues() == Seq::new(
                old(self).queues().len(),
                |i: int| Seq::<FileBuffer>::empty(),
            ),
            final(self).capacities() == old(self).capacities(),
            final(self).count() == old(self).count(),
    {
        let ghost c0 = self.capacities();
        let ghost n = self.thread@.len();
        let mut i: usize = 0;
        while i < self.thread.len()
            invariant
                self.wf(),
                self.thread@.len() == n,
                i <= n,
                self.capacities() == c0,
                self.count == old(self).count,
                forall|k: int| 0 <= k < i ==> (#[trigger] self.queues()[k]).len() == 0,
            decreases n - i,
        {
            let ghost before = self.queues();
            let mut t = self.thread.remove(i);
            t.queue.flush();
            self.thread.insert(i, t);
            assert(self.capacities() =~= c0);
            assert forall|k: int| 0 <= k < i + 1 implies (#[trigger] self.queues()[k]).len() == 0 by {
                if k < i {
                    assert(self.queues()[k] == before[k]);
                }
            }
            i = i + 1;
        }
        assert forall|k: int| 0 <= k < n implies self.queues()[k] == Seq::<FileBuffer>::empty() by {
            assert(self.queues()[k].len() == 0);
            assert(self.queues()[k] =~= Seq::<FileBuffer>::empty());
        }
        assert(self.queues() =~= Seq::new(n, |i: int| Seq::<FileBuffer>::empty()));
    }
}

} // verus!
