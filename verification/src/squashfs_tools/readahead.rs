use vstd::prelude::*;
use crate::squashfs_tools::reader::Readahead;

verus! {

/// The position just past the bytes of a read-ahead buffer.
pub open spec fn ra_end(b: Readahead) -> int {
    b.start + b.data@.len()
}

/// Whether buffer `b` holds byte `p` of the file.
pub open spec fn ra_covers(b: Readahead, p: int) -> bool {
    b.start <= p < ra_end(b)
}

/// The slot of the read-ahead table for the block that holds byte `p`.
pub open spec fn ra_slot(p: int) -> int {
    p / 8192 % 0x100000
}

/// Whether `b` is a buffer as the table of slot `k` keeps them: some
/// bytes, all within the one 8192-byte block that slot `k` is for.
pub open spec fn ra_block_ok(b: Readahead, k: int) -> bool {
    &&& 0 <= b.start
    &&& b.size == b.data@.len()
    &&& 0 < b.data@.len()
    &&& b.next is None
    &&& ra_slot(b.start as int) == k
    &&& b.start % 8192 + b.data@.len() <= 8192
    &&& ra_end(b) <= i64::MAX
}

/// Whether two buffers hold no byte in common.
pub open spec fn ra_disjoint(a: Readahead, b: Readahead) -> bool {
    ra_end(a) <= b.start || ra_end(b) <= a.start
}

/// Whether the buffers of slot `k` are well formed and hold no byte twice.
pub open spec fn chain_ok(ch: Seq<Readahead>, k: int) -> bool {
    &&& forall|i: int| 0 <= i < ch.len() ==> ra_block_ok(#[trigger] ch[i], k)
    &&& forall|i: int, j: int|
        0 <= i < ch.len() && 0 <= j < ch.len() && i != j ==> ra_disjoint(
            #[trigger] ch[i],
            #[trigger] ch[j],
        )
}

/// The byte `p` as the buffers `ch` hold it, if one does.
pub open spec fn chain_byte(ch: Seq<Readahead>, p: int) -> Option<u8> {
    if exists|i: int| 0 <= i < ch.len() && ra_covers(#[trigger] ch[i], p) {
        let i = choose|i: int| 0 <= i < ch.len() && ra_covers(#[trigger] ch[i], p);
        Some(ch[i].data@[p - ch[i].start])
    } else {
        None
    }
}

/// Whether `pc` is a part of buffer `b`: some of its bytes, where they are.
pub open spec fn ra_piece_of(pc: Readahead, b: Readahead) -> bool {
    &&& pc.size == pc.data@.len()
    &&& 0 < pc.data@.len()
    &&& pc.next is None
    &&& b.start <= pc.start
    &&& ra_end(pc) <= ra_end(b)
    &&& forall|j: int| 0 <= j < pc.data@.len() ==> #[trigger] pc.data@[j] == b.data@[pc.start - b.start + j]
}

/// A byte of a buffer within one block lies in that block.
proof fn lemma_same_block(s: int, p: int, len: int)
    requires
        0 <= s <= p < s + len,
        s % 8192 + len <= 8192,
    ensures
        p / 8192 == s / 8192,
        p % 8192 == s % 8192 + (p - s),
{
    vstd::arithmetic::div_mod::lemma_fundamental_div_mod(s, 8192);
    vstd::arithmetic::div_mod::lemma_mod_bound(s, 8192);
    vstd::arithmetic::div_mod::lemma_fundamental_div_mod_converse(
        p,
        8192,
        s / 8192,
        s % 8192 + (p - s),
    );
}

/// The buffer of a chain that holds a byte gives it.
proof fn lemma_chain_byte_at(ch: Seq<Readahead>, k: int, i: int, p: int)
    requires
        chain_ok(ch, k),
        0 <= i < ch.len(),
        ra_covers(ch[i], p),
    ensures
        chain_byte(ch, p) == Some(ch[i].data@[p - ch[i].start]),
{
    let j = choose|j: int| 0 <= j < ch.len() && ra_covers(#[trigger] ch[j], p);
    if j != i {
        assert(ra_disjoint(ch[i], ch[j]));
    }
}

/// Taking buffer `i` out of a chain and putting parts of it back keeps the
/// chain well formed; a byte of the buffer that no part holds is gone, and
/// every other byte stays as it was.
proof fn lemma_chain_replace(ch: Seq<Readahead>, k: int, i: int, pieces: Seq<Readahead>)
    requires
        chain_ok(ch, k),
        0 <= i < ch.len(),
        forall|q: int| 0 <= q < pieces.len() ==> ra_piece_of(#[trigger] pieces[q], ch[i]),
        forall|q1: int, q2: int|
            0 <= q1 < pieces.len() && 0 <= q2 < pieces.len() && q1 != q2 ==> ra_disjoint(
                #[trigger] pieces[q1],
                #[trigger] pieces[q2],
            ),
    ensures
        chain_ok(ch.remove(i) + pieces, k),
        forall|p: int|
            #[trigger] chain_byte(ch.remove(i) + pieces, p) == (if ra_covers(ch[i], p) && !(exists|q: int|
                0 <= q < pieces.len() && ra_covers(#[trigger] pieces[q], p)) {
                None
            } else {
                chain_byte(ch, p)
            }),
{
    let b = ch[i];
    let rest = ch.remove(i);
    let ch2 = rest + pieces;
    let n = ch.len();
    assert(rest.len() == n - 1);
    assert forall|x: int| 0 <= x < n - 1 implies #[trigger] rest[x] == (if x < i {
        ch[x]
    } else {
        ch[x + 1]
    }) by {}
    assert forall|q: int| 0 <= q < pieces.len() implies ra_block_ok(#[trigger] pieces[q], k) by {
        let pc = pieces[q];
        assert(ra_block_ok(b, k));
        lemma_same_block(b.start as int, pc.start as int, b.data@.len() as int);
    }
    assert forall|x: int| 0 <= x < ch2.len() implies ra_block_ok(#[trigger] ch2[x], k) by {
        if x < n - 1 {
            assert(ch2[x] == rest[x]);
        } else {
            assert(ch2[x] == pieces[x - (n - 1)]);
        }
    }
    assert forall|x: int, y: int|
        0 <= x < ch2.len() && 0 <= y < ch2.len() && x != y implies ra_disjoint(
        #[trigger] ch2[x],
        #[trigger] ch2[y],
    ) by {
        let ox = if x < i { x } else { x + 1 };
        let oy = if y < i { y } else { y + 1 };
        if x < n - 1 && y < n - 1 {
            assert(ch2[x] == ch[ox]);
            assert(ch2[y] == ch[oy]);
            assert(ra_disjoint(ch[ox], ch[oy]));
        } else if x < n - 1 {
            assert(ch2[x] == ch[ox]);
            assert(ch2[y] == pieces[y - (n - 1)]);
            assert(ra_piece_of(pieces[y - (n - 1)], b));
            assert(ra_disjoint(ch[ox], b));
        } else if y < n - 1 {
            assert(ch2[y] == ch[oy]);
            assert(ch2[x] == pieces[x - (n - 1)]);
            assert(ra_piece_of(pieces[x - (n - 1)], b));
            assert(ra_disjoint(ch[oy], b));
        } else {
            assert(ch2[x] == pieces[x - (n - 1)]);
            assert(ch2[y] == pieces[y - (n - 1)]);
        }
    }
    assert(chain_ok(ch2, k));
    assert forall|p: int|
        #[trigger] chain_byte(ch2, p) == (if ra_covers(b, p) && !(exists|q: int|
            0 <= q < pieces.len() && ra_covers(#[trigger] pieces[q], p)) {
            None
        } else {
            chain_byte(ch, p)
        }) by {
        if exists|q: int| 0 <= q < pieces.len() && ra_covers(#[trigger] pieces[q], p) {
            let q = choose|q: int| 0 <= q < pieces.len() && ra_covers(#[trigger] pieces[q], p);
            let pc = pieces[q];
            assert(ra_piece_of(pc, b));
            assert(ch2[n - 1 + q] == pc);
            lemma_chain_byte_at(ch2, k, n - 1 + q, p);
            lemma_chain_byte_at(ch, k, i, p);
            assert(pc.data@[p - pc.start] == b.data@[pc.start - b.start + (p - pc.start)]);
        } else if ra_covers(b, p) {
            assert forall|x: int| 0 <= x < ch2.len() implies !ra_covers(#[trigger] ch2[x], p) by {
                if x < n - 1 {
                    let ox = if x < i { x } else { x + 1 };
                    assert(ch2[x] == ch[ox]);
                    assert(ra_disjoint(ch[ox], b));
                } else {
                    assert(ch2[x] == pieces[x - (n - 1)]);
                }
            }
        } else {
            if exists|j: int| 0 <= j < n && ra_covers(#[trigger] ch[j], p) {
                let j = choose|j: int| 0 <= j < n && ra_covers(#[trigger] ch[j], p);
                assert(j != i);
                let x = if j < i { j } else { j - 1 };
                assert(ch2[x] == ch[j]);
                lemma_chain_byte_at(ch2, k, x, p);
                lemma_chain_byte_at(ch, k, j, p);
            } else {
                assert forall|x: int| 0 <= x < ch2.len() implies !ra_covers(#[trigger] ch2[x], p) by {
                    if x < n - 1 {
                        let ox = if x < i { x } else { x + 1 };
                        assert(ch2[x] == ch[ox]);
                    } else {
                        assert(ch2[x] == pieces[x - (n - 1)]);
                    }
                }
            }
        }
    }
}

/// A byte of a buffer of slot `k` lies in a block of slot `k`.
proof fn lemma_slot_of_covered(b: Readahead, k: int, p: int)
    requires
        ra_block_ok(b, k),
        ra_covers(b, p),
    ensures
        ra_slot(p) == k,
        p >= 0,
{
    lemma_same_block(b.start as int, p, b.data@.len() as int);
}

/// Adding a buffer that shares no byte with a chain keeps it well formed,
/// and adds the buffer's bytes.
proof fn lemma_chain_push(ch: Seq<Readahead>, k: int, b: Readahead)
    requires
        chain_ok(ch, k),
        ra_block_ok(b, k),
        forall|i: int| 0 <= i < ch.len() ==> ra_disjoint(#[trigger] ch[i], b),
    ensures
        chain_ok(ch.push(b), k),
        forall|p: int|
            #[trigger] chain_byte(ch.push(b), p) == (if ra_covers(b, p) {
                Some(b.data@[p - b.start])
            } else {
                chain_byte(ch, p)
            }),
{
    let ch2 = ch.push(b);
    let n = ch.len();
    assert forall|x: int, y: int|
        0 <= x < ch2.len() && 0 <= y < ch2.len() && x != y implies ra_disjoint(
        #[trigger] ch2[x],
        #[trigger] ch2[y],
    ) by {
        if x < n && y < n {
            assert(ch2[x] == ch[x] && ch2[y] == ch[y]);
        } else if x < n {
            assert(ch2[x] == ch[x] && ch2[y] == b);
        } else {
            assert(ch2[y] == ch[y] && ch2[x] == b);
        }
    }
    assert forall|x: int| 0 <= x < ch2.len() implies ra_block_ok(#[trigger] ch2[x], k) by {
        if x < n {
            assert(ch2[x] == ch[x]);
        }
    }
    assert forall|p: int|
        #[trigger] chain_byte(ch2, p) == (if ra_covers(b, p) {
            Some(b.data@[p - b.start])
        } else {
            chain_byte(ch, p)
        }) by {
        if ra_covers(b, p) {
            lemma_chain_byte_at(ch2, k, n as int, p);
        } else if exists|j: int| 0 <= j < n && ra_covers(#[trigger] ch[j], p) {
            let j = choose|j: int| 0 <= j < n && ra_covers(#[trigger] ch[j], p);
            assert(ch2[j] == ch[j]);
            lemma_chain_byte_at(ch2, k, j, p);
            lemma_chain_byte_at(ch, k, j, p);
        } else {
            assert forall|x: int| 0 <= x < ch2.len() implies !ra_covers(#[trigger] ch2[x], p) by {
                if x < n {
                    assert(ch2[x] == ch[x]);
                }
            }
        }
    }
}

/// Whether a read-ahead table is well formed: not allocated, or a slot for
/// each block index, each slot's buffers well formed and disjoint.
pub open spec fn table_ok(t: Seq<Vec<Readahead>>) -> bool {
    &&& (t.len() == 0 || t.len() == 0x100000)
    &&& forall|k: int| 0 <= k < t.len() ==> chain_ok(#[trigger] t[k]@, k)
}

/// Byte `p` of the file as a read-ahead table holds it, if it does.
pub open spec fn table_byte(t: Seq<Vec<Readahead>>, p: int) -> Option<u8> {
    if t.len() == 0 || p < 0 {
        None
    } else {
        chain_byte(t[ra_slot(p)]@, p)
    }
}

/// Replacing buffer `i` of slot `k` by parts of it that leave out exactly
/// the bytes `lo..hi` takes those bytes out of the table, and no other.
proof fn lemma_table_consume(
    t: Seq<Vec<Readahead>>,
    t2: Seq<Vec<Readahead>>,
    k: int,
    i: int,
    pieces: Seq<Readahead>,
    lo: int,
    hi: int,
)
    requires
        table_ok(t),
        t.len() == 0x100000,
        0 <= k < t.len(),
        0 <= i < t[k]@.len(),
        t2.len() == t.len(),
        t2[k]@ == t[k]@.remove(i) + pieces,
        forall|x: int| 0 <= x < t.len() && x != k ==> #[trigger] t2[x] == t[x],
        forall|q: int| 0 <= q < pieces.len() ==> ra_piece_of(#[trigger] pieces[q], t[k]@[i]),
        forall|q1: int, q2: int|
            0 <= q1 < pieces.len() && 0 <= q2 < pieces.len() && q1 != q2 ==> ra_disjoint(
                #[trigger] pieces[q1],
                #[trigger] pieces[q2],
            ),
        forall|p: int|
            (ra_covers(t[k]@[i], p) && !(exists|q: int|
                0 <= q < pieces.len() && ra_covers(#[trigger] pieces[q], p))) <==> lo <= p < hi,
    ensures
        table_ok(t2),
        forall|p: int| #[trigger] table_byte(t2, p) == (if lo <= p < hi {
            None
        } else {
            table_byte(t, p)
        }),
{
    assert(chain_ok(t[k]@, k));
    lemma_chain_replace(t[k]@, k, i, pieces);
    assert forall|x: int| 0 <= x < t2.len() implies chain_ok(#[trigger] t2[x]@, x) by {
        if x != k {
            assert(t2[x] == t[x]);
        }
    }
    assert forall|p: int| #[trigger] table_byte(t2, p) == (if lo <= p < hi {
        None
    } else {
        table_byte(t, p)
    }) by {
        if lo <= p < hi {
            lemma_slot_of_covered(t[k]@[i], k, p);
        } else if p >= 0 && ra_slot(p) != k {
            vstd::arithmetic::div_mod::lemma_mod_bound(p / 8192, 0x100000);
            assert(t2[ra_slot(p)] == t[ra_slot(p)]);
        } else if p >= 0 {
            assert(chain_byte(t2[k]@, p) == chain_byte(t[k]@, p));
        }
    }
}

/// Bytes `a` to `b` of `d`, as a vector.
fn sub_vec(d: &Vec<u8>, a: usize, b: usize) -> (r: Vec<u8>)
    requires
        a <= b <= d@.len(),
    ensures
        r@ == d@.subrange(a as int, b as int),
{
    vstd::slice::slice_to_vec(vstd::slice::slice_subrange(d.as_slice(), a, b))
}

/// The first byte from `p` on, before `end`, that the table of `c` does not
/// hold; `end` where it holds them all.
pub open spec fn first_gap(t: Seq<Vec<Readahead>>, p: int, end: int) -> int
    decreases end - p,
{
    if p >= end {
        end
    } else if table_byte(t, p) is None {
        p
    } else {
        first_gap(t, p + 1, end)
    }
}

proof fn lemma_first_gap_skip(t: Seq<Vec<Readahead>>, a: int, b: int, end: int)
    requires
        a <= b <= end,
        forall|p: int| a <= p < b ==> #[trigger] table_byte(t, p) is Some,
    ensures
        first_gap(t, a, end) == first_gap(t, b, end),
    decreases b - a,
{
    if a < b {
        assert(table_byte(t, a) is Some);
        lemma_first_gap_skip(t, a + 1, b, end);
    }
}

/// Bytes kept by `store_readahead` are given back whole by
/// `get_readahead`: where the table holds every byte of a range, there is
/// no gap in it, so the range is taken out and its bytes are those held.
pub proof fn law_readahead_gives_back(t: Seq<Vec<Readahead>>, start: int, data: Seq<u8>)
    requires
        forall|p: int| start <= p < start + data.len() ==> #[trigger] table_byte(t, p) == Some(
            data[p - start],
        ),
    ensures
        first_gap(t, start, start + data.len()) == start + data.len(),
{
    assert forall|p: int| start <= p < start + data.len() implies #[trigger] table_byte(t, p) is Some by {
        assert(table_byte(t, p) == Some(data[p - start]));
    }
    lemma_first_gap_skip(t, start, start + data.len(), start + data.len());
}

/// The read-ahead table: for each slot, the buffers of bytes of a file read
/// ahead of their use, each within one 8192-byte block whose index (modulo
/// the number of slots) is the slot.
pub struct ReadaheadCache {
    pub table: Vec<Vec<Readahead>>,
}

impl ReadaheadCache {
    /// Whether the table is well formed.
    pub open spec fn wf(&self) -> bool {
        table_ok(self.table@)
    }

    /// Byte `p` of the file, if the table holds it.
    pub open spec fn cached(&self, p: int) -> Option<u8> {
        table_byte(self.table@, p)
    }

    /// A table not yet allocated: it holds nothing.
    pub fn new() -> (r: Self)
        ensures
            r.wf(),
            r.table@.len() == 0,
            forall|p: int| #[trigger] r.cached(p) is None,
    {
        ReadaheadCache { table: Vec::new() }
    }

    /// Allocate the slots of the table if that is not done yet.
    fn allocate(&mut self)
        requires
            old(self).wf(),
        ensures
            final(self).wf(),
            final(self).table@.len() == 0x100000,
            forall|p: int| #[trigger] final(self).cached(p) == old(self).cached(p),
    {
        if self.table.len() == 0 {
            let mut t: Vec<Vec<Readahead>> = Vec::new();
            while t.len() < 0x100000
                invariant
                    t@.len() <= 0x100000,
                    forall|k: int| 0 <= k < t@.len() ==> (#[trigger] t@[k])@.len() == 0,
                decreases 0x100000 - t@.len(),
            {
                t.push(Vec::new());
            }
            self.table = t;
            assert forall|p: int| #[trigger] self.cached(p) == old(self).cached(p) by {
                if p >= 0 {
                    vstd::arithmetic::div_mod::lemma_mod_bound(p / 8192, 0x100000);
                    assert(self.table@[ra_slot(p)]@.len() == 0);
                }
            }
        }
    }

    /// Put buffer `b` into the slot of its block; it holds bytes that the
    /// table does not.
    pub fn add_readahead(&mut self, b: Readahead)
        requires
            old(self).wf(),
            old(self).table@.len() == 0x100000,
            ra_block_ok(b, ra_slot(b.start as int)),
            forall|p: int| ra_covers(b, p) ==> #[trigger] old(self).cached(p) is None,
        ensures
            final(self).wf(),
            final(self).table@.len() == 0x100000,
            forall|p: int| #[trigger] final(self).cached(p) == (if ra_covers(b, p) {
                Some(b.data@[p - b.start])
            } else {
                old(self).cached(p)
            }),
    {
        let k: usize = ((b.start / 8192) % 0x100000) as usize;
        let ghost t = self.table@;
        let ghost ch = t[k as int]@;
        proof {
            assert(k as int == ra_slot(b.start as int));
            assert(chain_ok(ch, k as int));
            assert forall|i: int| 0 <= i < ch.len() implies ra_disjoint(#[trigger] ch[i], b) by {
                let e = ch[i];
                if !ra_disjoint(e, b) {
                    let p = if e.start < b.start {
                        b.start as int
                    } else {
                        e.start as int
                    };
                    assert(ra_covers(b, p));
                    lemma_slot_of_covered(b, k as int, p);
                    lemma_chain_byte_at(ch, k as int, i, p);
                    assert(old(self).cached(p) is Some);
                }
            }
            lemma_chain_push(ch, k as int, b);
        }
        let ghost bb = b;
        self.table[k].push(b);
        proof {
            assert(self.table@[k as int]@ == ch.push(bb));
            assert forall|x: int| 0 <= x < self.table@.len() implies chain_ok(
                #[trigger] self.table@[x]@,
                x,
            ) by {
                if x != k {
                    assert(self.table@[x] == t[x]);
                }
            }
            assert forall|p: int| #[trigger] self.cached(p) == (if ra_covers(bb, p) {
                Some(bb.data@[p - bb.start])
            } else {
                old(self).cached(p)
            }) by {
                if ra_covers(bb, p) {
                    lemma_slot_of_covered(bb, k as int, p);
                } else if p >= 0 && ra_slot(p) != k {
                    vstd::arithmetic::div_mod::lemma_mod_bound(p / 8192, 0x100000);
                    assert(self.table@[ra_slot(p)] == t[ra_slot(p)]);
                }
            }
        }
    }

    /// Keep `data`, the bytes of the file from byte `start` on, read ahead
    /// of their use: in buffers that each end at the end of a block or of
    /// the data. The table does not hold those bytes yet.
    pub fn store_readahead(&mut self, start: i64, data: &[u8])
        requires
            old(self).wf(),
            start >= 0,
            start + data@.len() <= i64::MAX,
            forall|p: int| start <= p < start + data@.len() ==> #[trigger] old(self).cached(p) is None,
        ensures
            final(self).wf(),
            final(self).table@.len() == 0x100000,
            forall|p: int| #[trigger] final(self).cached(p) == (if start <= p < start + data@.len() {
                Some(data@[p - start])
            } else {
                old(self).cached(p)
            }),
    {
        self.allocate();
        let mut idx: usize = 0;
        let mut pos: i64 = start;
        while idx < data.len()
            invariant
                self.wf(),
                self.table@.len() == 0x100000,
                start >= 0,
                start + data@.len() <= i64::MAX,
                pos == start + idx,
                idx <= data@.len(),
                forall|p: int| start <= p < start + data@.len() ==> (#[trigger] old(self).cached(p)) is None,
                forall|p: int| #[trigger] self.cached(p) == (if start <= p < pos {
                    Some(data@[p - start])
                } else {
                    old(self).cached(p)
                }),
            decreases data@.len() - idx,
        {
            let off: usize = (pos % 8192) as usize;
            let room: usize = 8192 - off;
            let left: usize = data.len() - idx;
            let bytes: usize = if room < left {
                room
            } else {
                left
            };
            let piece = Readahead {
                start: pos,
                size: bytes,
                next: None,
                data: vstd::slice::slice_to_vec(vstd::slice::slice_subrange(data, idx, idx + bytes)),
            };
            let ghost pc = piece;
            assert forall|p: int| ra_covers(pc, p) implies #[trigger] self.cached(p) is None by {
                assert(old(self).cached(p) is None);
            }
            self.add_readahead(piece);
            idx = idx + bytes;
            pos = pos + bytes as i64;
            assert forall|p: int| #[trigger] self.cached(p) == (if start <= p < pos {
                Some(data@[p - start])
            } else {
                old(self).cached(p)
            }) by {
                if ra_covers(pc, p) {
                    assert(pc.data@[p - pc.start] == data@[p - start]);
                }
            }
        }
    }

    /// Take `size` bytes of the file from byte `current` on out of the
    /// table, in order: each buffer that holds the next wanted byte gives
    /// as many as it has, and is taken out, cut down to its bytes before
    /// those wanted, or split around them. The bytes, or nothing where the
    /// table is not allocated or does not hold one of them; the bytes
    /// before that one are taken out all the same.
    #[verifier::rlimit(80)]
    pub fn get_readahead(&mut self, current: i64, size: usize) -> (r: Option<Vec<u8>>)
        requires
            old(self).wf(),
            current >= 0,
            current + size <= i64::MAX,
        ensures
            final(self).wf(),
            final(self).table@.len() == old(self).table@.len(),
            ({
                let g = first_gap(old(self).table@, current as int, current + size);
                &&& (r is Some) == (g == current + size)
                &&& r matches Some(v) ==> v@.len() == size && forall|j: int|
                    0 <= j < size ==> old(self).cached(current + j) == Some(#[trigger] v@[j])
                &&& forall|p: int| #[trigger] final(self).cached(p) == (if current <= p < g {
                    None
                } else {
                    old(self).cached(p)
                })
            }),
    {
        let ghost t0 = self.table@;
        let ghost end = current + size;
        if self.table.len() == 0 {
            if size == 0 {
                return Some(Vec::new());
            }
            assert(table_byte(t0, current as int) is None);
            return None;
        }
        let mut out: Vec<u8> = Vec::new();
        let mut cur: i64 = current;
        while out.len() < size
            invariant
                self.wf(),
                self.table@.len() == 0x100000,
                t0 == old(self).table@,
                current >= 0,
                end == current + size,
                end <= i64::MAX,
                cur == current + out@.len(),
                t0.len() == 0x100000,
                out@.len() <= size,
                forall|j: int| 0 <= j < out@.len() ==> table_byte(t0, current + j) == Some(#[trigger] out@[j]),
                first_gap(t0, current as int, end) == first_gap(t0, cur as int, end),
                forall|p: int| #[trigger] table_byte(self.table@, p) == (if current <= p < cur {
                    None
                } else {
                    table_byte(t0, p)
                }),
            decreases size - out@.len(),
        {
            let k: usize = ((cur / 8192) % 0x100000) as usize;
            assert(k as int == ra_slot(cur as int));
            let ghost t = self.table@;
            let ghost ch = t[k as int]@;
            assert(chain_ok(ch, k as int));
            let n = self.table[k].len();
            let mut i: usize = n;
            let mut found = false;
            while i > 0 && !found
                invariant
                    i <= n,
                    n == ch.len(),
                    self.table@ == t,
                    ch == t[k as int]@,
                    chain_ok(ch, k as int),
                    0 <= k < t.len(),
                    !found ==> forall|x: int| i <= x < n ==> !ra_covers(#[trigger] ch[x], cur as int),
                    found ==> i < n && ra_covers(ch[i as int], cur as int),
                decreases i,
            {
                i = i - 1;
                let b = &self.table[k][i];
                assert(ra_block_ok(ch[i as int], k as int));
                if b.start <= cur && cur < b.start + b.size as i64 {
                    found = true;
                }
            }
            if !found {
                proof {
                    assert(table_byte(self.table@, cur as int) is None);
                    assert(table_byte(t0, cur as int) is None);
                }
                return None;
            }
            let ghost b0 = ch[i as int];
            proof {
                assert(ra_block_ok(b0, k as int));
            }
            let b = self.table[k].remove(i);
            assert(self.table@[k as int]@ == ch.remove(i as int));
            let blen: usize = b.size;
            let off: usize = (cur - b.start) as usize;
            let rem: usize = size - out.len();
            let ghost o0 = out@;
            let ghost c0 = cur;
            assert(b == b0);
            assert(off as int == cur - b0.start);
            assert(blen == b0.data@.len());
            proof {
                assert forall|j: int| 0 <= j < blen - off implies table_byte(t0, cur + j) == Some(
                    #[trigger] b0.data@[off + j],
                ) by {
                    lemma_chain_byte_at(ch, k as int, i as int, cur + j);
                    lemma_slot_of_covered(b0, k as int, cur + j);
                    assert(table_byte(t, cur + j) == chain_byte(ch, cur + j));
                }
            }
            if off == 0 && rem >= blen {
                let mut taken = sub_vec(&b.data, 0, blen);
                out.append(&mut taken);
                proof {
                    let pieces = Seq::<Readahead>::empty();
                    assert(self.table@[k as int]@ == ch.remove(i as int) + pieces);
                    lemma_table_consume(t, self.table@, k as int, i as int, pieces, cur as int, cur + blen);
                }
                cur = cur + blen as i64;
            } else if off == 0 {
                let mut taken = sub_vec(&b.data, 0, rem);
                out.append(&mut taken);
                let right = Readahead {
                    start: cur + rem as i64,
                    size: blen - rem,
                    next: None,
                    data: sub_vec(&b.data, rem, blen),
                };
                let ghost rg = right;
                self.table[k].push(right);
                proof {
                    let pieces = seq![rg];
                    assert(self.table@[k as int]@ =~= ch.remove(i as int) + pieces);
                    assert(ra_piece_of(rg, b0));
                    assert(b0.start == c0);
                    assert forall|p: int| (ra_covers(b0, p) && !ra_covers(rg, p)) <==> (c0 <= p < c0 + rem) by {}
                    assert forall|p: int| (exists|q: int| 0 <= q < pieces.len() && ra_covers(#[trigger] pieces[q], p)) <==> ra_covers(rg, p) by {
                        if ra_covers(rg, p) {
                            assert(ra_covers(pieces[0], p));
                        }
                    }
                    lemma_table_consume(t, self.table@, k as int, i as int, pieces, cur as int, cur + rem);
                }
                cur = cur + rem as i64;
            } else if blen - off <= rem {
                let mut taken = sub_vec(&b.data, off, blen);
                out.append(&mut taken);
                let left = Readahead { start: b.start, size: off, next: None, data: sub_vec(&b.data, 0, off) };
                let ghost lf = left;
                self.table[k].push(left);
                proof {
                    let pieces = seq![lf];
                    assert(self.table@[k as int]@ =~= ch.remove(i as int) + pieces);
                    assert(ra_piece_of(lf, b0));
                    assert forall|p: int| (exists|q: int| 0 <= q < pieces.len() && ra_covers(#[trigger] pieces[q], p)) <==> ra_covers(lf, p) by {
                        if ra_covers(lf, p) {
                            assert(ra_covers(pieces[0], p));
                        }
                    }
                    assert forall|p: int| (ra_covers(b0, p) && !ra_covers(lf, p)) <==> (c0 <= p < c0 + (blen - off)) by {}
                    lemma_table_consume(t, self.table@, k as int, i as int, pieces, cur as int, cur + (blen - off));
                }
                cur = cur + (blen - off) as i64;
            } else {
                let mut taken = sub_vec(&b.data, off, off + rem);
                out.append(&mut taken);
                let left = Readahead { start: b.start, size: off, next: None, data: sub_vec(&b.data, 0, off) };
                let right = Readahead {
                    start: cur + rem as i64,
                    size: blen - off - rem,
                    next: None,
                    data: sub_vec(&b.data, off + rem, blen),
                };
                let ghost lf = left;
                let ghost rg = right;
                self.table[k].push(left);
                self.table[k].push(right);
                proof {
                    let pieces = seq![lf, rg];
                    assert(self.table@[k as int]@ =~= ch.remove(i as int) + pieces);
                    assert(ra_piece_of(lf, b0));
                    assert(ra_piece_of(rg, b0));
                    assert forall|p: int| (exists|q: int| 0 <= q < pieces.len() && ra_covers(#[trigger] pieces[q], p)) <==> (ra_covers(lf, p) || ra_covers(rg, p)) by {
                        if ra_covers(lf, p) {
                            assert(ra_covers(pieces[0], p));
                        }
                        if ra_covers(rg, p) {
                            assert(ra_covers(pieces[1], p));
                        }
                    }
                    lemma_table_consume(t, self.table@, k as int, i as int, pieces, cur as int, cur + rem);
                }
                cur = cur + rem as i64;
            }
            proof {
                assert forall|j: int| 0 <= j < out@.len() implies table_byte(t0, current + j) == Some(
                    #[trigger] out@[j],
                ) by {
                    if j >= o0.len() {
                        assert(out@[j] == b0.data@[off + (j - o0.len())]);
                    }
                }
                assert forall|p: int| c0 <= p < cur implies #[trigger] table_byte(t0, p) is Some by {
                    assert(table_byte(t0, c0 + (p - c0)) == Some(b0.data@[off + (p - c0)]));
                }
                lemma_first_gap_skip(t0, c0 as int, cur as int, end);
            }
        }
        proof {
            assert(first_gap(t0, cur as int, end) == end);
        }
        Some(out)
    }
}

} // verus!
