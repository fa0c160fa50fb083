use vstd::prelude::*;
use crate::squashfs_tools::endian::{
    byte_at, inswap_le16, inswap_le32, inswap_le64, is_big_endian, machine_is_big_endian, law_inswap16_involution,
    law_inswap32_involution, law_inswap64_involution, lemma_bytes_determine16,
    lemma_bytes_determine32, lemma_bytes_determine64, reversed16, reversed32, reversed64,
};
use crate::squashfs_tools::fs::{SquashFsFlags, SquashFsSuperBlock};

verus! {

/// The 16-bit value with the two bytes of `x` in reverse order.
pub open spec fn swapped16(x: u16) -> u16 {
    (x >> 8u16) | ((x & 0xffu16) << 8u16)
}

/// The 32-bit value with the four bytes of `x` in reverse order.
pub open spec fn swapped32(x: u32) -> u32 {
    (x >> 24u32) | ((x & 0xff0000u32) >> 8u32) | ((x & 0xff00u32) << 8u32) | ((x & 0xffu32)
        << 24u32)
}

/// The 64-bit value with the eight bytes of `x` in reverse order.
pub open spec fn swapped64(x: i64) -> i64 {
    let n = x as u64;
    ((n >> 56u64) | ((n & 0xff000000000000u64) >> 40u64) | ((n & 0xff0000000000u64) >> 24u64) | ((n
        & 0xff00000000u64) >> 8u64) | ((n & 0xff000000u64) << 8u64) | ((n & 0xff0000u64) << 24u64)
        | ((n & 0xff00u64) << 40u64) | ((n & 0xffu64) << 56u64)) as i64
}

/// `swapped16` reverses the bytes of its argument.
pub proof fn lemma_swapped16_reverses(x: u16)
    ensures
        reversed16(x as u64, swapped16(x) as u64),
{
    let c = swapped16(x);
    assert(reversed16(x as u64, c as u64)) by (bit_vector)
        requires
            c == (x >> 8u16) | ((x & 0xffu16) << 8u16),
    ;
}

/// Any byte reversal of a 16-bit value is `swapped16` of it.
pub proof fn lemma_swapped16(x: u16, r: u16)
    requires
        reversed16(x as u64, r as u64),
    ensures
        r == swapped16(x),
{
    let c = swapped16(x);
    lemma_swapped16_reverses(x);
    lemma_bytes_determine16(r as u64, c as u64);
}

/// `swapped32` reverses the bytes of its argument.
pub proof fn lemma_swapped32_reverses(x: u32)
    ensures
        reversed32(x as u64, swapped32(x) as u64),
{
    let c = swapped32(x);
    assert(reversed32(x as u64, c as u64)) by (bit_vector)
        requires
            c == (x >> 24u32) | ((x & 0xff0000u32) >> 8u32) | ((x & 0xff00u32) << 8u32) | ((x
                & 0xffu32) << 24u32),
    ;
}

/// Any byte reversal of a 32-bit value is `swapped32` of it.
pub proof fn lemma_swapped32(x: u32, r: u32)
    requires
        reversed32(x as u64, r as u64),
    ensures
        r == swapped32(x),
{
    let c = swapped32(x);
    lemma_swapped32_reverses(x);
    lemma_bytes_determine32(r as u64, c as u64);
}

/// `swapped64` reverses the bytes of its argument.
pub proof fn lemma_swapped64_reverses(x: i64)
    ensures
        reversed64(x as u64, swapped64(x) as u64),
{
    let c = swapped64(x);
    assert(reversed64(x as u64, c as u64)) by (bit_vector)
        requires
            c == ((x as u64 >> 56u64) | ((x as u64 & 0xff000000000000u64) >> 40u64) | ((x as u64
                & 0xff0000000000u64) >> 24u64) | ((x as u64 & 0xff00000000u64) >> 8u64) | ((x as u64
                & 0xff000000u64) << 8u64) | ((x as u64 & 0xff0000u64) << 24u64) | ((x as u64
                & 0xff00u64) << 40u64) | ((x as u64 & 0xffu64) << 56u64)) as i64,
    ;
}

/// Any byte reversal of a 64-bit value is `swapped64` of it.
pub proof fn lemma_swapped64(x: i64, r: i64)
    requires
        reversed64(x as u64, r as u64),
    ensures
        r == swapped64(x),
{
    let c = swapped64(x);
    lemma_swapped64_reverses(x);
    lemma_bytes_determine64(r as u64, c as u64);
    assert(r as u64 == c as u64 ==> r == c) by (bit_vector);
}

fn swap16_for(x: u16, big_endian: bool) -> (r: u16)
    ensures
        r == (if big_endian { swapped16(x) } else { x }),
{
    if big_endian {
        let r = inswap_le16(x);
        proof {
            lemma_swapped16(x, r);
        }
        r
    } else {
        x
    }
}

fn swap32_for(x: u32, big_endian: bool) -> (r: u32)
    ensures
        r == (if big_endian { swapped32(x) } else { x }),
{
    if big_endian {
        let r = inswap_le32(x);
        proof {
            lemma_swapped32(x, r);
        }
        r
    } else {
        x
    }
}

fn swap64_for(x: i64, big_endian: bool) -> (r: i64)
    ensures
        r == (if big_endian { swapped64(x) } else { x }),
{
    if big_endian {
        let r = inswap_le64(x);
        proof {
            lemma_swapped64(x, r);
        }
        r
    } else {
        x
    }
}

/// Values stored little-endian on disk, converted to and from this
/// machine's byte order: the bytes are reversed on big-endian machines and
/// kept on little-endian ones.
pub trait EndianSwap: Sized + Copy {
    /// The value with its bytes reversed.
    spec fn byte_swapped(&self) -> Self;

    /// Reversing the bytes twice gives the value back.
    proof fn lemma_swap_involution(&self)
        ensures
            self.byte_swapped().byte_swapped() == *self,
    ;

    /// The value converted for a machine of the given byte order.
    fn swap_for(&self, big_endian: bool) -> (r: Self)
        ensures
            r == (if big_endian { self.byte_swapped() } else { *self }),
    ;

    /// The value converted for this machine.
    fn swap(&self) -> (r: Self)
        ensures
            r == (if machine_is_big_endian() {
                self.byte_swapped()
            } else {
                *self
            }),
    {
        self.swap_for(is_big_endian())
    }

    /// Convert the value in place for this machine.
    fn swap_in_place(&mut self)
        ensures
            *final(self) == (if machine_is_big_endian() {
                old(self).byte_swapped()
            } else {
                *old(self)
            }),
    {
        let v = self.swap_for(is_big_endian());
        *self = v;
    }

    /// The values converted for a machine of the given byte order.
    fn swap_slice_for(slice: &[Self], big_endian: bool) -> (r: Vec<Self>)
        ensures
            r@.len() == slice@.len(),
            forall|i: int|
                0 <= i < slice@.len() ==> #[trigger] r@[i] == (if big_endian {
                    slice@[i].byte_swapped()
                } else {
                    slice@[i]
                }),
    {
        let mut r: Vec<Self> = Vec::new();
        let mut i: usize = 0;
        while i < slice.len()
            invariant
                i <= slice@.len(),
                r@.len() == i,
                forall|k: int|
                    0 <= k < i ==> #[trigger] r@[k] == (if big_endian {
                        slice@[k].byte_swapped()
                    } else {
                        slice@[k]
                    }),
            decreases slice@.len() - i,
        {
            let v = slice[i].swap_for(big_endian);
            r.push(v);
            i = i + 1;
        }
        r
    }

    /// The values converted for this machine.
    fn swap_slice(slice: &[Self]) -> (r: Vec<Self>)
        ensures
            r@.len() == slice@.len(),
            forall|i: int|
                0 <= i < slice@.len() ==> #[trigger] r@[i] == (if machine_is_big_endian() {
                    slice@[i].byte_swapped()
                } else {
                    slice@[i]
                }),
    {
        let big = is_big_endian();
        Self::swap_slice_for(slice, big)
    }

    /// Convert the values in place for this machine.
    fn swap_slice_in_place(slice: &mut [Self])
        ensures
            final(slice)@.len() == old(slice)@.len(),
            forall|i: int|
                0 <= i < old(slice)@.len() ==> #[trigger] final(slice)@[i] == (if machine_is_big_endian() {
                    old(slice)@[i].byte_swapped()
                } else {
                    old(slice)@[i]
                }),
    {
        let big = is_big_endian();
        let ghost s0 = slice@;
        let mut i: usize = 0;
        while i < slice.len()
            invariant
                slice@.len() == s0.len(),
                i <= s0.len(),
                forall|k: int|
                    0 <= k < i ==> #[trigger] slice@[k] == (if big {
                        s0[k].byte_swapped()
                    } else {
                        s0[k]
                    }),
                forall|k: int| i <= k < s0.len() ==> #[trigger] slice@[k] == s0[k],
            decreases s0.len() - i,
        {
            let v = slice[i].swap_for(big);
            slice[i] = v;
            i = i + 1;
        }
    }
}

impl EndianSwap for u16 {
    open spec fn byte_swapped(&self) -> u16 {
        swapped16(*self)
    }

    proof fn lemma_swap_involution(&self) {
        let x = *self;
        let y = swapped16(x);
        let z = swapped16(y);
        lemma_swapped16_reverses(x);
        lemma_swapped16_reverses(y);
        law_inswap16_involution(x, y, z);
    }

    fn swap_for(&self, big_endian: bool) -> (r: u16) {
        swap16_for(*self, big_endian)
    }
}

impl EndianSwap for u32 {
    open spec fn byte_swapped(&self) -> u32 {
        swapped32(*self)
    }

    proof fn lemma_swap_involution(&self) {
        let x = *self;
        let y = swapped32(x);
        let z = swapped32(y);
        lemma_swapped32_reverses(x);
        lemma_swapped32_reverses(y);
        law_inswap32_involution(x, y, z);
    }

    fn swap_for(&self, big_endian: bool) -> (r: u32) {
        swap32_for(*self, big_endian)
    }
}

impl EndianSwap for i64 {
    open spec fn byte_swapped(&self) -> i64 {
        swapped64(*self)
    }

    proof fn lemma_swap_involution(&self) {
        let x = *self;
        let y = swapped64(x);
        let z = swapped64(y);
        lemma_swapped64_reverses(x);
        lemma_swapped64_reverses(y);
        law_inswap64_involution(x, y, z);
    }

    fn swap_for(&self, big_endian: bool) -> (r: i64) {
        swap64_for(*self, big_endian)
    }
}

impl EndianSwap for SquashFsFlags {
    open spec fn byte_swapped(&self) -> SquashFsFlags {
        SquashFsFlags::from_value(swapped16(self.value()))
    }

    proof fn lemma_swap_involution(&self) {
        self.value().lemma_swap_involution();
        SquashFsFlags::lemma_from_value(swapped16(self.value()));
        SquashFsFlags::lemma_from_value(swapped16(swapped16(self.value())));
        SquashFsFlags::lemma_value_determines(*self, SquashFsFlags::from_value(swapped16(swapped16(self.value()))));
    }

    fn swap_for(&self, big_endian: bool) -> (r: SquashFsFlags) {
        let v = swap16_for(self.bits(), big_endian);
        let r = SquashFsFlags::new(v);
        proof {
            SquashFsFlags::lemma_from_value(v);
            SquashFsFlags::lemma_value_determines(r, SquashFsFlags::from_value(v));
            if !big_endian {
                SquashFsFlags::lemma_value_determines(r, *self);
            }
        }
        r
    }
}

impl EndianSwap for SquashFsSuperBlock {
    /// Every field but the magic number has its bytes reversed.
    open spec fn byte_swapped(&self) -> SquashFsSuperBlock {
        SquashFsSuperBlock {
            s_magic: self.s_magic,
            inodes: swapped32(self.inodes),
            mkfs_time: swapped32(self.mkfs_time),
            block_size: swapped32(self.block_size),
            fragments: swapped32(self.fragments),
            compression: swapped16(self.compression),
            block_log: swapped16(self.block_log),
            flags: self.flags.byte_swapped(),
            no_ids: swapped16(self.no_ids),
            major: swapped16(self.major),
            minor: swapped16(self.minor),
            root_inode: swapped64(self.root_inode),
            bytes_used: swapped64(self.bytes_used),
            id_table_start: swapped64(self.id_table_start),
            xattr_id_table_start: swapped64(self.xattr_id_table_start),
            inode_table_start: swapped64(self.inode_table_start),
            directory_table_start: swapped64(self.directory_table_start),
            fragment_table_start: swapped64(self.fragment_table_start),
            lookup_table_start: swapped64(self.lookup_table_start),
        }
    }

    proof fn lemma_swap_involution(&self) {
        self.inodes.lemma_swap_involution();
        self.mkfs_time.lemma_swap_involution();
        self.block_size.lemma_swap_involution();
        self.fragments.lemma_swap_involution();
        self.compression.lemma_swap_involution();
        self.block_log.lemma_swap_involution();
        self.flags.lemma_swap_involution();
        self.no_ids.lemma_swap_involution();
        self.major.lemma_swap_involution();
        self.minor.lemma_swap_involution();
        self.root_inode.lemma_swap_involution();
        self.bytes_used.lemma_swap_involution();
        self.id_table_start.lemma_swap_involution();
        self.xattr_id_table_start.lemma_swap_involution();
        self.inode_table_start.lemma_swap_involution();
        self.directory_table_start.lemma_swap_involution();
        self.fragment_table_start.lemma_swap_involution();
        self.lookup_table_start.lemma_swap_involution();
    }

    fn swap_for(&self, big_endian: bool) -> (r: SquashFsSuperBlock) {
        SquashFsSuperBlock {
            s_magic: self.s_magic,
            inodes: swap32_for(self.inodes, big_endian),
            mkfs_time: swap32_for(self.mkfs_time, big_endian),
            block_size: swap32_for(self.block_size, big_endian),
            fragments: swap32_for(self.fragments, big_endian),
            compression: swap16_for(self.compression, big_endian),
            block_log: swap16_for(self.block_log, big_endian),
            flags: self.flags.swap_for(big_endian),
            no_ids: swap16_for(self.no_ids, big_endian),
            major: swap16_for(self.major, big_endian),
            minor: swap16_for(self.minor, big_endian),
            root_inode: swap64_for(self.root_inode, big_endian),
            bytes_used: swap64_for(self.bytes_used, big_endian),
            id_table_start: swap64_for(self.id_table_start, big_endian),
            xattr_id_table_start: swap64_for(self.xattr_id_table_start, big_endian),
            inode_table_start: swap64_for(self.inode_table_start, big_endian),
            directory_table_start: swap64_for(self.directory_table_start, big_endian),
            fragment_table_start: swap64_for(self.fragment_table_start, big_endian),
            lookup_table_start: swap64_for(self.lookup_table_start, big_endian),
        }
    }
}

/// The value converted for this machine.
pub fn swap_value<T: EndianSwap>(value: T) -> (r: T)
    ensures
        r == value || r == value.byte_swapped(),
{
    value.swap()
}

/// The values converted for this machine.
pub fn swap_slice<T: EndianSwap>(slice: &[T]) -> (r: Vec<T>)
    ensures
        r@.len() == slice@.len(),
        (forall|i: int| 0 <= i < slice@.len() ==> #[trigger] r@[i] == slice@[i]) || (forall|i: int|
            0 <= i < slice@.len() ==> #[trigger] r@[i] == slice@[i].byte_swapped()),
{
    T::swap_slice(slice)
}

/// Convert the value in place for this machine.
pub fn swap_value_into<T: EndianSwap>(value: &mut T)
    ensures
        *final(value) == *old(value) || *final(value) == old(value).byte_swapped(),
{
    value.swap_in_place();
}

/// Convert the values in place for this machine.
pub fn swap_slice_into<T: EndianSwap>(slice: &mut [T])
    ensures
        final(slice)@.len() == old(slice)@.len(),
        (forall|i: int| 0 <= i < old(slice)@.len() ==> #[trigger] final(slice)@[i] == old(slice)@[i])
            || (forall|i: int|
            0 <= i < old(slice)@.len() ==> #[trigger] final(slice)@[i] == old(slice)@[i].byte_swapped()),
{
    T::swap_slice_in_place(slice);
}

/// Converting a value twice for the same byte order gives it back.
pub proof fn law_swap_twice<T: EndianSwap>(x: T, big_endian: bool)
    ensures
        (if big_endian {
            (if big_endian { x.byte_swapped() } else { x }).byte_swapped()
        } else {
            (if big_endian { x.byte_swapped() } else { x })
        }) == x,
{
    x.lemma_swap_involution();
}

} // verus!
