use vstd::prelude::*;

verus! {

/// Marker value that denotes a big-endian byte order.
pub const BIG_ENDIAN: u32 = 0x12345678;
/// Marker value that denotes a little-endian byte order.
pub const LITTLE_ENDIAN: u32 = 0x78563412;
/// Byte order marker for big-endian systems.
pub const BYTE_ORDER_BE: u32 = 0x12345678;
/// Byte order marker for little-endian systems.
pub const BYTE_ORDER_LE: u32 = 0x78563412;

/// The byte at position `i` (0 = least significant) of `x`.
pub open spec fn byte_at(x: u64, i: u64) -> u64 {
    (x >> (i * 8)) & 0xff
}

/// `r` holds the two low bytes of `x` in reverse order.
pub open spec fn reversed16(x: u64, r: u64) -> bool {
    &&& byte_at(r, 0) == byte_at(x, 1)
    &&& byte_at(r, 1) == byte_at(x, 0)
}

/// `r` holds the four low bytes of `x` in reverse order.
pub open spec fn reversed32(x: u64, r: u64) -> bool {
    &&& byte_at(r, 0) == byte_at(x, 3)
    &&& byte_at(r, 1) == byte_at(x, 2)
    &&& byte_at(r, 2) == byte_at(x, 1)
    &&& byte_at(r, 3) == byte_at(x, 0)
}

/// `r` holds the eight bytes of `x` in reverse order.
pub open spec fn reversed64(x: u64, r: u64) -> bool {
    &&& byte_at(r, 0) == byte_at(x, 7)
    &&& byte_at(r, 1) == byte_at(x, 6)
    &&& byte_at(r, 2) == byte_at(x, 5)
    &&& byte_at(r, 3) == byte_at(x, 4)
    &&& byte_at(r, 4) == byte_at(x, 3)
    &&& byte_at(r, 5) == byte_at(x, 2)
    &&& byte_at(r, 6) == byte_at(x, 1)
    &&& byte_at(r, 7) == byte_at(x, 0)
}

/// Two 16-bit values with the same two bytes are equal.
pub proof fn lemma_bytes_determine16(a: u64, b: u64)
    requires
        a < 0x10000,
        b < 0x10000,
        byte_at(a, 0) == byte_at(b, 0),
        byte_at(a, 1) == byte_at(b, 1),
    ensures
        a == b,
{
    assert(a < 0x10000 && b < 0x10000 && (a >> 0u64) & 0xff == (b >> 0u64) & 0xff
        && (a >> 8u64) & 0xff == (b >> 8u64) & 0xff ==> a == b) by (bit_vector);
}

/// Two 32-bit values with the same four bytes are equal.
pub proof fn lemma_bytes_determine32(a: u64, b: u64)
    requires
        a < 0x1_0000_0000,
        b < 0x1_0000_0000,
        byte_at(a, 0) == byte_at(b, 0),
        byte_at(a, 1) == byte_at(b, 1),
        byte_at(a, 2) == byte_at(b, 2),
        byte_at(a, 3) == byte_at(b, 3),
    ensures
        a == b,
{
    assert(a < 0x1_0000_0000 && b < 0x1_0000_0000 && (a >> 0u64) & 0xff == (b >> 0u64) & 0xff
        && (a >> 8u64) & 0xff == (b >> 8u64) & 0xff && (a >> 16u64) & 0xff == (b >> 16u64) & 0xff
        && (a >> 24u64) & 0xff == (b >> 24u64) & 0xff ==> a == b) by (bit_vector);
}

/// Two 64-bit values with the same eight bytes are equal.
pub proof fn lemma_bytes_determine64(a: u64, b: u64)
    requires
        byte_at(a, 0) == byte_at(b, 0),
        byte_at(a, 1) == byte_at(b, 1),
        byte_at(a, 2) == byte_at(b, 2),
        byte_at(a, 3) == byte_at(b, 3),
        byte_at(a, 4) == byte_at(b, 4),
        byte_at(a, 5) == byte_at(b, 5),
        byte_at(a, 6) == byte_at(b, 6),
        byte_at(a, 7) == byte_at(b, 7),
    ensures
        a == b,
{
    assert((a >> 0u64) & 0xff == (b >> 0u64) & 0xff && (a >> 8u64) & 0xff == (b >> 8u64) & 0xff
        && (a >> 16u64) & 0xff == (b >> 16u64) & 0xff && (a >> 24u64) & 0xff == (b >> 24u64) & 0xff
        && (a >> 32u64) & 0xff == (b >> 32u64) & 0xff && (a >> 40u64) & 0xff == (b >> 40u64) & 0xff
        && (a >> 48u64) & 0xff == (b >> 48u64) & 0xff && (a >> 56u64) & 0xff == (b >> 56u64) & 0xff
        ==> a == b) by (bit_vector);
}

/// Swap the two bytes of a 16-bit value.
pub fn inswap_le16(num: u16) -> (r: u16)
    ensures
        reversed16(num as u64, r as u64),
{
    let r: u16 = (num >> 8) | ((num & 0xff) << 8);
    assert(reversed16(num as u64, r as u64)) by (bit_vector)
        requires r == (num >> 8) | ((num & 0xff) << 8);
    r
}

/// Reverse the four bytes of a 32-bit value.
pub fn inswap_le32(num: u32) -> (r: u32)
    ensures
        reversed32(num as u64, r as u64),
{
    let r: u32 = (num >> 24) | ((num & 0xff0000) >> 8) | ((num & 0xff00) << 8) | ((num & 0xff)
        << 24);
    assert(reversed32(num as u64, r as u64)) by (bit_vector)
        requires r == (num >> 24) | ((num & 0xff0000) >> 8) | ((num & 0xff00) << 8) | ((num & 0xff) << 24);
    r
}


/// Reverse the eight bytes of a 64-bit value.
pub fn inswap_le64(num: i64) -> (r: i64)
    ensures
        reversed64(num as u64, r as u64),
{
    let n: u64 = num as u64;
    let v: u64 = (n >> 56) | ((n & 0xff000000000000) >> 40) | ((n & 0xff0000000000) >> 24) | ((n
        & 0xff00000000) >> 8) | ((n & 0xff000000) << 8) | ((n & 0xff0000) << 24) | ((n & 0xff00)
        << 40) | ((n & 0xff) << 56);
    assert(reversed64(n, v)) by (bit_vector)
        requires
            v == (n >> 56) | ((n & 0xff000000000000) >> 40) | ((n & 0xff0000000000) >> 24) | ((n
                & 0xff00000000) >> 8) | ((n & 0xff000000) << 8) | ((n & 0xff0000) << 24) | ((n
                & 0xff00) << 40) | ((n & 0xff) << 56),
    ;
    let r: i64 = v as i64;
    assert(r as u64 == v) by (bit_vector)
        requires r == v as i64;
    r
}

/// Reversing the bytes of a 16-bit value twice gives the value back.
pub proof fn law_inswap16_involution(x: u16, y: u16, z: u16)
    requires
        reversed16(x as u64, y as u64),
        reversed16(y as u64, z as u64),
    ensures
        z == x,
{
    lemma_bytes_determine16(x as u64, z as u64);
}

/// Reversing the bytes of a 32-bit value twice gives the value back.
pub proof fn law_inswap32_involution(x: u32, y: u32, z: u32)
    requires
        reversed32(x as u64, y as u64),
        reversed32(y as u64, z as u64),
    ensures
        z == x,
{
    lemma_bytes_determine32(x as u64, z as u64);
}

/// Reversing the bytes of a 64-bit value twice gives the value back.
pub proof fn law_inswap64_involution(x: i64, y: i64, z: i64)
    requires
        reversed64(x as u64, y as u64),
        reversed64(y as u64, z as u64),
    ensures
        z == x,
{
    lemma_bytes_determine64(x as u64, z as u64);
    assert(x as u64 == z as u64 ==> x == z) by (bit_vector);
}

/// Write the two bytes of `src` into `dest` in reverse order.
pub fn swap_le16(src: &[u8], dest: &mut [u8])
    requires
        src@.len() >= 2,
        old(dest)@.len() >= 2,
    ensures
        final(dest)@ == old(dest)@.update(0, src@[1]).update(1, src@[0]),
{
    dest[0] = src[1];
    dest[1] = src[0];
}

/// Write the four bytes of `src` into `dest` in reverse order.
pub fn swap_le32(src: &[u8], dest: &mut [u8])
    requires
        src@.len() >= 4,
        old(dest)@.len() >= 4,
    ensures
        final(dest)@ == old(dest)@.update(0, src@[3]).update(1, src@[2]).update(2, src@[1]).update(
            3,
            src@[0],
        ),
{
    dest[0] = src[3];
    dest[1] = src[2];
    dest[2] = src[1];
    dest[3] = src[0];
}

/// Write the eight bytes of `src` into `dest` in reverse order.
pub fn swap_le64(src: &[u8], dest: &mut [u8])
    requires
        src@.len() >= 8,
        old(dest)@.len() >= 8,
    ensures
        final(dest)@ == old(dest)@.update(0, src@[7]).update(1, src@[6]).update(2, src@[5]).update(
            3,
            src@[4],
        ).update(4, src@[3]).update(5, src@[2]).update(6, src@[1]).update(7, src@[0]),
{
    dest[0] = src[7];
    dest[1] = src[6];
    dest[2] = src[5];
    dest[3] = src[4];
    dest[4] = src[3];
    dest[5] = src[2];
    dest[6] = src[1];
    dest[7] = src[0];
}

/// `dest` holds the first `n` groups of `w` bytes of `src`, each group reversed,
/// and is unchanged past them.
pub open spec fn groups_reversed(src: Seq<u8>, old_dest: Seq<u8>, dest: Seq<u8>, w: int, n: int) -> bool {
    &&& dest.len() == old_dest.len()
    &&& forall|k: int, j: int|
        0 <= k < n && 0 <= j < w ==> #[trigger] dest[w * k + j] == src[w * k + (w - 1 - j)]
    &&& forall|i: int| w * n <= i < dest.len() ==> #[trigger] dest[i] == old_dest[i]
}

/// Reverse the bytes of each of the first `n` 16-bit values of `src` into `dest`.
pub fn swap_le16_num(src: &[u8], dest: &mut [u8], n: usize)
    requires
        2 * n <= src@.len(),
        2 * n <= old(dest)@.len(),
    ensures
        groups_reversed(src@, old(dest)@, final(dest)@, 2, n as int),
{
    let ghost d0 = dest@;
    let mut k: usize = 0;
    while k < n
        invariant
            k <= n,
            2 * n <= src@.len(),
            2 * n <= d0.len(),
            2 * n <= src.len(),
            groups_reversed(src@, d0, dest@, 2, k as int),
        decreases n - k,
    {
        let base: usize = 2 * k;
        dest[base + 0] = src[base + 1];
        dest[base + 1] = src[base + 0];
        proof {
            assert forall|kk: int, jj: int|
                0 <= kk < k + 1 && 0 <= jj < 2 implies #[trigger] dest@[2 * kk + jj] == src@[2 * kk + (2 - 1 - jj)] by {
                if kk < k {
                    assert(2 * kk + jj < base);
                }
            }
        }
        k = k + 1;
    }
}

/// Reverse the bytes of each of the first `n` 32-bit values of `src` into `dest`.
pub fn swap_le32_num(src: &[u8], dest: &mut [u8], n: usize)
    requires
        4 * n <= src@.len(),
        4 * n <= old(dest)@.len(),
    ensures
        groups_reversed(src@, old(dest)@, final(dest)@, 4, n as int),
{
    let ghost d0 = dest@;
    let mut k: usize = 0;
    while k < n
        invariant
            k <= n,
            4 * n <= src@.len(),
            4 * n <= d0.len(),
            4 * n <= src.len(),
            groups_reversed(src@, d0, dest@, 4, k as int),
        decreases n - k,
    {
        let base: usize = 4 * k;
        dest[base + 0] = src[base + 3];
        dest[base + 1] = src[base + 2];
        dest[base + 2] = src[base + 1];
        dest[base + 3] = src[base + 0];
        proof {
            assert forall|kk: int, jj: int|
                0 <= kk < k + 1 && 0 <= jj < 4 implies #[trigger] dest@[4 * kk + jj] == src@[4 * kk + (4 - 1 - jj)] by {
                if kk < k {
                    assert(4 * kk + jj < base);
                }
            }
        }
        k = k + 1;
    }
}

/// Reverse the bytes of each of the first `n` 64-bit values of `src` into `dest`.
pub fn swap_le64_num(src: &[u8], dest: &mut [u8], n: usize)
    requires
        8 * n <= src@.len(),
        8 * n <= old(dest)@.len(),
    ensures
        groups_reversed(src@, old(dest)@, final(dest)@, 8, n as int),
{
    let ghost d0 = dest@;
    let mut k: usize = 0;
    while k < n
        invariant
            k <= n,
            8 * n <= src@.len(),
            8 * n <= d0.len(),
            8 * n <= src.len(),
            groups_reversed(src@, d0, dest@, 8, k as int),
        decreases n - k,
    {
        let base: usize = 8 * k;
        dest[base + 0] = src[base + 7];
        dest[base + 1] = src[base + 6];
        dest[base + 2] = src[base + 5];
        dest[base + 3] = src[base + 4];
        dest[base + 4] = src[base + 3];
        dest[base + 5] = src[base + 2];
        dest[base + 6] = src[base + 1];
        dest[base + 7] = src[base + 0];
        proof {
            assert forall|kk: int, jj: int|
                0 <= kk < k + 1 && 0 <= jj < 8 implies #[trigger] dest@[8 * kk + jj] == src@[8 * kk + (8 - 1 - jj)] by {
                if kk < k {
                    assert(8 * kk + jj < base);
                }
            }
        }
        k = k + 1;
    }
}

/// Reverse the bytes of every 16-bit value of `slice` in place.
pub fn inswap_le16_num(slice: &mut [u16])
    ensures
        final(slice)@.len() == old(slice)@.len(),
        forall|i: int|
            0 <= i < old(slice)@.len() ==> reversed16(
                #[trigger] old(slice)@[i] as u64,
                final(slice)@[i] as u64,
            ),
{
    let ghost s0 = slice@;
    let len = slice.len();
    let mut i: usize = 0;
    while i < len
        invariant
            len == s0.len(),
            slice@.len() == s0.len(),
            i <= len,
            forall|k: int| 0 <= k < i ==> reversed16(#[trigger] s0[k] as u64, slice@[k] as u64),
            forall|k: int| i <= k < len ==> #[trigger] slice@[k] == s0[k],
        decreases len - i,
    {
        let v = inswap_le16(slice[i]);
        slice[i] = v;
        i = i + 1;
    }
}

/// Reverse the bytes of every 32-bit value of `slice` in place.
pub fn inswap_le32_num(slice: &mut [u32])
    ensures
        final(slice)@.len() == old(slice)@.len(),
        forall|i: int|
            0 <= i < old(slice)@.len() ==> reversed32(
                #[trigger] old(slice)@[i] as u64,
                final(slice)@[i] as u64,
            ),
{
    let ghost s0 = slice@;
    let len = slice.len();
    let mut i: usize = 0;
    while i < len
        invariant
            len == s0.len(),
            slice@.len() == s0.len(),
            i <= len,
            forall|k: int| 0 <= k < i ==> reversed32(#[trigger] s0[k] as u64, slice@[k] as u64),
            forall|k: int| i <= k < len ==> #[trigger] slice@[k] == s0[k],
        decreases len - i,
    {
        let v = inswap_le32(slice[i]);
        slice[i] = v;
        i = i + 1;
    }
}

/// Reverse the bytes of every 64-bit value of `slice` in place.
pub fn inswap_le64_num(slice: &mut [i64])
    ensures
        final(slice)@.len() == old(slice)@.len(),
        forall|i: int|
            0 <= i < old(slice)@.len() ==> reversed64(
                #[trigger] old(slice)@[i] as u64,
                final(slice)@[i] as u64,
            ),
{
    let ghost s0 = slice@;
    let len = slice.len();
    let mut i: usize = 0;
    while i < len
        invariant
            len == s0.len(),
            slice@.len() == s0.len(),
            i <= len,
            forall|k: int| 0 <= k < i ==> reversed64(#[trigger] s0[k] as u64, slice@[k] as u64),
            forall|k: int| i <= k < len ==> #[trigger] slice@[k] == s0[k],
        decreases len - i,
    {
        let v = inswap_le64(slice[i]);
        slice[i] = v;
        i = i + 1;
    }
}

/// Whether the hardware this runs on stores integers most significant
/// byte first (vstd's `endianness` of the executing hardware).
pub open spec fn machine_is_big_endian() -> bool {
    vstd::endian::endianness() == vstd::endian::Endian::Big
}

/// `u16::to_ne_bytes` of 0x0102: the bytes of the value in the byte order
/// of the hardware, most significant first on a big-endian machine.
#[verifier::external_body]
fn native_bytes_of_0102() -> (r: [u8; 2])
    ensures
        machine_is_big_endian() ==> r@ == seq![1u8, 2u8],
        !machine_is_big_endian() ==> r@ == seq![2u8, 1u8],
{
    0x0102u16.to_ne_bytes()
}

/// Whether this machine stores integers most significant byte first.
pub fn is_big_endian() -> (r: bool)
    ensures
        r == machine_is_big_endian(),
{
    let b = native_bytes_of_0102();
    b[0] == 1
}

/// Whether this machine stores integers least significant byte first.
pub fn is_little_endian() -> (r: bool)
    ensures
        r == !machine_is_big_endian(),
{
    let b = native_bytes_of_0102();
    b[0] == 2
}

/// The byte order marker that corresponds to `big_endian`.
pub fn byte_order_for(big_endian: bool) -> (r: u32)
    ensures
        r == (if big_endian { BYTE_ORDER_BE } else { BYTE_ORDER_LE }),
{
    if big_endian {
        BYTE_ORDER_BE
    } else {
        BYTE_ORDER_LE
    }
}

/// The byte order marker of this machine.
pub fn get_byte_order() -> (r: u32)
    ensures
        r == (if machine_is_big_endian() { BYTE_ORDER_BE } else { BYTE_ORDER_LE }),
{
    byte_order_for(is_big_endian())
}

} // verus!
