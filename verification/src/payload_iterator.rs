use vstd::prelude::*;
use crate::bytes::{le_bytes_value, le_value};
use crate::error::AppImageError;
use crate::payload_types::{type_of_mode, PayloadEntryType};
use crate::text::owned;

verus! {

/// The text of some bytes read as UTF-8, with each invalid sequence
/// replaced by U+FFFD, as `String::from_utf8_lossy` gives it.
pub uninterp spec fn utf8_lossy(bytes: Seq<u8>) -> Seq<char>;

/// `String::from_utf8_lossy`, made an owned string.
#[verifier::external_body]
fn lossy_string(bytes: &[u8]) -> (r: String)
    ensures
        r@ == utf8_lossy(bytes@),
{
    String::from_utf8_lossy(bytes).into_owned()
}

/// The error `read_exact` gives when the data ends too early.
#[verifier::external_body]
pub(crate) fn unexpected_eof() -> std::io::Error {
    std::io::Error::from(std::io::ErrorKind::UnexpectedEof)
}

/// The little-endian number in bytes `a` to `a + n` of `d`.
pub open spec fn le_at(d: Seq<u8>, a: int, n: int) -> nat {
    le_value(d.subrange(a, a + n))
}

/// The ELF magic number.
pub open spec fn has_elf_magic(d: Seq<u8>) -> bool {
    d.len() >= 4 && d[0] == 0x7f && d[1] == 0x45 && d[2] == 0x4c && d[3] == 0x46
}

/// The size of the ELF part of an AppImage, as the iterator reads it: the
/// 64-bit number at offset 0x28 of a file that starts with the ELF magic.
pub open spec fn elf_size_of(d: Seq<u8>) -> Option<u64> {
    if d.len() < 4 || !has_elf_magic(d) || d.len() < 0x30 {
        None
    } else {
        Some(le_at(d, 0x28, 8) as u64)
    }
}

/// One entry of the payload as it is stored: its header (mode and size),
/// its name, its mode and modification time, and for a symbolic link its
/// target; and where the next entry starts.
pub struct StoredEntry {
    pub entry_type: PayloadEntryType,
    pub size: u64,
    pub name: Seq<u8>,
    pub mode: u32,
    pub mtime: u64,
    pub target: Option<Seq<u8>>,
    pub next: int,
}

/// The length in bytes (UTF-8) of the text of `t` read as UTF-8 with
/// invalid sequences replaced, as `str::len` gives it.
pub open spec fn lossy_byte_len(t: Seq<u8>) -> nat {
    (vstd::utf8::encode_utf8(utf8_lossy(t)).len() as usize) as nat
}

/// Where the iterator goes on after entry `e`: past its fixed fields and
/// name, and for a symbolic link past the target's length field and as
/// many bytes as the target's text takes (which differs from the stored
/// target where that is not valid UTF-8).
pub open spec fn iter_next(e: StoredEntry) -> int {
    match e.target {
        Some(t) => e.next - t.len() + lossy_byte_len(t),
        None => e.next,
    }
}

/// The entry stored at position `p` of `d`, if the data holds it whole:
/// a 32-bit mode and a 32-bit size, a 16-bit name length and the name, a
/// 32-bit mode and a 64-bit time, then for a symbolic link a 16-bit
/// target length and the target; all numbers little-endian.
pub open spec fn stored_entry(d: Seq<u8>, p: int) -> Option<StoredEntry> {
    if p + 10 > d.len() {
        None
    } else {
        let t = type_of_mode(le_at(d, p, 4) as u32);
        let nl = le_at(d, p + 8, 2) as int;
        let q = p + 10 + nl;
        if q + 12 > d.len() {
            None
        } else if t == PayloadEntryType::Symlink {
            if q + 14 > d.len() {
                None
            } else {
                let tl = le_at(d, q + 12, 2) as int;
                if q + 14 + tl > d.len() {
                    None
                } else {
                    Some(
                        StoredEntry {
                            entry_type: t,
                            size: le_at(d, p + 4, 4) as u64,
                            name: d.subrange(p + 10, q),
                            mode: le_at(d, q, 4) as u32,
                            mtime: le_at(d, q + 4, 8) as u64,
                            target: Some(d.subrange(q + 14, q + 14 + tl)),
                            next: q + 14 + tl,
                        },
                    )
                }
            }
        } else {
            Some(
                StoredEntry {
                    entry_type: t,
                    size: le_at(d, p + 4, 4) as u64,
                    name: d.subrange(p + 10, q),
                    mode: le_at(d, q, 4) as u32,
                    mtime: le_at(d, q + 4, 8) as u64,
                    target: None,
                    next: q + 12,
                },
            )
        }
    }
}

/// Whether the 8 bytes at `p` are all zero: the end of the payload.
pub open spec fn at_end_marker(d: Seq<u8>, p: int) -> bool {
    forall|i: int| p <= i < p + 8 ==> d[i] == 0
}

/// Walks the entries stored in the payload of an AppImage.
pub struct PayloadIterator {
    pub path: String,
    pub data: Vec<u8>,
    pub position: u64,
    pub payload_size: u64,
    pub entry_type: PayloadEntryType,
    pub entry_name: String,
    pub entry_size: u64,
    pub entry_mode: u32,
    pub entry_mtime: u64,
    pub entry_target: String,
}

pub(crate) fn read_le(d: &[u8], a: usize, n: usize) -> (r: u64)
    requires
        n <= 8,
        a + n <= d@.len(),
    ensures
        r == le_at(d@, a as int, n as int),
{
    let _len = d.len();
    let s = vstd::slice::slice_subrange(d, a, a + n);
    assert(s@.take(n as int) =~= d@.subrange(a as int, a + n));
    le_bytes_value(s, n)
}

proof fn lemma_le_at_fits(d: Seq<u8>, a: int, n: int)
    requires
        0 <= a,
        0 <= n <= 8,
        a + n <= d.len(),
    ensures
        n == 2 ==> le_at(d, a, n) < 0x10000,
        n == 4 ==> le_at(d, a, n) < 0x1_0000_0000,
{
    crate::bytes::lemma_le_value_bound(d.subrange(a, a + n));
    reveal_with_fuel(crate::bytes::pow256, 5);
}

impl PayloadIterator {
    /// The size of the ELF part of the AppImage whose bytes are `data`;
    /// an error for a file that does not start with the ELF magic or ends
    /// before the size field.
    pub fn get_elf_size(data: &[u8]) -> (r: Result<u64, AppImageError>)
        ensures
            match elf_size_of(data@) {
                Some(s) => r matches Ok(x) && x == s,
                None => r is Err,
            },
            data@.len() >= 4 && !has_elf_magic(data@) ==> (r matches Err(
                AppImageError::InvalidFormat(m),
            ) && m@ == "Not an ELF file"@),
    {
        if data.len() < 4 {
            return Err(AppImageError::Io(unexpected_eof()));
        }
        if !(data[0] == 0x7f && data[1] == 0x45 && data[2] == 0x4c && data[3] == 0x46) {
            return Err(AppImageError::InvalidFormat(String::from_str("Not an ELF file")));
        }
        if data.len() < 0x30 {
            return Err(AppImageError::Io(unexpected_eof()));
        }
        Ok(read_le(data, 0x28, 8))
    }

    /// An iterator over the payload of the AppImage at `path`, whose bytes
    /// are `data`: the payload is what follows the ELF part.
    pub fn new(path: &str, data: Vec<u8>) -> (r: Result<Self, AppImageError>)
        requires
            elf_size_of(data@) matches Some(s) ==> s <= data@.len(),
        ensures
            match elf_size_of(data@) {
                Some(s) => r matches Ok(it) && it.payload_size == data@.len() - s && it.position
                    == 0 && it.path@ == path@ && it.data@ == data@ && it.entry_type
                    == PayloadEntryType::Unknown && it.entry_name@ == Seq::<char>::empty()
                    && it.entry_size == 0 && it.entry_mode == 0 && it.entry_mtime == 0
                    && it.entry_target@ == Seq::<char>::empty(),
                None => r is Err,
            },
    {
        let elf = match Self::get_elf_size(data.as_slice()) {
            Ok(s) => s,
            Err(e) => {
                return Err(e);
            },
        };
        let file_size = data.len() as u64;
        Ok(
            PayloadIterator {
                path: owned(path),
                data,
                position: 0,
                payload_size: file_size - elf,
                entry_type: PayloadEntryType::Unknown,
                entry_name: String::new(),
                entry_size: 0,
                entry_mode: 0,
                entry_mtime: 0,
                entry_target: String::new(),
            },
        )
    }

    /// Read the entry at the current position: `false` at the end marker
    /// (8 zero bytes), `true` with the entry's fields stored and the
    /// position moved past it; an error where the data ends too early,
    /// leaving the iterator as it was.
    pub fn next(&mut self) -> (r: Result<bool, AppImageError>)
        ensures
            final(self).path == old(self).path,
            final(self).data@ == old(self).data@,
            final(self).payload_size == old(self).payload_size,
            ({
                let d = old(self).data@;
                let p = old(self).position as int;
                if p + 8 > d.len() {
                    r is Err && final(self).position == old(self).position
                } else if at_end_marker(d, p) {
                    (r matches Ok(b) && !b) && final(self).position == old(self).position
                } else {
                    match stored_entry(d, p) {
                        None => r is Err && final(self).position == old(self).position,
                        Some(e) => if iter_next(e) > usize::MAX {
                            r is Err && final(self).position == old(self).position
                        } else {
                            &&& r matches Ok(b) && b
                            &&& final(self).position == iter_next(e)
                            &&& final(self).entry_type == e.entry_type
                            &&& final(self).entry_size == e.size
                            &&& final(self).entry_name@ == utf8_lossy(e.name)
                            &&& final(self).entry_mode == e.mode
                            &&& final(self).entry_mtime == e.mtime
                            &&& e.target matches Some(t) ==> final(self).entry_target@
                                == utf8_lossy(t)
                            &&& e.target is None ==> final(self).entry_target
                                == old(self).entry_target
                        },
                    }
                }
            }),
    {
        let d = self.data.as_slice();
        let len = d.len();
        if self.position > len as u64 || len - (self.position as usize) < 8 {
            return Err(AppImageError::Io(unexpected_eof()));
        }
        let p = self.position as usize;
        let mut zero = true;
        let mut i: usize = 0;
        while i < 8
            invariant
                p + 8 <= d@.len(),
                len == d@.len(),
                i <= 8,
                zero == (forall|k: int| p <= k < p + i ==> d@[k] == 0),
            decreases 8 - i,
        {
            if d[p + i] != 0 {
                zero = false;
            }
            i = i + 1;
        }
        if zero {
            return Ok(false);
        }
        if len - p < 10 {
            return Err(AppImageError::Io(unexpected_eof()));
        }
        let mode = read_le(d, p, 4);
        let size = read_le(d, p + 4, 4);
        let nl = read_le(d, p + 8, 2) as usize;
        proof {
            lemma_le_at_fits(d@, p as int, 4);
            lemma_le_at_fits(d@, p + 8, 2);
        }
        let entry_type = PayloadEntryType::from_mode(mode as u32);
        if len - p - 10 < nl || len - p - 10 - nl < 12 {
            return Err(AppImageError::Io(unexpected_eof()));
        }
        let q = p + 10 + nl;
        let name = lossy_string(vstd::slice::slice_subrange(d, p + 10, q));
        let emode = read_le(d, q, 4);
        proof {
            lemma_le_at_fits(d@, q as int, 4);
        }
        let mtime = read_le(d, q + 4, 8);
        let mut next = q + 12;
        let mut target: Option<String> = None;
        if entry_type.is_symlink() {
            if len - q < 14 {
                return Err(AppImageError::Io(unexpected_eof()));
            }
            let tl = read_le(d, q + 12, 2) as usize;
            proof {
                lemma_le_at_fits(d@, q + 12, 2);
            }
            if len - q - 14 < tl {
                return Err(AppImageError::Io(unexpected_eof()));
            }
            let t = lossy_string(vstd::slice::slice_subrange(d, q + 14, q + 14 + tl));
            let tlen = t.as_str().len();
            if tlen > usize::MAX - (q + 14) {
                return Err(AppImageError::Io(unexpected_eof()));
            }
            next = q + 14 + tlen;
            target = Some(t);
        }
        self.entry_type = entry_type;
        self.entry_size = size;
        self.entry_name = name;
        self.entry_mode = emode as u32;
        self.entry_mtime = mtime;
        match target {
            Some(t) => {
                self.entry_target = t;
            },
            None => {},
        }
        self.position = next as u64;
        Ok(true)
    }

    /// The type of the current entry.
    pub fn get_type(&self) -> (r: PayloadEntryType)
        ensures
            r == self.entry_type,
    {
        self.entry_type
    }

    /// The name of the current entry.
    pub fn get_name(&self) -> (r: &str)
        ensures
            r@ == self.entry_name@,
    {
        self.entry_name.as_str()
    }

    /// The size of the current entry.
    pub fn get_size(&self) -> (r: u64)
        ensures
            r == self.entry_size,
    {
        self.entry_size
    }

    /// The mode of the current entry.
    pub fn get_mode(&self) -> (r: u32)
        ensures
            r == self.entry_mode,
    {
        self.entry_mode
    }

    /// The modification time of the current entry.
    pub fn get_mtime(&self) -> (r: u64)
        ensures
            r == self.entry_mtime,
    {
        self.entry_mtime
    }

    /// The target of the current entry, for a symbolic link.
    pub fn get_target(&self) -> (r: &str)
        ensures
            r@ == self.entry_target@,
    {
        self.entry_target.as_str()
    }

    /// Go back to the first entry, with no current entry.
    pub fn reset(&mut self)
        ensures
            final(self).position == 0,
            final(self).entry_type == PayloadEntryType::Unknown,
            final(self).entry_name@ == Seq::<char>::empty(),
            final(self).entry_size == 0 && final(self).entry_mode == 0 && final(self).entry_mtime
                == 0,
            final(self).entry_target@ == Seq::<char>::empty(),
            final(self).path == old(self).path,
            final(self).data@ == old(self).data@,
            final(self).payload_size == old(self).payload_size,
    {
        self.position = 0;
        self.entry_type = PayloadEntryType::Unknown;
        self.entry_name = String::new();
        self.entry_size = 0;
        self.entry_mode = 0;
        self.entry_mtime = 0;
        self.entry_target = String::new();
    }
}

} // verus!
