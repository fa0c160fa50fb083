use vstd::prelude::*;
use crate::error::AppImageError;
use crate::text::{chars_of, concat, decimal, owned, u64_to_decimal};

verus! {

/// Whether a file exists at `path`, by `std::path::Path::exists`; the
/// answer depends on the file system at the time of the call.
#[verifier::external_body]
fn path_exists(path: &str) -> bool {
    std::path::Path::new(path).exists()
}

/// The number of bytes of `c` in UTF-8.
pub open spec fn utf8_len(c: char) -> nat {
    if (c as u32) < 0x80 {
        1
    } else if (c as u32) < 0x800 {
        2
    } else if (c as u32) < 0x10000 {
        3
    } else {
        4
    }
}

/// The number of bytes of `s` in UTF-8.
pub open spec fn utf8_size(s: Seq<char>) -> nat
    decreases s.len(),
{
    if s.len() == 0 {
        0
    } else {
        utf8_size(s.drop_last()) + utf8_len(s.last())
    }
}

/// The index of the first NUL character of `s`, if it has one.
pub open spec fn first_nul(s: Seq<char>) -> Option<int> {
    if exists|i: int| 0 <= i < s.len() && s[i] == '\0' {
        Some(choose|i: int| 0 <= i < s.len() && s[i] == '\0' && forall|j: int| 0 <= j < i ==> s[j] != '\0')
    } else {
        None
    }
}

/// Opens an AppImage to read the files it holds.
pub struct AppImageHandler {
    pub path: String,
    pub is_open: bool,
    pub handler_type: i32,
}

impl AppImageHandler {
    /// A handler for the AppImage at `path`, open, of type 0.
    pub fn new(path: &str) -> (r: Result<Self, AppImageError>)
        ensures
            r matches Ok(h) && h.path@ == path@ && h.is_open && h.handler_type == 0,
    {
        Ok(AppImageHandler { path: owned(path), is_open: true, handler_type: 0 })
    }

    /// The name under which an entry is handed out: the entry itself, where
    /// the handler is open and the entry holds no NUL character.
    pub fn get_file_name(&self, entry: &str) -> (r: Result<String, AppImageError>)
        requires
            entry@.len() <= u64::MAX / 4,
        ensures
            !self.is_open ==> (r matches Err(AppImageError::InvalidState(m)) && m@
                == "Handler is not open"@),
            self.is_open && first_nul(entry@) is None ==> (r matches Ok(n) && n@ == entry@),
            self.is_open ==> (first_nul(entry@) matches Some(i) ==> (r matches Err(
                AppImageError::NulError(m),
            ) && m@ == "nul byte found in provided data at position: "@ + decimal(
                utf8_size(entry@.take(i)),
            ))),
    {
        if !self.is_open {
            return Err(AppImageError::InvalidState(String::from_str("Handler is not open")));
        }
        let cs = chars_of(entry);
        let mut i: usize = 0;
        let mut bytes: u64 = 0;
        while i < cs.len()
            invariant
                cs@ == entry@,
                self.is_open,
                entry@.len() <= u64::MAX / 4,
                i <= cs@.len(),
                forall|j: int| 0 <= j < i ==> cs@[j] != '\0',
                bytes == utf8_size(cs@.take(i as int)),
                bytes <= 4 * i,
            decreases cs@.len() - i,
        {
            let c = cs[i];
            if c == '\0' {
                assert(first_nul(entry@) == Some(i as int)) by {
                    assert(entry@[i as int] == '\0');
                    let k = choose|k: int|
                        0 <= k < entry@.len() && entry@[k] == '\0' && forall|j: int|
                            0 <= j < k ==> entry@[j] != '\0';
                    assert(k == i) by {
                        if k < i {
                            assert(cs@[k] != '\0');
                        } else if k > i {
                            assert(entry@[i as int] != '\0');
                        }
                    }
                }
                let d = u64_to_decimal(bytes);
                return Err(
                    AppImageError::NulError(
                        concat("nul byte found in provided data at position: ", d.as_str()),
                    ),
                );
            }
            let n: u64 = if (c as u32) < 0x80 {
                1
            } else if (c as u32) < 0x800 {
                2
            } else if (c as u32) < 0x10000 {
                3
            } else {
                4
            };
            assert(cs@.take(i + 1).drop_last() =~= cs@.take(i as int));
            bytes = bytes + n;
            i = i + 1;
        }
        Ok(owned(entry))
    }

    /// Whether the handler is open and its file is there; the second part
    /// depends on the file system at the time of the call.
    pub fn is_valid(&self) -> (r: bool)
        ensures
            r ==> self.is_open,
    {
        self.is_open && path_exists(self.path.as_str())
    }

    /// The handler type.
    pub fn get_type(&self) -> (r: i32)
        ensures
            r == self.handler_type,
    {
        self.handler_type
    }

    /// Set the handler type.
    pub fn set_type(&mut self, handler_type: i32)
        ensures
            final(self).handler_type == handler_type,
            final(self).path == old(self).path,
            final(self).is_open == old(self).is_open,
    {
        self.handler_type = handler_type;
    }
}

} // verus!
