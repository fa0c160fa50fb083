use vstd::prelude::*;
use crate::error::AppImageError;
use crate::text::{chars_of, owned, string_from_chars};

verus! {

/// `s` without all the `./` it starts with.
pub open spec fn strip_dot_slash(s: Seq<char>) -> Seq<char>
    decreases s.len(),
{
    if s.len() >= 2 && s[0] == '.' && s[1] == '/' {
        strip_dot_slash(s.skip(2))
    } else {
        s
    }
}

/// Handler of type 1 AppImages, whose payload is an ISO 9660 image.
pub struct Type1Handler {
    pub path: String,
    pub is_open: bool,
}

impl Type1Handler {
    /// A handler for the AppImage at `path`, not yet open.
    pub fn new(path: &str) -> (r: Result<Self, AppImageError>)
        ensures
            r matches Ok(h) && h.path@ == path@ && !h.is_open,
    {
        Ok(Type1Handler { path: owned(path), is_open: false })
    }

    /// Close the image.
    pub fn close(&mut self) -> (r: Result<(), AppImageError>)
        ensures
            r is Ok,
            !final(self).is_open,
            final(self).path == old(self).path,
    {
        self.is_open = false;
        Ok(())
    }

    /// The name of an entry of the image: its path without the leading
    /// `./` parts.
    pub fn get_file_name(path: &str) -> (r: Result<String, AppImageError>)
        ensures
            r matches Ok(n) && n@ == strip_dot_slash(path@),
    {
        let cs = chars_of(path);
        let mut i: usize = 0;
        assert(cs@.skip(0) =~= cs@);
        while cs.len() - i >= 2 && cs[i] == '.' && cs[i + 1] == '/'
            invariant
                i <= cs@.len(),
                strip_dot_slash(cs@) == strip_dot_slash(cs@.skip(i as int)),
            decreases cs@.len() - i,
        {
            assert(cs@.skip(i as int).skip(2) =~= cs@.skip(i + 2));
            i = i + 2;
        }
        let rest = vstd::slice::slice_subrange(cs.as_slice(), i, cs.len());
        assert(rest@ =~= cs@.skip(i as int));
        Ok(string_from_chars(rest))
    }

    /// The handler type: always 1.
    pub fn get_type(&self) -> (r: i32)
        ensures
            r == 1,
    {
        1
    }

    /// A type 1 handler stays of type 1: nothing changes.
    pub fn set_type(&mut self, handler_type: i32)
        ensures
            final(self).path == old(self).path,
            final(self).is_open == old(self).is_open,
    {
    }
}

} // verus!
