use vstd::prelude::*;
use crate::error::AppImageError;

verus! {

/// Reads the bytes of a file contained in an AppImage, in order.
pub struct PayloadIStream {
    /// The file's bytes.
    pub data: Vec<u8>,
    /// How many of them have been read.
    pub position: usize,
}

impl PayloadIStream {
    /// A stream over `data`, at its start.
    pub fn new(data: Vec<u8>) -> (r: Self)
        ensures
            r.data@ == data@ && r.position == 0,
    {
        PayloadIStream { data, position: 0 }
    }

    /// Copy the next bytes into `buf`, as many as fit and are left; the
    /// number copied.
    pub fn read(&mut self, buf: &mut [u8]) -> (r: usize)
        requires
            old(self).position <= old(self).data@.len(),
        ensures
            r == vstd::math::min(
                old(buf)@.len() as int,
                old(self).data@.len() - old(self).position,
            ),
            final(buf)@.len() == old(buf)@.len(),
            final(buf)@.take(r as int) == old(self).data@.subrange(
                old(self).position as int,
                old(self).position + r,
            ),
            final(buf)@.skip(r as int) == old(buf)@.skip(r as int),
            final(self).position == old(self).position + r,
            final(self).data@ == old(self).data@,
    {
        let len = self.data.len();
        let left = len - self.position;
        let n = if buf.len() < left {
            buf.len()
        } else {
            left
        };
        let mut i: usize = 0;
        while i < n
            invariant
                n <= buf@.len(),
                self.position + n <= self.data@.len(),
                len == self.data@.len(),
                i <= n,
                buf@.len() == old(buf)@.len(),
                forall|k: int| 0 <= k < i ==> buf@[k] == self.data@[self.position + k],
                forall|k: int| i <= k < buf@.len() ==> buf@[k] == old(buf)@[k],
            decreases n - i,
        {
            buf[i] = self.data[self.position + i];
            i = i + 1;
        }
        self.position = self.position + n;
        assert(buf@.take(n as int) =~= self.data@.subrange(
            old(self).position as int,
            old(self).position + n,
        ));
        assert(buf@.skip(n as int) =~= old(buf)@.skip(n as int));
        n
    }

    /// Buffered reading is not offered: always an error.
    pub fn fill_buf(&mut self) -> (r: Result<&[u8], AppImageError>)
        ensures
            r matches Err(AppImageError::NotSupported(m))
                && m@ == "PayloadIStream does not support BufRead operations"@,
    {
        Err(AppImageError::NotSupported(String::from_str("PayloadIStream does not support BufRead operations")))
    }

    /// Buffered reading is not offered: nothing is consumed.
    pub fn consume(&mut self, amt: usize)
        ensures
            final(self).data@ == old(self).data@,
            final(self).position == old(self).position,
    {
    }
}

} // verus!
