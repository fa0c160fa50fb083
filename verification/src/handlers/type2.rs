use vstd::prelude::*;
use crate::error::AppImageError;
use crate::text::owned;

verus! {

/// Handler of type 2 AppImages, whose payload is a SquashFS image.
pub struct Type2Handler {
    pub path: String,
    pub handler_type: i32,
}

impl Type2Handler {
    /// A handler for the AppImage at `path`, of type 2.
    pub fn new(path: &str) -> (r: Result<Self, AppImageError>)
        ensures
            r matches Ok(h) && h.path@ == path@ && h.handler_type == 2,
    {
        Ok(Type2Handler { path: owned(path), handler_type: 2 })
    }

    /// The handler type.
    pub fn get_type(&self) -> (r: i32)
        ensures
            r == self.handler_type,
    {
        self.handler_type
    }

    /// Set the handler type.
    pub fn set_type(&mut self, handler_type: i32)
        ensures
            final(self).handler_type == handler_type,
            final(self).path == old(self).path,
    {
        self.handler_type = handler_type;
    }

    /// The name of an entry: the entry itself.
    pub fn get_file_name(&self, entry: &str) -> (r: Result<String, AppImageError>)
        ensures
            r matches Ok(n) && n@ == entry@,
    {
        Ok(owned(entry))
    }
}

} // verus!
