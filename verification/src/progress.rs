use vstd::prelude::*;
use crate::text::{owned, push_char};

verus! {

/// Reports errors and information while work goes on: each report gives
/// the line to write, if any.
pub trait ProgressBar {
    /// The line to write to standard error for an error, if any.
    fn error(&mut self, message: &str) -> Option<String>;

    /// The line to write to standard output for information, if any.
    fn info(&mut self, message: &str) -> Option<String>;

    /// Stop reporting.
    fn disable(&mut self);

    /// Report again.
    fn enable(&mut self);
}

/// Reports on the standard streams while enabled.
pub struct DefaultProgressBar {
    pub enabled: bool,
}

impl DefaultProgressBar {
    /// An enabled reporter.
    pub fn new() -> (r: Self)
        ensures
            r.enabled,
    {
        DefaultProgressBar { enabled: true }
    }
}

impl ProgressBar for DefaultProgressBar {
    fn error(&mut self, message: &str) -> (r: Option<String>)
        ensures
            final(self).enabled == old(self).enabled,
            old(self).enabled ==> (r matches Some(l) && l@ == message@.push('\n')),
            !old(self).enabled ==> r is None,
    {
        if self.enabled {
            let mut l = owned(message);
            push_char(&mut l, '\n');
            Some(l)
        } else {
            None
        }
    }

    fn info(&mut self, message: &str) -> (r: Option<String>)
        ensures
            final(self).enabled == old(self).enabled,
            old(self).enabled ==> (r matches Some(l) && l@ == message@.push('\n')),
            !old(self).enabled ==> r is None,
    {
        if self.enabled {
            let mut l = owned(message);
            push_char(&mut l, '\n');
            Some(l)
        } else {
            None
        }
    }

    fn disable(&mut self)
        ensures
            !final(self).enabled,
    {
        self.enabled = false;
    }

    fn enable(&mut self)
        ensures
            final(self).enabled,
    {
        self.enabled = true;
    }
}

} // verus!
