use vstd::prelude::*;
use crate::squashfs_tools::progress::ProgressBarTrait;
use crate::text::{concat, push_char, push_str};

verus! {

/// The file being worked on, as the info display names it.
#[derive(Debug)]
pub struct DirEntry {
    pub name: String,
    pub subpath: String,
}

/// The signals the info display listens to.
#[derive(Debug, Clone, Copy, PartialEq, Eq, Structural)]
pub enum InfoSignal {
    /// SIGQUIT.
    Quit,
    /// SIGHUP.
    Hup,
    /// Any other signal.
    Other,
}

/// What to do on a signal.
#[derive(Debug)]
pub enum InfoStep {
    /// Write the line, if any, and listen again after one second.
    Report(Option<String>),
    /// Dump the state of the queues and caches.
    DumpState,
    /// Nothing.
    Ignore,
}

/// The path under which an entry is shown: its directory, a slash and its
/// name, or a slash and its name for an entry at the top.
pub open spec fn entry_path(e: DirEntry) -> Seq<char> {
    if e.subpath@.len() > 0 {
        e.subpath@ + "/"@ + e.name@
    } else {
        "/"@ + e.name@
    }
}

/// The heading of a state dump.
pub open spec fn dump_heading() -> Seq<char> {
    "Queues, caches and threads status dump"@.push('\n') + "======================================"@.push('\n')
}

fn entry_path_text(e: &DirEntry) -> (r: String)
    ensures
        r@ == entry_path(*e),
{
    if e.subpath.as_str().unicode_len() > 0 {
        let mut t = concat(e.subpath.as_str(), "/");
        push_str(&mut t, e.name.as_str());
        t
    } else {
        concat("/", e.name.as_str())
    }
}

/// Shows, on request, which file is being worked on.
pub struct InfoManager<P: ProgressBarTrait> {
    pub current_entry: Option<DirEntry>,
    pub progress_bar: Option<P>,
}

impl<P: ProgressBarTrait> InfoManager<P> {
    /// A display with no current file and no progress bar.
    pub fn new() -> (r: Self)
        ensures
            r.current_entry is None,
            r.progress_bar is None,
    {
        InfoManager { current_entry: None, progress_bar: None }
    }

    /// Forget the current file.
    pub fn disable_info(&mut self)
        ensures
            final(self).current_entry is None,
            final(self).progress_bar == old(self).progress_bar,
    {
        self.current_entry = None;
    }

    /// Make `dir_entry` the current file.
    pub fn update_info(&mut self, dir_entry: DirEntry)
        ensures
            final(self).current_entry == Some(dir_entry),
            final(self).progress_bar == old(self).progress_bar,
    {
        self.current_entry = Some(dir_entry);
    }

    /// Report through `progress_bar` from now on.
    pub fn set_progress_bar(&mut self, progress_bar: P)
        ensures
            final(self).progress_bar == Some(progress_bar),
            final(self).current_entry == old(self).current_entry,
    {
        self.progress_bar = Some(progress_bar);
    }

    /// The line that names the current file, if there is one.
    pub fn print_filename(&self) -> (r: Option<String>)
        ensures
            self.current_entry is None ==> r is None,
            self.current_entry matches Some(e) ==> (r matches Some(l) && l@ == entry_path(e).push(
                '\n',
            )),
    {
        match &self.current_entry {
            Some(e) => {
                let mut l = entry_path_text(e);
                push_char(&mut l, '\n');
                Some(l)
            },
            None => None,
        }
    }

    /// The heading of a dump of the queues and caches, written with the
    /// progress bar stopped and then started again.
    pub fn dump_state(&mut self) -> (r: String)
        ensures
            r@ == dump_heading(),
            final(self).current_entry == old(self).current_entry,
            final(self).progress_bar is Some <==> old(self).progress_bar is Some,
    {
        let mut text = String::from_str("Queues, caches and threads status dump");
        push_char(&mut text, '\n');
        push_str(&mut text, "======================================");
        push_char(&mut text, '\n');
        match &mut self.progress_bar {
            Some(bar) => {
                bar.disable();
                bar.enable();
            },
            None => {},
        }
        text
    }

    /// What to do on `signal`, where `waiting` says whether a report was
    /// made within the last second: a first SIGQUIT reports the current
    /// file through the progress bar and starts the second of waiting; a
    /// SIGQUIT within that second, or a SIGHUP, dumps the state and ends
    /// the waiting; other signals are ignored.
    pub fn on_signal(&mut self, waiting: &mut bool, signal: InfoSignal) -> (r: InfoStep)
        ensures
            final(self).current_entry == old(self).current_entry,
            final(self).progress_bar is Some <==> old(self).progress_bar is Some,
            signal == InfoSignal::Quit && !*old(waiting) ==> {
                &&& r matches InfoStep::Report(line)
                &&& (old(self).current_entry is None || old(self).progress_bar is None) ==> line is None
                &&& *final(waiting)
            },
            signal == InfoSignal::Quit && !*old(waiting) ==> match (old(self).current_entry, old(self).progress_bar) {
                (Some(e), Some(b)) => match b.info_line(entry_path(e)) {
                    Some(l) => r matches InfoStep::Report(Some(x)) && x@ == l,
                    None => r matches InfoStep::Report(None),
                },
                _ => r matches InfoStep::Report(None),
            },
            (signal == InfoSignal::Quit && *old(waiting)) || signal == InfoSignal::Hup ==> {
                &&& r is DumpState
                &&& !*final(waiting)
            },
            signal == InfoSignal::Other ==> (r is Ignore && *final(waiting) == *old(waiting)),
    {
        if signal == InfoSignal::Other {
            return InfoStep::Ignore;
        }
        if signal == InfoSignal::Hup || *waiting {
            *waiting = false;
            return InfoStep::DumpState;
        }
        let path: Option<String> = match &self.current_entry {
            Some(e) => Some(entry_path_text(e)),
            None => None,
        };
        let mut line: Option<String> = None;
        if let Some(p) = path {
            match &mut self.progress_bar {
                Some(bar) => {
                    line = bar.info(p.as_str());
                },
                None => {},
            }
        }
        *waiting = true;
        InfoStep::Report(line)
    }
}

} // verus!
