use vstd::prelude::*;
use crate::appimage_handler::{utf8_len, utf8_size};
use crate::error::SquashError;
use crate::squashfs_tools::mksquashfs::DirEntry;
use crate::text::{
    char_is_whitespace, chars_of, concat, int_parse_message, parse_decimal, parse_decimal_spec,
    push_str, string_from_chars, trim, trimmed, unicode_whitespace,
};

verus! {

/// The longest line of a sort file, in bytes.
pub const MAX_LINE: usize = 16384;
/// The offset of priorities in the priority table.
pub const PRIORITY_RANGE: i32 = 32768;
/// The number of chains of the inode table, and of priorities.
pub const SORT_TABLE_SIZE: usize = 65536;

/// The priority of the file with the given device and inode numbers.
#[derive(Debug, Clone, Copy)]
pub struct SortInfo {
    pub st_dev: u64,
    pub st_ino: u64,
    pub priority: i32,
}

/// A file waiting to be written, at some priority.
#[derive(Debug)]
pub struct PriorityEntry {
    pub dir: DirEntry,
}

/// The priorities that a sort file gives, and the files by priority.
pub struct SortManager {
    /// Chains of the inode table, by the low 16 bits of the inode number;
    /// the latest entry of a chain is last.
    pub sort_info_list: Vec<Vec<SortInfo>>,
    /// Files by priority, offset by `PRIORITY_RANGE`; the latest file of a
    /// priority is last.
    pub priority_list: Vec<Vec<PriorityEntry>>,
    /// Whether the sort file names entries relative to the working
    /// directory, once that is known.
    pub mkisofs_style: Option<bool>,
    pub hardlnk_count: i64,
}

/// The chain of the inode table that holds inode `ino`.
pub open spec fn chain_of(ino: u64) -> int {
    (ino % 65536) as int
}

/// The priority that the latest entry for (`dev`, `ino`) of `chain` gives,
/// or `priority` where there is none.
pub open spec fn chain_priority(chain: Seq<SortInfo>, dev: u64, ino: u64, priority: i32) -> i32
    decreases chain.len(),
{
    if chain.len() == 0 {
        priority
    } else if chain.last().st_dev == dev && chain.last().st_ino == ino {
        chain.last().priority
    } else {
        chain_priority(chain.drop_last(), dev, ino, priority)
    }
}

/// The priority recorded last for a file is the one looked up for it, and
/// records for other files do not change what is looked up: what
/// `get_priority` reads back after `add_sort_info`.
pub proof fn law_recorded_priority_is_found(chain: Seq<SortInfo>, rec: SortInfo, dev: u64, ino: u64, default: i32)
    ensures
        rec.st_dev == dev && rec.st_ino == ino ==> chain_priority(chain.push(rec), dev, ino, default)
            == rec.priority,
        !(rec.st_dev == dev && rec.st_ino == ino) ==> chain_priority(chain.push(rec), dev, ino, default)
            == chain_priority(chain, dev, ino, default),
{
    assert(chain.push(rec).last() == rec);
    assert(chain.push(rec).drop_last() =~= chain);
}

/// Whether the tables have their sizes.
pub open spec fn sort_tables_wf(m: SortManager) -> bool {
    m.sort_info_list@.len() == SORT_TABLE_SIZE && m.priority_list@.len() == SORT_TABLE_SIZE
}

/// The position of the first whitespace character of `s` at or after `i`,
/// or the length of `s`.
pub open spec fn first_space(s: Seq<char>, i: int) -> int
    decreases s.len() - i,
{
    if i >= s.len() {
        s.len() as int
    } else if unicode_whitespace(s[i]) {
        i
    } else {
        first_space(s, i + 1)
    }
}

proof fn lemma_first_space_bounds(s: Seq<char>, i: int)
    requires
        0 <= i <= s.len(),
    ensures
        i <= first_space(s, i) <= s.len(),
        first_space(s, i) < s.len() ==> unicode_whitespace(s[first_space(s, i)]),
    decreases s.len() - i,
{
    if i < s.len() && !unicode_whitespace(s[i]) {
        lemma_first_space_bounds(s, i + 1);
    }
}

/// What a line of the sort file `sort_file` says: nothing for a blank line
/// or a comment, else the entry's name and priority, split at the first
/// whitespace; an error for a line longer than `MAX_LINE` bytes, a
/// priority that does not read as a 32-bit integer, or one outside
/// -32768..=32767.
pub open spec fn sort_line_outcome(sort_file: Seq<char>, line: Seq<char>) -> Result<
    Option<(Seq<char>, int)>,
    Seq<char>,
> {
    if utf8_size(line) > MAX_LINE {
        Err("Line too long when reading sort file \""@ + sort_file + "\", larger than 16384 bytes"@)
    } else {
        let t = trimmed(line);
        if t.len() == 0 || t[0] == '#' {
            Ok(None)
        } else {
            let k = first_space(t, 0);
            let name = t.take(k);
            let rest = if k < t.len() {
                t.skip(k + 1)
            } else {
                Seq::empty()
            };
            match parse_decimal_spec(rest, i32::MIN as int, i32::MAX as int) {
                Err(e) => Err("Invalid priority in sort file \""@ + name + "\": "@ + int_parse_message(e)),
                Ok(p) => if p < -32768 || p > 32767 {
                    Err("Sort file \""@ + name + "\", entry \""@ + t
                        + "\" has priority outside range of -32767:32768"@)
                } else {
                    Ok(Some((name, p)))
                },
            }
        }
    }
}

/// Whether `s` has more than `limit` bytes in UTF-8.
fn longer_than(s: &str, limit: usize) -> (r: bool)
    requires
        limit <= usize::MAX - 4,
    ensures
        r == (utf8_size(s@) > limit),
{
    let cs = chars_of(s);
    let mut i: usize = 0;
    let mut bytes: usize = 0;
    assert(s@.take(0) =~= Seq::<char>::empty());
    while i < cs.len()
        invariant
            cs@ == s@,
            i <= cs@.len(),
            bytes == utf8_size(s@.take(i as int)),
            bytes <= limit,
            limit <= usize::MAX - 4,
        decreases cs@.len() - i,
    {
        let c = cs[i];
        let n: usize = if (c as u32) < 0x80 {
            1
        } else if (c as u32) < 0x800 {
            2
        } else if (c as u32) < 0x10000 {
            3
        } else {
            4
        };
        assert(s@.take(i + 1).drop_last() =~= s@.take(i as int));
        assert(n == utf8_len(s@[i as int]));
        bytes = bytes + n;
        i = i + 1;
        if bytes > limit {
            proof {
                lemma_utf8_size_mono(s@, i as int);
            }
            return true;
        }
    }
    assert(s@.take(i as int) =~= s@);
    false
}

proof fn lemma_utf8_size_mono(s: Seq<char>, i: int)
    requires
        0 <= i <= s.len(),
    ensures
        utf8_size(s.take(i)) <= utf8_size(s),
    decreases s.len() - i,
{
    if i < s.len() {
        lemma_utf8_size_mono(s, i + 1);
        assert(s.take(i + 1).drop_last() =~= s.take(i));
    } else {
        assert(s.take(i) =~= s);
    }
}

/// Read a line of the sort file named `sort_file` (see
/// `sort_line_outcome`).
pub fn parse_sort_line(sort_file: &str, line: &str) -> (r: Result<Option<(String, i32)>, SquashError>)
    ensures
        match sort_line_outcome(sort_file@, line@) {
            Ok(None) => r matches Ok(None),
            Ok(Some((name, p))) => r matches Ok(Some((n, q))) && n@ == name && q == p,
            Err(m) => r matches Err(SquashError::Other(e)) && e@ == m,
        },
{
    if longer_than(line, MAX_LINE) {
        let mut m = concat("Line too long when reading sort file \"", sort_file);
        push_str(&mut m, "\", larger than 16384 bytes");
        return Err(SquashError::Other(m));
    }
    let t = trim(line);
    let tc = chars_of(t.as_str());
    if tc.len() == 0 || tc[0] == '#' {
        return Ok(None);
    }
    let mut k: usize = 0;
    while k < tc.len() && !char_is_whitespace(tc[k])
        invariant
            tc@ == t@,
            k <= tc@.len(),
            first_space(t@, 0) == first_space(t@, k as int),
        decreases tc@.len() - k,
    {
        k = k + 1;
    }
    proof {
        lemma_first_space_bounds(t@, k as int);
    }
    let name = string_from_chars(&tc.as_slice()[0..k]);
    assert(name@ =~= t@.take(k as int));
    let rest = if k < tc.len() {
        let s = string_from_chars(&tc.as_slice()[k + 1..tc.len()]);
        assert(s@ =~= t@.skip(k + 1));
        s
    } else {
        let s = String::new();
        assert(s@ =~= Seq::<char>::empty());
        s
    };
    match parse_decimal(rest.as_str(), i32::MIN as i64, i32::MAX as i64) {
        Err(e) => {
            let mut m = concat("Invalid priority in sort file \"", name.as_str());
            push_str(&mut m, "\": ");
            push_str(&mut m, e.message());
            Err(SquashError::Other(m))
        },
        Ok(p) => {
            if p < -32768 || p > 32767 {
                let mut m = concat("Sort file \"", name.as_str());
                push_str(&mut m, "\", entry \"");
                push_str(&mut m, t.as_str());
                push_str(&mut m, "\" has priority outside range of -32767:32768");
                Err(SquashError::Other(m))
            } else {
                Ok(Some((name, p as i32)))
            }
        },
    }
}

/// The entry of a sort file with a trailing `/*` taken off.
pub open spec fn sort_entry_path(path: Seq<char>) -> Seq<char> {
    if path.len() >= 2 && path[path.len() - 2] == '/' && path[path.len() - 1] == '*' {
        path.take(path.len() - 2)
    } else {
        path
    }
}

/// The files of priority `p`, latest first, each with its priority.
pub open spec fn priority_block(b: Seq<PriorityEntry>, p: int) -> Seq<(i32, PriorityEntry)> {
    Seq::new(b.len(), |j: int| (p as i32, b[b.len() - 1 - j]))
}

/// The files of the priority lists from position `i` up, highest priority
/// first: each list latest first, each file with its priority.
pub open spec fn files_from(lists: Seq<Vec<PriorityEntry>>, i: int) -> Seq<(i32, PriorityEntry)>
    decreases SORT_TABLE_SIZE - i,
{
    if i < 0 || i >= SORT_TABLE_SIZE {
        Seq::empty()
    } else {
        files_from(lists, i + 1) + priority_block(lists[i]@, i - PRIORITY_RANGE)
    }
}

/// Where giving a sort file entry its priority has got to.
#[derive(Debug, Clone, Copy, PartialEq, Eq, Structural)]
pub enum SortListPhase {
    /// Nothing done yet.
    Start,
    /// The entry, as it stands, is being looked up.
    Direct,
    /// The entry is being looked up in source directory `i`.
    Source(usize),
    /// The entry, as it stands, is looked up once more, to tell whether
    /// the sort file names entries relative to the working directory.
    Fallback,
    /// Done.
    Finished,
}

/// Giving the sort file entry `path` its priority, looked up as it stands
/// or in each of `sources` source directories: how far it has got, and
/// how many source directories held the entry.
#[derive(Debug)]
pub struct SortListState {
    pub path: String,
    pub priority: i32,
    pub sources: usize,
    pub phase: SortListPhase,
    pub found_count: usize,
}

/// What looking up a path (without following a last symbolic link) gave:
/// the file's device and inode numbers, no such file, or an error's text.
#[derive(Debug)]
pub enum StatOutcome {
    Found { dev: u64, ino: u64 },
    NotFound,
    Failed(String),
}

/// What to do next for a sort file entry.
#[derive(Debug)]
pub enum SortAction {
    /// Look up this path as it stands.
    Stat(String),
    /// Look up the entry's path within source directory `i`.
    StatInSource(usize),
    /// Warn that the sort file names entries relative to the working
    /// directory, then go on (with no lookup to report).
    WarnMkisofs,
    /// The entry is settled, with this result.
    Done(Result<bool, SquashError>),
}

/// An action seen as plain values.
pub enum SortActionView {
    Stat(Seq<char>),
    StatInSource(int),
    WarnMkisofs,
    Settled,
    Refused(Seq<char>),
    Other,
}

/// The plain values of an action.
pub open spec fn sort_action_view(a: SortAction) -> SortActionView {
    match a {
        SortAction::Stat(p) => SortActionView::Stat(p@),
        SortAction::StatInSource(i) => SortActionView::StatInSource(i as int),
        SortAction::WarnMkisofs => SortActionView::WarnMkisofs,
        SortAction::Done(Ok(true)) => SortActionView::Settled,
        SortAction::Done(Err(SquashError::Other(m))) => SortActionView::Refused(m@),
        _ => SortActionView::Other,
    }
}

/// Whether an entry is looked up as it stands: it is absolute, starts with
/// `./` or `../`, or the sort file is known to name entries that way.
pub open spec fn direct_entry(path: Seq<char>, mkisofs_style: Option<bool>) -> bool {
    (path.len() > 0 && path[0] == '/') || (path.len() >= 2 && path[0] == '.' && path[1] == '/') || (
    path.len() >= 3 && path[0] == '.' && path[1] == '.' && path[2] == '/') || mkisofs_style == Some(
        true,
    )
}

/// The message of an ambiguous sort file entry.
pub open spec fn ambiguous_entry_message(path: Seq<char>) -> Seq<char> {
    "Ambiguous sortlist entry \""@ + path
        + "\"\nIt maps to more than one source entry! Please use an absolute path."@
}

/// One step of giving a sort file entry its priority, as plain values:
/// from the style known so far, the entry's path, the number of source
/// directories, the phase, the count of source directories that held it
/// and what the last lookup gave, to the next phase, path and count, the
/// action, the style known then, and the file (device, inode) that gets
/// the priority, if one does.
pub open spec fn sort_step(
    mk: Option<bool>,
    path: Seq<char>,
    sources: int,
    phase: SortListPhase,
    found: int,
    o: StatOutcome,
) -> (SortListPhase, Seq<char>, int, SortActionView, Option<bool>, Option<(u64, u64)>) {
    match phase {
        SortListPhase::Start => {
            let p = sort_entry_path(path);
            if direct_entry(p, mk) {
                (SortListPhase::Direct, p, 0, SortActionView::Stat(p), mk, None)
            } else {
                sources_step(mk, p, sources, 0, 0, None)
            }
        },
        SortListPhase::Direct => match o {
            StatOutcome::Found { dev, ino } => (
                SortListPhase::Finished,
                path,
                found,
                SortActionView::Settled,
                mk,
                Some((dev, ino)),
            ),
            StatOutcome::Failed(m) => (
                SortListPhase::Finished,
                path,
                found,
                SortActionView::Refused("Failed to stat sortlist entry: "@ + m@),
                mk,
                None,
            ),
            StatOutcome::NotFound => sources_step(mk, path, sources, 0, 0, None),
        },
        SortListPhase::Source(i) => match o {
            StatOutcome::Found { dev, ino } => sources_step(
                mk,
                path,
                sources,
                i + 1,
                found + 1,
                Some((dev, ino)),
            ),
            StatOutcome::Failed(m) => (
                SortListPhase::Finished,
                path,
                found,
                SortActionView::Refused("Failed to stat sortlist entry: "@ + m@),
                mk,
                None,
            ),
            StatOutcome::NotFound => sources_step(mk, path, sources, i + 1, found, None),
        },
        SortListPhase::Fallback => match o {
            StatOutcome::Found { .. } => (
                SortListPhase::Start,
                path,
                0,
                SortActionView::WarnMkisofs,
                Some(true),
                None,
            ),
            _ => settle_step(path, found),
        },
        SortListPhase::Finished => (SortListPhase::Finished, path, found, SortActionView::Settled, mk, None),
    }
}

/// Go on with source directory `i`, or, past the last one, look the entry
/// up once more where no source directory held it and the style is not
/// known yet, or settle it.
pub open spec fn sources_step(
    mk: Option<bool>,
    path: Seq<char>,
    sources: int,
    i: int,
    found: int,
    added: Option<(u64, u64)>,
) -> (SortListPhase, Seq<char>, int, SortActionView, Option<bool>, Option<(u64, u64)>) {
    if i < sources {
        (SortListPhase::Source(i as usize), path, found, SortActionView::StatInSource(i), mk, added)
    } else if found == 0 && mk is None {
        (SortListPhase::Fallback, path, found, SortActionView::Stat(path), mk, added)
    } else {
        let s = settle_step(path, found);
        (s.0, s.1, s.2, s.3, s.4, added)
    }
}

/// Settle an entry that `found` source directories held: the sort file
/// names entries by source directory; more than one is an error.
pub open spec fn settle_step(path: Seq<char>, found: int) -> (
    SortListPhase,
    Seq<char>,
    int,
    SortActionView,
    Option<bool>,
    Option<(u64, u64)>,
) {
    if found > 1 {
        (
            SortListPhase::Finished,
            path,
            found,
            SortActionView::Refused(ambiguous_entry_message(path)),
            Some(false),
            None,
        )
    } else {
        (SortListPhase::Finished, path, found, SortActionView::Settled, Some(false), None)
    }
}

/// Whether a state is one that the steps reach, and not done: its count is
/// at most the number of source directories looked at.
pub open spec fn sort_state_ok(st: SortListState) -> bool {
    match st.phase {
        SortListPhase::Source(i) => i < st.sources && st.found_count <= i,
        SortListPhase::Direct | SortListPhase::Fallback => st.found_count == 0,
        SortListPhase::Start => true,
        SortListPhase::Finished => false,
    }
}

impl SortListState {
    /// Giving the sort file entry `path` the priority `priority`, with
    /// `sources` source directories.
    pub fn new(path: &str, priority: i32, sources: usize) -> (r: Self)
        ensures
            r.path@ == path@,
            r.priority == priority,
            r.sources == sources,
            r.phase == SortListPhase::Start,
            r.found_count == 0,
    {
        SortListState { path: crate::text::owned(path), priority, sources, phase: SortListPhase::Start, found_count: 0 }
    }
}

impl SortManager {
    /// Empty tables.
    pub fn new() -> (r: Self)
        ensures
            sort_tables_wf(r),
            forall|k: int| 0 <= k < SORT_TABLE_SIZE ==> #[trigger] r.sort_info_list@[k]@.len() == 0,
            forall|k: int| 0 <= k < SORT_TABLE_SIZE ==> #[trigger] r.priority_list@[k]@.len() == 0,
            r.mkisofs_style is None,
            r.hardlnk_count == 0,
    {
        let mut sort_info_list: Vec<Vec<SortInfo>> = Vec::new();
        let mut priority_list: Vec<Vec<PriorityEntry>> = Vec::new();
        let mut i: usize = 0;
        while i < SORT_TABLE_SIZE
            invariant
                i <= SORT_TABLE_SIZE,
                sort_info_list@.len() == i,
                priority_list@.len() == i,
                forall|k: int| 0 <= k < i ==> #[trigger] sort_info_list@[k]@.len() == 0,
                forall|k: int| 0 <= k < i ==> #[trigger] priority_list@[k]@.len() == 0,
            decreases SORT_TABLE_SIZE - i,
        {
            sort_info_list.push(Vec::new());
            priority_list.push(Vec::new());
            i = i + 1;
        }
        SortManager { sort_info_list, priority_list, mkisofs_style: None, hardlnk_count: 0 }
    }

    /// Record that the file with device `st_dev` and inode `st_ino` has
    /// `priority`; a later record for it wins.
    pub fn add_sort_info(&mut self, st_dev: u64, st_ino: u64, priority: i32)
        requires
            sort_tables_wf(*old(self)),
        ensures
            sort_tables_wf(*final(self)),
            final(self).sort_info_list@[chain_of(st_ino)]@ == old(self).sort_info_list@[chain_of(st_ino)]@.push(SortInfo { st_dev, st_ino, priority }),
            forall|k: int| 0 <= k < SORT_TABLE_SIZE && k != chain_of(st_ino) ==> #[trigger] final(self).sort_info_list@[k] == old(self).sort_info_list@[k],
            final(self).priority_list == old(self).priority_list,
            final(self).mkisofs_style == old(self).mkisofs_style,
    {
        let h: usize = (st_ino % 65536) as usize;
        let ghost before = self.sort_info_list@;
        let mut chain = self.sort_info_list.remove(h);
        chain.push(SortInfo { st_dev, st_ino, priority });
        self.sort_info_list.insert(h, chain);
        assert(self.sort_info_list@ =~= before.update(h as int, chain));
    }

    /// The priority recorded for the file with device `st_dev` and inode
    /// `st_ino`, or `priority` where none is.
    pub fn get_priority(&self, st_dev: u64, st_ino: u64, priority: i32) -> (r: i32)
        requires
            sort_tables_wf(*self),
        ensures
            r == chain_priority(self.sort_info_list@[chain_of(st_ino)]@, st_dev, st_ino, priority),
    {
        let h: usize = (st_ino % 65536) as usize;
        assert(h as int == chain_of(st_ino));
        let chain = &self.sort_info_list[h];
        let mut i: usize = chain.len();
        assert(chain@.take(i as int) =~= chain@);
        while i > 0
            invariant
                i <= chain@.len(),
                chain@ == self.sort_info_list@[chain_of(st_ino)]@,
                chain_priority(chain@, st_dev, st_ino, priority) == chain_priority(
                    chain@.take(i as int),
                    st_dev,
                    st_ino,
                    priority,
                ),
            decreases i,
        {
            let e = chain[i - 1];
            assert(chain@.take(i as int).last() == e);
            if e.st_dev == st_dev && e.st_ino == st_ino {
                assert(chain_priority(chain@.take(i as int), st_dev, st_ino, priority) == e.priority);
                return e.priority;
            }
            assert(chain@.take(i as int).drop_last() =~= chain@.take(i - 1));
            i = i - 1;
        }
        priority
    }

    /// Put `dir` among the files of `priority`.
    pub fn add_priority_list(&mut self, dir: DirEntry, priority: i32)
        requires
            sort_tables_wf(*old(self)),
            -32768 <= priority <= 32767,
        ensures
            sort_tables_wf(*final(self)),
            final(self).priority_list@[priority + 32768]@ == old(self).priority_list@[priority
                + 32768]@.push(PriorityEntry { dir }),
            forall|k: int| 0 <= k < SORT_TABLE_SIZE && k != priority + 32768 ==> #[trigger] final(self).priority_list@[k] == old(self).priority_list@[k],
            final(self).sort_info_list == old(self).sort_info_list,
    {
        let p: usize = (priority + PRIORITY_RANGE) as usize;
        let ghost before = self.priority_list@;
        let mut bucket = self.priority_list.remove(p);
        bucket.push(PriorityEntry { dir });
        self.priority_list.insert(p, bucket);
        assert(self.priority_list@ =~= before.update(p as int, bucket));
    }

    /// The entry of a sort file, with a trailing `/*` taken off.
    pub fn sort_entry_path(path: &str) -> (r: String)
        ensures
            r@ == sort_entry_path(path@),
    {
        let c = chars_of(path);
        let n = c.len();
        if n >= 2 && c[n - 2] == '/' && c[n - 1] == '*' {
            let r = string_from_chars(&c.as_slice()[0..n - 2]);
            assert(r@ =~= path@.take(n - 2));
            r
        } else {
            string_from_chars(c.as_slice())
        }
    }

    /// Whether an entry is looked up as it stands, rather than in each
    /// source directory: it is absolute, starts with `./` or `../`, or the
    /// sort file is known to name entries that way.
    pub fn is_direct_entry(&self, path: &str) -> (r: bool)
        ensures
            r == ((path@.len() > 0 && path@[0] == '/') || (path@.len() >= 2 && path@[0] == '.'
                && path@[1] == '/') || (path@.len() >= 3 && path@[0] == '.' && path@[1] == '.'
                && path@[2] == '/') || self.mkisofs_style == Some(true)),
    {
        let c = chars_of(path);
        let n = c.len();
        (n > 0 && c[0] == '/') || (n >= 2 && c[0] == '.' && c[1] == '/') || (n >= 3 && c[0] == '.'
            && c[1] == '.' && c[2] == '/') || self.mkisofs_style == Some(true)
    }

    /// Settle an entry that was looked up in the source directories and
    /// found `found_count` times: the sort file is taken to name entries
    /// by source directory, and an entry found more than once is an error.
    pub fn settle_sort_entry(&mut self, path: &str, found_count: usize) -> (r: Result<bool, SquashError>)
        ensures
            final(self).mkisofs_style == Some(false),
            found_count > 1 ==> (r matches Err(SquashError::Other(m)) && m@ == "Ambiguous sortlist entry \""@
                + path@ + "\"\nIt maps to more than one source entry! Please use an absolute path."@),
            found_count <= 1 ==> r matches Ok(true),
            final(self).sort_info_list == old(self).sort_info_list,
            final(self).priority_list == old(self).priority_list,
    {
        self.mkisofs_style = Some(false);
        if found_count > 1 {
            let mut m = concat("Ambiguous sortlist entry \"", path);
            push_str(&mut m, "\"\nIt maps to more than one source entry! Please use an absolute path.");
            return Err(SquashError::Other(m));
        }
        Ok(true)
    }

    /// One step of giving a sort file entry its priority (see `sort_step`):
    /// the caller performs the action, looks the path up where it says so,
    /// and hands back what that gave, until the action is `Done`.
    pub fn add_sort_step(&mut self, st: SortListState, outcome: StatOutcome) -> (r: (SortListState, SortAction))
        requires
            sort_tables_wf(*old(self)),
            sort_state_ok(st),
        ensures
            sort_tables_wf(*final(self)),
            ({
                let e = sort_step(old(self).mkisofs_style, st.path@, st.sources as int, st.phase, st.found_count as int, outcome);
                &&& r.0.phase == e.0
                &&& r.0.path@ == e.1
                &&& r.0.found_count == e.2
                &&& r.0.priority == st.priority
                &&& r.0.sources == st.sources
                &&& sort_action_view(r.1) == e.3
                &&& final(self).mkisofs_style == e.4
                &&& (r.1 matches SortAction::Done(_)) == (e.0 == SortListPhase::Finished)
                &&& (e.0 != SortListPhase::Finished ==> sort_state_ok(r.0))
                &&& match e.5 {
                    Some((dev, ino)) => final(self).sort_info_list@[chain_of(ino)]@ == old(self).sort_info_list@[chain_of(ino)]@.push(SortInfo { st_dev: dev, st_ino: ino, priority: st.priority })
                        && forall|k: int| 0 <= k < SORT_TABLE_SIZE && k != chain_of(ino) ==> #[trigger] final(self).sort_info_list@[k] == old(self).sort_info_list@[k],
                    None => final(self).sort_info_list == old(self).sort_info_list,
                }
            }),
            final(self).priority_list == old(self).priority_list,
    {
        let SortListState { path, priority, sources, phase, found_count } = st;
        match phase {
            SortListPhase::Start => {
                let p = Self::sort_entry_path(path.as_str());
                if self.is_direct_entry(p.as_str()) {
                    let q = crate::text::owned(p.as_str());
                    (SortListState { path: p, priority, sources, phase: SortListPhase::Direct, found_count: 0 }, SortAction::Stat(q))
                } else {
                    self.sources_step(p, priority, sources, 0, 0)
                }
            },
            SortListPhase::Direct => match outcome {
                StatOutcome::Found { dev, ino } => {
                    self.add_sort_info(dev, ino, priority);
                    (SortListState { path, priority, sources, phase: SortListPhase::Finished, found_count }, SortAction::Done(Ok(true)))
                },
                StatOutcome::Failed(m) => {
                    let msg = concat("Failed to stat sortlist entry: ", m.as_str());
                    (SortListState { path, priority, sources, phase: SortListPhase::Finished, found_count }, SortAction::Done(Err(SquashError::Other(msg))))
                },
                StatOutcome::NotFound => self.sources_step(path, priority, sources, 0, found_count),
            },
            SortListPhase::Source(i) => match outcome {
                StatOutcome::Found { dev, ino } => {
                    self.add_sort_info(dev, ino, priority);
                    self.sources_step(path, priority, sources, i + 1, found_count + 1)
                },
                StatOutcome::Failed(m) => {
                    let msg = concat("Failed to stat sortlist entry: ", m.as_str());
                    (SortListState { path, priority, sources, phase: SortListPhase::Finished, found_count }, SortAction::Done(Err(SquashError::Other(msg))))
                },
                StatOutcome::NotFound => self.sources_step(path, priority, sources, i + 1, found_count),
            },
            SortListPhase::Fallback => match outcome {
                StatOutcome::Found { .. } => {
                    self.mkisofs_style = Some(true);
                    (SortListState { path, priority, sources, phase: SortListPhase::Start, found_count: 0 }, SortAction::WarnMkisofs)
                },
                _ => {
                    let r = self.settle_sort_entry(path.as_str(), found_count);
                    (SortListState { path, priority, sources, phase: SortListPhase::Finished, found_count }, SortAction::Done(r))
                },
            },
            SortListPhase::Finished => {
                (SortListState { path, priority, sources, phase: SortListPhase::Finished, found_count }, SortAction::Done(Ok(true)))
            },
        }
    }

    /// See `sources_step`.
    fn sources_step(&mut self, path: String, priority: i32, sources: usize, i: usize, found: usize) -> (r: (SortListState, SortAction))
        requires
            i <= sources,
            found <= i,
        ensures
            ({
                let e = sources_step(old(self).mkisofs_style, path@, sources as int, i as int, found as int, None);
                &&& r.0.phase == e.0
                &&& r.0.path@ == e.1
                &&& r.0.found_count == e.2
                &&& r.0.priority == priority
                &&& r.0.sources == sources
                &&& sort_action_view(r.1) == e.3
                &&& final(self).mkisofs_style == e.4
                &&& (r.1 matches SortAction::Done(_)) == (e.0 == SortListPhase::Finished)
                &&& (e.0 != SortListPhase::Finished ==> sort_state_ok(r.0))
            }),
            final(self).sort_info_list == old(self).sort_info_list,
            final(self).priority_list == old(self).priority_list,
    {
        if i < sources {
            (SortListState { path, priority, sources, phase: SortListPhase::Source(i), found_count: found }, SortAction::StatInSource(i))
        } else if found == 0 && self.mkisofs_style.is_none() {
            let q = crate::text::owned(path.as_str());
            (SortListState { path, priority, sources, phase: SortListPhase::Fallback, found_count: found }, SortAction::Stat(q))
        } else {
            let r = self.settle_sort_entry(path.as_str(), found);
            (SortListState { path, priority, sources, phase: SortListPhase::Finished, found_count: found }, SortAction::Done(r))
        }
    }

    /// Take out the files, from the highest priority to the lowest and,
    /// within a priority, latest first, each with its priority; the table
    /// is left empty.
    pub fn files_in_priority_order(&mut self) -> (r: Vec<(i32, PriorityEntry)>)
        requires
            sort_tables_wf(*old(self)),
        ensures
            sort_tables_wf(*final(self)),
            forall|k: int| 0 <= k < SORT_TABLE_SIZE ==> #[trigger] final(self).priority_list@[k]@.len() == 0,
            forall|a: int, b: int| 0 <= a < b < r@.len() ==> r@[a].0 >= r@[b].0,
            forall|a: int| 0 <= a < r@.len() ==> -32768 <= #[trigger] r@[a].0 <= 32767,
            r@ == files_from(old(self).priority_list@, 0),
            final(self).sort_info_list == old(self).sort_info_list,
    {
        let ghost lists = self.priority_list@;
        let mut out: Vec<(i32, PriorityEntry)> = Vec::new();
        let mut i: usize = SORT_TABLE_SIZE;
        while i > 0
            invariant
                i <= SORT_TABLE_SIZE,
                lists == old(self).priority_list@,
                lists.len() == SORT_TABLE_SIZE,
                forall|k: int| 0 <= k < i ==> #[trigger] self.priority_list@[k] == lists[k],
                out@ == files_from(lists, i as int),
                sort_tables_wf(*self),
                self.sort_info_list == old(self).sort_info_list,
                forall|k: int| i <= k < SORT_TABLE_SIZE ==> #[trigger] self.priority_list@[k]@.len() == 0,
                forall|a: int, b: int| 0 <= a < b < out@.len() ==> out@[a].0 >= out@[b].0,
                forall|a: int| 0 <= a < out@.len() ==> i - 32768 <= #[trigger] out@[a].0 <= 32767,
            decreases i,
        {
            i = i - 1;
            let priority: i32 = (i as i32) - PRIORITY_RANGE;
            let ghost before = self.priority_list@;
            let mut bucket = self.priority_list.remove(i);
            let empty: Vec<PriorityEntry> = Vec::new();
            let ghost empty_ghost = empty;
            self.priority_list.insert(i, empty);
            assert(self.priority_list@ =~= before.update(i as int, empty_ghost));
            let ghost whole = bucket@;
            let ghost n = whole.len();
            let ghost prev = out@;
            assert(whole == lists[i as int]@);
            assert(whole.take(n as int) =~= whole);
            assert(Seq::new((n - n) as nat, |j: int| (priority, whole[n - 1 - j])) =~= Seq::<(i32, PriorityEntry)>::empty());
            assert(prev + Seq::new((n - n) as nat, |j: int| (priority, whole[n - 1 - j])) =~= prev);
            while bucket.len() > 0
                invariant
                    bucket@ == whole.take(bucket@.len() as int),
                    bucket@.len() <= n,
                    n == whole.len(),
                    out@ == prev + Seq::new((n - bucket@.len()) as nat, |j: int| (priority, whole[n - 1 - j])),
                    prev == files_from(lists, i + 1),
                    whole == lists[i as int]@,
                    lists.len() == SORT_TABLE_SIZE,
                    forall|k: int| 0 <= k < i ==> #[trigger] self.priority_list@[k] == lists[k],
                    sort_tables_wf(*self),
                    self.sort_info_list == old(self).sort_info_list,
                    forall|k: int| i <= k < SORT_TABLE_SIZE ==> #[trigger] self.priority_list@[k]@.len() == 0,
                    forall|a: int, b: int| 0 <= a < b < out@.len() ==> out@[a].0 >= out@[b].0,
                    forall|a: int| 0 <= a < out@.len() ==> priority <= #[trigger] out@[a].0 <= 32767,
                    priority == i - 32768,
                    i < SORT_TABLE_SIZE,
                decreases bucket@.len(),
            {
                let ghost b0 = bucket@;
                let ghost o0 = out@;
                let e = bucket.pop().unwrap();
                out.push((priority, e));
                proof {
                    assert(b0 == whole.take(b0.len() as int));
                    assert(b0[b0.len() - 1] == whole[b0.len() - 1]);
                    assert(bucket@ =~= b0.drop_last());
                    assert(e == whole[b0.len() - 1]);
                    assert(bucket@ =~= whole.take(bucket@.len() as int));
                    assert(out@ =~= prev + Seq::new((n - bucket@.len()) as nat, |j: int| (priority, whole[n - 1 - j])));
                }
            }
            proof {
                assert(Seq::new((n - bucket@.len()) as nat, |j: int| (priority, whole[n - 1 - j])) =~= priority_block(whole, i - PRIORITY_RANGE));
                assert(files_from(lists, i as int) == files_from(lists, i + 1) + priority_block(lists[i as int]@, i - PRIORITY_RANGE));
            }
        }
        out
    }
}

} // verus!
