use vstd::prelude::*;
use crate::error::SquashError;
use crate::text::{chars_of, decimal, owned, push_char, push_str, u64_to_decimal};

verus! {

/// The width of the terminal on standard output, as `term_size` reads it;
/// it depends on the terminal, so only its range is claimed.
#[verifier::external_body]
pub(crate) fn stdout_columns() -> (r: Option<usize>)
    ensures
        r matches Some(w) ==> 1 <= w <= 65535,
{
    match term_size::dimensions_stdout() {
        Some((w, _)) => Some(w),
        None => None,
    }
}

/// The state of the progress bar of a file system build.
#[derive(Debug, Clone, Copy)]
pub struct ProgressBar {
    pub display_enabled: bool,
    pub temp_disabled: bool,
    pub percent_mode: bool,
    pub need_newline: bool,
    pub rotate: usize,
    pub cur_uncompressed: u64,
    pub estimated_uncompressed: u64,
    pub columns: usize,
}

/// The characters the bar turns through to show it is alive.
pub open spec fn rotate_char(i: usize) -> char {
    if i == 0 {
        '|'
    } else if i == 1 {
        '/'
    } else if i == 2 {
        '-'
    } else {
        '\\'
    }
}

/// `n` copies of `c`.
pub open spec fn repeat(c: char, n: nat) -> Seq<char> {
    Seq::new(n, |i: int| c)
}

/// `s` right-aligned in a field of `w` characters.
pub open spec fn pad_left(s: Seq<char>, w: nat) -> Seq<char> {
    if s.len() >= w {
        s
    } else {
        repeat(' ', (w - s.len()) as nat) + s
    }
}

/// The percentage done: 100 when nothing is expected.
pub open spec fn percentage(cur: u64, est: u64) -> nat {
    if est == 0 {
        100
    } else {
        (cur * 100 / (est as int)) as nat
    }
}

/// The number of digits of the expected size.
pub open spec fn max_digits(est: u64) -> nat {
    decimal(est as nat).len()
}

/// The columns taken by everything but the bar itself.
pub open spec fn bar_used(est: u64) -> nat {
    if est == 0 {
        13
    } else {
        max_digits(est) * 2 + 11
    }
}

/// The text that draws the bar, if it can be drawn: the part done as `=`,
/// the turning character, the part to do as spaces, then the counts and
/// the percentage.
pub open spec fn bar_text(p: ProgressBar) -> Option<Seq<char>> {
    let est = p.estimated_uncompressed;
    let cur = p.cur_uncompressed;
    let used = bar_used(est);
    if cur > est || p.columns < used {
        None
    } else {
        let room = (p.columns - used) as nat;
        let hashes: nat = if est == 0 {
            0
        } else {
            (cur * room / (est as int)) as nat
        };
        let spaces = (room - hashes) as nat;
        let w = if est == 0 {
            1
        } else {
            max_digits(est)
        };
        Some(
            "\r["@ + repeat('=', hashes) + seq![rotate_char(p.rotate)] + repeat(' ', spaces) + "] "@
                + pad_left(decimal(cur as nat), w) + "/"@ + pad_left(decimal(est as nat), w) + " "@
                + pad_left(decimal(percentage(cur, est)), 3) + "%"@,
        )
    }
}

/// What an update of the display prints.
pub open spec fn display_text(p: ProgressBar) -> Seq<char> {
    if p.percent_mode {
        decimal(percentage(p.cur_uncompressed, p.estimated_uncompressed)) + "\n"@
    } else {
        match bar_text(p) {
            Some(t) => t,
            None => Seq::empty(),
        }
    }
}

/// Whether the counts of a progress bar are small enough for its
/// arithmetic.
pub open spec fn counts_fit(p: ProgressBar) -> bool {
    &&& p.cur_uncompressed * 100 <= u64::MAX
    &&& p.cur_uncompressed * p.columns <= u64::MAX
    &&& p.rotate < 4
}

fn push_repeat(s: &mut String, c: char, n: usize)
    ensures
        final(s)@ == old(s)@ + repeat(c, n as nat),
{
    let ghost s0 = s@;
    let mut i: usize = 0;
    while i < n
        invariant
            i <= n,
            s@ == s0 + repeat(c, i as nat),
        decreases n - i,
    {
        push_char(s, c);
        assert(s0 + repeat(c, (i + 1) as nat) =~= (s0 + repeat(c, i as nat)).push(c));
        i = i + 1;
    }
}

fn push_padded(s: &mut String, n: u64, w: usize)
    ensures
        final(s)@ == old(s)@ + pad_left(decimal(n as nat), w as nat),
{
    let d = u64_to_decimal(n);
    let len = chars_of(d.as_str()).len();
    let ghost s0 = s@;
    if len < w {
        push_repeat(s, ' ', w - len);
    }
    push_str(s, d.as_str());
    assert(s@ =~= s0 + pad_left(decimal(n as nat), w as nat));
}

impl ProgressBar {
    /// A progress bar, off, with nothing counted, as wide as the terminal
    /// (80 columns where the width cannot be read).
    pub fn new() -> (r: Result<Self, SquashError>)
        ensures
            r matches Ok(p) && !p.display_enabled && !p.temp_disabled && !p.percent_mode
                && !p.need_newline && p.rotate == 0 && p.cur_uncompressed == 0
                && p.estimated_uncompressed == 0 && p.columns >= 1,
    {
        let columns = match stdout_columns() {
            Some(w) => w,
            None => 80,
        };
        Ok(
            ProgressBar {
                display_enabled: false,
                temp_disabled: false,
                percent_mode: false,
                need_newline: false,
                rotate: 0,
                cur_uncompressed: 0,
                estimated_uncompressed: 0,
                columns,
            },
        )
    }

    /// Count one more unit done; the count stops at its largest value.
    pub fn increment(&mut self)
        ensures
            final(self).cur_uncompressed == (if old(self).cur_uncompressed == u64::MAX {
                u64::MAX as int
            } else {
                old(self).cur_uncompressed + 1
            }),
            final(self).estimated_uncompressed == old(self).estimated_uncompressed,
    {
        self.cur_uncompressed = self.cur_uncompressed.saturating_add(1);
    }

    /// Count `count` units as no longer done; the count stops at zero.
    pub fn decrement(&mut self, count: u64)
        ensures
            *final(self) == (ProgressBar {
                cur_uncompressed: (if old(self).cur_uncompressed < count {
                    0
                } else {
                    old(self).cur_uncompressed - count
                }) as u64,
                ..*old(self)
            }),
    {
        self.cur_uncompressed = self.cur_uncompressed.saturating_sub(count);
    }

    /// Add `count` units to the size expected; the size stops at its
    /// largest value.
    pub fn set_size(&mut self, count: u64) -> (r: Result<(), SquashError>)
        ensures
            r is Ok,
            final(self).estimated_uncompressed == (if old(self).estimated_uncompressed + count
                > u64::MAX {
                u64::MAX as int
            } else {
                old(self).estimated_uncompressed + count
            }),
            final(self).cur_uncompressed == old(self).cur_uncompressed,
    {
        self.estimated_uncompressed = self.estimated_uncompressed.saturating_add(count);
        Ok(())
    }

    /// Show only the percentage done from now on.
    pub fn set_percentage_mode(&mut self)
        ensures
            final(self).percent_mode,
            final(self).cur_uncompressed == old(self).cur_uncompressed,
            final(self).estimated_uncompressed == old(self).estimated_uncompressed,
            final(self).display_enabled == old(self).display_enabled,
    {
        self.percent_mode = true;
    }

    /// The text an update of the display prints.
    pub fn update_display(&self) -> (r: String)
        requires
            counts_fit(*self),
        ensures
            r@ == display_text(*self),
    {
        let cur = self.cur_uncompressed;
        let est = self.estimated_uncompressed;
        let pct: u64 = if est == 0 {
            100
        } else {
            cur * 100 / est
        };
        if self.percent_mode {
            let mut r = u64_to_decimal(pct);
            push_str(&mut r, "\n");
            return r;
        }
        let digits = chars_of(u64_to_decimal(est).as_str()).len();
        proof {
            crate::text::lemma_u64_decimal_len(est);
        }
        let used: usize = if est == 0 {
            13
        } else {
            digits * 2 + 11
        };
        if cur > est || self.columns < used {
            return String::new();
        }
        let room = self.columns - used;
        let hashes: usize = if est == 0 {
            0
        } else {
            assert(cur * room <= cur * self.columns) by (nonlinear_arith)
                requires
                    room <= self.columns,
            ;
            assert(cur * room / (est as int) <= room) by (nonlinear_arith)
                requires
                    cur <= est,
                    est > 0,
            ;
            (cur * (room as u64) / est) as usize
        };
        let spaces = room - hashes;
        let w: usize = if est == 0 {
            1
        } else {
            digits
        };
        let rc = if self.rotate == 0 {
            '|'
        } else if self.rotate == 1 {
            '/'
        } else if self.rotate == 2 {
            '-'
        } else {
            '\\'
        };
        let mut r = String::from_str("\r[");
        push_repeat(&mut r, '=', hashes);
        push_char(&mut r, rc);
        push_repeat(&mut r, ' ', spaces);
        push_str(&mut r, "] ");
        push_padded(&mut r, cur, w);
        push_str(&mut r, "/");
        push_padded(&mut r, est, w);
        push_str(&mut r, " ");
        push_padded(&mut r, pct, 3);
        push_str(&mut r, "%");
        r
    }

    /// Turn the display back on after a pause; when the bar is shown, the
    /// text that redraws it (empty otherwise).
    pub fn enable(&mut self) -> (r: Result<String, SquashError>)
        requires
            counts_fit(*old(self)),
        ensures
            r matches Ok(t) && t@ == (if old(self).display_enabled {
                display_text(*old(self))
            } else {
                Seq::<char>::empty()
            }),
            !final(self).temp_disabled,
            final(self).need_newline == (old(self).display_enabled || old(self).need_newline),
            final(self).cur_uncompressed == old(self).cur_uncompressed,
            final(self).estimated_uncompressed == old(self).estimated_uncompressed,
            final(self).display_enabled == old(self).display_enabled,
            final(self).percent_mode == old(self).percent_mode,
    {
        let mut text = String::new();
        if self.display_enabled {
            text = self.update_display();
            self.need_newline = true;
        }
        self.temp_disabled = false;
        Ok(text)
    }
}

/// A progress display that reports errors and information: each report
/// gives the line to write, if any.
pub trait ProgressBarTrait {
    /// The line that reporting `message` as information gives, if any.
    spec fn info_line(&self, message: Seq<char>) -> Option<Seq<char>>;

    /// The line to write to standard error for an error, if any.
    fn error(&mut self, message: &str) -> Option<String>;

    /// The line to write to standard output for information, if any: the
    /// one `info_line` gives.
    fn info(&mut self, message: &str) -> (r: Option<String>)
        ensures
            match old(self).info_line(message@) {
                Some(l) => r matches Some(x) && x@ == l,
                None => r is None,
            };

    /// Stop reporting.
    fn disable(&mut self);

    /// Report again.
    fn enable(&mut self);
}

/// Reports on the standard streams while enabled.
pub struct DefaultProgressBar {
    pub enabled: bool,
}

impl DefaultProgressBar {
    /// An enabled reporter.
    pub fn new() -> (r: Self)
        ensures
            r.enabled,
    {
        DefaultProgressBar { enabled: true }
    }
}

impl ProgressBarTrait for DefaultProgressBar {
    /// While enabled, the message on a line of its own.
    open spec fn info_line(&self, message: Seq<char>) -> Option<Seq<char>> {
        if self.enabled {
            Some(message.push('\n'))
        } else {
            None
        }
    }

    fn error(&mut self, message: &str) -> (r: Option<String>)
        ensures
            final(self).enabled == old(self).enabled,
            old(self).enabled ==> (r matches Some(l) && l@ == message@.push('\n')),
            !old(self).enabled ==> r is None,
    {
        if self.enabled {
            let mut l = owned(message);
            push_char(&mut l, '\n');
            Some(l)
        } else {
            None
        }
    }

    fn info(&mut self, message: &str) -> (r: Option<String>)
        ensures
            final(self).enabled == old(self).enabled,
            old(self).enabled ==> (r matches Some(l) && l@ == message@.push('\n')),
            !old(self).enabled ==> r is None,
    {
        if self.enabled {
            let mut l = owned(message);
            push_char(&mut l, '\n');
            Some(l)
        } else {
            None
        }
    }

    fn disable(&mut self)
        ensures
            !final(self).enabled,
    {
        self.enabled = false;
    }

    fn enable(&mut self)
        ensures
            final(self).enabled,
    {
        self.enabled = true;
    }
}

} // verus!
