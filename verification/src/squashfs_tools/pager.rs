use vstd::prelude::*;
use crate::squashfs_tools::progress::stdout_columns;
use crate::error::SquashError;
use crate::text::{chars_of, owned, push_char, string_from_chars};

verus! {

/// The pagers the library knows how to drive.
#[derive(Debug, Clone, Copy, PartialEq, Eq, Structural)]
pub enum PagerType {
    Less,
    More,
    Unknown,
}

/// The pager that shows long output: the command to run, its name, and
/// whether it came from the environment.
#[derive(Debug)]
pub struct Pager {
    pub command: String,
    pub name: String,
    pub from_env: bool,
    pub pager_type: Option<PagerType>,
}

/// The characters of `p` after its last `/`.
pub open spec fn last_segment(p: Seq<char>) -> Seq<char>
    decreases p.len(),
{
    if p.len() == 0 || p.last() == '/' {
        Seq::empty()
    } else {
        last_segment(p.drop_last()).push(p.last())
    }
}

/// `p` without its trailing slashes.
pub open spec fn trim_slashes(p: Seq<char>) -> Seq<char>
    decreases p.len(),
{
    if p.len() > 0 && p.last() == '/' {
        trim_slashes(p.drop_last())
    } else {
        p
    }
}

/// The last component of path `p` when it is a name: trailing slashes and
/// `.` components are passed over; a path that ends in `..`, or has no
/// name at all, has none.
pub open spec fn file_name_of(p: Seq<char>) -> Option<Seq<char>>
    decreases p.len(),
{
    let t = trim_slashes(p);
    if t.len() == 0 {
        None
    } else {
        let seg = last_segment(t);
        if seg == seq!['.'] {
            proof {
                lemma_trim_slashes(p);
            }
            file_name_of(t.take(t.len() - 1))
        } else if seg == seq!['.', '.'] {
            None
        } else {
            Some(seg)
        }
    }
}

/// Dropping trailing slashes keeps a prefix of the path.
pub proof fn lemma_trim_slashes(p: Seq<char>)
    ensures
        trim_slashes(p).len() <= p.len(),
        trim_slashes(p) == p.take(trim_slashes(p).len() as int),
        trim_slashes(p).len() == 0 || trim_slashes(p).last() != '/',
    decreases p.len(),
{
    if p.len() > 0 && p.last() == '/' {
        lemma_trim_slashes(p.drop_last());
        assert(p.drop_last().take(trim_slashes(p).len() as int) =~= p.take(
            trim_slashes(p).len() as int,
        ));
    } else {
        assert(p.take(p.len() as int) =~= p);
    }
}

proof fn lemma_trim_slashes_prefix(p: Seq<char>, e: int)
    requires
        0 <= e <= p.len(),
        forall|k: int| e <= k < p.len() ==> p[k] == '/',
    ensures
        trim_slashes(p) == trim_slashes(p.take(e)),
    decreases p.len() - e,
{
    if e < p.len() {
        assert(p.drop_last().take(e) =~= p.take(e));
        lemma_trim_slashes_prefix(p.drop_last(), e);
    } else {
        assert(p.take(e) =~= p);
    }
}

proof fn lemma_last_segment(t: Seq<char>, s: int)
    requires
        0 <= s <= t.len(),
        s == 0 || t[s - 1] == '/',
        forall|k: int| s <= k < t.len() ==> t[k] != '/',
    ensures
        last_segment(t) == t.subrange(s, t.len() as int),
    decreases t.len() - s,
{
    if s < t.len() {
        lemma_last_segment(t.drop_last(), s);
        assert(t.drop_last().subrange(s, t.len() - 1).push(t.last()) =~= t.subrange(
            s,
            t.len() as int,
        ));
    } else {
        assert(t.subrange(s, t.len() as int) =~= Seq::<char>::empty());
    }
}

/// The last name of path `p`, if it ends in one (as `Path::file_name`
/// gives it).
pub(crate) fn file_name(p: &[char]) -> (r: Option<Vec<char>>)
    ensures
        match file_name_of(p@) {
            Some(n) => r matches Some(v) && v@ == n,
            None => r is None,
        },
{
    let mut e: usize = p.len();
    assert(p@.take(e as int) =~= p@);
    loop
        invariant
            e <= p@.len(),
            file_name_of(p@) == file_name_of(p@.take(e as int)),
        decreases e,
    {
        let ghost q = p@.take(e as int);
        let mut t: usize = e;
        while t > 0 && p[t - 1] == '/'
            invariant
                t <= e <= p@.len(),
                forall|k: int| t <= k < e ==> p@[k] == '/',
            decreases t,
        {
            t = t - 1;
        }
        proof {
            lemma_trim_slashes_prefix(q, t as int);
            assert(q.take(t as int) =~= p@.take(t as int));
            if t > 0 {
                assert(p@.take(t as int).last() != '/');
            }
            assert(trim_slashes(p@.take(t as int)) == p@.take(t as int));
        }
        if t == 0 {
            return None;
        }
        let mut s: usize = t;
        while s > 0 && p[s - 1] != '/'
            invariant
                s <= t <= p@.len(),
                forall|k: int| s <= k < t ==> p@[k] != '/',
            decreases s,
        {
            s = s - 1;
        }
        let ghost tq = p@.take(t as int);
        proof {
            lemma_last_segment(tq, s as int);
            assert(tq.subrange(s as int, t as int) =~= p@.subrange(s as int, t as int));
        }
        let len = t - s;
        if len == 1 && p[s] == '.' {
            proof {
                assert(last_segment(tq) =~= seq!['.']);
                assert(tq.take(tq.len() - 1) =~= p@.take(s as int));
            }
            e = s;
        } else if len == 2 && p[s] == '.' && p[s + 1] == '.' {
            proof {
                assert(last_segment(tq) =~= seq!['.', '.']);
            }
            return None;
        } else {
            let mut v: Vec<char> = Vec::new();
            let mut i: usize = s;
            while i < t
                invariant
                    s <= i <= t <= p@.len(),
                    v@ == p@.subrange(s as int, i as int),
                decreases t - i,
            {
                v.push(p[i]);
                assert(v@ =~= p@.subrange(s as int, i + 1));
                i = i + 1;
            }
            proof {
                if last_segment(tq) == seq!['.'] {
                    assert(last_segment(tq).len() == 1);
                    assert(last_segment(tq)[0] == p@[s as int]);
                }
                if last_segment(tq) == seq!['.', '.'] {
                    assert(last_segment(tq).len() == 2);
                    assert(last_segment(tq)[0] == p@[s as int]);
                    assert(last_segment(tq)[1] == p@[s + 1]);
                }
            }
            return Some(v);
        }
    }
}

/// Whether `s` holds one of the characters `a`, `b` or `c`.
pub open spec fn has_any(s: Seq<char>, a: char, b: char, c: char) -> bool {
    exists|i: int| 0 <= i < s.len() && (s[i] == a || s[i] == b || s[i] == c)
}

fn contains_any(s: &[char], a: char, b: char, c: char) -> (r: bool)
    ensures
        r == has_any(s@, a, b, c),
{
    let mut i: usize = 0;
    while i < s.len()
        invariant
            i <= s@.len(),
            forall|k: int| 0 <= k < i ==> !(s@[k] == a || s@[k] == b || s@[k] == c),
        decreases s@.len() - i,
    {
        if s[i] == a || s[i] == b || s[i] == c {
            return true;
        }
        i = i + 1;
    }
    false
}

/// Whether `r` is the error `SquashError::Other` with message `m`.
pub open spec fn is_other_error(r: Result<(), SquashError>, m: Seq<char>) -> bool {
    r matches Err(SquashError::Other(s)) && s@ == m
}

/// The outcome of checking a pager command `p`: its name, or the message
/// of the error.
pub open spec fn pager_check(p: Seq<char>) -> Result<Seq<char>, Seq<char>> {
    if p.len() == 0 {
        Err("PAGER environment variable is empty!"@)
    } else if file_name_of(p) is None {
        Err("PAGER doesn't have a valid name"@)
    } else if has_any(p, ' ', '\t', '\t') {
        Err("PAGER cannot have spaces or tabs!"@)
    } else if has_any(p, '|', ';', ';') {
        Err("PAGER cannot have pipes or command separators!"@)
    } else if has_any(p, '<', '>', '&') {
        Err("PAGER cannot have file redirections!"@)
    } else {
        Ok(file_name_of(p)->0)
    }
}

impl Pager {
    /// The default pager, `/usr/bin/pager`.
    pub fn new() -> (r: Self)
        ensures
            r.command@ == "/usr/bin/pager"@,
            r.name@ == "pager"@,
            !r.from_env,
            r.pager_type is None,
    {
        Pager {
            command: String::from_str("/usr/bin/pager"),
            name: String::from_str("pager"),
            from_env: false,
            pager_type: None,
        }
    }

    /// The width of the terminal on standard output, or 80 where it cannot
    /// be read.
    pub fn get_column_width() -> (r: Result<usize, SquashError>)
        ensures
            r matches Ok(w) && 1 <= w <= 65535,
    {
        match stdout_columns() {
            Some(w) => Ok(w),
            None => Ok(80),
        }
    }

    /// Use the pager command `pager`, as the `PAGER` environment variable
    /// gives it: it must be a path that ends in a name and must not hold
    /// spaces, tabs, pipes, command separators or redirections.
    pub fn check_and_set_pager(&mut self, pager: &str) -> (r: Result<(), SquashError>)
        ensures
            match pager_check(pager@) {
                Ok(n) => r is Ok && final(self).command@ == pager@ && final(self).name@ == n
                    && final(self).from_env && final(self).pager_type == old(self).pager_type,
                Err(m) => is_other_error(r, m) && final(self).command@ == old(self).command@
                    && final(self).name@ == old(self).name@ && final(self).from_env == old(
                    self,
                ).from_env && final(self).pager_type == old(self).pager_type,
            },
    {
        let p = chars_of(pager);
        if p.len() == 0 {
            return Err(SquashError::Other(String::from_str("PAGER environment variable is empty!")));
        }
        let base = match file_name(p.as_slice()) {
            Some(b) => b,
            None => {
                return Err(SquashError::Other(String::from_str("PAGER doesn't have a valid name")));
            },
        };
        if contains_any(p.as_slice(), ' ', '\t', '\t') {
            return Err(SquashError::Other(String::from_str("PAGER cannot have spaces or tabs!")));
        }
        if contains_any(p.as_slice(), '|', ';', ';') {
            return Err(
                SquashError::Other(String::from_str("PAGER cannot have pipes or command separators!")),
            );
        }
        if contains_any(p.as_slice(), '<', '>', '&') {
            return Err(SquashError::Other(String::from_str("PAGER cannot have file redirections!")));
        }
        self.command = owned(pager);
        self.name = string_from_chars(base.as_slice());
        self.from_env = true;
        Ok(())
    }
}

/// What wrapping text has done so far: the text written, the column a
/// tab moved to (the indentation of continuation lines), the length of
/// the current line, and whether a new line is about to start.
pub struct WrapState {
    pub out: Seq<char>,
    pub tab_out: nat,
    pub length: nat,
    pub line_start: bool,
}

/// `n` tab characters.
pub open spec fn tabs(n: nat) -> Seq<char> {
    Seq::new(n, |i: int| '\t')
}

/// The next tab stop after column `length`.
pub open spec fn next_tab_stop(length: nat) -> nat {
    ((length / 8 + 1) * 8) as nat
}

/// Wrapping text `t` from position `i` on with state `s`: at the start of
/// each line the indentation is written and the line length starts at
/// zero; characters are copied while the line is at most `maxl` long, a
/// tab moving the line to the next tab stop (and setting the
/// indentation); a newline ends the line; a line grown longer than `maxl`
/// is broken, and the spaces where it broke are dropped.
pub open spec fn wrap_from(t: Seq<char>, i: nat, maxl: nat, s: WrapState) -> Seq<char>
    decreases t.len() - i, wrap_rank(s.line_start, s.length, maxl),
{
    if i >= t.len() {
        s.out
    } else if s.line_start {
        wrap_from(
            t,
            i,
            maxl,
            WrapState { out: s.out + tabs(s.tab_out), tab_out: s.tab_out, length: 0, line_start: false },
        )
    } else if t[i as int] == '\n' {
        wrap_from(
            t,
            i + 1,
            maxl,
            WrapState { out: s.out.push('\n'), tab_out: s.tab_out, length: s.length, line_start: true },
        )
    } else if s.length > maxl {
        let j = skip_spaces(t, i);
        proof {
            lemma_skip_spaces(t, i);
        }
        wrap_from(
            t,
            j,
            maxl,
            WrapState { out: s.out.push('\n'), tab_out: s.tab_out, length: s.length, line_start: true },
        )
    } else if t[i as int] == '\t' {
        let stop = next_tab_stop(s.length);
        wrap_from(
            t,
            i + 1,
            maxl,
            WrapState { out: s.out, tab_out: stop, length: stop, line_start: false },
        )
    } else {
        wrap_from(
            t,
            i + 1,
            maxl,
            WrapState {
                out: s.out.push(t[i as int]),
                tab_out: s.tab_out,
                length: s.length + 1,
                line_start: false,
            },
        )
    }
}

/// How far wrapping is from taking the next character: a line about to
/// start, a line about to break, or neither.
pub open spec fn wrap_rank(line_start: bool, length: nat, maxl: nat) -> nat {
    if line_start {
        1
    } else if length > maxl {
        2
    } else {
        0
    }
}

/// The first position at or after `i` that does not hold a space.
pub open spec fn skip_spaces(t: Seq<char>, i: nat) -> nat
    decreases t.len() - i,
{
    if i < t.len() && t[i as int] == ' ' {
        skip_spaces(t, i + 1)
    } else {
        i
    }
}

/// The text `t` wrapped at lines of at most `maxl` characters.
pub open spec fn autowrap(t: Seq<char>, maxl: nat) -> Seq<char> {
    wrap_from(t, 0, maxl, WrapState { out: Seq::empty(), tab_out: 0, length: 0, line_start: true })
}

/// Skipping spaces moves forward and stays within the text.
pub proof fn lemma_skip_spaces(t: Seq<char>, i: nat)
    ensures
        i <= skip_spaces(t, i),
        i <= t.len() ==> skip_spaces(t, i) <= t.len(),
    decreases t.len() - i,
{
    if i < t.len() && t[i as int] == ' ' {
        lemma_skip_spaces(t, i + 1);
    }
}

impl Pager {
    /// `text` wrapped at lines of at most `maxl` characters, continuation
    /// lines indented as far as the last tab stop reached.
    pub fn autowrap_print(text: &str, maxl: usize) -> (r: String)
        requires
            maxl < usize::MAX - 8,
        ensures
            r@ == autowrap(text@, maxl as nat),
    {
        let t = chars_of(text);
        let mut out = String::new();
        let mut i: usize = 0;
        let mut tab_out: usize = 0;
        let mut length: usize = 0;
        let mut line_start = true;
        while i < t.len()
            invariant
                t@ == text@,
                i <= t@.len(),
                maxl < usize::MAX - 8,
                length <= maxl + 8,
                tab_out <= maxl + 8,
                autowrap(text@, maxl as nat) == wrap_from(
                    t@,
                    i as nat,
                    maxl as nat,
                    WrapState {
                        out: out@,
                        tab_out: tab_out as nat,
                        length: length as nat,
                        line_start,
                    },
                ),
            decreases t@.len() - i, wrap_rank(line_start, length as nat, maxl as nat),
        {
            if line_start {
                let ghost o0 = out@;
                let mut k: usize = 0;
                while k < tab_out
                    invariant
                        k <= tab_out,
                        out@ == o0 + tabs(k as nat),
                    decreases tab_out - k,
                {
                    push_char(&mut out, '\t');
                    assert(o0 + tabs((k + 1) as nat) =~= (o0 + tabs(k as nat)).push('\t'));
                    k = k + 1;
                }
                length = 0;
                line_start = false;
            } else if t[i] == '\n' {
                push_char(&mut out, '\n');
                i = i + 1;
                line_start = true;
            } else if length > maxl {
                push_char(&mut out, '\n');
                let ghost i0 = i as nat;
                while i < t.len() && t[i] == ' '
                    invariant
                        i0 <= i <= t@.len(),
                        skip_spaces(t@, i0) == skip_spaces(t@, i as nat),
                    decreases t@.len() - i,
                {
                    i = i + 1;
                }
                line_start = true;
            } else if t[i] == '\t' {
                let stop = (length / 8 + 1) * 8;
                tab_out = stop;
                length = stop;
                i = i + 1;
            } else {
                push_char(&mut out, t[i]);
                length = length + 1;
                i = i + 1;
            }
        }
        out
    }
}

} // verus!
