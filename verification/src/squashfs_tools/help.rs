use vstd::prelude::*;
use vstd::utf8::encode_utf8;
use crate::error::{ErrorState, SquashError};
use crate::squashfs_tools::fnmatch::{regex_is_match, regex_search};
use crate::text::{chars_of, concat, owned, push_char, push_str, replace_all, replace_text, str_eq};

verus! {

/// The sections of the help text.
#[derive(Debug, Clone, Copy, PartialEq, Eq, Structural)]
pub enum HelpSection {
    Compression,
    Build,
    Time,
    Permissions,
    Pseudo,
    Filter,
    Xattrs,
    Runtime,
    Append,
    Actions,
    Tar,
    Expert,
    Help,
    Misc,
    PseudoDefs,
    Symbolic,
    Environment,
    Exit,
    Extra,
}

/// Whether standard output is a terminal, as `atty::is` tells it; it
/// depends on how the program was started, so nothing is claimed.
#[verifier::external_body]
pub(crate) fn stdout_is_terminal() -> bool {
    atty::is(atty::Stream::Stdout)
}

/// The width of the terminal on standard output, input or error, the
/// first of them that is one, as `term_size::dimensions` reads it; it
/// depends on the terminal, so only its range is claimed.
#[verifier::external_body]
pub(crate) fn terminal_columns() -> (r: Option<usize>)
    ensures
        r matches Some(w) ==> 1 <= w <= 65535,
{
    match term_size::dimensions() {
        Some((w, _)) => Some(w),
        None => None,
    }
}

/// The help text of a program: its name, whether help goes through a
/// pager, and the width to wrap it at.
pub struct HelpManager {
    pub prog_name: String,
    pub use_pager: bool,
    pub column_width: usize,
    pub error_state: ErrorState,
}

/// Whether a line of help text heads a section: it ends in a colon.
pub open spec fn is_header_text(t: Seq<char>) -> bool {
    t.len() > 0 && t.last() == ':'
}

impl HelpManager {
    /// The help of program `prog_name`: through a pager when standard
    /// output is a terminal, wrapped at the terminal's width (80 columns
    /// where it cannot be read).
    pub fn new(prog_name: &str) -> (r: Self)
        ensures
            r.prog_name@ == prog_name@,
            r.column_width >= 1,
            r.error_state.exit_on_error && r.error_state.display_info,
    {
        let column_width = match terminal_columns() {
            Some(w) => w,
            None => 80,
        };
        HelpManager {
            prog_name: owned(prog_name),
            use_pager: stdout_is_terminal(),
            column_width,
            error_state: ErrorState::new(),
        }
    }

    /// Whether a line of help text heads a section.
    pub fn is_header(&self, text: &str) -> (r: bool)
        ensures
            r == is_header_text(text@),
    {
        let c = chars_of(text);
        c.len() > 0 && c[c.len() - 1] == ':'
    }
}

/// The texts of some string slices.
pub open spec fn texts(v: Seq<&str>) -> Seq<Seq<char>> {
    Seq::new(v.len(), |i: int| v[i]@)
}

/// The number of section headers among `ts`.
pub open spec fn header_count(ts: Seq<Seq<char>>) -> nat
    decreases ts.len(),
{
    if ts.len() == 0 {
        0
    } else {
        header_count(ts.drop_last()) + if is_header_text(ts.last()) {
            1nat
        } else {
            0nat
        }
    }
}

/// The lines that list the section names beside their headers: each
/// header of `ts` is paired with the next name of `secs`, with one more
/// tab where the name is at most 7 bytes long.
pub open spec fn name_lines(prefix: Seq<char>, secs: Seq<Seq<char>>, ts: Seq<Seq<char>>) -> Seq<char>
    decreases ts.len(),
{
    if ts.len() == 0 {
        Seq::empty()
    } else {
        let prev = name_lines(prefix, secs, ts.drop_last());
        if is_header_text(ts.last()) {
            let name = secs[header_count(ts.drop_last()) as int];
            prev + prefix + name + seq!['\t', '\t'] + (if encode_utf8(name).len() as usize > 7 {
                Seq::<char>::empty()
            } else {
                seq!['\t']
            }) + ts.last() + seq!['\n']
        } else {
            prev
        }
    }
}

/// The list of section names: a title line, then a line per header.
pub open spec fn section_names_text(prefix: Seq<char>, secs: Seq<Seq<char>>, ts: Seq<Seq<char>>) -> Seq<char> {
    prefix + "SECTION NAME\t\tSECTION\n"@ + name_lines(prefix, secs, ts)
}

/// The lines of `ts` in section `idx` (counting from 0): those from its
/// header on, before the next header.
pub open spec fn section_lines(ts: Seq<Seq<char>>, idx: nat) -> Seq<char>
    decreases ts.len(),
{
    if ts.len() == 0 {
        Seq::empty()
    } else {
        let prev = section_lines(ts.drop_last(), idx);
        if header_count(ts) == idx + 1 {
            prev + ts.last() + seq!['\n']
        } else {
            prev
        }
    }
}

/// The index of the first name of `secs` equal to `name`.
pub open spec fn find_section(secs: Seq<Seq<char>>, name: Seq<char>) -> Option<nat>
    decreases secs.len(),
{
    if secs.len() == 0 {
        None
    } else {
        match find_section(secs.drop_last(), name) {
            Some(i) => Some(i),
            None => if secs.last() == name {
                Some((secs.len() - 1) as nat)
            } else {
                None
            },
        }
    }
}

/// The help of the options of `opts` whose name or arguments match the
/// regular expression `p`, in order, and whether any did; the text of the
/// first error of the expression.
pub open spec fn option_help(p: Seq<char>, opts: Seq<Seq<char>>, args: Seq<Seq<char>>, ts: Seq<Seq<char>>) -> Result<(Seq<char>, bool), Seq<char>>
    decreases opts.len(),
{
    if opts.len() == 0 {
        Ok((Seq::empty(), false))
    } else {
        let i = opts.len() - 1;
        match option_help(p, opts.drop_last(), args, ts) {
            Err(m) => Err(m),
            Ok((out, any)) => match regex_search(p, opts.last()) {
                Err(m) => Err(m),
                Ok(true) => Ok((out + ts[i] + seq!['\n'], true)),
                Ok(false) => match regex_search(p, args[i]) {
                    Err(m) => Err(m),
                    Ok(true) => Ok((out + ts[i] + seq!['\n'], true)),
                    Ok(false) => Ok((out, any)),
                },
            },
        }
    }
}

/// All the help lines, each followed by a line feed.
pub open spec fn all_lines(ts: Seq<Seq<char>>) -> Seq<char>
    decreases ts.len(),
{
    if ts.len() == 0 {
        Seq::empty()
    } else {
        all_lines(ts.drop_last()) + ts.last() + seq!['\n']
    }
}

fn is_header_str(text: &str) -> (r: bool)
    ensures
        r == is_header_text(text@),
{
    let c = chars_of(text);
    c.len() > 0 && c[c.len() - 1] == ':'
}

impl HelpManager {
    /// The whole help: the syntax line with `{}` replaced by the program's
    /// name, then every help line.
    pub fn print_help_all(&self, syntax: &str, options_text: &[&str]) -> (r: String)
        ensures
            r@ == replace_all(syntax@, "{}"@, self.prog_name@) + seq!['\n'] + all_lines(
                texts(options_text@),
            ),
    {
        proof {
            reveal_strlit("{}");
        }
        let mut out = replace_text(syntax, "{}", self.prog_name.as_str());
        push_char(&mut out, '\n');
        let ghost head = out@;
        let ghost ts = texts(options_text@);
        let mut i: usize = 0;
        assert(ts.take(0) =~= Seq::<Seq<char>>::empty());
        while i < options_text.len()
            invariant
                ts == texts(options_text@),
                i <= options_text@.len(),
                out@ == head + all_lines(ts.take(i as int)),
            decreases options_text@.len() - i,
        {
            assert(ts.take(i + 1).drop_last() =~= ts.take(i as int));
            push_str(&mut out, options_text[i]);
            push_char(&mut out, '\n');
            i = i + 1;
        }
        assert(ts.take(ts.len() as int) =~= ts);
        out
    }

    /// The message reported where no option matches.
    pub fn option_mismatch_message(&self, opt_name: &str, pattern: &str) -> (r: String)
        ensures
            r@ == self.prog_name@ + ": "@ + opt_name@ + " "@ + pattern@ + " does not match any "@
                + self.prog_name@ + " option"@,
    {
        let mut m = owned(self.prog_name.as_str());
        push_str(&mut m, ": ");
        push_str(&mut m, opt_name);
        push_str(&mut m, " ");
        push_str(&mut m, pattern);
        push_str(&mut m, " does not match any ");
        push_str(&mut m, self.prog_name.as_str());
        push_str(&mut m, " option");
        m
    }

    /// The help of the options whose name or arguments match the regular
    /// expression `pattern`; an error where the expression is invalid or
    /// nothing matches.
    pub fn print_option(
        &self,
        opt_name: &str,
        pattern: &str,
        options: &[&str],
        options_args: &[&str],
        options_text: &[&str],
    ) -> (r: Result<String, SquashError>)
        requires
            options_args@.len() >= options@.len(),
            options_text@.len() >= options@.len(),
        ensures
            match regex_search(pattern@, ""@) {
                Err(m) => r matches Err(SquashError::Other(t)) && t@ == "Invalid regex pattern: "@ + m,
                Ok(_) => match option_help(
                    pattern@,
                    texts(options@),
                    texts(options_args@),
                    texts(options_text@),
                ) {
                    Err(m) => r matches Err(SquashError::Other(t)) && t@ == "Invalid regex pattern: "@ + m,
                    Ok((out, true)) => r matches Ok(s) && s@ == out,
                    Ok((_, false)) => r matches Err(SquashError::Other(t)) && t@ == "No matching options found"@,
                },
            },
    {
        proof {
            reveal_strlit("");
        }
        match regex_is_match(pattern, "") {
            Err(m) => {
                return Err(SquashError::Other(concat("Invalid regex pattern: ", m.as_str())));
            },
            Ok(_) => {},
        }
        let ghost os = texts(options@);
        let ghost as_ = texts(options_args@);
        let ghost ts = texts(options_text@);
        let mut out = String::new();
        let mut matched = false;
        let mut i: usize = 0;
        assert(os.take(0) =~= Seq::<Seq<char>>::empty());
        while i < options.len()
            invariant
                os == texts(options@),
                as_ == texts(options_args@),
                ts == texts(options_text@),
                options_args@.len() >= options@.len(),
                options_text@.len() >= options@.len(),
                i <= options@.len(),
                option_help(pattern@, os.take(i as int), as_, ts) == Ok::<(Seq<char>, bool), Seq<char>>(
                    (out@, matched),
                ),
                regex_search(pattern@, ""@) is Ok,
            decreases options@.len() - i,
        {
            assert(os.take(i + 1).drop_last() =~= os.take(i as int));
            assert(os.take(i + 1).last() == options@[i as int]@);
            proof {
                lemma_option_help_error_stays(pattern@, os, as_, ts, i + 1);
            }
            let hit = match regex_is_match(pattern, options[i]) {
                Err(m) => {
                    return Err(SquashError::Other(concat("Invalid regex pattern: ", m.as_str())));
                },
                Ok(true) => true,
                Ok(false) => match regex_is_match(pattern, options_args[i]) {
                    Err(m) => {
                        return Err(SquashError::Other(concat("Invalid regex pattern: ", m.as_str())));
                    },
                    Ok(b) => b,
                },
            };
            if hit {
                let ghost o = out@;
                matched = true;
                push_str(&mut out, options_text[i]);
                push_char(&mut out, '\n');
                assert(out@ =~= o + ts[i as int] + seq!['\n']);
            }
            i = i + 1;
        }
        assert(os.take(os.len() as int) =~= os);
        if !matched {
            return Err(SquashError::Other(String::from_str("No matching options found")));
        }
        Ok(out)
    }

    /// The list of section names beside their headers.
    pub fn print_section_names(&self, prefix: &str, sections: &[&str], options_text: &[&str]) -> (r: String)
        requires
            header_count(texts(options_text@)) <= sections@.len(),
        ensures
            r@ == section_names_text(prefix@, texts(sections@), texts(options_text@)),
    {
        let mut out = owned(prefix);
        push_str(&mut out, "SECTION NAME\t\tSECTION\n");
        let ghost head = out@;
        let ghost ts = texts(options_text@);
        let ghost ss = texts(sections@);
        let mut idx: usize = 0;
        let mut i: usize = 0;
        assert(ts.take(0) =~= Seq::<Seq<char>>::empty());
        while i < options_text.len()
            invariant
                ts == texts(options_text@),
                ss == texts(sections@),
                header_count(ts) <= sections@.len(),
                i <= options_text@.len(),
                idx == header_count(ts.take(i as int)),
                out@ == head + name_lines(prefix@, ss, ts.take(i as int)),
            decreases options_text@.len() - i,
        {
            let ghost t = ts.take(i + 1);
            assert(t.drop_last() =~= ts.take(i as int));
            assert(t.last() == options_text@[i as int]@);
            proof {
                lemma_header_count_prefix(ts, i + 1);
            }
            if is_header_str(options_text[i]) {
                let name = sections[idx];
                let ghost before = out@;
                push_str(&mut out, prefix);
                assert(name@ == ss[header_count(ts.take(i as int)) as int]);
                push_str(&mut out, name);
                push_char(&mut out, '\t');
                push_char(&mut out, '\t');
                if !(name.len() > 7) {
                    push_char(&mut out, '\t');
                }
                push_str(&mut out, options_text[i]);
                push_char(&mut out, '\n');
                assert(out@ =~= before + prefix@ + name@ + seq!['\t', '\t'] + (if encode_utf8(name@).len() as usize > 7 {
                    Seq::<char>::empty()
                } else {
                    seq!['\t']
                }) + t.last() + seq!['\n']);
                idx = idx + 1;
            }
            i = i + 1;
        }
        assert(ts.take(ts.len() as int) =~= ts);
        out
    }

    /// The help of section `sec_name`, or with `sections` or `h` the list of
    /// section names; an error for an unknown section.
    pub fn print_section(
        &self,
        opt_name: &str,
        sec_name: &str,
        sections: &[&str],
        options_text: &[&str],
    ) -> (r: Result<String, SquashError>)
        requires
            header_count(texts(options_text@)) <= sections@.len(),
        ensures
            sec_name@ == "sections"@ || sec_name@ == "h"@ ==> (r matches Ok(s) && s@
                == "\nUse following section name to print "@ + self.prog_name@
                + " help information for that section\n\n"@ + section_names_text(
                Seq::empty(),
                texts(sections@),
                texts(options_text@),
            )),
            !(sec_name@ == "sections"@ || sec_name@ == "h"@) ==> match find_section(
                texts(sections@),
                sec_name@,
            ) {
                None => r matches Err(SquashError::Other(m)) && m@ == "Section '"@ + sec_name@
                    + "' not found"@,
                Some(idx) => r matches Ok(s) && s@ == section_lines(texts(options_text@), idx),
            },
    {
        proof {
            reveal_strlit("sections");
            reveal_strlit("h");
            reveal_strlit("");
        }
        if str_eq(sec_name, "sections") || str_eq(sec_name, "h") {
            let mut out = String::from_str("\nUse following section name to print ");
            push_str(&mut out, self.prog_name.as_str());
            push_str(&mut out, " help information for that section\n\n");
            let names = self.print_section_names("", sections, options_text);
            assert(""@ =~= Seq::<char>::empty());
            push_str(&mut out, names.as_str());
            return Ok(out);
        }
        let ghost ss = texts(sections@);
        let slen = sections.len();
        let mut k: usize = 0;
        let mut found: Option<usize> = None;
        assert(ss.take(0) =~= Seq::<Seq<char>>::empty());
        while k < sections.len()
            invariant
                ss == texts(sections@),
                found matches Some(i) ==> i < sections@.len(),
                k <= sections@.len(),
                found == (match find_section(ss.take(k as int), sec_name@) {
                    Some(i) => Some(i as usize),
                    None => None::<usize>,
                }),
                found matches Some(i) ==> i < k,
            decreases sections@.len() - k,
        {
            assert(ss.take(k + 1).drop_last() =~= ss.take(k as int));
            proof {
                lemma_find_section_bound(ss.take(k as int), sec_name@);
            }
            if found.is_none() && str_eq(sections[k], sec_name) {
                found = Some(k);
            }
            k = k + 1;
        }
        assert(ss.take(ss.len() as int) =~= ss);
        proof {
            lemma_find_section_bound(ss, sec_name@);
        }
        let idx = match found {
            None => {
                let mut m = String::from_str("Section '");
                push_str(&mut m, sec_name);
                push_str(&mut m, "' not found");
                return Err(SquashError::Other(m));
            },
            Some(i) => i,
        };
        let ghost ts = texts(options_text@);
        let mut out = String::new();
        let mut current: usize = 0;
        let mut i: usize = 0;
        assert(ts.take(0) =~= Seq::<Seq<char>>::empty());
        while i < options_text.len()
            invariant
                ts == texts(options_text@),
                idx < slen,
                i <= options_text@.len(),
                current == header_count(ts.take(i as int)),
                current <= i,
                out@ == section_lines(ts.take(i as int), idx as nat),
            decreases options_text@.len() - i,
        {
            let ghost t = ts.take(i + 1);
            assert(t.drop_last() =~= ts.take(i as int));
            assert(t.last() == options_text@[i as int]@);
            if is_header_str(options_text[i]) {
                current = current + 1;
            }
            if current == idx + 1 {
                push_str(&mut out, options_text[i]);
                push_char(&mut out, '\n');
            }
            i = i + 1;
        }
        assert(ts.take(ts.len() as int) =~= ts);
        Ok(out)
    }
}

proof fn lemma_header_count_prefix(ts: Seq<Seq<char>>, n: int)
    requires
        0 <= n <= ts.len(),
    ensures
        header_count(ts.take(n)) <= header_count(ts),
    decreases ts.len() - n,
{
    if n < ts.len() {
        lemma_header_count_prefix(ts, n + 1);
        assert(ts.take(n + 1).drop_last() =~= ts.take(n));
    } else {
        assert(ts.take(n) =~= ts);
    }
}

proof fn lemma_option_help_error_stays(p: Seq<char>, os: Seq<Seq<char>>, args: Seq<Seq<char>>, ts: Seq<Seq<char>>, k: int)
    requires
        0 <= k <= os.len(),
    ensures
        option_help(p, os.take(k), args, ts) is Err ==> option_help(p, os, args, ts) == option_help(p, os.take(k), args, ts),
    decreases os.len() - k,
{
    if k < os.len() {
        lemma_option_help_error_stays(p, os, args, ts, k + 1);
        assert(os.take(k + 1).drop_last() =~= os.take(k));
    } else {
        assert(os.take(k) =~= os);
    }
}

proof fn lemma_find_section_bound(secs: Seq<Seq<char>>, name: Seq<char>)
    ensures
        find_section(secs, name) matches Some(i) ==> i < secs.len(),
    decreases secs.len(),
{
    if secs.len() > 0 {
        lemma_find_section_bound(secs.drop_last(), name);
    }
}

} // verus!
