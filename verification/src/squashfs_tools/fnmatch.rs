use vstd::prelude::*;
use crate::text::{chars_of, concat, push_char, push_str};

verus! {

/// Treat a backslash as an ordinary character.
pub const FNM_NOESCAPE: i32 = 0x01;
/// A slash in the string must be matched by a slash in the pattern.
pub const FNM_PATHNAME: i32 = 0x02;
/// A leading period must be matched by a period in the pattern.
pub const FNM_PERIOD: i32 = 0x04;
/// Ignore a trailing `/...` after a match.
pub const FNM_LEADING_DIR: i32 = 0x08;
/// Compare without regard to case.
pub const FNM_CASEFOLD: i32 = 0x10;
/// Allow extended patterns.
pub const FNM_EXTMATCH: i32 = 0x20;
/// The value returned when the string does not match.
pub const FNM_NOMATCH: i32 = 1;
/// The value returned when the string matches.
pub const FNM_MATCH: i32 = 0;

/// The flags `fnmatch` knows.
pub const FNM_ALL_FLAGS: i32 = 0x3f;

/// Errors of pattern matching.
#[derive(Debug, Clone, PartialEq, Eq)]
pub enum FnmatchError {
    InvalidPattern(String),
    InvalidFlags(String),
    Other(String),
}

impl FnmatchError {
    /// The message that describes the error.
    pub fn message(&self) -> (r: String)
        ensures
            match self {
                FnmatchError::InvalidPattern(m) => r@ == "Invalid pattern: "@ + m@,
                FnmatchError::InvalidFlags(m) => r@ == "Invalid flags: "@ + m@,
                FnmatchError::Other(m) => r@ == "Error: "@ + m@,
            },
    {
        match self {
            FnmatchError::InvalidPattern(m) => concat("Invalid pattern: ", m.as_str()),
            FnmatchError::InvalidFlags(m) => concat("Invalid flags: ", m.as_str()),
            FnmatchError::Other(m) => concat("Error: ", m.as_str()),
        }
    }
}

/// The number of characters of `s` before its first `]`, or its length if
/// it has none.
pub open spec fn bracket_len(s: Seq<char>) -> nat
    decreases s.len(),
{
    if s.len() == 0 {
        0
    } else if s[0] == ']' {
        0
    } else {
        1 + bracket_len(s.drop_first())
    }
}

/// `o` with `pre` in front, if there is one.
pub open spec fn with_prefix(pre: Seq<char>, o: Option<Seq<char>>) -> Option<Seq<char>> {
    match o {
        Some(x) => Some(pre + x),
        None => None,
    }
}

/// The regular expression for a shell pattern: `*` becomes `.*`, `?`
/// becomes `.`, a bracket expression is kept up to its closing `]` (or to
/// the end), a backslash keeps the character after it escaped, and every
/// other character stands for itself. A backslash at the end leaves none.
pub open spec fn glob_regex(p: Seq<char>) -> Option<Seq<char>>
    decreases p.len(),
{
    if p.len() == 0 {
        Some(Seq::empty())
    } else if p[0] == '*' {
        with_prefix(seq!['.', '*'], glob_regex(p.drop_first()))
    } else if p[0] == '?' {
        with_prefix(seq!['.'], glob_regex(p.drop_first()))
    } else if p[0] == '[' {
        let t = p.drop_first();
        let n = bracket_len(t);
        if n < t.len() {
            with_prefix(seq!['['] + t.take(n as int) + seq![']'], glob_regex(t.skip((n + 1) as int)))
        } else {
            Some(seq!['['] + t)
        }
    } else if p[0] == '\\' {
        if p.len() >= 2 {
            with_prefix(seq!['\\', p[1]], glob_regex(p.skip(2)))
        } else {
            None
        }
    } else {
        with_prefix(seq![p[0]], glob_regex(p.drop_first()))
    }
}

/// The regular expression that one pattern character stands for, outside
/// brackets and escapes: any run for `*`, exactly one character for `?`,
/// itself otherwise.
pub open spec fn char_regex(c: char) -> Seq<char> {
    if c == '*' {
        seq!['.', '*']
    } else if c == '?' {
        seq!['.']
    } else {
        seq![c]
    }
}

/// The pieces of `char_regex` for the characters of `p`, one after the
/// other.
pub open spec fn chars_regex(p: Seq<char>) -> Seq<char>
    decreases p.len(),
{
    if p.len() == 0 {
        Seq::empty()
    } else {
        chars_regex(p.drop_last()) + char_regex(p.last())
    }
}

proof fn lemma_chars_regex_front(c: char, q: Seq<char>)
    ensures
        chars_regex(seq![c] + q) == char_regex(c) + chars_regex(q),
    decreases q.len(),
{
    if q.len() == 0 {
        assert(seq![c] + q =~= seq![c]);
        assert(seq![c].drop_last() =~= Seq::<char>::empty());
        assert(seq![c].last() == c);
        assert(chars_regex(Seq::<char>::empty()) == Seq::<char>::empty());
        assert(chars_regex(q) == Seq::<char>::empty());
        assert(chars_regex(seq![c]) == chars_regex(seq![c].drop_last()) + char_regex(c));
        assert(Seq::<char>::empty() + char_regex(c) =~= char_regex(c) + Seq::<char>::empty());
    } else {
        lemma_chars_regex_front(c, q.drop_last());
        assert((seq![c] + q).drop_last() =~= seq![c] + q.drop_last());
        assert((seq![c] + q).last() == q.last());
        assert(char_regex(c) + chars_regex(q.drop_last()) + char_regex(q.last()) =~= char_regex(c) + (
        chars_regex(q.drop_last()) + char_regex(q.last())));
    }
}

/// A pattern without brackets or backslashes translates character by
/// character: each `*` to `.*`, each `?` to exactly one `.`, and every
/// other character to itself, in order.
pub proof fn law_plain_pattern_regex(p: Seq<char>)
    requires
        !p.contains('['),
        !p.contains('\\'),
    ensures
        glob_regex(p) == Some(chars_regex(p)),
    decreases p.len(),
{
    if p.len() > 0 {
        let q = p.drop_first();
        assert(!q.contains('[')) by {
            if q.contains('[') {
                let j = choose|j: int| 0 <= j < q.len() && q[j] == '[';
                assert(p[j + 1] == '[');
            }
        }
        assert(!q.contains('\\')) by {
            if q.contains('\\') {
                let j = choose|j: int| 0 <= j < q.len() && q[j] == '\\';
                assert(p[j + 1] == '\\');
            }
        }
        assert(p[0] != '[' && p[0] != '\\');
        law_plain_pattern_regex(q);
        assert(p =~= seq![p[0]] + q);
        lemma_chars_regex_front(p[0], q);
    }
}

/// `?` matches exactly one character: the pattern `?` is the regular
/// expression `.`, and a `?` added to a pattern without brackets or
/// backslashes adds exactly `.` to its regular expression.
pub proof fn law_question_mark_is_one_char(p: Seq<char>)
    requires
        !p.contains('['),
        !p.contains('\\'),
    ensures
        glob_regex(seq!['?']) == Some(seq!['.']),
        glob_regex(p) is Some,
        glob_regex(p.push('?')) == Some(glob_regex(p)->0 + seq!['.']),
{
    law_plain_pattern_regex(p);
    assert(!p.push('?').contains('[')) by {
        if p.push('?').contains('[') {
            let j = choose|j: int| 0 <= j < p.push('?').len() && p.push('?')[j] == '[';
            assert(p[j] == '[');
        }
    }
    assert(!p.push('?').contains('\\')) by {
        if p.push('?').contains('\\') {
            let j = choose|j: int| 0 <= j < p.push('?').len() && p.push('?')[j] == '\\';
            assert(p[j] == '\\');
        }
    }
    law_plain_pattern_regex(p.push('?'));
    assert(p.push('?').drop_last() =~= p);
    assert(!seq!['?'].contains('[')) by {
        if seq!['?'].contains('[') {
            let j = choose|j: int| 0 <= j < 1 && seq!['?'][j] == '[';
        }
    }
    assert(!seq!['?'].contains('\\')) by {
        if seq!['?'].contains('\\') {
            let j = choose|j: int| 0 <= j < 1 && seq!['?'][j] == '\\';
        }
    }
    law_plain_pattern_regex(seq!['?']);
    assert(seq!['?'].drop_last() =~= Seq::<char>::empty());
    assert(seq!['?'].last() == '?');
    assert(chars_regex(Seq::<char>::empty()) == Seq::<char>::empty());
    assert(chars_regex(seq!['?']) == chars_regex(seq!['?'].drop_last()) + char_regex('?'));
    assert(Seq::<char>::empty() + seq!['.'] =~= seq!['.']);
}

proof fn lemma_bracket_scan(t: Seq<char>, k: int)
    requires
        0 <= k <= t.len(),
        forall|m: int| 0 <= m < k ==> t[m] != ']',
    ensures
        bracket_len(t) == k + bracket_len(t.skip(k)),
    decreases k,
{
    if k > 0 {
        lemma_bracket_scan(t.drop_first(), k - 1);
        assert(t.drop_first().skip(k - 1) =~= t.skip(k));
    } else {
        assert(t.skip(0) =~= t);
    }
}

/// The regular expression for the shell pattern `pattern`; an error for a
/// pattern that ends in a lone backslash.
pub fn convert_pattern_to_regex(pattern: &str) -> (r: Result<String, FnmatchError>)
    ensures
        match glob_regex(pattern@) {
            Some(x) => r matches Ok(s) && s@ == x,
            None => r matches Err(FnmatchError::InvalidPattern(m)) && m@
                == "Invalid escape sequence"@,
        },
{
    let p = chars_of(pattern);
    let mut regex = String::new();
    let mut i: usize = 0;
    assert(p@.skip(0) =~= p@);
    while i < p.len()
        invariant
            p@ == pattern@,
            i <= p@.len(),
            glob_regex(pattern@) == with_prefix(regex@, glob_regex(p@.skip(i as int))),
        decreases p@.len() - i,
    {
        let ghost rest = p@.skip(i as int);
        let ghost r0 = regex@;
        let c = p[i];
        assert(rest[0] == c);
        if c == '*' {
            push_str(&mut regex, ".*");
            proof {
                reveal_strlit(".*");
                assert(rest.drop_first() =~= p@.skip(i + 1));
                match glob_regex(p@.skip(i + 1)) {
                    Some(x) => assert(r0 + (seq!['.', '*'] + x) =~= regex@ + x),
                    None => {},
                }
            }
            i = i + 1;
        } else if c == '?' {
            push_char(&mut regex, '.');
            proof {
                assert(rest.drop_first() =~= p@.skip(i + 1));
                match glob_regex(p@.skip(i + 1)) {
                    Some(x) => assert(r0 + (seq!['.'] + x) =~= regex@ + x),
                    None => {},
                }
            }
            i = i + 1;
        } else if c == '[' {
            push_char(&mut regex, '[');
            let ghost t = rest.drop_first();
            let mut j: usize = i + 1;
            while j < p.len() && p[j] != ']'
                invariant
                    p@ == pattern@,
                    i < j <= p@.len(),
                    t == p@.skip(i + 1),
                    forall|m: int| 0 <= m < j - (i + 1) ==> t[m] != ']',
                    regex@ == r0 + seq!['['] + t.take(j - (i + 1)),
                decreases p@.len() - j,
            {
                push_char(&mut regex, p[j]);
                proof {
                    assert(t.take(j - (i + 1)).push(p@[j as int]) =~= t.take(j + 1 - (i + 1)));
                    assert(r0 + seq!['['] + t.take(j - (i + 1)) + seq![p@[j as int]] =~= r0
                        + seq!['['] + t.take(j + 1 - (i + 1)));
                }
                j = j + 1;
            }
            proof {
                let k = j - (i + 1);
                lemma_bracket_scan(t, k);
                if j < p@.len() {
                    assert(t.skip(k)[0] == ']');
                    assert(bracket_len(t) == k);
                } else {
                    assert(t.skip(k) =~= Seq::<char>::empty());
                    assert(t.take(k) =~= t);
                }
            }
            if j < p.len() {
                push_char(&mut regex, ']');
                proof {
                    let k = j - (i + 1);
                    assert(t.skip(k + 1) =~= p@.skip(j + 1));
                    match glob_regex(p@.skip(j + 1)) {
                        Some(x) => assert(r0 + (seq!['['] + t.take(k) + seq![']'] + x) =~= regex@
                            + x),
                        None => {},
                    }
                }
                i = j + 1;
            } else {
                proof {
                    assert(p@.skip(p@.len() as int) =~= Seq::<char>::empty());
                    assert(r0 + (seq!['['] + t) =~= regex@ + Seq::<char>::empty());
                }
                i = j;
            }
        } else if c == '\\' {
            if i + 1 < p.len() {
                push_char(&mut regex, '\\');
                push_char(&mut regex, p[i + 1]);
                proof {
                    assert(rest[1] == p@[i + 1]);
                    assert(rest.skip(2) =~= p@.skip(i + 2));
                    match glob_regex(p@.skip(i + 2)) {
                        Some(x) => assert(r0 + (seq!['\\', p@[i + 1]] + x) =~= regex@ + x),
                        None => {},
                    }
                }
                i = i + 2;
            } else {
                return Err(FnmatchError::InvalidPattern(String::from_str("Invalid escape sequence")));
            }
        } else {
            push_char(&mut regex, c);
            proof {
                assert(rest.drop_first() =~= p@.skip(i + 1));
                match glob_regex(p@.skip(i + 1)) {
                    Some(x) => assert(r0 + (seq![c] + x) =~= regex@ + x),
                    None => {},
                }
            }
            i = i + 1;
        }
    }
    proof {
        assert(p@.skip(p@.len() as int) =~= Seq::<char>::empty());
        assert(regex@ + Seq::<char>::empty() =~= regex@);
    }
    Ok(regex)
}

/// Whether the `regex` crate finds a match of regular expression `pattern`
/// somewhere in `text`; the text of its error where `pattern` is not a
/// valid expression.
pub uninterp spec fn regex_search(pattern: Seq<char>, text: Seq<char>) -> Result<bool, Seq<char>>;

/// Compile `pattern` with `regex::Regex::new` and, if it compiles, test
/// `text` with `is_match`; otherwise the text of the error.
#[verifier::external_body]
pub(crate) fn regex_is_match(pattern: &str, text: &str) -> (r: Result<bool, String>)
    ensures
        match r {
            Ok(b) => regex_search(pattern@, text@) matches Ok(x) && x == b,
            Err(m) => regex_search(pattern@, text@) matches Err(t) && t == m@,
        },
{
    match regex::Regex::new(pattern) {
        Ok(re) => Ok(re.is_match(text)),
        Err(e) => Err(e.to_string()),
    }
}

/// The lower-case form of a string, as `str::to_lowercase` gives it.
pub uninterp spec fn lowercase(s: Seq<char>) -> Seq<char>;

/// `str::to_lowercase`.
#[verifier::external_body]
fn to_lowercase(s: &str) -> (r: String)
    ensures
        r@ == lowercase(s@),
{
    s.to_lowercase()
}

/// The outcome of `fnmatch` once the flags are known to be valid and the
/// pattern has been turned into a regular expression.
pub open spec fn fnmatch_outcome(regex: Seq<char>, string: Seq<char>, flags: i32) -> Result<bool, Seq<char>> {
    if flags & FNM_CASEFOLD != 0 {
        regex_search(lowercase(regex), lowercase(string))
    } else {
        regex_search(regex, string)
    }
}

/// Whether `string` holds a match of the shell pattern `pattern`:
/// `FNM_MATCH` or `FNM_NOMATCH`. With `FNM_CASEFOLD` case is ignored.
/// Unknown flags, a pattern that ends in a lone backslash, and a pattern
/// whose regular expression does not compile are errors.
pub fn fnmatch(pattern: &str, string: &str, flags: i32) -> (r: Result<i32, FnmatchError>)
    ensures
        flags & !FNM_ALL_FLAGS != 0 ==> (r matches Err(FnmatchError::InvalidFlags(m)) && m@
            == "Invalid flags specified"@),
        flags & !FNM_ALL_FLAGS == 0 ==> match glob_regex(pattern@) {
            None => r matches Err(FnmatchError::InvalidPattern(_)),
            Some(x) => match fnmatch_outcome(x, string@, flags) {
                Ok(true) => r == Ok::<i32, FnmatchError>(FNM_MATCH),
                Ok(false) => r == Ok::<i32, FnmatchError>(FNM_NOMATCH),
                Err(_) => r matches Err(FnmatchError::InvalidPattern(m)) && m@
                    == "Invalid regular expression"@,
            },
        },
{
    if flags & !FNM_ALL_FLAGS != 0 {
        return Err(FnmatchError::InvalidFlags(String::from_str("Invalid flags specified")));
    }
    let regex = match convert_pattern_to_regex(pattern) {
        Ok(x) => x,
        Err(e) => {
            return Err(e);
        },
    };
    let outcome = if flags & FNM_CASEFOLD != 0 {
        let p = to_lowercase(regex.as_str());
        let s = to_lowercase(string);
        regex_is_match(p.as_str(), s.as_str())
    } else {
        regex_is_match(regex.as_str(), string)
    };
    match outcome {
        Ok(true) => Ok(FNM_MATCH),
        Ok(false) => Ok(FNM_NOMATCH),
        Err(_) => Err(FnmatchError::InvalidPattern(String::from_str("Invalid regular expression"))),
    }
}

} // verus!
