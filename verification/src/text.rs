use vstd::prelude::*;

verus! {

/// The characters of `s`, in order.
pub fn chars_of(s: &str) -> (r: Vec<char>)
    ensures
        r@ == s@,
{
    let mut r: Vec<char> = Vec::new();
    for c in it: s.chars()
        invariant
            r@ == it.seq().take(it.index() as int),
            it.seq() == s@,
    {
        r.push(c);
    }
    r
}

/// Append one character to a string (`String::push`).
#[verifier::external_body]
pub(crate) fn push_char(s: &mut String, c: char)
    ensures
        final(s)@ == old(s)@.push(c),
{
    s.push(c);
}

/// Append a string slice to a string (`String::push_str`).
#[verifier::external_body]
pub(crate) fn push_str(s: &mut String, t: &str)
    ensures
        final(s)@ == old(s)@ + t@,
{
    s.push_str(t);
}

/// A string holding exactly the characters of `v`.
pub fn string_from_chars(v: &[char]) -> (r: String)
    ensures
        r@ == v@,
{
    let mut r = String::new();
    let mut i: usize = 0;
    while i < v.len()
        invariant
            i <= v@.len(),
            r@ == v@.take(i as int),
        decreases v@.len() - i,
    {
        push_char(&mut r, v[i]);
        proof {
            assert(v@.take(i as int).push(v@[i as int]) =~= v@.take(i + 1));
        }
        i = i + 1;
    }
    proof {
        assert(v@.take(v@.len() as int) =~= v@);
    }
    r
}

/// `a` followed by `b`, as a new string.
pub fn concat(a: &str, b: &str) -> (r: String)
    ensures
        r@ == a@ + b@,
{
    let mut r = String::from_str(a);
    push_str(&mut r, b);
    r
}

/// A fresh string with the characters of `s` (`str::to_string`).
pub fn owned(s: &str) -> (r: String)
    ensures
        r@ == s@,
{
    let v = chars_of(s);
    string_from_chars(v.as_slice())
}

/// Whether two character sequences are equal.
pub fn chars_eq(a: &[char], b: &[char]) -> (r: bool)
    ensures
        r == (a@ == b@),
{
    if a.len() != b.len() {
        return false;
    }
    let mut i: usize = 0;
    while i < a.len()
        invariant
            a@.len() == b@.len(),
            i <= a@.len(),
            forall|k: int| 0 <= k < i ==> a@[k] == b@[k],
        decreases a@.len() - i,
    {
        if a[i] != b[i] {
            return false;
        }
        i = i + 1;
    }
    proof {
        assert(a@ =~= b@);
    }
    true
}

/// Whether two strings have the same characters.
pub fn str_eq(a: &str, b: &str) -> (r: bool)
    ensures
        r == (a@ == b@),
{
    let x = chars_of(a);
    let y = chars_of(b);
    chars_eq(x.as_slice(), y.as_slice())
}

/// Whether `c` is an ASCII decimal digit.
pub open spec fn is_digit(c: char) -> bool {
    '0' <= c && c <= '9'
}

/// The value of an ASCII decimal digit.
pub open spec fn digit_value(c: char) -> int {
    c as int - '0' as int
}

/// Whether every character of `s` is an ASCII decimal digit.
pub open spec fn all_digits(s: Seq<char>) -> bool {
    forall|i: int| 0 <= i < s.len() ==> is_digit(#[trigger] s[i])
}

/// The number written by the decimal digits `s` (most significant first).
pub open spec fn digits_value(s: Seq<char>) -> nat
    decreases s.len(),
{
    if s.len() == 0 {
        0
    } else {
        (digits_value(s.drop_last()) * 10 + (digit_value(s.last()) as nat)) as nat
    }
}

/// The digit character for a value below ten.
pub open spec fn digit_char(d: nat) -> char {
    (('0' as int) + d) as char
}

/// The shortest decimal representation of `n`.
pub open spec fn decimal(n: nat) -> Seq<char>
    decreases n,
{
    if n < 10 {
        seq![digit_char(n)]
    } else {
        decimal(n / 10).push(digit_char(n % 10))
    }
}

/// The decimal representation of a signed number, with a leading '-' when negative.
pub open spec fn signed_decimal(n: int) -> Seq<char> {
    if n < 0 {
        seq!['-'] + decimal((-n) as nat)
    } else {
        decimal(n as nat)
    }
}

proof fn lemma_decimal_len(n: nat)
    ensures
        decimal(n).len() >= 1,
    decreases n,
{
    if n >= 10 {
        lemma_decimal_len(n / 10);
    }
}

/// Ten raised to `k`.
pub open spec fn pow10(k: nat) -> nat
    decreases k,
{
    if k == 0 {
        1
    } else {
        10 * pow10((k - 1) as nat)
    }
}

/// A number below ten raised to `k` has at most `k` digits.
pub proof fn lemma_decimal_len_le(n: nat, k: nat)
    requires
        1 <= k,
        n < pow10(k),
    ensures
        decimal(n).len() <= k,
    decreases k,
{
    if n >= 10 {
        assert(n / 10 < pow10((k - 1) as nat)) by (nonlinear_arith)
            requires
                n < pow10(k),
                pow10(k) == 10 * pow10((k - 1) as nat),
        ;
        if k == 1 {
            assert(pow10(0) == 1);
        }
        lemma_decimal_len_le(n / 10, (k - 1) as nat);
    }
}

/// A 64-bit number has at most 20 digits.
pub proof fn lemma_u64_decimal_len(n: u64)
    ensures
        decimal(n as nat).len() <= 20,
{
    reveal_with_fuel(pow10, 21);
    assert(pow10(20) == 100000000000000000000);
    lemma_decimal_len_le(n as nat, 20);
}

/// The decimal representation of `n` (`u64::to_string`).
pub fn u64_to_decimal(n: u64) -> (r: String)
    ensures
        r@ == decimal(n as nat),
{
    let mut digits: Vec<char> = Vec::new();
    let mut m: u64 = n;
    // digits collects the representation of n backwards; decimal(m) + rev(digits) == decimal(n)
    let ghost mut tail: Seq<char> = Seq::empty();
    while m >= 10
        invariant
            decimal(m as nat) + tail == decimal(n as nat),
            digits@ == tail.reverse(),
        decreases m,
    {
        let d: u64 = m % 10;
        let c: char = (('0' as u8) + (d as u8)) as char;
        proof {
            assert(c == digit_char(d as nat));
            assert(decimal(m as nat) == decimal((m / 10) as nat).push(c));
            assert(decimal((m / 10) as nat).push(c) + tail =~= decimal((m / 10) as nat) + (seq![c] + tail));
            assert((seq![c] + tail).reverse() =~= tail.reverse().push(c));
            tail = seq![c] + tail;
        }
        digits.push(c);
        m = m / 10;
    }
    let c: char = (('0' as u8) + (m as u8)) as char;
    proof {
        assert(c == digit_char(m as nat));
        assert((seq![c] + tail).reverse() =~= tail.reverse().push(c));
        tail = seq![c] + tail;
    }
    digits.push(c);
    let mut r = String::new();
    let mut i: usize = digits.len();
    while i > 0
        invariant
            i <= digits@.len(),
            digits@ == tail.reverse(),
            tail == decimal(n as nat),
            r@ == tail.take(digits@.len() - i),
        decreases i,
    {
        i = i - 1;
        push_char(&mut r, digits[i]);
        proof {
            assert(tail.take(digits@.len() - (i + 1)).push(digits@[i as int]) =~= tail.take(
                digits@.len() - i,
            ));
        }
    }
    proof {
        assert(tail.take(digits@.len() as int) =~= tail);
    }
    r
}

/// The decimal representation of `n` (`i64::to_string`).
pub fn i64_to_decimal(n: i64) -> (r: String)
    ensures
        r@ == signed_decimal(n as int),
{
    if n < 0 {
        let mag: u64 = if n == i64::MIN {
            9223372036854775808u64
        } else {
            (-n) as u64
        };
        let digits = u64_to_decimal(mag);
        let mut r = String::new();
        push_char(&mut r, '-');
        push_str(&mut r, digits.as_str());
        r
    } else {
        u64_to_decimal(n as u64)
    }
}

/// Why a string does not hold a decimal integer of the wanted type.
#[derive(Debug, Clone, Copy, PartialEq, Eq)]
pub enum IntParseError {
    /// The string is empty.
    Empty,
    /// A character is not a digit where one is needed.
    InvalidDigit,
    /// The number is above the largest value of the type.
    PosOverflow,
    /// The number is below the smallest value of the type.
    NegOverflow,
}

/// The message that the standard library gives for each parse error.
pub open spec fn int_parse_message(e: IntParseError) -> Seq<char> {
    match e {
        IntParseError::Empty => "cannot parse integer from empty string"@,
        IntParseError::InvalidDigit => "invalid digit found in string"@,
        IntParseError::PosOverflow => "number too large to fit in target type"@,
        IntParseError::NegOverflow => "number too small to fit in target type"@,
    }
}

impl IntParseError {
    /// The message that describes the error.
    pub fn message(&self) -> (r: &'static str)
        ensures
            r@ == int_parse_message(*self),
    {
        proof {
            reveal_strlit("cannot parse integer from empty string");
            reveal_strlit("invalid digit found in string");
            reveal_strlit("number too large to fit in target type");
            reveal_strlit("number too small to fit in target type");
        }
        match self {
            IntParseError::Empty => "cannot parse integer from empty string",
            IntParseError::InvalidDigit => "invalid digit found in string",
            IntParseError::PosOverflow => "number too large to fit in target type",
            IntParseError::NegOverflow => "number too small to fit in target type",
        }
    }
}

/// Whether the number starts with a sign character that is accepted.
pub open spec fn has_sign(s: Seq<char>, allow_minus: bool) -> bool {
    s.len() > 0 && (s[0] == '+' || (allow_minus && s[0] == '-'))
}

/// The digits after an accepted sign.
pub open spec fn digits_part(s: Seq<char>, allow_minus: bool) -> Seq<char> {
    if has_sign(s, allow_minus) {
        s.skip(1)
    } else {
        s
    }
}

/// Whether the number is negative.
pub open spec fn is_negative(s: Seq<char>, allow_minus: bool) -> bool {
    has_sign(s, allow_minus) && s[0] == '-'
}

/// The outcome of reading `s` as a decimal integer between `min` and `max`:
/// an optional sign ('-' only where negative numbers are allowed), then
/// one or more ASCII digits.
pub open spec fn parse_decimal_spec(s: Seq<char>, min: int, max: int) -> Result<int, IntParseError> {
    let allow_minus = min < 0;
    let body = digits_part(s, allow_minus);
    if s.len() == 0 {
        Err(IntParseError::Empty)
    } else if body.len() == 0 || !all_digits(body) {
        Err(IntParseError::InvalidDigit)
    } else if is_negative(s, allow_minus) {
        if -(digits_value(body) as int) < min {
            Err(IntParseError::NegOverflow)
        } else {
            Ok(-(digits_value(body) as int))
        }
    } else {
        if digits_value(body) > max {
            Err(IntParseError::PosOverflow)
        } else {
            Ok(digits_value(body) as int)
        }
    }
}

proof fn lemma_digits_value_take(s: Seq<char>, i: int)
    requires
        0 <= i < s.len(),
        is_digit(s[i]),
    ensures
        digits_value(s.take(i + 1)) == digits_value(s.take(i)) * 10 + digit_value(s[i]),
{
    assert(s.take(i + 1).drop_last() =~= s.take(i));
    assert(s.take(i + 1).last() == s[i]);
}

proof fn lemma_digits_value_mono(s: Seq<char>, i: int)
    requires
        0 <= i <= s.len(),
        all_digits(s),
    ensures
        digits_value(s.take(i)) <= digits_value(s),
    decreases s.len() - i,
{
    if i < s.len() {
        lemma_digits_value_take(s, i);
        lemma_digits_value_mono(s, i + 1);
    } else {
        assert(s.take(i) =~= s);
    }
}

/// Read a decimal integer between `min` and `max` from `s`, the way the
/// standard library reads integers from strings.
#[verifier::loop_isolation(false)]
pub fn parse_decimal(s: &str, min: i64, max: i64) -> (r: Result<i64, IntParseError>)
    requires
        min <= 0 <= max,
    ensures
        match parse_decimal_spec(s@, min as int, max as int) {
            Ok(v) => r == Ok::<i64, IntParseError>(v as i64),
            Err(e) => r == Err::<i64, IntParseError>(e),
        },
{
    let c = chars_of(s);
    let n = c.len();
    if n == 0 {
        return Err(IntParseError::Empty);
    }
    let allow_minus = min < 0;
    let signed = c[0] == '+' || (allow_minus && c[0] == '-');
    let negative = signed && c[0] == '-';
    let start: usize = if signed {
        1
    } else {
        0
    };
    let ghost body = digits_part(s@, allow_minus);
    proof {
        assert(body =~= c@.skip(start as int));
    }
    if start == n {
        return Err(IntParseError::InvalidDigit);
    }
    let bound: u64 = if negative {
        if min == i64::MIN {
            9223372036854775808u64
        } else {
            (-min) as u64
        }
    } else {
        max as u64
    };
    let mut mag: u64 = 0;
    let mut over = false;
    let mut i: usize = start;
    while i < n
        invariant
            n == c@.len(),
            c@ == s@,
            start <= i <= n,
            body =~= c@.skip(start as int),
            forall|k: int| 0 <= k < i - start ==> is_digit(#[trigger] body[k]),
            !over ==> mag as int == digits_value(body.take(i - start)),
            !over ==> mag <= bound,
            over ==> digits_value(body.take(i - start)) > bound,
        decreases n - i,
    {
        let ch = c[i];
        if !('0' <= ch && ch <= '9') {
            proof {
                assert(body[i - start] == ch);
                assert(!is_digit(body[i - start]));
                assert(!all_digits(body));
            }
            return Err(IntParseError::InvalidDigit);
        }
        let d: u64 = ((ch as u32) - ('0' as u32)) as u64;
        proof {
            assert(body[i - start] == ch);
            lemma_digits_value_take(body, i - start);
        }
        if !over {
            let nv: u128 = (mag as u128) * 10 + (d as u128);
            if nv > bound as u128 {
                over = true;
            } else {
                mag = nv as u64;
            }
        } else {
            proof {
                assert(digits_value(body.take(i - start)) * 10 + digit_value(ch) > bound) by (nonlinear_arith)
                    requires digits_value(body.take(i - start)) > bound, digit_value(ch) >= 0;
            }
        }
        i = i + 1;
    }
    proof {
        assert(body.take(n - start) =~= body);
        assert(all_digits(body));
    }
    if over {
        if negative {
            Err(IntParseError::NegOverflow)
        } else {
            Err(IntParseError::PosOverflow)
        }
    } else if negative {
        if mag == 9223372036854775808u64 {
            Ok(i64::MIN)
        } else {
            Ok(-(mag as i64))
        }
    } else {
        Ok(mag as i64)
    }
}

} // verus!

verus! {

/// Whether `c` has the Unicode `White_Space` property (`char::is_whitespace`):
/// the 25 code points U+0009 to U+000D, U+0020, U+0085, U+00A0, U+1680,
/// U+2000 to U+200A, U+2028, U+2029, U+202F, U+205F and U+3000.
pub open spec fn unicode_whitespace(c: char) -> bool {
    let u = c as u32;
    (0x9 <= u <= 0xd) || u == 0x20 || u == 0x85 || u == 0xa0 || u == 0x1680 || (0x2000 <= u
        <= 0x200a) || u == 0x2028 || u == 0x2029 || u == 0x202f || u == 0x205f || u == 0x3000
}

/// Whether `c` has the Unicode `Alphabetic` property (`char::is_alphabetic`).
pub uninterp spec fn unicode_alphabetic(c: char) -> bool;

/// Whether `c` is alphabetic or numeric in Unicode (`char::is_alphanumeric`).
pub uninterp spec fn unicode_alphanumeric(c: char) -> bool;

/// Whether `c` is white space in Unicode (`char::is_whitespace`).
pub fn char_is_whitespace(c: char) -> (r: bool)
    ensures
        r == unicode_whitespace(c),
{
    let u = c as u32;
    (0x9 <= u && u <= 0xd) || u == 0x20 || u == 0x85 || u == 0xa0 || u == 0x1680 || (0x2000 <= u
        && u <= 0x200a) || u == 0x2028 || u == 0x2029 || u == 0x202f || u == 0x205f || u == 0x3000
}

/// `char::is_alphabetic`: the result is the Unicode `Alphabetic` property of `c`.
#[verifier::external_body]
pub(crate) fn char_is_alphabetic(c: char) -> (r: bool)
    ensures
        r == unicode_alphabetic(c),
{
    c.is_alphabetic()
}

/// `char::is_alphanumeric`: the result is whether `c` is alphabetic or numeric in Unicode.
#[verifier::external_body]
pub(crate) fn char_is_alphanumeric(c: char) -> (r: bool)
    ensures
        r == unicode_alphanumeric(c),
{
    c.is_alphanumeric()
}

/// Where the text of `s` starts once leading white space is dropped.
pub open spec fn trim_start_index(s: Seq<char>) -> int
    decreases s.len(),
{
    if s.len() > 0 && unicode_whitespace(s[0]) {
        1 + trim_start_index(s.drop_first())
    } else {
        0
    }
}

/// Where the text of `s` ends once trailing white space is dropped.
pub open spec fn trim_end_index(s: Seq<char>) -> int
    decreases s.len(),
{
    if s.len() > 0 && unicode_whitespace(s.last()) {
        trim_end_index(s.drop_last())
    } else {
        s.len() as int
    }
}

/// `s` without leading and trailing white space (`str::trim`).
pub open spec fn trimmed(s: Seq<char>) -> Seq<char> {
    let e = trim_end_index(s);
    let t = s.take(e);
    t.skip(trim_start_index(t))
}

proof fn lemma_trim_start(s: Seq<char>, i: int)
    requires
        0 <= i <= s.len(),
        forall|k: int| 0 <= k < i ==> unicode_whitespace(#[trigger] s[k]),
        i == s.len() || !unicode_whitespace(s[i]),
    ensures
        trim_start_index(s) == i,
    decreases i,
{
    if i > 0 {
        assert forall|k: int| 0 <= k < i - 1 implies unicode_whitespace(
            #[trigger] s.drop_first()[k],
        ) by {
            assert(s.drop_first()[k] == s[k + 1]);
        }
        if i - 1 < s.drop_first().len() {
            assert(s.drop_first()[i - 1] == s[i]);
        }
        lemma_trim_start(s.drop_first(), i - 1);
    }
}

proof fn lemma_trim_end(s: Seq<char>, e: int)
    requires
        0 <= e <= s.len(),
        forall|k: int| e <= k < s.len() ==> unicode_whitespace(#[trigger] s[k]),
        e == 0 || !unicode_whitespace(s[e - 1]),
    ensures
        trim_end_index(s) == e,
    decreases s.len() - e,
{
    if e < s.len() {
        assert forall|k: int| e <= k < s.len() - 1 implies unicode_whitespace(
            #[trigger] s.drop_last()[k],
        ) by {
            assert(s.drop_last()[k] == s[k]);
        }
        if e > 0 {
            assert(s.drop_last()[e - 1] == s[e - 1]);
        }
        lemma_trim_end(s.drop_last(), e);
    }
}

/// `s` without leading and trailing white space (`str::trim`).
pub fn trim(s: &str) -> (r: String)
    ensures
        r@ == trimmed(s@),
{
    let c = chars_of(s);
    let mut e: usize = c.len();
    while e > 0 && char_is_whitespace(c[e - 1])
        invariant
            c@ == s@,
            e <= c@.len(),
            forall|k: int| e <= k < c@.len() ==> unicode_whitespace(#[trigger] c@[k]),
        decreases e,
    {
        e = e - 1;
    }
    proof {
        lemma_trim_end(s@, e as int);
    }
    let ghost t = s@.take(e as int);
    let mut b: usize = 0;
    while b < e && char_is_whitespace(c[b])
        invariant
            c@ == s@,
            b <= e <= c@.len(),
            forall|k: int| 0 <= k < b ==> unicode_whitespace(#[trigger] c@[k]),
        decreases e - b,
    {
        b = b + 1;
    }
    proof {
        assert forall|k: int| 0 <= k < b implies unicode_whitespace(#[trigger] t[k]) by {
            assert(t[k] == c@[k]);
        }
        if b < e {
            assert(t[b as int] == c@[b as int]);
        }
        lemma_trim_start(t, b as int);
    }
    let mut out: Vec<char> = Vec::new();
    let mut i: usize = b;
    while i < e
        invariant
            c@ == s@,
            b <= i <= e <= c@.len(),
            out@ == c@.subrange(b as int, i as int),
        decreases e - i,
    {
        out.push(c[i]);
        assert(out@ =~= c@.subrange(b as int, i + 1));
        i = i + 1;
    }
    assert(out@ =~= t.skip(b as int));
    string_from_chars(out.as_slice())
}

/// The index of the first line feed of `s` at or after `i`, or the length
/// of `s` where there is none.
pub open spec fn next_newline(s: Seq<char>, i: int) -> int
    decreases s.len() - i,
{
    if i >= s.len() {
        s.len() as int
    } else if s[i] == '\n' {
        i
    } else {
        next_newline(s, i + 1)
    }
}

/// A line without the carriage return it may end with.
pub open spec fn without_cr(l: Seq<char>) -> Seq<char> {
    if l.len() > 0 && l.last() == '\r' {
        l.drop_last()
    } else {
        l
    }
}

/// The lines of `s` from index `i` on, as `str::lines` gives them: split
/// at each line feed, a carriage return before it dropped, and no empty
/// line after a final line feed.
pub open spec fn lines_from(s: Seq<char>, i: int) -> Seq<Seq<char>>
    decreases s.len() - i, 1int,
{
    if i < 0 || i >= s.len() {
        Seq::empty()
    } else {
        let j = next_newline(s, i);
        let l = without_cr(s.subrange(i, j));
        if j >= s.len() {
            seq![l]
        } else {
            proof {
                lemma_next_newline_bounds(s, i);
            }
            seq![l] + lines_from(s, j + 1)
        }
    }
}

/// The lines of `s`, as `str::lines` gives them.
pub open spec fn lines_of(s: Seq<char>) -> Seq<Seq<char>> {
    lines_from(s, 0)
}

pub proof fn lemma_next_newline_bounds(s: Seq<char>, i: int)
    requires
        0 <= i <= s.len(),
    ensures
        i <= next_newline(s, i) <= s.len(),
        next_newline(s, i) < s.len() ==> s[next_newline(s, i)] == '\n',
        forall|k: int| i <= k < next_newline(s, i) ==> s[k] != '\n',
    decreases s.len() - i,
{
    if i < s.len() && s[i] != '\n' {
        lemma_next_newline_bounds(s, i + 1);
    }
}

/// The views of some strings.
pub open spec fn views(v: Seq<String>) -> Seq<Seq<char>> {
    v.map_values(|x: String| x@)
}

/// The lines of `s`, as `str::lines` gives them.
pub fn split_lines(s: &str) -> (r: Vec<String>)
    ensures
        views(r@) == lines_of(s@),
{
    let cs = chars_of(s);
    let n = cs.len();
    let mut out: Vec<String> = Vec::new();
    let mut start: usize = 0;
    let mut i: usize = 0;
    while i < n
        invariant
            cs@ == s@,
            n == cs@.len(),
            start <= i <= n,
            forall|k: int| start <= k < i ==> cs@[k] != '\n',
            views(out@) + lines_from(cs@, start as int) == lines_of(cs@),
        decreases n - i,
    {
        if cs[i] == '\n' {
            proof {
                lemma_next_newline_at(cs@, start as int, i as int);
            }
            let mut end = i;
            if end > start && cs[end - 1] == '\r' {
                end = end - 1;
            }
            let piece = vstd::slice::slice_subrange(cs.as_slice(), start, end);
            let line = string_from_chars(piece);
            proof {
                assert(piece@ =~= without_cr(cs@.subrange(start as int, i as int)));
                assert(lines_from(cs@, start as int) =~= seq![line@] + lines_from(cs@, i + 1));
                assert(views(out@.push(line)) =~= views(out@).push(line@));
            }
            out.push(line);
            start = i + 1;
        }
        i = i + 1;
    }
    if start < n {
        proof {
            lemma_next_newline_at(cs@, start as int, n as int);
        }
        let mut end = n;
        if cs[end - 1] == '\r' {
            end = end - 1;
        }
        let piece = vstd::slice::slice_subrange(cs.as_slice(), start, end);
        let line = string_from_chars(piece);
        proof {
            assert(piece@ =~= without_cr(cs@.subrange(start as int, n as int)));
            assert(lines_from(cs@, start as int) =~= seq![line@]);
            assert(views(out@.push(line)) =~= views(out@).push(line@));
        }
        out.push(line);
    } else {
        assert(views(out@) =~= lines_of(cs@));
    }
    out
}

proof fn lemma_next_newline_at(s: Seq<char>, i: int, j: int)
    requires
        0 <= i <= j <= s.len(),
        forall|k: int| i <= k < j ==> s[k] != '\n',
        j < s.len() ==> s[j] == '\n',
    ensures
        next_newline(s, i) == j,
    decreases j - i,
{
    if i < j {
        lemma_next_newline_at(s, i + 1, j);
    }
}

/// Whether `p` occurs in `s` at index `i`.
pub open spec fn occurs_at(s: Seq<char>, p: Seq<char>, i: int) -> bool {
    0 <= i && i + p.len() <= s.len() && s.subrange(i, i + p.len()) == p
}

/// Whether `p` occurs in `s` (`str::contains`).
pub open spec fn contains_text(s: Seq<char>, p: Seq<char>) -> bool {
    exists|i: int| occurs_at(s, p, i)
}

/// `s` with each occurrence of the non-empty `p`, from left to right and
/// without overlaps, replaced by `q` (`str::replace`).
pub open spec fn replace_all(s: Seq<char>, p: Seq<char>, q: Seq<char>) -> Seq<char>
    decreases s.len(),
{
    if p.len() == 0 || s.len() < p.len() {
        s
    } else if s.take(p.len() as int) == p {
        q + replace_all(s.skip(p.len() as int), p, q)
    } else {
        seq![s[0]] + replace_all(s.skip(1), p, q)
    }
}

fn occurs_at_exec(s: &[char], p: &[char], i: usize) -> (r: bool)
    requires
        i <= s@.len(),
    ensures
        r == occurs_at(s@, p@, i as int),
{
    let slen = s.len();
    if slen - i < p.len() {
        return false;
    }
    let mut k: usize = 0;
    while k < p.len()
        invariant
            slen == s@.len(),
            i + p@.len() <= s@.len(),
            k <= p@.len(),
            forall|j: int| 0 <= j < k ==> s@[i + j] == p@[j],
        decreases p@.len() - k,
    {
        if s[i + k] != p[k] {
            assert(s@.subrange(i as int, i + p@.len())[k as int] != p@[k as int]);
            return false;
        }
        k = k + 1;
    }
    assert(s@.subrange(i as int, i + p@.len()) =~= p@);
    true
}

/// Whether `p` occurs in `s`.
pub fn str_contains(s: &str, p: &str) -> (r: bool)
    ensures
        r == contains_text(s@, p@),
{
    let sc = chars_of(s);
    let pc = chars_of(p);
    let mut i: usize = 0;
    while i < sc.len()
        invariant
            sc@ == s@,
            pc@ == p@,
            i <= sc@.len(),
            forall|j: int| 0 <= j < i ==> !occurs_at(s@, p@, j),
        decreases sc@.len() - i,
    {
        if occurs_at_exec(sc.as_slice(), pc.as_slice(), i) {
            return true;
        }
        i = i + 1;
    }
    if occurs_at_exec(sc.as_slice(), pc.as_slice(), i) {
        return true;
    }
    assert forall|j: int| !occurs_at(s@, p@, j) by {
        if 0 <= j && j < i {
        }
    }
    false
}

/// `s` with each occurrence of the non-empty `p` replaced by `q`.
pub fn replace_text(s: &str, p: &str, q: &str) -> (r: String)
    requires
        p@.len() > 0,
    ensures
        r@ == replace_all(s@, p@, q@),
{
    let sc = chars_of(s);
    let pc = chars_of(p);
    let mut out = String::new();
    let mut i: usize = 0;
    assert(s@.skip(0) =~= s@);
    while i < sc.len()
        invariant
            sc@ == s@,
            pc@ == p@,
            p@.len() > 0,
            i <= sc@.len(),
            out@ + replace_all(s@.skip(i as int), p@, q@) == replace_all(s@, p@, q@),
        decreases sc@.len() - i,
    {
        let ghost t = s@.skip(i as int);
        if occurs_at_exec(sc.as_slice(), pc.as_slice(), i) {
            assert(t.take(p@.len() as int) =~= s@.subrange(i as int, i + p@.len()));
            assert(t.skip(p@.len() as int) =~= s@.skip(i + p@.len()));
            push_str(&mut out, q);
            i = i + pc.len();
        } else {
            if sc.len() - i >= pc.len() {
                assert(t.take(p@.len() as int) =~= s@.subrange(i as int, i + p@.len()));
            }
            assert(t.skip(1) =~= s@.skip(i + 1));
            assert(t[0] == sc@[i as int]);
            push_char(&mut out, sc[i]);
            assert(out@ + replace_all(s@.skip(i + 1), p@, q@) =~= out@.drop_last() + (seq![t[0]] + replace_all(t.skip(1), p@, q@)));
            i = i + 1;
        }
    }
    assert(s@.skip(i as int) =~= Seq::<char>::empty());
    assert(out@ =~= replace_all(s@, p@, q@));
    out
}

} // verus!
