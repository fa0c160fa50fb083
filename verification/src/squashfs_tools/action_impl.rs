use vstd::prelude::*;
use crate::squashfs_tools::action::{ActionError, Expr, Token, TokenView};
use crate::text::{
    char_is_alphabetic, char_is_alphanumeric, char_is_whitespace, chars_of, is_digit, push_char,
    push_str, unicode_alphabetic, unicode_alphanumeric, unicode_whitespace,
};

verus! {

/// The first position at or after `i` that does not hold whitespace.
pub open spec fn skip_ws(s: Seq<char>, i: int) -> int
    decreases s.len() - i,
{
    if 0 <= i < s.len() && unicode_whitespace(s[i]) {
        skip_ws(s, i + 1)
    } else {
        i
    }
}

/// Whether `c` may continue a word.
pub open spec fn is_word_char(c: char) -> bool {
    unicode_alphanumeric(c) || c == '_'
}

/// The first position at or after `i` that does not continue a word.
pub open spec fn word_end(s: Seq<char>, i: int) -> int
    decreases s.len() - i,
{
    if 0 <= i < s.len() && is_word_char(s[i]) {
        word_end(s, i + 1)
    } else {
        i
    }
}

/// The first position at or after `i` that does not continue a number.
pub open spec fn number_end(s: Seq<char>, i: int) -> int
    decreases s.len() - i,
{
    if 0 <= i < s.len() && (is_digit(s[i]) || s[i] == '.') {
        number_end(s, i + 1)
    } else {
        i
    }
}

/// The text of a quoted string whose body starts at `i`, and the position
/// after its closing quote (or the end of the input). A backslash takes the
/// next character literally.
pub open spec fn quoted(s: Seq<char>, i: int) -> (Seq<char>, int)
    decreases s.len() - i,
{
    if i < 0 || i >= s.len() {
        (Seq::empty(), i)
    } else if s[i] == '"' {
        (Seq::empty(), i + 1)
    } else if s[i] == '\\' && i + 1 < s.len() {
        let (r, e) = quoted(s, i + 2);
        (seq![s[i + 1]] + r, e)
    } else {
        let (r, e) = quoted(s, i + 1);
        (seq![s[i]] + r, e)
    }
}

/// The token that starts at position `i` of `s` (after whitespace), and
/// the position after it.
pub open spec fn lex(s: Seq<char>, i: int) -> (TokenView, int) {
    let j = skip_ws(s, i);
    if j >= s.len() {
        (TokenView::Eof, j)
    } else {
        let c = s[j];
        let k = j + 1;
        if c == '(' {
            (TokenView::OpenBracket, k)
        } else if c == ')' {
            (TokenView::CloseBracket, k)
        } else if c == ',' {
            (TokenView::Comma, k)
        } else if c == '@' {
            (TokenView::At, k)
        } else if c == '!' {
            (TokenView::Not, k)
        } else if c == '&' {
            if k < s.len() && s[k] == '&' {
                (TokenView::And, k + 1)
            } else {
                (TokenView::Str(seq![c]), k)
            }
        } else if c == '|' {
            if k < s.len() && s[k] == '|' {
                (TokenView::Or, k + 1)
            } else {
                (TokenView::Str(seq![c]), k)
            }
        } else if c == '"' {
            let (q, e) = quoted(s, k);
            (TokenView::Str(q), e)
        } else if unicode_alphabetic(c) || c == '_' {
            (TokenView::Str(s.subrange(j, word_end(s, k))), word_end(s, k))
        } else if is_digit(c) {
            (TokenView::Str(s.subrange(j, number_end(s, k))), number_end(s, k))
        } else {
            (TokenView::Str(seq![c]), k)
        }
    }
}

proof fn lemma_skip_ws_bounds(s: Seq<char>, i: int)
    requires
        0 <= i <= s.len(),
    ensures
        i <= skip_ws(s, i) <= s.len(),
    decreases s.len() - i,
{
    if i < s.len() && unicode_whitespace(s[i]) {
        lemma_skip_ws_bounds(s, i + 1);
    }
}

proof fn lemma_word_end_bounds(s: Seq<char>, i: int)
    requires
        0 <= i <= s.len(),
    ensures
        i <= word_end(s, i) <= s.len(),
    decreases s.len() - i,
{
    if i < s.len() && is_word_char(s[i]) {
        lemma_word_end_bounds(s, i + 1);
    }
}

proof fn lemma_number_end_bounds(s: Seq<char>, i: int)
    requires
        0 <= i <= s.len(),
    ensures
        i <= number_end(s, i) <= s.len(),
    decreases s.len() - i,
{
    if i < s.len() && (is_digit(s[i]) || s[i] == '.') {
        lemma_number_end_bounds(s, i + 1);
    }
}

proof fn lemma_quoted_bounds(s: Seq<char>, i: int)
    requires
        0 <= i <= s.len(),
    ensures
        i <= quoted(s, i).1 <= s.len(),
    decreases s.len() - i,
{
    if i < s.len() && s[i] != '"' {
        if s[i] == '\\' && i + 1 < s.len() {
            lemma_quoted_bounds(s, i + 2);
        } else {
            lemma_quoted_bounds(s, i + 1);
        }
    }
}

/// Reading a token never moves backwards nor past the end, and moves
/// forwards unless the input is exhausted.
pub proof fn lemma_lex_progress(s: Seq<char>, i: int)
    requires
        0 <= i <= s.len(),
    ensures
        i <= lex(s, i).1 <= s.len(),
        lex(s, i).0 != TokenView::Eof ==> lex(s, i).1 > i,
{
    lemma_skip_ws_bounds(s, i);
    let j = skip_ws(s, i);
    if j < s.len() {
        lemma_quoted_bounds(s, j + 1);
        lemma_word_end_bounds(s, j + 1);
        lemma_number_end_bounds(s, j + 1);
    }
}

/// Splits the text of an action into tokens.
pub struct Lexer {
    input: Vec<char>,
    pos: usize,
    current: String,
}

impl Lexer {
    /// The characters being read.
    pub closed spec fn input(&self) -> Seq<char> {
        self.input@
    }

    /// The position of the next character to read.
    pub closed spec fn position(&self) -> int {
        self.pos as int
    }

    /// The position is within the input.
    pub closed spec fn wf(&self) -> bool {
        self.pos <= self.input@.len()
    }

    /// A lexer at the start of `input`.
    pub fn new(input: &str) -> (r: Self)
        ensures
            r.wf(),
            r.input() == input@,
            r.position() == 0,
    {
        Lexer { input: chars_of(input), pos: 0, current: String::new() }
    }

    /// Read the next token.
    #[verifier::loop_isolation(false)]
    pub fn next_token(&mut self) -> (t: Token)
        requires
            old(self).wf(),
        ensures
            final(self).wf(),
            final(self).input() == old(self).input(),
            (t@, final(self).position()) == lex(old(self).input(), old(self).position()),
    {
        let ghost s = self.input@;
        let ghost i0 = self.pos as int;
        self.current = String::new();
        let len = self.input.len();
        while self.pos < len && char_is_whitespace(self.input[self.pos])
            invariant
                self.input@ == s,
                len == s.len(),
                i0 <= self.pos <= len,
                skip_ws(s, self.pos as int) == skip_ws(s, i0),
                self.current@ == Seq::<char>::empty(),
            decreases len - self.pos,
        {
            self.pos = self.pos + 1;
        }
        if self.pos >= len {
            return Token::Eof;
        }
        let j = self.pos;
        let c = self.input[j];
        self.pos = self.pos + 1;
        if c == '(' {
            return Token::OpenBracket;
        } else if c == ')' {
            return Token::CloseBracket;
        } else if c == ',' {
            return Token::Comma;
        } else if c == '@' {
            return Token::At;
        } else if c == '!' {
            return Token::Not;
        } else if c == '&' {
            if self.pos < len && self.input[self.pos] == '&' {
                self.pos = self.pos + 1;
                return Token::And;
            }
            push_char(&mut self.current, c);
            return Token::String(self.current.clone());
        } else if c == '|' {
            if self.pos < len && self.input[self.pos] == '|' {
                self.pos = self.pos + 1;
                return Token::Or;
            }
            push_char(&mut self.current, c);
            return Token::String(self.current.clone());
        } else if c == '"' {
            let ghost k = self.pos as int;
            while self.pos < len
                invariant
                    self.input@ == s,
                    len == s.len(),
                    k <= self.pos <= len,
                    self.current@ + quoted(s, self.pos as int).0 == quoted(s, k).0,
                    quoted(s, self.pos as int).1 == quoted(s, k).1,
                decreases len - self.pos,
            {
                let d = self.input[self.pos];
                let ghost p = self.pos as int;
                self.pos = self.pos + 1;
                if d == '"' {
                    proof {
                        assert(self.current@ + Seq::<char>::empty() =~= self.current@);
                    }
                    let r = self.current.clone();
                    return Token::String(r);
                }
                if d == '\\' && self.pos < len {
                    let e = self.input[self.pos];
                    self.pos = self.pos + 1;
                    proof {
                        let (rr, _ee) = quoted(s, p + 2);
                        assert(self.current@.push(e) + rr =~= self.current@ + (seq![e] + rr));
                    }
                    push_char(&mut self.current, e);
                } else {
                    proof {
                        let (rr, _ee) = quoted(s, p + 1);
                        assert(self.current@.push(d) + rr =~= self.current@ + (seq![d] + rr));
                    }
                    push_char(&mut self.current, d);
                }
            }
            proof {
                assert(self.current@ + Seq::<char>::empty() =~= self.current@);
            }
            let r = self.current.clone();
            return Token::String(r);
        } else if char_is_alphabetic(c) || c == '_' {
            push_char(&mut self.current, c);
            while self.pos < len && (char_is_alphanumeric(self.input[self.pos]) || self.input[self.pos]
                == '_')
                invariant
                    self.input@ == s,
                    len == s.len(),
                    j < self.pos <= len,
                    self.current@ == s.subrange(j as int, self.pos as int),
                    word_end(s, self.pos as int) == word_end(s, j + 1),
                decreases len - self.pos,
            {
                let d = self.input[self.pos];
                push_char(&mut self.current, d);
                self.pos = self.pos + 1;
                proof {
                    assert(s.subrange(j as int, self.pos - 1).push(d) =~= s.subrange(
                        j as int,
                        self.pos as int,
                    ));
                }
            }
            let r = self.current.clone();
            return Token::String(r);
        } else if '0' <= c && c <= '9' {
            push_char(&mut self.current, c);
            while self.pos < len && (('0' <= self.input[self.pos] && self.input[self.pos] <= '9')
                || self.input[self.pos] == '.')
                invariant
                    self.input@ == s,
                    len == s.len(),
                    j < self.pos <= len,
                    self.current@ == s.subrange(j as int, self.pos as int),
                    number_end(s, self.pos as int) == number_end(s, j + 1),
                decreases len - self.pos,
            {
                let d = self.input[self.pos];
                push_char(&mut self.current, d);
                self.pos = self.pos + 1;
                proof {
                    assert(s.subrange(j as int, self.pos - 1).push(d) =~= s.subrange(
                        j as int,
                        self.pos as int,
                    ));
                }
            }
            let r = self.current.clone();
            return Token::String(r);
        }
        push_char(&mut self.current, c);
        let r = self.current.clone();
        Token::String(r)
    }
}


/// The name under which a token without text is printed.
pub open spec fn token_name(t: TokenView) -> Seq<char> {
    match t {
        TokenView::OpenBracket => "OpenBracket"@,
        TokenView::CloseBracket => "CloseBracket"@,
        TokenView::And => "And"@,
        TokenView::Or => "Or"@,
        TokenView::Not => "Not"@,
        TokenView::Comma => "Comma"@,
        TokenView::At => "At"@,
        TokenView::WhiteSpace => "WhiteSpace"@,
        TokenView::Str(_) => "String"@,
        TokenView::Eof => "Eof"@,
    }
}

/// The debug text of a string (`format!("{:?}", s)`), with quotes and escapes.
pub uninterp spec fn str_debug_text(s: Seq<char>) -> Seq<char>;

/// The debug text of a string (`format!("{:?}", s)`).
#[verifier::external_body]
fn str_debug(s: &str) -> (r: String)
    ensures
        r@ == str_debug_text(s@),
{
    format!("{:?}", s)
}

/// The text under which a token is printed in messages.
pub open spec fn token_debug(t: TokenView) -> Seq<char> {
    match t {
        TokenView::Str(n) => "String("@ + str_debug_text(n) + ")"@,
        _ => token_name(t),
    }
}

/// The text under which a token is printed in messages.
pub fn debug_token(t: &Token) -> (r: String)
    ensures
        r@ == token_debug(t@),
{
    match t {
        Token::OpenBracket => String::from_str("OpenBracket"),
        Token::CloseBracket => String::from_str("CloseBracket"),
        Token::And => String::from_str("And"),
        Token::Or => String::from_str("Or"),
        Token::Not => String::from_str("Not"),
        Token::Comma => String::from_str("Comma"),
        Token::At => String::from_str("At"),
        Token::WhiteSpace => String::from_str("WhiteSpace"),
        Token::Eof => String::from_str("Eof"),
        Token::String(n) => {
            let mut r = String::from_str("String(");
            let d = str_debug(n.as_str());
            push_str(&mut r, d.as_str());
            push_str(&mut r, ")");
            r
        },
    }
}

/// Whether two tokens are the same.
pub fn token_eq(a: &Token, b: &Token) -> (r: bool)
    ensures
        r == (a@ == b@),
{
    match (a, b) {
        (Token::OpenBracket, Token::OpenBracket) => true,
        (Token::CloseBracket, Token::CloseBracket) => true,
        (Token::And, Token::And) => true,
        (Token::Or, Token::Or) => true,
        (Token::Not, Token::Not) => true,
        (Token::Comma, Token::Comma) => true,
        (Token::At, Token::At) => true,
        (Token::WhiteSpace, Token::WhiteSpace) => true,
        (Token::Eof, Token::Eof) => true,
        (Token::String(x), Token::String(y)) => crate::text::str_eq(x.as_str(), y.as_str()),
        _ => false,
    }
}

/// The progress measure of a parser: what is left of the input, counting
/// a pending token that is not the end.
pub open spec fn parse_measure(s: Seq<char>, t: TokenView, pos: int) -> nat {
    if pos < 0 || pos > s.len() {
        0
    } else {
        (2 * (s.len() - pos) + (if t == TokenView::Eof { 0int } else { 1int })) as nat
    }
}

/// The message with which parsing stops when a factor is expected at token
/// `t`, with the input read up to `pos`.
pub open spec fn factor_error(s: Seq<char>, t: TokenView, pos: int) -> Seq<char>
    decreases parse_measure(s, t, pos), 0nat,
{
    match t {
        TokenView::OpenBracket => {
            if 0 <= pos <= s.len() {
                proof {
                    lemma_lex_progress(s, pos);
                }
                term_error(s, lex(s, pos).0, lex(s, pos).1)
            } else {
                Seq::empty()
            }
        },
        TokenView::Str(n) => "Unknown test: "@ + n,
        _ => "Unexpected token: "@ + token_name(t),
    }
}

/// The message with which parsing stops when a term is expected at token
/// `t`, with the input read up to `pos`.
pub open spec fn term_error(s: Seq<char>, t: TokenView, pos: int) -> Seq<char>
    decreases parse_measure(s, t, pos), 1nat,
{
    if t == TokenView::Not {
        if 0 <= pos <= s.len() {
            proof {
                lemma_lex_progress(s, pos);
            }
            factor_error(s, lex(s, pos).0, lex(s, pos).1)
        } else {
            Seq::empty()
        }
    } else {
        factor_error(s, t, pos)
    }
}

/// Parses the test expression of an action.
pub struct Parser {
    lexer: Lexer,
    current_token: Token,
}

impl Parser {
    /// The input being parsed.
    pub closed spec fn input(&self) -> Seq<char> {
        self.lexer.input()
    }

    /// The pending token.
    pub closed spec fn token(&self) -> TokenView {
        self.current_token@
    }

    /// The position after the pending token.
    pub closed spec fn position(&self) -> int {
        self.lexer.position()
    }

    /// The parser's lexer is within its input.
    pub closed spec fn wf(&self) -> bool {
        self.lexer.wf()
    }

    /// A parser over `input`, with its first token read.
    pub fn new(input: &str) -> (r: Self)
        ensures
            r.wf(),
            r.input() == input@,
            (r.token(), r.position()) == lex(input@, 0),
    {
        let mut lexer = Lexer::new(input);
        let current_token = lexer.next_token();
        Parser { lexer, current_token }
    }

    fn next_token(&mut self)
        requires
            old(self).wf(),
        ensures
            final(self).wf(),
            final(self).input() == old(self).input(),
            (final(self).token(), final(self).position()) == lex(old(self).input(), old(self).position()),
    {
        self.current_token = self.lexer.next_token();
    }

    /// Consume the pending token if it is `expected`; otherwise fail with a
    /// message that names both tokens.
    pub fn expect_token(&mut self, expected: Token) -> (r: Result<(), ActionError>)
        requires
            old(self).wf(),
        ensures
            final(self).wf(),
            final(self).input() == old(self).input(),
            old(self).token() == expected@ ==> r is Ok && (final(self).token(), final(self).position())
                == lex(old(self).input(), old(self).position()),
            old(self).token() != expected@ ==> *final(self) == *old(self) && match r {
                Err(ActionError::ParseError(m)) => m@ == "Expected "@ + token_debug(expected@)
                    + ", got "@ + token_debug(old(self).token()),
                _ => false,
            },
    {
        if token_eq(&self.current_token, &expected) {
            self.next_token();
            Ok(())
        } else {
            let mut m = String::from_str("Expected ");
            let e = debug_token(&expected);
            push_str(&mut m, e.as_str());
            push_str(&mut m, ", got ");
            let g = debug_token(&self.current_token);
            push_str(&mut m, g.as_str());
            Err(ActionError::ParseError(m))
        }
    }

    /// Parse an expression: terms joined by `&&` or `||`.
    pub fn parse_expr(&mut self) -> (r: Result<Expr, ActionError>)
        requires
            old(self).wf(),
        ensures
            final(self).wf(),
            match r {
                Err(ActionError::ParseError(m)) => m@ == term_error(
                    old(self).input(),
                    old(self).token(),
                    old(self).position(),
                ),
                _ => false,
            },
        decreases parse_measure(old(self).input(), old(self).token(), old(self).position()), 2nat,
    {
        let expr = self.parse_term()?;
        Ok(expr)
    }

    fn parse_term(&mut self) -> (r: Result<Expr, ActionError>)
        requires
            old(self).wf(),
        ensures
            final(self).wf(),
            match r {
                Err(ActionError::ParseError(m)) => m@ == term_error(
                    old(self).input(),
                    old(self).token(),
                    old(self).position(),
                ),
                _ => false,
            },
        decreases parse_measure(old(self).input(), old(self).token(), old(self).position()), 1nat,
    {
        match self.current_token {
            Token::Not => {
                proof {
                    lemma_lex_progress(self.input(), self.position());
                }
                self.next_token();
                let expr = self.parse_factor()?;
                Ok(Expr::Unary { expr: Box::new(expr), op: Token::Not })
            },
            _ => self.parse_factor(),
        }
    }

    fn parse_factor(&mut self) -> (r: Result<Expr, ActionError>)
        requires
            old(self).wf(),
        ensures
            final(self).wf(),
            match r {
                Err(ActionError::ParseError(m)) => m@ == factor_error(
                    old(self).input(),
                    old(self).token(),
                    old(self).position(),
                ),
                _ => false,
            },
        decreases parse_measure(old(self).input(), old(self).token(), old(self).position()), 0nat,
    {
        match &self.current_token {
            Token::OpenBracket => {
                proof {
                    lemma_lex_progress(self.input(), self.position());
                }
                self.next_token();
                let expr = self.parse_expr()?;
                self.expect_token(Token::CloseBracket)?;
                Ok(expr)
            },
            Token::String(name) => {
                let mut m = String::from_str("Unknown test: ");
                push_str(&mut m, name.as_str());
                Err(ActionError::ParseError(m))
            },
            _ => {
                let n = debug_token(&self.current_token);
                let mut m = String::from_str("Unexpected token: ");
                push_str(&mut m, n.as_str());
                Err(ActionError::ParseError(m))
            },
        }
    }
}

} // verus!
