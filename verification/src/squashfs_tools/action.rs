use vstd::prelude::*;

verus! {

/// Lexical tokens of the action language.
#[derive(Debug, Clone)]
pub enum Token {
    OpenBracket,
    CloseBracket,
    And,
    Or,
    Not,
    Comma,
    At,
    WhiteSpace,
    String(String),
    Eof,
}

/// The mathematical value of a token.
pub enum TokenView {
    OpenBracket,
    CloseBracket,
    And,
    Or,
    Not,
    Comma,
    At,
    WhiteSpace,
    Str(Seq<char>),
    Eof,
}

impl View for Token {
    type V = TokenView;

    open spec fn view(&self) -> TokenView {
        match self {
            Token::OpenBracket => TokenView::OpenBracket,
            Token::CloseBracket => TokenView::CloseBracket,
            Token::And => TokenView::And,
            Token::Or => TokenView::Or,
            Token::Not => TokenView::Not,
            Token::Comma => TokenView::Comma,
            Token::At => TokenView::At,
            Token::WhiteSpace => TokenView::WhiteSpace,
            Token::String(s) => TokenView::Str(s@),
            Token::Eof => TokenView::Eof,
        }
    }
}

/// Parsed test expressions.
#[derive(Debug)]
pub enum Expr {
    Op { lhs: Box<Expr>, rhs: Box<Expr>, op: Token },
    Atom { name: String, args: Vec<String> },
    Unary { expr: Box<Expr>, op: Token },
}

/// Kinds of actions.
#[derive(Debug, Clone, Copy, PartialEq, Eq)]
pub enum ActionType {
    Fragment,
    Exclude,
    Fragments,
    NoFragments,
    AlwaysFrags,
    NoAlwaysFrags,
    Compressed,
    Uncompressed,
    Uid,
    Gid,
    Guid,
    Mode,
    Empty,
    Move,
    Prune,
    Noop,
    XattrExclude,
    XattrInclude,
    XattrAdd,
}

/// File types that actions can operate on.
#[derive(Debug, Clone, Copy, PartialEq, Eq)]
pub enum FileType {
    Dir,
    Regular,
    AllLink,
    All,
    Link,
}

/// Action logging levels.
#[derive(Debug, Clone, Copy, PartialEq, Eq)]
pub enum ActionLogLevel {
    Off,
    True,
    False,
    Verbose,
}

/// Number comparison kinds.
#[derive(Debug, Clone, Copy, PartialEq, Eq)]
pub enum NumberRange {
    Equal,
    Less,
    Greater,
}

/// A number argument of a test, with its comparison.
#[derive(Debug, Clone, Copy)]
pub struct TestNumberArg {
    pub size: i64,
    pub range: NumberRange,
}

/// A range argument of a test.
#[derive(Debug, Clone, Copy)]
pub struct TestRangeArgs {
    pub start: i64,
    pub end: i64,
}

/// Permission test kinds.
#[derive(Debug, Clone, Copy, PartialEq, Eq)]
pub enum PermOp {
    All,
    Any,
    Exact,
}

/// Permission test data.
#[derive(Debug, Clone, Copy)]
pub struct PermData {
    pub op: PermOp,
    pub mode: u32,
}

/// Kinds of the empty action.
#[derive(Debug, Clone, Copy, PartialEq, Eq)]
pub enum EmptyType {
    All,
    Source,
    Excluded,
}

/// Kinds of move operations.
#[derive(Debug, Clone, Copy, PartialEq, Eq)]
pub enum MoveOp {
    Rename,
    Move,
}

/// Errors of the action language.
#[derive(Debug)]
pub enum ActionError {
    ParseError(String),
    InvalidArgument(String),
    FileError(String),
    RegexError(String),
}

/// A user id argument.
#[derive(Debug, Clone, Copy)]
pub struct UidInfo {
    pub uid: u32,
}

/// A group id argument.
#[derive(Debug, Clone, Copy)]
pub struct GidInfo {
    pub gid: u32,
}

/// Whether a file of `size` bytes passes a size test.
pub fn filesize_matches(size: u64, arg: &TestNumberArg) -> (r: bool)
    ensures
        r == match arg.range {
            NumberRange::Equal => size as int == arg.size as u64 as int,
            NumberRange::Less => (size as int) < arg.size as u64 as int,
            NumberRange::Greater => size as int > arg.size as u64 as int,
        },
{
    let bound: u64 = arg.size as u64;
    match arg.range {
        NumberRange::Equal => size == bound,
        NumberRange::Less => size < bound,
        NumberRange::Greater => size > bound,
    }
}

} // verus!
