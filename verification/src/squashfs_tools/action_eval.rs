use vstd::prelude::*;
use crate::squashfs_tools::action::{ActionError, ActionLogLevel, ActionType, Expr, MoveOp, Token};
use crate::squashfs_tools::action_impl::{lex, term_error, Parser};
use crate::text::{chars_of, lines_of, owned, push_str, split_lines, string_from_chars, trimmed, trim, views};

verus! {

/// What the tests of an action see of a file.
#[derive(Debug, Clone)]
pub struct ActionData {
    pub depth: u32,
    pub name: String,
    pub pathname: String,
    pub subpath: String,
}

/// An action: its kind, its arguments and the test that selects the files
/// it applies to.
#[derive(Debug)]
pub struct Action {
    pub action_type: ActionType,
    pub args: Vec<String>,
    pub expr: Expr,
    pub verbose: ActionLogLevel,
}

/// A pending move of a directory entry.
#[derive(Debug)]
pub struct MoveEntry {
    pub ops: Vec<MoveOp>,
    pub name: String,
}

/// Whether `r` is a value that evaluating `e` can give, where `test` gives
/// the value of each atom: `&&` and `||` look at their right side only
/// where the left one does not decide, `!` negates, and any other operator
/// gives false (after its left side is evaluated).
pub open spec fn evaluates<F: Fn(&String, &Vec<String>, &ActionData) -> bool>(
    e: Expr,
    test: F,
    data: ActionData,
    r: bool,
) -> bool
    decreases e,
{
    match e {
        Expr::Atom { name, args } => call_ensures(test, (&name, &args, &data), r),
        Expr::Op { lhs, rhs, op } => {
            let lt = evaluates(*lhs, test, data, true);
            let lf = evaluates(*lhs, test, data, false);
            match op {
                Token::And => (lt && evaluates(*rhs, test, data, r)) || (lf && !r),
                Token::Or => (lt && r) || (lf && evaluates(*rhs, test, data, r)),
                _ => (lt || lf) && !r,
            }
        },
        Expr::Unary { expr, op } => match op {
            Token::Not => evaluates(*expr, test, data, !r),
            _ => !r,
        },
    }
}

/// Where the left side of `&&` can only come out false, or that of `||`
/// only true, the right side has no bearing on what the test gives: any
/// two right sides give the same results.
pub proof fn law_short_circuit<F: Fn(&String, &Vec<String>, &ActionData) -> bool>(
    lhs: Expr,
    rhs1: Expr,
    rhs2: Expr,
    test: F,
    data: ActionData,
    r: bool,
)
    ensures
        !evaluates(lhs, test, data, true) ==> (evaluates(
            Expr::Op { lhs: Box::new(lhs), rhs: Box::new(rhs1), op: Token::And },
            test,
            data,
            r,
        ) == evaluates(
            Expr::Op { lhs: Box::new(lhs), rhs: Box::new(rhs2), op: Token::And },
            test,
            data,
            r,
        )),
        !evaluates(lhs, test, data, false) ==> (evaluates(
            Expr::Op { lhs: Box::new(lhs), rhs: Box::new(rhs1), op: Token::Or },
            test,
            data,
            r,
        ) == evaluates(
            Expr::Op { lhs: Box::new(lhs), rhs: Box::new(rhs2), op: Token::Or },
            test,
            data,
            r,
        )),
{
}

/// The error that reading an action from `input` gives: its test is parsed
/// first, and a test of the language never parses (no test is known), so
/// this is the parser's message at the first token.
pub open spec fn action_parse_error(input: Seq<char>) -> Seq<char> {
    term_error(input, lex(input, 0).0, lex(input, 0).1)
}

/// Whether a line of an action file holds no action: it is blank or a
/// comment.
pub open spec fn is_blank_or_comment(l: Seq<char>) -> bool {
    trimmed(l).len() == 0 || (l.len() > 0 && l[0] == '#')
}

/// The index of the first line of `ls`, from the `i`-th on, that holds an
/// action.
pub open spec fn first_action_line(ls: Seq<Seq<char>>, i: int) -> Option<int>
    decreases ls.len() - i,
{
    if i < 0 || i >= ls.len() {
        None
    } else if is_blank_or_comment(ls[i]) {
        first_action_line(ls, i + 1)
    } else {
        Some(i)
    }
}

/// `l` without the backslashes it ends with.
pub open spec fn without_trailing_backslashes(l: Seq<char>) -> Seq<char>
    decreases l.len(),
{
    if l.len() > 0 && l.last() == '\\' {
        without_trailing_backslashes(l.drop_last())
    } else {
        l
    }
}

/// An action line as it is read: a line that ends with a backslash is
/// continued with the first line of the file, trimmed, `first`, for as
/// long as it ends with one.
pub open spec fn continued(l: Seq<char>, first: Seq<char>) -> Seq<char> {
    if l.len() == 0 || l.last() != '\\' {
        l
    } else if first.len() == 0 {
        without_trailing_backslashes(l)
    } else {
        l.drop_last() + first
    }
}

/// Whether continuing line `l` with `first` ends: not when both end with a
/// backslash.
pub open spec fn continuation_ends(l: Seq<char>, first: Seq<char>) -> bool {
    !(l.len() > 0 && l.last() == '\\' && first.len() > 0 && first.last() == '\\')
}

fn strip_trailing_backslashes(v: &mut Vec<char>)
    ensures
        final(v)@ == without_trailing_backslashes(old(v)@),
    decreases old(v)@.len(),
{
    if v.len() > 0 && v[v.len() - 1] == '\\' {
        v.pop();
        strip_trailing_backslashes(v);
    }
}

/// The actions of the filesystem builder, kept by kind.
pub struct ActionManager {
    pub fragment_spec: Vec<Action>,
    pub exclude_spec: Vec<Action>,
    pub empty_spec: Vec<Action>,
    pub move_spec: Vec<Action>,
    pub prune_spec: Vec<Action>,
    pub xattr_exc_spec: Vec<Action>,
    pub xattr_inc_spec: Vec<Action>,
    pub xattr_add_spec: Vec<Action>,
    pub other_spec: Vec<Action>,
    pub move_list: Vec<MoveEntry>,
}

/// Whether the test of some action of `acts` was found to hold for every
/// file `r` says it holds for, and to fail for all where `r` is false.
pub open spec fn first_match<F: Fn(&String, &Vec<String>, &ActionData) -> bool>(
    acts: Seq<Action>,
    test: F,
    data: ActionData,
    r: bool,
) -> bool {
    &&& r ==> exists|i: int| 0 <= i < acts.len() && #[trigger] evaluates(acts[i].expr, test, data, true)
    &&& !r ==> forall|i: int| 0 <= i < acts.len() ==> #[trigger] evaluates(acts[i].expr, test, data, false)
}

impl ActionManager {
    /// A manager without actions.
    pub fn new() -> (r: Self)
        ensures
            r.fragment_spec@.len() == 0 && r.exclude_spec@.len() == 0 && r.empty_spec@.len() == 0,
            r.move_spec@.len() == 0 && r.prune_spec@.len() == 0 && r.xattr_exc_spec@.len() == 0,
            r.xattr_inc_spec@.len() == 0 && r.xattr_add_spec@.len() == 0 && r.other_spec@.len()
                == 0,
            r.move_list@.len() == 0,
    {
        ActionManager {
            fragment_spec: Vec::new(),
            exclude_spec: Vec::new(),
            empty_spec: Vec::new(),
            move_spec: Vec::new(),
            prune_spec: Vec::new(),
            xattr_exc_spec: Vec::new(),
            xattr_inc_spec: Vec::new(),
            xattr_add_spec: Vec::new(),
            other_spec: Vec::new(),
            move_list: Vec::new(),
        }
    }

    /// Read an action from `input`: its test, then its name. No test of the
    /// language is known, so parsing fails at the test, and nothing is
    /// added.
    pub fn parse_action(&mut self, input: &str, verbose: ActionLogLevel) -> (r: Result<(), ActionError>)
        ensures
            r matches Err(ActionError::ParseError(m)) && m@ == action_parse_error(input@),
            final(self).other_spec@.len() == old(self).other_spec@.len(),
            final(self).exclude_spec@.len() == old(self).exclude_spec@.len(),
    {
        let mut parser = Parser::new(input);
        let _expr = match parser.parse_expr() {
            Ok(e) => e,
            Err(e) => {
                return Err(e);
            },
        };
        Err(ActionError::ParseError(String::from_str("Expected action name")))
    }

    /// Evaluate the test `expr` on the file described by `data`, with `test`
    /// giving the value of each atom.
    pub fn eval_expr<F: Fn(&String, &Vec<String>, &ActionData) -> bool>(
        &self,
        expr: &Expr,
        data: &ActionData,
        test: &F,
    ) -> (r: bool)
        requires
            forall|n: &String, a: &Vec<String>, d: &ActionData| test.requires((n, a, d)),
        ensures
            evaluates(*expr, *test, *data, r),
        decreases expr,
    {
        match expr {
            Expr::Op { lhs, rhs, op } => {
                let l = self.eval_expr(lhs, data, test);
                proof {
                    assert(evaluates(**lhs, *test, *data, l));
                }
                match op {
                    Token::And => {
                        if l {
                            self.eval_expr(rhs, data, test)
                        } else {
                            false
                        }
                    },
                    Token::Or => {
                        if l {
                            true
                        } else {
                            self.eval_expr(rhs, data, test)
                        }
                    },
                    _ => false,
                }
            },
            Expr::Atom { name, args } => test(name, args, data),
            Expr::Unary { expr, op } => {
                match op {
                    Token::Not => !self.eval_expr(expr, data, test),
                    _ => false,
                }
            },
        }
    }

    fn any_action_holds<F: Fn(&String, &Vec<String>, &ActionData) -> bool>(
        &self,
        acts: &Vec<Action>,
        data: &ActionData,
        test: &F,
    ) -> (r: bool)
        requires
            forall|n: &String, a: &Vec<String>, d: &ActionData| test.requires((n, a, d)),
        ensures
            first_match(acts@, *test, *data, r),
    {
        let mut i: usize = 0;
        while i < acts.len()
            invariant
                i <= acts@.len(),
                forall|n: &String, a: &Vec<String>, d: &ActionData| test.requires((n, a, d)),
                forall|j: int| 0 <= j < i ==> #[trigger] evaluates(acts@[j].expr, *test, *data, false),
            decreases acts@.len() - i,
        {
            if self.eval_expr(&acts[i].expr, data, test) {
                assert(evaluates(acts@[i as int].expr, *test, *data, true));
                return true;
            }
            i = i + 1;
        }
        false
    }

    /// Whether some exclude action selects the file.
    pub fn eval_exclude_actions<F: Fn(&String, &Vec<String>, &ActionData) -> bool>(&self, data: &ActionData, test: &F) -> (r: bool)
        requires
            forall|n: &String, a: &Vec<String>, d: &ActionData| test.requires((n, a, d)),
        ensures
            first_match(self.exclude_spec@, *test, *data, r),
    {
        self.any_action_holds(&self.exclude_spec, data, test)
    }

    /// Whether some empty action selects a directory with `dir_count`
    /// subdirectories: only empty directories are looked at.
    pub fn eval_empty_actions<F: Fn(&String, &Vec<String>, &ActionData) -> bool>(
        &self,
        dir_count: u32,
        data: &ActionData,
        test: &F,
    ) -> (r: Result<bool, ActionError>)
        requires
            forall|n: &String, a: &Vec<String>, d: &ActionData| test.requires((n, a, d)),
        ensures
            dir_count != 0 ==> (r matches Ok(b) && !b),
            dir_count == 0 ==> (r matches Ok(b) && first_match(self.empty_spec@, *test, *data, b)),
    {
        if dir_count != 0 {
            return Ok(false);
        }
        Ok(self.any_action_holds(&self.empty_spec, data, test))
    }

    /// Whether some prune action selects the file.
    pub fn eval_prune_actions<F: Fn(&String, &Vec<String>, &ActionData) -> bool>(&self, data: &ActionData, test: &F) -> (r: Result<bool, ActionError>)
        requires
            forall|n: &String, a: &Vec<String>, d: &ActionData| test.requires((n, a, d)),
        ensures
            r matches Ok(b) && first_match(self.prune_spec@, *test, *data, b),
    {
        Ok(self.any_action_holds(&self.prune_spec, data, test))
    }

    /// The positions, in order, of the other actions whose test holds for the
    /// file: the actions to run on it.
    pub fn eval_actions<F: Fn(&String, &Vec<String>, &ActionData) -> bool>(&self, data: &ActionData, test: &F) -> (r: Result<Vec<usize>, ActionError>)
        requires
            forall|n: &String, a: &Vec<String>, d: &ActionData| test.requires((n, a, d)),
        ensures
            r matches Ok(v) && (forall|k: int| 0 <= k < v@.len() ==> v@[k] < self.other_spec@.len()
                && #[trigger] evaluates(self.other_spec@[v@[k] as int].expr, *test, *data, true))
                && (forall|k: int, l: int| 0 <= k < l < v@.len() ==> v@[k] < v@[l])
                && (forall|j: int|
                0 <= j < self.other_spec@.len() ==> v@.contains(j as usize) || #[trigger] evaluates(
                    self.other_spec@[j].expr,
                    *test,
                    *data,
                    false,
                )),
    {
        let mut out: Vec<usize> = Vec::new();
        let mut i: usize = 0;
        while i < self.other_spec.len()
            invariant
                i <= self.other_spec@.len(),
                forall|n: &String, a: &Vec<String>, d: &ActionData| test.requires((n, a, d)),
                forall|k: int| 0 <= k < out@.len() ==> #[trigger] out@[k] < i,
                forall|k: int| 0 <= k < out@.len() ==> #[trigger] evaluates(
                    self.other_spec@[out@[k] as int].expr,
                    *test,
                    *data,
                    true,
                ),
                forall|k: int, l: int| 0 <= k < l < out@.len() ==> out@[k] < out@[l],
                forall|j: int|
                    0 <= j < i ==> out@.contains(j as usize) || #[trigger] evaluates(
                        self.other_spec@[j].expr,
                        *test,
                        *data,
                        false,
                    ),
            decreases self.other_spec@.len() - i,
        {
            let ghost before = out@;
            let holds = self.eval_expr(&self.other_spec[i].expr, data, test);
            if holds {
                let ghost o = out@;
                assert(evaluates(self.other_spec@[i as int].expr, *test, *data, true));
                out.push(i);
                assert(out@ == o.push(i));
                assert forall|k: int| 0 <= k < out@.len() implies #[trigger] out@[k] < i + 1 && evaluates(
                    self.other_spec@[out@[k] as int].expr,
                    *test,
                    *data,
                    true,
                ) by {
                    if k < o.len() {
                        assert(out@[k] == o[k]);
                        assert(evaluates(self.other_spec@[o[k] as int].expr, *test, *data, true));
                    } else {
                        assert(out@[k] == i);
                    }
                }
            }
            assert forall|j: int| 0 <= j < i + 1 implies out@.contains(j as usize) || #[trigger] evaluates(
                self.other_spec@[j].expr,
                *test,
                *data,
                false,
            ) by {
                if j < i {
                    if before.contains(j as usize) {
                        let w = choose|w: int| 0 <= w < before.len() && before[w] == j as usize;
                        assert(out@[w] == before[w]);
                    }
                } else if holds {
                    assert(out@[out@.len() - 1] == i);
                }
            }
            i = i + 1;
        }
        Ok(out)
    }

    /// Evaluate the move actions on the file; moving is not done here, so
    /// nothing changes.
    pub fn eval_move_actions<F: Fn(&String, &Vec<String>, &ActionData) -> bool>(&self, data: &ActionData, test: &F) -> (r: Result<(), ActionError>)
        requires
            forall|n: &String, a: &Vec<String>, d: &ActionData| test.requires((n, a, d)),
        ensures
            r is Ok,
    {
        let mut i: usize = 0;
        while i < self.move_spec.len()
            invariant
                i <= self.move_spec@.len(),
                forall|n: &String, a: &Vec<String>, d: &ActionData| test.requires((n, a, d)),
            decreases self.move_spec@.len() - i,
        {
            let _selected = self.eval_expr(&self.move_spec[i].expr, data, test);
            i = i + 1;
        }
        Ok(())
    }

    /// Carry out the pending moves: the list is emptied.
    pub fn do_move_actions(&mut self) -> (r: Result<(), ActionError>)
        ensures
            r is Ok,
            final(self).move_list@.len() == 0,
            final(self).other_spec@.len() == old(self).other_spec@.len(),
    {
        while self.move_list.len() > 0
            invariant
                self.other_spec@.len() == old(self).other_spec@.len(),
            decreases self.move_list@.len(),
        {
            let _entry = self.move_list.remove(0);
        }
        Ok(())
    }

    /// Whether reading the action file whose text is `contents` ends: it
    /// does not where the first action line and the file's first line,
    /// trimmed, both end with a backslash (the line would be continued
    /// without end).
    pub fn reading_ends(contents: &str) -> (r: bool)
        ensures
            r == match first_action_line(lines_of(contents@), 0) {
                Some(j) => continuation_ends(lines_of(contents@)[j], trimmed(lines_of(contents@)[0])),
                None => true,
            },
    {
        let lines = split_lines(contents);
        let ghost ls = lines_of(contents@);
        let mut i: usize = 0;
        while i < lines.len()
            invariant
                views(lines@) == ls,
                ls == lines_of(contents@),
                i <= lines@.len(),
                first_action_line(ls, 0) == first_action_line(ls, i as int),
            decreases lines@.len() - i,
        {
            assert(views(lines@)[i as int] == lines@[i as int]@);
            let t = trim(lines[i].as_str());
            let c = chars_of(lines[i].as_str());
            if chars_of(t.as_str()).len() == 0 || (c.len() > 0 && c[0] == '#') {
                i = i + 1;
                continue;
            }
            assert(first_action_line(ls, i as int) == Some(i as int));
            assert(views(lines@)[0] == lines@[0]@);
            let first = trim(lines[0].as_str());
            let fc = chars_of(first.as_str());
            return !(c.len() > 0 && c[c.len() - 1] == '\\' && fc.len() > 0 && fc[fc.len() - 1] == '\\');
        }
        true
    }

    /// Read the actions of an action file whose text is `contents`: blank
    /// lines and comments are skipped, a line ending with a backslash is
    /// continued (with the file's first line, trimmed), and each action is
    /// read with `parse_action`, stopping at the first error.
    pub fn parse_action_text(&mut self, contents: &str, verbose: ActionLogLevel) -> (r: Result<(), ActionError>)
        requires
            match first_action_line(lines_of(contents@), 0) {
                Some(j) => continuation_ends(lines_of(contents@)[j], trimmed(lines_of(contents@)[0])),
                None => true,
            },
        ensures
            match first_action_line(lines_of(contents@), 0) {
                None => r is Ok,
                Some(j) => r matches Err(ActionError::ParseError(m)) && m@ == action_parse_error(
                    continued(lines_of(contents@)[j], trimmed(lines_of(contents@)[0])),
                ),
            },
    {
        let lines = split_lines(contents);
        let ghost ls = lines_of(contents@);
        let mut i: usize = 0;
        while i < lines.len()
            invariant
                views(lines@) == ls,
                ls == lines_of(contents@),
                i <= lines@.len(),
                first_action_line(ls, 0) == first_action_line(ls, i as int),
            decreases lines@.len() - i,
        {
            assert(views(lines@)[i as int] == lines@[i as int]@);
            let t = trim(lines[i].as_str());
            let c = chars_of(lines[i].as_str());
            if chars_of(t.as_str()).len() == 0 || (c.len() > 0 && c[0] == '#') {
                i = i + 1;
                continue;
            }
            assert(first_action_line(ls, i as int) == Some(i as int));
            assert(views(lines@)[0] == lines@[0]@);
            let first = trim(lines[0].as_str());
            let fc = chars_of(first.as_str());
            let mut line = c;
            if line.len() > 0 && line[line.len() - 1] == '\\' {
                if fc.len() == 0 {
                    strip_trailing_backslashes(&mut line);
                } else {
                    line.pop();
                    let mut k: usize = 0;
                    let ghost base = line@;
                    while k < fc.len()
                        invariant
                            k <= fc@.len(),
                            line@ == base + fc@.take(k as int),
                        decreases fc@.len() - k,
                    {
                        line.push(fc[k]);
                        assert(fc@.take(k + 1) =~= fc@.take(k as int).push(fc@[k as int]));
                        k = k + 1;
                    }
                    assert(fc@.take(fc@.len() as int) =~= fc@);
                }
            }
            let text = string_from_chars(line.as_slice());
            return self.parse_action(text.as_str(), verbose);
        }
        Ok(())
    }
}

} // verus!
