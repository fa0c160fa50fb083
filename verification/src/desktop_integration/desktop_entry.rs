use vstd::prelude::*;
use crate::error::AppImageError;
use crate::text::{
    char_is_whitespace, chars_of, lines_of, owned, push_char, push_str, split_lines, str_eq,
    string_from_chars, trim, trimmed, unicode_whitespace, views,
};

verus! {

/// Position of the first `k` in `s`, or -1 if there is none.
pub open spec fn first_index(s: Seq<Seq<char>>, k: Seq<char>) -> int
    decreases s.len(),
{
    if s.len() == 0 {
        -1
    } else if s[0] == k {
        0
    } else {
        let r = first_index(s.drop_first(), k);
        if r < 0 {
            -1
        } else {
            r + 1
        }
    }
}

/// The position a search from the front finds is the first `k`, if any.
pub proof fn lemma_first_index(s: Seq<Seq<char>>, k: Seq<char>, i: int)
    requires
        0 <= i <= s.len(),
        forall|j: int| 0 <= j < i ==> s[j] != k,
        i < s.len() ==> s[i] == k,
    ensures
        first_index(s, k) == (if i < s.len() {
            i
        } else {
            -1
        }),
    decreases i,
{
    if i > 0 {
        lemma_first_index(s.drop_first(), k, i - 1);
    }
}

/// What `first_index` finds is a `k` with none before it.
pub proof fn lemma_first_index_found(s: Seq<Seq<char>>, k: Seq<char>)
    ensures
        -1 <= first_index(s, k) < s.len(),
        first_index(s, k) >= 0 ==> s[first_index(s, k)] == k,
        forall|j: int| 0 <= j < s.len() && (first_index(s, k) < 0 || j < first_index(s, k)) ==> s[j] != k,
    decreases s.len(),
{
    if s.len() > 0 && s[0] != k {
        lemma_first_index_found(s.drop_first(), k);
        assert forall|j: int| 0 <= j < s.len() && (first_index(s, k) < 0 || j < first_index(s, k)) implies s[j] != k by {
            if j > 0 {
                assert(s[j] == s.drop_first()[j - 1]);
            }
        }
    }
}

/// Adding a name at the end leaves the first position of every name that
/// was there, and gives the new name its position if it was not.
pub proof fn lemma_first_index_push(s: Seq<Seq<char>>, x: Seq<char>, k: Seq<char>)
    ensures
        first_index(s.push(x), k) == (if first_index(s, k) >= 0 {
            first_index(s, k)
        } else if x == k {
            s.len() as int
        } else {
            -1
        }),
{
    lemma_first_index_found(s, k);
    let t = s.push(x);
    if first_index(s, k) >= 0 {
        let i = first_index(s, k);
        assert forall|j: int| 0 <= j < i implies t[j] != k by {
            assert(t[j] == s[j]);
        }
        lemma_first_index(t, k, i);
    } else if x == k {
        assert forall|j: int| 0 <= j < s.len() implies t[j] != k by {
            assert(t[j] == s[j]);
        }
        lemma_first_index(t, k, s.len() as int);
    } else {
        assert forall|j: int| 0 <= j < t.len() implies t[j] != k by {
            if j < s.len() {
                assert(t[j] == s[j]);
            }
        }
        lemma_first_index(t, k, t.len() as int);
    }
}

/// The keys of a group, in order.
pub open spec fn entry_keys(es: Seq<(Seq<char>, Seq<char>)>) -> Seq<Seq<char>> {
    Seq::new(es.len(), |i: int| es[i].0)
}

/// The names of the groups, in order.
pub open spec fn group_names(gs: Seq<(Seq<char>, Seq<(Seq<char>, Seq<char>)>)>) -> Seq<Seq<char>> {
    Seq::new(gs.len(), |i: int| gs[i].0)
}

/// The value of key `k` in group `g`, if the entry has one.
pub open spec fn entry_lookup(gs: Seq<(Seq<char>, Seq<(Seq<char>, Seq<char>)>)>, g: Seq<char>, k: Seq<char>) -> Option<Seq<char>> {
    let gi = first_index(group_names(gs), g);
    if gi < 0 {
        None
    } else {
        let es = gs[gi].1;
        let ki = first_index(entry_keys(es), k);
        if ki < 0 {
            None
        } else {
            Some(es[ki].1)
        }
    }
}

/// The entry with key `k` of group `g` set to `v`: a new group at the end,
/// a new key at the end of its group, or the value replaced in place.
pub open spec fn entry_set(gs: Seq<(Seq<char>, Seq<(Seq<char>, Seq<char>)>)>, g: Seq<char>, k: Seq<char>, v: Seq<char>) -> Seq<(Seq<char>, Seq<(Seq<char>, Seq<char>)>)> {
    let gi = first_index(group_names(gs), g);
    if gi < 0 {
        gs.push((g, seq![(k, v)]))
    } else {
        let es = gs[gi].1;
        let ki = first_index(entry_keys(es), k);
        if ki < 0 {
            gs.update(gi, (g, es.push((k, v))))
        } else {
            gs.update(gi, (g, es.update(ki, (k, v))))
        }
    }
}

/// The group and the key of a key path `group/key`: split at the first
/// slash; a path without one is a group with the empty key.
pub open spec fn split_key_path(p: Seq<char>) -> (Seq<char>, Seq<char>) {
    let i = first_char_index(p, '/');
    if i < 0 {
        (p, Seq::empty())
    } else {
        (p.take(i), p.skip(i + 1))
    }
}

/// Position of the first `c` in `s`, or -1.
pub open spec fn first_char_index(s: Seq<char>, c: char) -> int
    decreases s.len(),
{
    if s.len() == 0 {
        -1
    } else if s[0] == c {
        0
    } else {
        let r = first_char_index(s.drop_first(), c);
        if r < 0 {
            -1
        } else {
            r + 1
        }
    }
}

pub proof fn lemma_first_char_index(s: Seq<char>, c: char, i: int)
    requires
        0 <= i <= s.len(),
        forall|j: int| 0 <= j < i ==> s[j] != c,
        i < s.len() ==> s[i] == c,
    ensures
        first_char_index(s, c) == (if i < s.len() {
            i
        } else {
            -1
        }),
    decreases i,
{
    if i > 0 {
        lemma_first_char_index(s.drop_first(), c, i - 1);
    }
}

/// The paths `group/key` of the entries of the groups, in order.
pub open spec fn entry_paths(gs: Seq<(Seq<char>, Seq<(Seq<char>, Seq<char>)>)>) -> Seq<Seq<char>>
    decreases gs.len(),
{
    if gs.len() == 0 {
        Seq::empty()
    } else {
        entry_paths(gs.drop_last()) + Seq::new(
            gs.last().1.len(),
            |j: int| gs.last().0 + seq!['/'] + gs.last().1[j].0,
        )
    }
}

/// The text of a desktop entry file: each group as `[name]`, then its
/// lines `key=value`, then an empty line.
pub open spec fn entry_text(gs: Seq<(Seq<char>, Seq<(Seq<char>, Seq<char>)>)>) -> Seq<char>
    decreases gs.len(),
{
    if gs.len() == 0 {
        Seq::empty()
    } else {
        entry_text(gs.drop_last()) + group_text(gs.last())
    }
}

/// The text of one group.
pub open spec fn group_text(g: (Seq<char>, Seq<(Seq<char>, Seq<char>)>)) -> Seq<char> {
    seq!['['] + g.0 + seq![']', '\n'] + lines_text(g.1) + seq!['\n']
}

/// The lines `key=value` of the entries of a group.
pub open spec fn lines_text(es: Seq<(Seq<char>, Seq<char>)>) -> Seq<char>
    decreases es.len(),
{
    if es.len() == 0 {
        Seq::empty()
    } else {
        lines_text(es.drop_last()) + es.last().0 + seq!['='] + es.last().1 + seq!['\n']
    }
}

/// The entry that reading lines `ls` from the `i`-th on gives, starting
/// from entry `e` in group `g`: lines are trimmed; empty lines and
/// comments are skipped; `[name]` starts group `name`; `key=value` sets
/// the value at key path `group/key` (key and value trimmed); other lines
/// are skipped.
pub open spec fn parse_lines(
    ls: Seq<Seq<char>>,
    i: int,
    g: Seq<char>,
    e: Seq<(Seq<char>, Seq<(Seq<char>, Seq<char>)>)>,
) -> Seq<(Seq<char>, Seq<(Seq<char>, Seq<char>)>)>
    decreases ls.len() - i,
{
    if i < 0 || i >= ls.len() {
        e
    } else {
        let l = trimmed(ls[i]);
        if l.len() == 0 || l[0] == '#' {
            parse_lines(ls, i + 1, g, e)
        } else if l[0] == '[' && l.last() == ']' {
            parse_lines(ls, i + 1, l.subrange(1, l.len() - 1), e)
        } else {
            let c = first_char_index(l, '=');
            if c < 0 {
                parse_lines(ls, i + 1, g, e)
            } else {
                let kp = g + seq!['/'] + trimmed(l.take(c));
                parse_lines(
                    ls,
                    i + 1,
                    g,
                    entry_set(e, split_key_path(kp).0, split_key_path(kp).1, trimmed(l.skip(c + 1))),
                )
            }
        }
    }
}

/// A line `key=value` is split at its first `=`: the key is the text
/// before it (which holds no `=`), and the value is all the text after
/// it, further `=` included, both trimmed; it sets that key of the current
/// group `g` and reading goes on with the next line.
pub proof fn law_line_splits_at_first_equals(
    ls: Seq<Seq<char>>,
    i: int,
    g: Seq<char>,
    e: Seq<(Seq<char>, Seq<(Seq<char>, Seq<char>)>)>,
    key: Seq<char>,
    value: Seq<char>,
)
    requires
        0 <= i < ls.len(),
        trimmed(ls[i]) == key + seq!['='] + value,
        !key.contains('='),
        key.len() > 0,
        key[0] != '#',
        key[0] != '[',
    ensures
        parse_lines(ls, i, g, e) == parse_lines(
            ls,
            i + 1,
            g,
            entry_set(
                e,
                split_key_path(g + seq!['/'] + trimmed(key)).0,
                split_key_path(g + seq!['/'] + trimmed(key)).1,
                trimmed(value),
            ),
        ),
{
    let l = trimmed(ls[i]);
    assert(l[0] == key[0]);
    assert forall|j: int| 0 <= j < key.len() implies l[j] != '=' by {
        assert(l[j] == key[j]);
    }
    assert(l[key.len() as int] == '=');
    lemma_first_char_index(l, '=', key.len() as int);
    assert(l.take(key.len() as int) =~= key);
    assert(l.skip(key.len() as int + 1) =~= value);
}

/// A desktop entry file: groups of keys with values, in the order they
/// were first set.
#[derive(Debug, Clone)]
pub struct DesktopEntry {
    groups: Vec<(String, Vec<(String, String)>)>,
}

/// The views of the entries of a group.
pub open spec fn entries_view(es: Seq<(String, String)>) -> Seq<(Seq<char>, Seq<char>)> {
    Seq::new(es.len(), |j: int| (es[j].0@, es[j].1@))
}

impl View for DesktopEntry {
    type V = Seq<(Seq<char>, Seq<(Seq<char>, Seq<char>)>)>;

    /// The groups: each its name and its keys with their values.
    closed spec fn view(&self) -> Self::V {
        Seq::new(
            self.groups@.len(),
            |i: int| (self.groups@[i].0@, entries_view(self.groups@[i].1@)),
        )
    }
}

fn split_path(p: &str) -> (r: (String, String))
    ensures
        (r.0@, r.1@) == split_key_path(p@),
{
    let c = chars_of(p);
    let mut i: usize = 0;
    while i < c.len() && c[i] != '/'
        invariant
            c@ == p@,
            i <= c@.len(),
            forall|j: int| 0 <= j < i ==> c@[j] != '/',
        decreases c@.len() - i,
    {
        i = i + 1;
    }
    proof {
        lemma_first_char_index(p@, '/', i as int);
    }
    if i == c.len() {
        return (owned(p), String::new());
    }
    let mut g: Vec<char> = Vec::new();
    let mut j: usize = 0;
    while j < i
        invariant
            c@ == p@,
            j <= i < c@.len(),
            g@ == c@.take(j as int),
        decreases i - j,
    {
        g.push(c[j]);
        assert(g@ =~= c@.take(j + 1));
        j = j + 1;
    }
    let mut k: Vec<char> = Vec::new();
    let mut m: usize = i + 1;
    while m < c.len()
        invariant
            c@ == p@,
            i < c@.len(),
            i + 1 <= m <= c@.len(),
            k@ == c@.subrange(i + 1, m as int),
        decreases c@.len() - m,
    {
        k.push(c[m]);
        assert(k@ =~= c@.subrange(i + 1, m + 1));
        m = m + 1;
    }
    assert(k@ =~= p@.skip(i + 1));
    (string_from_chars(g.as_slice()), string_from_chars(k.as_slice()))
}

impl DesktopEntry {
    /// An entry without groups.
    pub fn new() -> (r: Self)
        ensures
            r@ == Seq::<(Seq<char>, Seq<(Seq<char>, Seq<char>)>)>::empty(),
    {
        let r = DesktopEntry { groups: Vec::new() };
        assert(r@ =~= Seq::<(Seq<char>, Seq<(Seq<char>, Seq<char>)>)>::empty());
        r
    }

    /// Positions of group `g` and of key `k` in it, if they exist.
    #[verifier::loop_isolation(false)]
    fn find(&self, g: &str, k: &str) -> (r: (Option<usize>, Option<usize>))
        ensures
            ({
                let gi = first_index(group_names(self@), g@);
                &&& gi < 0 ==> r.0 is None && r.1 is None
                &&& gi >= 0 ==> (r.0 matches Some(i) && i == gi) && ({
                    let ki = first_index(entry_keys(self@[gi].1), k@);
                    &&& ki < 0 ==> r.1 is None
                    &&& ki >= 0 ==> (r.1 matches Some(j) && j == ki)
                })
            }),
            r.0 matches Some(i) ==> i < self.groups@.len() && (r.1 matches Some(j) ==> j
                < self.groups@[i as int].1@.len()),
    {
        let ghost names = group_names(self@);
        let mut i: usize = 0;
        while i < self.groups.len()
            invariant
                names == group_names(self@),
                i <= self.groups@.len(),
                forall|j: int| 0 <= j < i ==> names[j] != g@,
            decreases self.groups@.len() - i,
        {
            assert(names[i as int] == self.groups@[i as int].0@);
            if str_eq(self.groups[i].0.as_str(), g) {
                proof {
                    lemma_first_index(names, g@, i as int);
                }
                let es = &self.groups[i].1;
                let ghost keys = entry_keys(self@[i as int].1);
                let mut j: usize = 0;
                while j < es.len()
                    invariant
                        es@ == self.groups@[i as int].1@,
                        keys == entry_keys(self@[i as int].1),
                        keys.len() == es@.len(),
                        j <= es@.len(),
                        forall|m: int| 0 <= m < j ==> keys[m] != k@,
                    decreases es@.len() - j,
                {
                    assert(keys[j as int] == es@[j as int].0@);
                    if str_eq(es[j].0.as_str(), k) {
                        proof {
                            lemma_first_index(keys, k@, j as int);
                        }
                        return (Some(i), Some(j));
                    }
                    j = j + 1;
                }
                proof {
                    lemma_first_index(keys, k@, j as int);
                }
                return (Some(i), None);
            }
            i = i + 1;
        }
        proof {
            lemma_first_index(names, g@, i as int);
        }
        (None, None)
    }

    /// Whether the entry has a value at key path `group/key`.
    pub fn key_exists(&self, key_path: &str) -> (r: bool)
        ensures
            r == entry_lookup(self@, split_key_path(key_path@).0, split_key_path(key_path@).1) is Some,
    {
        let (g, k) = split_path(key_path);
        let (gi, ki) = self.find(g.as_str(), k.as_str());
        ki.is_some()
    }

    /// The value at key path `group/key`; empty if there is none.
    pub fn get(&self, key_path: &str) -> (r: &str)
        ensures
            r@ == (match entry_lookup(
                self@,
                split_key_path(key_path@).0,
                split_key_path(key_path@).1,
            ) {
                Some(v) => v,
                None => Seq::<char>::empty(),
            }),
    {
        let (g, k) = split_path(key_path);
        let (gi, ki) = self.find(g.as_str(), k.as_str());
        match (gi, ki) {
            (Some(i), Some(j)) => {
                assert(self@[i as int].1[j as int].1 == self.groups@[i as int].1@[j as int].1@);
                self.groups[i].1[j].1.as_str()
            },
            (Some(i), None) => {
                proof {
                    reveal_strlit("");
                }
                assert(entry_lookup(self@, g@, k@) is None);
                ""
            },
            (None, _) => {
                proof {
                    reveal_strlit("");
                }
                assert(entry_lookup(self@, g@, k@) is None);
                ""
            },
        }
    }

    /// Set the value at key path `group/key`.
    pub fn set(&mut self, key_path: &str, value: &str)
        ensures
            final(self)@ == entry_set(
                old(self)@,
                split_key_path(key_path@).0,
                split_key_path(key_path@).1,
                value@,
            ),
    {
        let (g, k) = split_path(key_path);
        let (gi, ki) = self.find(g.as_str(), k.as_str());
        let ghost v0 = self@;
        match gi {
            None => {
                let mut es: Vec<(String, String)> = Vec::new();
                es.push((k, owned(value)));
                self.groups.push((g, es));
                assert(entries_view(es@) =~= seq![(split_key_path(key_path@).1, value@)]);
                assert(self@ =~= v0.push((split_key_path(key_path@).0, seq![(split_key_path(key_path@).1, value@)])));
            },
            Some(i) => {
                let ghost g0 = self.groups@;
                proof {
                    lemma_first_index_found(group_names(v0), g@);
                    assert(group_names(v0)[i as int] == g0[i as int].0@);
                    if ki is Some {
                        lemma_first_index_found(entry_keys(v0[i as int].1), k@);
                    }
                }
                let (name, mut es) = self.groups.remove(i);
                let ghost e0 = es@;
                assert(e0 == g0[i as int].1@);
                assert(entries_view(e0) == v0[i as int].1);
                match ki {
                    None => {
                        assert(first_index(entry_keys(v0[i as int].1), k@) < 0);
                        es.push((k, owned(value)));
                        assert(entries_view(es@) =~= entries_view(e0).push((split_key_path(key_path@).1, value@)));
                    },
                    Some(j) => {
                        assert(first_index(entry_keys(v0[i as int].1), k@) == j as int);
                        let _old = es.remove(j);
                        es.insert(j, (k, owned(value)));
                        assert(entries_view(es@) =~= entries_view(e0).update(j as int, (split_key_path(key_path@).1, value@)));
                    },
                }
                self.groups.insert(i, (name, es));
                assert(self.groups@ =~= g0.update(i as int, (name, es)));
                assert(first_index(group_names(v0), g@) == i as int);
                assert(group_names(v0)[i as int] == g@);
                assert(name@ == g@);
                assert(self@ =~= v0.update(i as int, (g@, entries_view(es@))));
                assert(self@ =~= entry_set(v0, split_key_path(key_path@).0, split_key_path(key_path@).1, value@));
            },
        }
    }

    /// Read a desktop entry file.
    pub fn parse(content: &str) -> (r: Result<Self, AppImageError>)
        ensures
            r matches Ok(e) && e@ == parse_lines(
                lines_of(content@),
                0,
                Seq::empty(),
                Seq::empty(),
            ),
    {
        let lines = split_lines(content);
        let mut entry = DesktopEntry::new();
        let mut group = String::new();
        let mut i: usize = 0;
        while i < lines.len()
            invariant
                i <= lines@.len(),
                views(lines@) == lines_of(content@),
                parse_lines(lines_of(content@), 0, Seq::empty(), Seq::empty()) == parse_lines(
                    lines_of(content@),
                    i as int,
                    group@,
                    entry@,
                ),
            decreases lines@.len() - i,
        {
            assert(views(lines@)[i as int] == lines@[i as int]@);
            let line = trim(lines[i].as_str());
            let c = chars_of(line.as_str());
            if c.len() == 0 || c[0] == '#' {
                i = i + 1;
                continue;
            }
            if c[0] == '[' && c[c.len() - 1] == ']' {
                let inner = vstd::slice::slice_subrange(c.as_slice(), 1, c.len() - 1);
                group = string_from_chars(inner);
                i = i + 1;
                continue;
            }
            let mut k: usize = 0;
            while k < c.len() && c[k] != '='
                invariant
                    k <= c@.len(),
                    forall|j: int| 0 <= j < k ==> c@[j] != '=',
                decreases c@.len() - k,
            {
                k = k + 1;
            }
            proof {
                lemma_first_char_index(c@, '=', k as int);
            }
            if k < c.len() {
                let key_part = string_from_chars(vstd::slice::slice_subrange(c.as_slice(), 0, k));
                let value_part = string_from_chars(vstd::slice::slice_subrange(c.as_slice(), k + 1, c.len()));
                let key = trim(key_part.as_str());
                let value = trim(value_part.as_str());
                let mut key_path = owned(group.as_str());
                push_char(&mut key_path, '/');
                push_str(&mut key_path, key.as_str());
                proof {
                    assert(key_part@ =~= c@.take(k as int));
                    assert(value_part@ =~= c@.skip(k + 1));
                    assert(key_path@ =~= group@ + seq!['/'] + trimmed(c@.take(k as int)));
                }
                entry.set(key_path.as_str(), value.as_str());
            }
            i = i + 1;
        }
        Ok(entry)
    }

    /// A copy of the entry.
    pub fn duplicate(&self) -> (r: Self)
        ensures
            r@ == self@,
    {
        let mut groups: Vec<(String, Vec<(String, String)>)> = Vec::new();
        let mut i: usize = 0;
        while i < self.groups.len()
            invariant
                i <= self.groups@.len(),
                groups@.len() == i,
                forall|k: int|
                    0 <= k < i ==> (#[trigger] groups@[k]).0@ == self.groups@[k].0@ && entries_view(
                        groups@[k].1@,
                    ) == entries_view(self.groups@[k].1@),
            decreases self.groups@.len() - i,
        {
            let es = &self.groups[i].1;
            let mut copy: Vec<(String, String)> = Vec::new();
            let mut j: usize = 0;
            while j < es.len()
                invariant
                    j <= es@.len(),
                    copy@.len() == j,
                    forall|k: int|
                        0 <= k < j ==> (#[trigger] copy@[k]).0@ == es@[k].0@ && copy@[k].1@
                            == es@[k].1@,
                decreases es@.len() - j,
            {
                copy.push((owned(es[j].0.as_str()), owned(es[j].1.as_str())));
                j = j + 1;
            }
            assert(entries_view(copy@) =~= entries_view(es@));
            groups.push((owned(self.groups[i].0.as_str()), copy));
            i = i + 1;
        }
        let r = DesktopEntry { groups };
        assert(r@ =~= self@);
        r
    }

    /// The key paths `group/key` of all values, in order.
    #[verifier::loop_isolation(false)]
    pub fn paths(&self) -> (r: Vec<String>)
        ensures
            Seq::new(r@.len(), |i: int| r@[i]@) == entry_paths(self@),
    {
        let mut out: Vec<String> = Vec::new();
        let mut i: usize = 0;
        assert(self@.take(0) =~= Seq::<(Seq<char>, Seq<(Seq<char>, Seq<char>)>)>::empty());
        while i < self.groups.len()
            invariant
                i <= self.groups@.len(),
                Seq::new(out@.len(), |m: int| out@[m]@) == entry_paths(self@.take(i as int)),
            decreases self.groups@.len() - i,
        {
            let ghost before = Seq::new(out@.len(), |m: int| out@[m]@);
            let es = &self.groups[i].1;
            let mut j: usize = 0;
            while j < es.len()
                invariant
                    es@ == self.groups@[i as int].1@,
                    j <= es@.len(),
                    Seq::new(out@.len(), |m: int| out@[m]@) == before + Seq::new(
                        j as nat,
                        |q: int| self@[i as int].0 + seq!['/'] + self@[i as int].1[q].0,
                    ),
                decreases es@.len() - j,
            {
                let mut p = owned(self.groups[i].0.as_str());
                push_char(&mut p, '/');
                push_str(&mut p, es[j].0.as_str());
                assert(self@[i as int].0 == self.groups@[i as int].0@);
                assert(self@[i as int].1[j as int].0 == es@[j as int].0@);
                assert(p@ =~= self@[i as int].0 + seq!['/'] + self@[i as int].1[j as int].0);
                let ghost o0 = Seq::new(out@.len(), |m: int| out@[m]@);
                out.push(p);
                assert(Seq::new(out@.len(), |m: int| out@[m]@) =~= o0.push(p@));
                assert(before + Seq::new(
                    (j + 1) as nat,
                    |q: int| self@[i as int].0 + seq!['/'] + self@[i as int].1[q].0,
                ) =~= (before + Seq::new(
                    j as nat,
                    |q: int| self@[i as int].0 + seq!['/'] + self@[i as int].1[q].0,
                )).push(p@));
                j = j + 1;
            }
            proof {
                let t = self@.take(i + 1);
                assert(t.drop_last() =~= self@.take(i as int));
                assert(t.last() == self@[i as int]);
            }
            i = i + 1;
        }
        assert(self@.take(self.groups@.len() as int) =~= self@);
        out
    }

    /// The text of the entry as a desktop file.
    #[verifier::loop_isolation(false)]
    pub fn to_string(&self) -> (r: String)
        ensures
            r@ == entry_text(self@),
    {
        let mut out = String::new();
        let mut i: usize = 0;
        assert(self@.take(0) =~= Seq::<(Seq<char>, Seq<(Seq<char>, Seq<char>)>)>::empty());
        while i < self.groups.len()
            invariant
                i <= self.groups@.len(),
                out@ == entry_text(self@.take(i as int)),
            decreases self.groups@.len() - i,
        {
            let ghost before = out@;
            push_char(&mut out, '[');
            push_str(&mut out, self.groups[i].0.as_str());
            push_char(&mut out, ']');
            push_char(&mut out, '\n');
            assert(self@[i as int].0 == self.groups@[i as int].0@);
            assert(self@[i as int].1.len() == self.groups@[i as int].1@.len());
            let es = &self.groups[i].1;
            let ghost head = out@;
            let mut j: usize = 0;
            assert(self@[i as int].1.take(0) =~= Seq::<(Seq<char>, Seq<char>)>::empty());
            while j < es.len()
                invariant
                    es@ == self.groups@[i as int].1@,
                    j <= es@.len(),
                    out@ == head + lines_text(self@[i as int].1.take(j as int)),
                decreases es@.len() - j,
            {
                let ghost o1 = out@;
                push_str(&mut out, es[j].0.as_str());
                push_char(&mut out, '=');
                push_str(&mut out, es[j].1.as_str());
                push_char(&mut out, '\n');
                proof {
                    assert(self@[i as int].1[j as int] == (es@[j as int].0@, es@[j as int].1@));
                    assert(out@ =~= o1 + es@[j as int].0@ + seq!['='] + es@[j as int].1@ + seq!['\n']);
                    let t = self@[i as int].1.take(j + 1);
                    assert(t.drop_last() =~= self@[i as int].1.take(j as int));
                    assert(t.last() == self@[i as int].1[j as int]);
                }
                j = j + 1;
            }
            push_char(&mut out, '\n');
            proof {
                assert(self@[i as int].1.take(es@.len() as int) =~= self@[i as int].1);
                let t = self@.take(i + 1);
                assert(t.drop_last() =~= self@.take(i as int));
                assert(t.last() == self@[i as int]);
                assert(out@ =~= before + group_text(self@[i as int]));
            }
            i = i + 1;
        }
        assert(self@.take(self.groups@.len() as int) =~= self@);
        out
    }
}

/// A value set with `set` is what `get` then gives at its key path, and
/// every other key path keeps its value.
pub proof fn law_set_then_lookup(
    gs: Seq<(Seq<char>, Seq<(Seq<char>, Seq<char>)>)>,
    g: Seq<char>,
    k: Seq<char>,
    v: Seq<char>,
    g2: Seq<char>,
    k2: Seq<char>,
)
    ensures
        entry_lookup(entry_set(gs, g, k, v), g2, k2) == (if g2 == g && k2 == k {
            Some(v)
        } else {
            entry_lookup(gs, g2, k2)
        }),
{
    let names = group_names(gs);
    let gi = first_index(names, g);
    lemma_first_index_found(names, g);
    lemma_first_index_found(names, g2);
    let ns = entry_set(gs, g, k, v);
    if gi < 0 {
        assert(group_names(ns) =~= names.push(g));
        lemma_first_index_push(names, g, g2);
        if g2 == g {
            assert(entry_keys(seq![(k, v)]) =~= seq![k]);
            lemma_first_index(seq![k], k2, if k2 == k { 0 } else { 1 });
        }
    } else {
        let es = gs[gi].1;
        let keys = entry_keys(es);
        let ki = first_index(keys, k);
        lemma_first_index_found(keys, k);
        lemma_first_index_found(keys, k2);
        assert(group_names(ns) =~= names);
        if g2 == g {
            if ki < 0 {
                assert(entry_keys(es.push((k, v))) =~= keys.push(k));
                lemma_first_index_push(keys, k, k2);
            } else {
                assert(entry_keys(es.update(ki, (k, v))) =~= keys);
            }
        }
    }
}

/// The path `group/key` of key `j` in group `i`.
pub open spec fn path_at(gs: Seq<(Seq<char>, Seq<(Seq<char>, Seq<char>)>)>, i: int, j: int) -> Seq<char> {
    gs[i].0 + seq!['/'] + gs[i].1[j].0
}

/// A path is among the entry's paths exactly when it is the path of one of
/// the keys of one of the groups.
pub proof fn lemma_entry_paths_has(gs: Seq<(Seq<char>, Seq<(Seq<char>, Seq<char>)>)>, p: Seq<char>)
    ensures
        entry_paths(gs).contains(p) <==> exists|i: int, j: int|
            0 <= i < gs.len() && 0 <= j < gs[i].1.len() && p == #[trigger] path_at(gs, i, j),
    decreases gs.len(),
{
    if gs.len() > 0 {
        let t = gs.drop_last();
        let last = gs.last();
        let n = gs.len() - 1;
        let left = entry_paths(t);
        let right = Seq::new(last.1.len(), |j: int| last.0 + seq!['/'] + last.1[j].0);
        lemma_entry_paths_has(t, p);
        assert(entry_paths(gs) == left + right);
        if entry_paths(gs).contains(p) {
            let idx = choose|idx: int| 0 <= idx < entry_paths(gs).len() && entry_paths(gs)[idx] == p;
            if idx < left.len() {
                assert(left[idx] == p);
                assert(left.contains(p));
                let (i, j) = choose|i: int, j: int|
                    0 <= i < t.len() && 0 <= j < t[i].1.len() && p == #[trigger] path_at(t, i, j);
                assert(gs[i] == t[i]);
                assert(p == path_at(gs, i, j));
            } else {
                let j = idx - left.len();
                assert(right[j] == p);
                assert(p == path_at(gs, n, j));
            }
        }
        if exists|i: int, j: int|
            0 <= i < gs.len() && 0 <= j < gs[i].1.len() && p == #[trigger] path_at(gs, i, j) {
            let (i, j) = choose|i: int, j: int|
                0 <= i < gs.len() && 0 <= j < gs[i].1.len() && p == #[trigger] path_at(gs, i, j);
            if i < n {
                assert(t[i] == gs[i]);
                assert(p == path_at(t, i, j));
                assert(left.contains(p));
                let idx = choose|idx: int| 0 <= idx < left.len() && left[idx] == p;
                assert((left + right)[idx] == p);
            } else {
                assert(right[j] == p);
                assert((left + right)[left.len() + j] == p);
            }
        }
    }
}

/// Setting a value adds its path `group/key` to the set of the entry's
/// paths, and no other: every path there was stays.
pub proof fn law_set_paths(
    gs: Seq<(Seq<char>, Seq<(Seq<char>, Seq<char>)>)>,
    g: Seq<char>,
    k: Seq<char>,
    v: Seq<char>,
)
    ensures
        entry_paths(entry_set(gs, g, k, v)).to_set() == entry_paths(gs).to_set().insert(
            g + seq!['/'] + k,
        ),
{
    let ns = entry_set(gs, g, k, v);
    let names = group_names(gs);
    let gi = first_index(names, g);
    let q = g + seq!['/'] + k;
    lemma_first_index_found(names, g);
    if gi >= 0 {
        lemma_first_index_found(entry_keys(gs[gi].1), k);
        assert(names[gi] == gs[gi].0);
    }
    assert forall|p: Seq<char>| entry_paths(ns).to_set().contains(p) == entry_paths(
        gs,
    ).to_set().insert(q).contains(p) by {
        lemma_entry_paths_has(ns, p);
        lemma_entry_paths_has(gs, p);
        if entry_paths(ns).contains(p) && p != q {
            let (i, j) = choose|i: int, j: int|
                0 <= i < ns.len() && 0 <= j < ns[i].1.len() && p == #[trigger] path_at(ns, i, j);
            if i < gs.len() && (i != gi || j < gs[i].1.len()) {
                if i == gi {
                    let ki = first_index(entry_keys(gs[gi].1), k);
                    if ki >= 0 && j == ki {
                        assert(entry_keys(gs[gi].1)[ki] == k);
                    }
                }
                assert(ns[i].0 == gs[i].0);
                assert(ns[i].1[j].0 == gs[i].1[j].0);
                assert(p == path_at(gs, i, j));
            }
        }
        if entry_paths(gs).contains(p) {
            let (i, j) = choose|i: int, j: int|
                0 <= i < gs.len() && 0 <= j < gs[i].1.len() && p == #[trigger] path_at(gs, i, j);
            if i == gi {
                let ki = first_index(entry_keys(gs[gi].1), k);
                if ki >= 0 && j == ki {
                    assert(entry_keys(gs[gi].1)[ki] == k);
                }
            }
            assert(ns[i].0 == gs[i].0);
            assert(ns[i].1[j].0 == gs[i].1[j].0);
            assert(p == path_at(ns, i, j));
        }
        if p == q {
            if gi < 0 {
                let i = gs.len() as int;
                assert(ns[i].1[0].0 == k);
                assert(p == path_at(ns, i, 0));
            } else {
                let es = gs[gi].1;
                let ki = first_index(entry_keys(es), k);
                let j = if ki < 0 { es.len() as int } else { ki };
                assert(ns[gi].1[j].0 == k);
                assert(ns[gi].0 == g);
                assert(p == path_at(ns, gi, j));
            }
        }
    }
    assert(entry_paths(ns).to_set() =~= entry_paths(gs).to_set().insert(q));
}

/// Where splitting an `Exec` value has got to: the parts found, the part
/// being read, whether a quote is open and whether a backslash escapes
/// the next character.
pub struct ExecSplit {
    pub parts: Seq<Seq<char>>,
    pub current: Seq<char>,
    pub in_quotes: bool,
    pub escape: bool,
}

/// The split after one more character.
pub open spec fn exec_step(st: ExecSplit, c: char) -> ExecSplit {
    if st.escape {
        ExecSplit { current: st.current.push(c), escape: false, ..st }
    } else if c == '\\' {
        ExecSplit { escape: true, ..st }
    } else if c == '"' {
        ExecSplit { in_quotes: !st.in_quotes, ..st }
    } else if unicode_whitespace(c) && !st.in_quotes {
        if st.current.len() > 0 {
            ExecSplit { parts: st.parts.push(st.current), current: Seq::empty(), ..st }
        } else {
            st
        }
    } else {
        ExecSplit { current: st.current.push(c), ..st }
    }
}

/// The split after the characters of `s`.
pub open spec fn exec_scan(s: Seq<char>) -> ExecSplit
    decreases s.len(),
{
    if s.len() == 0 {
        ExecSplit { parts: Seq::empty(), current: Seq::empty(), in_quotes: false, escape: false }
    } else {
        exec_step(exec_scan(s.drop_last()), s.last())
    }
}

/// The parts of an `Exec` value: split at white space outside double
/// quotes, quotes dropped, a backslash keeping the next character as it is.
pub open spec fn exec_parts(s: Seq<char>) -> Seq<Seq<char>> {
    let st = exec_scan(s);
    if st.current.len() > 0 {
        st.parts.push(st.current)
    } else {
        st.parts
    }
}

/// The number of double quotes in `s`.
pub open spec fn quote_count(s: Seq<char>) -> nat
    decreases s.len(),
{
    if s.len() == 0 {
        0
    } else {
        quote_count(s.drop_last()) + if s.last() == '"' {
            1nat
        } else {
            0nat
        }
    }
}

/// `s` with its double quotes taken out.
pub open spec fn unquoted(s: Seq<char>) -> Seq<char>
    decreases s.len(),
{
    if s.len() == 0 {
        Seq::empty()
    } else if s.last() == '"' {
        unquoted(s.drop_last())
    } else {
        unquoted(s.drop_last()).push(s.last())
    }
}

proof fn lemma_scan_one_word(s: Seq<char>)
    requires
        forall|j: int| 0 <= j < s.len() ==> #[trigger] s[j] != '\\',
        forall|j: int|
            0 <= j < s.len() && unicode_whitespace(#[trigger] s[j]) ==> quote_count(s.take(j)) % 2
                == 1,
    ensures
        exec_scan(s) == (ExecSplit {
            parts: Seq::empty(),
            current: unquoted(s),
            in_quotes: quote_count(s) % 2 == 1,
            escape: false,
        }),
    decreases s.len(),
{
    if s.len() > 0 {
        let t = s.drop_last();
        assert forall|j: int| 0 <= j < t.len() implies #[trigger] t[j] != '\\' by {
            assert(t[j] == s[j]);
        }
        assert forall|j: int|
            0 <= j < t.len() && unicode_whitespace(#[trigger] t[j]) implies quote_count(t.take(j))
                % 2 == 1 by {
            assert(t[j] == s[j]);
            assert(t.take(j) =~= s.take(j));
        }
        lemma_scan_one_word(t);
        assert(s.take(t.len() as int) =~= t);
        assert(s[s.len() - 1] == s.last());
    }
}

/// A double quote only turns quoting on or off and never ends a part:
/// parts end only at white space outside quotes. So a value without
/// backslashes whose white space all lies within quotes is one part (or
/// none, where it is empty once its quotes are taken out): the value with
/// its quotes taken out.
pub proof fn law_quotes_do_not_split(s: Seq<char>)
    requires
        forall|j: int| 0 <= j < s.len() ==> #[trigger] s[j] != '\\',
        forall|j: int|
            0 <= j < s.len() && unicode_whitespace(#[trigger] s[j]) ==> quote_count(s.take(j)) % 2
                == 1,
    ensures
        exec_parts(s) == (if unquoted(s).len() > 0 {
            seq![unquoted(s)]
        } else {
            Seq::<Seq<char>>::empty()
        }),
{
    lemma_scan_one_word(s);
    if unquoted(s).len() > 0 {
        assert(Seq::<Seq<char>>::empty().push(unquoted(s)) =~= seq![unquoted(s)]);
    }
}

/// A part as it is written back: in double quotes, with its quotes
/// escaped, if it holds a space or a quote.
pub open spec fn quoted_part(p: Seq<char>) -> Seq<char> {
    if p.contains(' ') || p.contains('"') {
        seq!['"'] + escape_quotes(p) + seq!['"']
    } else {
        p
    }
}

/// `p` with a backslash before each double quote.
pub open spec fn escape_quotes(p: Seq<char>) -> Seq<char>
    decreases p.len(),
{
    if p.len() == 0 {
        Seq::empty()
    } else if p.last() == '"' {
        escape_quotes(p.drop_last()) + seq!['\\', '"']
    } else {
        escape_quotes(p.drop_last()).push(p.last())
    }
}

/// The parts written back, joined by spaces.
pub open spec fn exec_text(parts: Seq<Seq<char>>) -> Seq<char>
    decreases parts.len(),
{
    if parts.len() == 0 {
        Seq::empty()
    } else if parts.len() == 1 {
        quoted_part(parts[0])
    } else {
        exec_text(parts.drop_last()) + seq![' '] + quoted_part(parts.last())
    }
}

/// The command and arguments of an `Exec` value.
#[derive(Debug, Clone)]
pub struct DesktopEntryExecValue {
    pub parts: Vec<String>,
}

/// The views of a list of strings.
pub open spec fn strings_view(v: Seq<String>) -> Seq<Seq<char>> {
    Seq::new(v.len(), |i: int| v[i]@)
}

impl DesktopEntryExecValue {
    /// Split an `Exec` value into its command and arguments.
    pub fn parse(value: &str) -> (r: Result<Self, AppImageError>)
        ensures
            r matches Ok(x) && strings_view(x.parts@) == exec_parts(value@),
    {
        let c = chars_of(value);
        let mut parts: Vec<String> = Vec::new();
        let mut current: Vec<char> = Vec::new();
        let mut in_quotes = false;
        let mut escape = false;
        let mut i: usize = 0;
        assert(value@.take(0) =~= Seq::<char>::empty());
        assert(strings_view(parts@) =~= Seq::<Seq<char>>::empty());
        assert(current@ =~= Seq::<char>::empty());
        while i < c.len()
            invariant
                c@ == value@,
                i <= c@.len(),
                exec_scan(value@.take(i as int)) == (ExecSplit {
                    parts: strings_view(parts@),
                    current: current@,
                    in_quotes,
                    escape,
                }),
            decreases c@.len() - i,
        {
            let ch = c[i];
            proof {
                assert(value@.take(i + 1).drop_last() =~= value@.take(i as int));
                assert(value@.take(i + 1).last() == ch);
            }
            if escape {
                current.push(ch);
                escape = false;
            } else if ch == '\\' {
                escape = true;
            } else if ch == '"' {
                in_quotes = !in_quotes;
            } else if char_is_whitespace(ch) && !in_quotes {
                if current.len() > 0 {
                    let ghost p0 = parts@;
                    parts.push(string_from_chars(current.as_slice()));
                    assert(strings_view(parts@) =~= strings_view(p0).push(current@));
                    current = Vec::new();
                }
            } else {
                current.push(ch);
            }
            i = i + 1;
        }
        assert(value@.take(c@.len() as int) =~= value@);
        if current.len() > 0 {
            let ghost p0 = parts@;
            parts.push(string_from_chars(current.as_slice()));
            assert(strings_view(parts@) =~= strings_view(p0).push(current@));
        }
        Ok(DesktopEntryExecValue { parts })
    }

    /// The part at `index`.
    pub fn part(&self, index: usize) -> (r: &String)
        requires
            index < self.parts@.len(),
        ensures
            *r == self.parts@[index as int],
    {
        &self.parts[index]
    }

    /// Replace the part at `index`.
    pub fn set_part(&mut self, index: usize, value: String)
        requires
            index < old(self).parts@.len(),
        ensures
            final(self).parts@ == old(self).parts@.update(index as int, value),
    {
        self.parts.set(index, value);
    }

    /// The value written back: the parts joined by spaces, quoted where
    /// they hold a space or a quote.
    pub fn to_string(&self) -> (r: String)
        ensures
            r@ == exec_text(strings_view(self.parts@)),
    {
        let mut out = String::new();
        let mut i: usize = 0;
        let ghost v = strings_view(self.parts@);
        assert(v.take(0) =~= Seq::<Seq<char>>::empty());
        while i < self.parts.len()
            invariant
                v == strings_view(self.parts@),
                i <= self.parts@.len(),
                out@ == exec_text(v.take(i as int)),
            decreases self.parts@.len() - i,
        {
            let ghost o0 = out@;
            if i > 0 {
                push_char(&mut out, ' ');
            }
            let p = chars_of(self.parts[i].as_str());
            let mut has = false;
            let mut k: usize = 0;
            while k < p.len()
                invariant
                    k <= p@.len(),
                    has == (exists|m: int| 0 <= m < k && (p@[m] == ' ' || p@[m] == '"')),
                decreases p@.len() - k,
            {
                if p[k] == ' ' || p[k] == '"' {
                    has = true;
                }
                k = k + 1;
            }
            proof {
                if has {
                    let m = choose|m: int| 0 <= m < p@.len() && (p@[m] == ' ' || p@[m] == '"');
                    if p@[m] == ' ' {
                        assert(p@.contains(' '));
                    } else {
                        assert(p@.contains('"'));
                    }
                } else {
                    if p@.contains(' ') {
                        let m = choose|m: int| 0 <= m < p@.len() && p@[m] == ' ';
                        assert(false);
                    }
                    if p@.contains('"') {
                        let m = choose|m: int| 0 <= m < p@.len() && p@[m] == '"';
                        assert(false);
                    }
                }
            }
            let ghost o1 = out@;
            if has {
                push_char(&mut out, '"');
                let mut k: usize = 0;
                assert(p@.take(0) =~= Seq::<char>::empty());
                while k < p.len()
                    invariant
                        k <= p@.len(),
                        out@ == o1 + seq!['"'] + escape_quotes(p@.take(k as int)),
                    decreases p@.len() - k,
                {
                    if p[k] == '"' {
                        push_char(&mut out, '\\');
                    }
                    push_char(&mut out, p[k]);
                    proof {
                        assert(p@.take(k + 1).drop_last() =~= p@.take(k as int));
                        assert(p@.take(k + 1).last() == p@[k as int]);
                    }
                    k = k + 1;
                }
                push_char(&mut out, '"');
                assert(p@.take(p@.len() as int) =~= p@);
            } else {
                push_str(&mut out, self.parts[i].as_str());
            }
            proof {
                assert(out@ =~= o1 + quoted_part(p@));
                let t = v.take(i + 1);
                assert(t.drop_last() =~= v.take(i as int));
                assert(t.last() == p@);
                if i == 0 {
                    assert(t.len() == 1);
                    assert(t[0] == p@);
                }
            }
            i = i + 1;
        }
        assert(v.take(v.len() as int) =~= v);
        out
    }
}

/// The pieces of `s` between the `;` separators, in order.
pub open spec fn split_semicolons(s: Seq<char>) -> Seq<Seq<char>>
    decreases s.len(),
{
    if s.len() == 0 {
        seq![Seq::empty()]
    } else {
        let r = split_semicolons(s.drop_last());
        if s.last() == ';' {
            r.push(Seq::empty())
        } else {
            r.update(r.len() - 1, r.last().push(s.last()))
        }
    }
}

/// The non-empty trimmed pieces of a list separated by `;`.
pub open spec fn strings_list(s: Seq<char>) -> Seq<Seq<char>> {
    split_semicolons(s).map_values(|p: Seq<char>| trimmed(p)).filter(|p: Seq<char>| p.len() > 0)
}

/// A list of strings separated by `;`.
#[derive(Debug, Clone)]
pub struct DesktopEntryStringsValue {
    pub strings: Vec<String>,
}

proof fn lemma_split_nonempty(s: Seq<char>)
    ensures
        split_semicolons(s).len() >= 1,
    decreases s.len(),
{
    if s.len() > 0 {
        lemma_split_nonempty(s.drop_last());
    }
}

impl DesktopEntryStringsValue {
    /// The non-empty trimmed pieces of `value` between its `;` separators.
    pub fn parse(value: &str) -> (r: Result<Self, AppImageError>)
        ensures
            r matches Ok(x) && strings_view(x.strings@) == strings_list(value@),
    {
        let c = chars_of(value);
        let mut pieces: Vec<Vec<char>> = Vec::new();
        let mut cur: Vec<char> = Vec::new();
        let mut i: usize = 0;
        assert(value@.take(0) =~= Seq::<char>::empty());
        while i < c.len()
            invariant
                c@ == value@,
                i <= c@.len(),
                split_semicolons(value@.take(i as int)) == Seq::new(
                    pieces@.len(),
                    |m: int| pieces@[m]@,
                ).push(cur@),
            decreases c@.len() - i,
        {
            let ghost before = Seq::new(pieces@.len(), |m: int| pieces@[m]@);
            proof {
                assert(value@.take(i + 1).drop_last() =~= value@.take(i as int));
                assert(value@.take(i + 1).last() == c@[i as int]);
            }
            if c[i] == ';' {
                let done = cur;
                pieces.push(done);
                cur = Vec::new();
                assert(Seq::new(pieces@.len(), |m: int| pieces@[m]@) =~= before.push(done@));
            } else {
                cur.push(c[i]);
            }
            assert(split_semicolons(value@.take(i + 1)) =~= Seq::new(
                pieces@.len(),
                |m: int| pieces@[m]@,
            ).push(cur@));
            i = i + 1;
        }
        assert(value@.take(c@.len() as int) =~= value@);
        let ghost before = Seq::new(pieces@.len(), |m: int| pieces@[m]@);
        pieces.push(cur);
        let ghost all = Seq::new(pieces@.len(), |m: int| pieces@[m]@);
        assert(all =~= split_semicolons(value@));
        let mut strings: Vec<String> = Vec::new();
        let mut k: usize = 0;
        assert(all.take(0) =~= Seq::<Seq<char>>::empty());
        while k < pieces.len()
            invariant
                all == Seq::new(pieces@.len(), |m: int| pieces@[m]@),
                k <= pieces@.len(),
                strings_view(strings@) == all.take(k as int).map_values(|p: Seq<char>| trimmed(p)).filter(
                    |p: Seq<char>| p.len() > 0,
                ),
            decreases pieces@.len() - k,
        {
            let s = string_from_chars(pieces[k].as_slice());
            let t = trim(s.as_str());
            let tl = chars_of(t.as_str()).len();
            let ghost s0 = strings_view(strings@);
            proof {
                let a = all.take(k as int);
                let b = all.take(k + 1);
                assert(b =~= a.push(all[k as int]));
                assert(b.map_values(|p: Seq<char>| trimmed(p)) =~= a.map_values(
                    |p: Seq<char>| trimmed(p),
                ).push(trimmed(all[k as int])));
                reveal(Seq::filter);
                let am = a.map_values(|p: Seq<char>| trimmed(p));
                assert(am.push(trimmed(all[k as int])).drop_last() =~= am);
            }
            if tl > 0 {
                strings.push(t);
                assert(strings_view(strings@) =~= s0.push(trimmed(all[k as int])));
            }
            k = k + 1;
        }
        assert(all.take(all.len() as int) =~= all);
        Ok(DesktopEntryStringsValue { strings })
    }

    /// The strings, in order.
    pub fn iter(&self) -> (r: &[String])
        ensures
            r@ == self.strings@,
    {
        self.strings.as_slice()
    }
}

} // verus!
