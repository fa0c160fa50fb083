use vstd::prelude::*;
use crate::error::SquashError;
use crate::squashfs_tools::date::current_seconds;
use crate::squashfs_tools::merge_sort::{name_le, str_le};
use crate::text::{chars_of, concat, owned, push_str, str_eq, string_from_chars};

verus! {

/// File type bits of a directory's mode.
pub const S_IFDIR: u32 = 0o040000;
/// File type bits of a regular file's mode.
pub const S_IFREG: u32 = 0o100000;
/// File type bits of a symbolic link's mode.
pub const S_IFLNK: u32 = 0o120000;

/// Where the content of a pseudo file comes from.
#[derive(Debug, Clone, Copy, PartialEq, Eq, Structural)]
pub enum PseudoFileType {
    Other,
    Process,
    Data,
}

/// Kinds of pseudo files.
#[derive(Debug, Clone, Copy, PartialEq, Eq, Structural)]
pub enum PseudoType {
    Directory,
    Regular,
    Block,
    Character,
    Fifo,
    Socket,
    Symlink,
}

/// The attributes of a pseudo file.
#[derive(Debug, Clone, Copy)]
pub struct PseudoStat {
    pub mode: u32,
    pub uid: u32,
    pub gid: u32,
    pub major: u32,
    pub minor: u32,
    pub mtime: i64,
    pub ino: i32,
}

/// A file whose bytes back pseudo files.
#[derive(Debug, Clone)]
pub struct PseudoFile {
    pub filename: String,
    pub start: i64,
    pub current: i64,
    pub fd: i32,
}

/// A range of a backing file that is the content of a pseudo file.
#[derive(Debug, Clone)]
pub struct PseudoData {
    pub file: Box<PseudoFile>,
    pub offset: i64,
    pub length: i64,
    pub sparse: bool,
}

/// The definition of a pseudo file.
#[derive(Debug)]
pub struct PseudoDev {
    pub type_: PseudoType,
    pub pseudo_type: PseudoFileType,
    pub stat: PseudoStat,
    pub data: Option<PseudoData>,
    pub command: Option<String>,
    pub symlink: Option<String>,
    pub linkname: Option<String>,
}

/// Whether two optional strings are both absent or have the same text.
pub open spec fn same_text(a: Option<String>, b: Option<String>) -> bool {
    match (a, b) {
        (None, None) => true,
        (Some(x), Some(y)) => x@ == y@,
        _ => false,
    }
}

/// Whether two definitions define the same file: same kinds, mode,
/// owner, device numbers, command and link targets (the time and the
/// backing data are not compared).
pub open spec fn dev_eq(a: PseudoDev, b: PseudoDev) -> bool {
    &&& a.type_ == b.type_
    &&& a.pseudo_type == b.pseudo_type
    &&& a.stat.mode == b.stat.mode
    &&& a.stat.uid == b.stat.uid
    &&& a.stat.gid == b.stat.gid
    &&& a.stat.major == b.stat.major
    &&& a.stat.minor == b.stat.minor
    &&& same_text(a.command, b.command)
    &&& same_text(a.symlink, b.symlink)
    &&& same_text(a.linkname, b.linkname)
}

fn same_text_exec(a: &Option<String>, b: &Option<String>) -> (r: bool)
    ensures
        r == same_text(*a, *b),
{
    match (a, b) {
        (None, None) => true,
        (Some(x), Some(y)) => str_eq(x.as_str(), y.as_str()),
        _ => false,
    }
}

/// The current time in seconds since the epoch, or 0 where the clock
/// cannot give it.
fn now_seconds() -> i64 {
    match current_seconds() {
        Some(s) => #[verifier::truncate] (s as i64),
        None => 0,
    }
}

/// The position of the first slash of `s` at or after `i`, or the length
/// of `s` where there is none.
pub open spec fn next_slash(s: Seq<char>, i: int) -> int
    decreases s.len() - i,
{
    if i >= s.len() {
        s.len() as int
    } else if s[i] == '/' {
        i
    } else {
        next_slash(s, i + 1)
    }
}

pub proof fn lemma_next_slash_bounds(s: Seq<char>, i: int)
    requires
        0 <= i <= s.len(),
    ensures
        i <= next_slash(s, i) <= s.len(),
        next_slash(s, i) < s.len() ==> s[next_slash(s, i)] == '/',
        forall|k: int| i <= k < next_slash(s, i) ==> s[k] != '/',
    decreases s.len() - i,
{
    if i < s.len() && s[i] != '/' {
        lemma_next_slash_bounds(s, i + 1);
    }
}

/// The names of the path `s` from position `i` on, as `Path::components`
/// gives them after the root: the pieces between slashes, without empty
/// pieces and without `.` pieces other than one at the very start.
pub open spec fn segments_from(s: Seq<char>, i: int) -> Seq<Seq<char>>
    decreases s.len() + 1 - i,
{
    if i < 0 || i >= s.len() {
        seq![]
    } else {
        proof {
            lemma_next_slash_bounds(s, i);
        }
        let j = next_slash(s, i);
        let seg = s.subrange(i, j);
        if seg.len() == 0 || (seg == seq!['.'] && i > 0) {
            segments_from(s, j + 1)
        } else {
            seq![seg] + segments_from(s, j + 1)
        }
    }
}

/// The names along which a pseudo file at `target` is placed: those of
/// the path after its root, or the single name `/` for a path with none.
pub open spec fn path_components(target: Seq<char>) -> Seq<Seq<char>> {
    if segments_from(target, 0).len() == 0 {
        seq![seq!['/']]
    } else {
        segments_from(target, 0)
    }
}

fn path_components_exec(target: &str) -> (r: Vec<String>)
    ensures
        r@.len() == path_components(target@).len(),
        forall|k: int| 0 <= k < r@.len() ==> #[trigger] r@[k]@ == path_components(target@)[k],
{
    let s = chars_of(target);
    let n = s.len();
    let mut out: Vec<String> = Vec::new();
    let mut i: usize = 0;
    let ghost st = target@;
    assert(s@ == st);
    while i < n
        invariant
            s@ == st,
            n == s@.len(),
            i <= n,
            segments_from(st, 0) =~= out@.map_values(|x: String| x@) + segments_from(st, i as int),
        decreases n - i,
    {
        let mut j: usize = i;
        while j < n && s[j] != '/'
            invariant
                s@ == st,
                n == s@.len(),
                i <= j <= n,
                next_slash(st, i as int) == next_slash(st, j as int),
            decreases n - j,
        {
            j = j + 1;
        }
        proof {
            lemma_next_slash_bounds(st, i as int);
        }
        assert(j == next_slash(st, i as int));
        let seg = string_from_chars(&s.as_slice()[i..j]);
        assert(seg@ =~= st.subrange(i as int, j as int));
        let dot = j == i + 1 && s[i] == '.';
        assert(dot == (seg@ == seq!['.'])) by {
            if seg@ == seq!['.'] {
                assert(seg@[0] == st[i as int]);
            }
            if dot {
                assert(seg@ =~= seq!['.']);
            }
        }
        let ghost before = out@.map_values(|x: String| x@);
        if !(j == i || (dot && i > 0)) {
            out.push(seg);
            assert(out@.map_values(|x: String| x@) =~= before.push(seg@));
        }
        i = if j < n { j + 1 } else { n };
        assert(segments_from(st, i as int) == segments_from(st, j + 1));
    }
    assert(segments_from(st, n as int) =~= Seq::<Seq<char>>::empty());
    assert(out@.map_values(|x: String| x@) =~= segments_from(st, 0));
    if out.len() == 0 {
        let slash = String::from_str("/");
        proof {
            reveal_strlit("/");
            assert(slash@ =~= seq!['/']);
        }
        out.push(slash);
        assert(out@.map_values(|x: String| x@)[0] == out@[0]@);
        assert(out@.map_values(|x: String| x@) =~= seq![seq!['/']]);
    }
    proof {
        assert(out@.map_values(|x: String| x@) =~= path_components(st));
        assert forall|k: int| 0 <= k < out@.len() implies #[trigger] out@[k]@ == path_components(target@)[k] by {
            assert(out@.map_values(|x: String| x@)[k] == out@[k]@);
        }
    }
    out
}

/// An entry of a pseudo directory: its name, its path, the directory it
/// opens (if any), the file it defines (if any), and the entry after it.
#[derive(Debug)]
pub struct PseudoEntry {
    pub name: String,
    pub pathname: String,
    pub pseudo: Option<Box<Pseudo>>,
    pub dev: Option<PseudoDev>,
    pub next: Option<Box<PseudoEntry>>,
}

/// A pseudo directory: how many entries it has, where reading it has got
/// to, and its entries, in the order of their names.
#[derive(Debug)]
pub struct Pseudo {
    pub names: i32,
    pub current: Option<usize>,
    pub head: Option<Box<PseudoEntry>>,
}

/// Whether name `a` comes strictly before name `b`.
pub open spec fn name_lt(a: Seq<char>, b: Seq<char>) -> bool {
    !name_le(b, a)
}

/// The number of entries of a list.
pub open spec fn list_len(l: Option<Box<PseudoEntry>>) -> nat
    decreases l,
{
    match l {
        None => 0,
        Some(n) => 1 + list_len(n.next),
    }
}

/// The entry of a list with the given name.
pub open spec fn find(l: Option<Box<PseudoEntry>>, name: Seq<char>) -> Option<PseudoEntry>
    decreases l,
{
    match l {
        None => None,
        Some(n) => if n.name@ == name {
            Some(*n)
        } else {
            find(n.next, name)
        },
    }
}

/// The entry at position `k` of a list.
pub open spec fn nth_entry(l: Option<Box<PseudoEntry>>, k: nat) -> Option<PseudoEntry>
    decreases l,
{
    match l {
        None => None,
        Some(n) => if k == 0 {
            Some(*n)
        } else {
            nth_entry(n.next, (k - 1) as nat)
        },
    }
}

/// Whether a list is well formed: its names strictly increase, and each
/// directory it opens counts its entries and is well formed itself.
pub open spec fn wf_list(l: Option<Box<PseudoEntry>>) -> bool
    decreases l,
{
    match l {
        None => true,
        Some(n) => {
            &&& (n.next matches Some(m) ==> name_lt(n.name@, m.name@))
            &&& wf_list(n.next)
            &&& match n.pseudo {
                Some(p) => p.names == list_len(p.head) && wf_list(p.head),
                None => true,
            }
        },
    }
}

/// Whether a pseudo directory is well formed (see `wf_list`).
pub open spec fn wf_pseudo(p: Pseudo) -> bool {
    p.names == list_len(p.head) && wf_list(p.head)
}

/// Whether an entry is well formed: the directory it opens, if any.
pub open spec fn wf_entry(e: PseudoEntry) -> bool {
    match e.pseudo {
        Some(p) => p.names == list_len(p.head) && wf_list(p.head),
        None => true,
    }
}

/// The definition at path `q` (a sequence of names) below entry `e`,
/// where `q` starts with the entry's own name.
pub open spec fn edev_at(e: PseudoEntry, q: Seq<Seq<char>>) -> Option<PseudoDev>
    decreases q.len(), 0int,
{
    if q.len() <= 1 {
        e.dev
    } else {
        match e.pseudo {
            None => None,
            Some(p) => dev_at(p.head, q.drop_first()),
        }
    }
}

/// The definition at path `q` in a list.
pub open spec fn dev_at(l: Option<Box<PseudoEntry>>, q: Seq<Seq<char>>) -> Option<PseudoDev>
    decreases q.len(), 1int,
{
    if q.len() == 0 {
        None
    } else {
        match find(l, q[0]) {
            None => None,
            Some(e) => edev_at(e, q),
        }
    }
}

/// Whether path `q`, which starts with the name of entry `e`, leads to an
/// entry below `e` (or to `e` itself).
pub open spec fn ehas_path(e: PseudoEntry, q: Seq<Seq<char>>) -> bool
    decreases q.len(), 0int,
{
    if q.len() <= 1 {
        true
    } else {
        match e.pseudo {
            None => false,
            Some(p) => has_path(p.head, q.drop_first()),
        }
    }
}

/// Whether path `q` leads to an entry in a list.
pub open spec fn has_path(l: Option<Box<PseudoEntry>>, q: Seq<Seq<char>>) -> bool
    decreases q.len(), 1int,
{
    if q.len() == 0 {
        false
    } else {
        match find(l, q[0]) {
            None => false,
            Some(e) => ehas_path(e, q),
        }
    }
}

/// Whether every directory along path `q` below entry `e` has room for
/// one more entry.
pub open spec fn eroom(e: PseudoEntry, q: Seq<Seq<char>>) -> bool
    decreases q.len(), 0int,
{
    if q.len() <= 1 {
        true
    } else {
        match e.pseudo {
            None => true,
            Some(p) => p.names < i32::MAX && room(p.head, q.drop_first()),
        }
    }
}

/// Whether every directory along path `q` in a list has room for one more
/// entry.
pub open spec fn room(l: Option<Box<PseudoEntry>>, q: Seq<Seq<char>>) -> bool
    decreases q.len(), 1int,
{
    if q.len() == 0 {
        true
    } else {
        match find(l, q[0]) {
            None => true,
            Some(e) => eroom(e, q),
        }
    }
}

/// Whether `q` is a nonempty beginning of `t`.
pub open spec fn leads_to(q: Seq<Seq<char>>, t: Seq<Seq<char>>) -> bool {
    0 < q.len() <= t.len() && q =~= t.take(q.len() as int)
}

/// The texts of a sequence of strings.
pub open spec fn texts(v: Seq<String>) -> Seq<Seq<char>> {
    v.map_values(|x: String| x@)
}

/// No name comes before the first name of a well-formed list, so a name
/// before it is not in the list.
proof fn lemma_before_head_absent(l: Option<Box<PseudoEntry>>, x: Seq<char>)
    requires
        wf_list(l),
        l matches Some(n) && name_lt(x, n.name@),
    ensures
        find(l, x) is None,
    decreases l,
{
    let n = l->0;
    crate::squashfs_tools::merge_sort::lemma_name_le_refl(x);
    assert(n.name@ != x);
    assert(find(l, x) == find(n.next, x));
    match n.next {
        Some(m) => {
            assert(name_lt(x, m.name@)) by {
                crate::squashfs_tools::merge_sort::lemma_name_le_total(x, n.name@);
                if name_le(m.name@, x) {
                    crate::squashfs_tools::merge_sort::lemma_name_le_trans(m.name@, x, n.name@);
                }
            }
            lemma_before_head_absent(n.next, x);
        },
        None => {},
    }
}

/// A path that leads along `t` starts as `t` does; a single name that
/// starts `t` leads along it; and past a common first name, leading along
/// is decided by the rest.
proof fn lemma_leads_to(q: Seq<Seq<char>>, t: Seq<Seq<char>>)
    requires
        q.len() > 0,
        t.len() > 0,
    ensures
        leads_to(q, t) ==> q[0] == t[0],
        q.len() == 1 && q[0] == t[0] ==> leads_to(q, t),
        q.len() > 1 && t.len() > 1 && q[0] == t[0] ==> (leads_to(q, t) == leads_to(
            q.drop_first(),
            t.drop_first(),
        )),
{
    if leads_to(q, t) {
        assert(q[0] == t.take(q.len() as int)[0]);
    }
    if q.len() == 1 && q[0] == t[0] {
        assert(q =~= t.take(1));
    }
    if q.len() > 1 && t.len() > 1 && q[0] == t[0] {
        let q1 = q.drop_first();
        let t1 = t.drop_first();
        if leads_to(q, t) {
            assert(q1 =~= t1.take(q1.len() as int)) by {
                assert forall|k: int| 0 <= k < q1.len() implies q1[k] == t1.take(q1.len() as int)[k] by {
                    assert(q[k + 1] == t.take(q.len() as int)[k + 1]);
                }
            }
        }
        if leads_to(q1, t1) {
            assert(q =~= t.take(q.len() as int)) by {
                assert forall|k: int| 0 <= k < q.len() implies q[k] == t.take(q.len() as int)[k] by {
                    if k > 0 {
                        assert(q1[k - 1] == t1.take(q1.len() as int)[k - 1]);
                    }
                }
            }
        }
    }
}

/// Two names each no later than the other are the same.
proof fn lemma_name_le_antisym(a: Seq<char>, b: Seq<char>)
    requires
        name_le(a, b),
        name_le(b, a),
    ensures
        a == b,
    decreases a.len(),
{
    if a.len() > 0 && b.len() > 0 {
        if a[0] == b[0] {
            lemma_name_le_antisym(a.drop_first(), b.drop_first());
            assert(a =~= seq![a[0]] + a.drop_first());
            assert(b =~= seq![b[0]] + b.drop_first());
        }
    }
}

/// A fresh entry defines nothing and opens nothing.
proof fn lemma_fresh_entry(e: PseudoEntry)
    requires
        e.dev is None,
        e.pseudo is None,
    ensures
        forall|q: Seq<Seq<char>>| #[trigger] edev_at(e, q) is None,
        forall|q: Seq<Seq<char>>| q.len() > 1 ==> !#[trigger] ehas_path(e, q),
{
}

fn new_entry(name: String, pathname: String) -> (r: PseudoEntry)
    ensures
        r.name == name && r.pathname == pathname,
        r.pseudo is None && r.dev is None && r.next is None,
{
    PseudoEntry { name, pathname, pseudo: None, dev: None, next: None }
}

/// The message of a definition that clashes with an earlier one.
pub open spec fn clash_message(alltarget: Seq<char>) -> Seq<char> {
    alltarget + " already exists as a different pseudo definition"@
}

/// Place `dev` at the path `comps[i..]` below entry `e`, whose name is
/// `comps[i]` and whose path is `pathname`.
fn apply_entry(
    e: &mut PseudoEntry,
    comps: &Vec<String>,
    i: usize,
    pathname: &str,
    dev: PseudoDev,
    alltarget: &str,
) -> (r: Result<(), SquashError>)
    requires
        i < comps@.len(),
        old(e).name@ == comps@[i as int]@,
        wf_entry(*old(e)),
        eroom(*old(e), texts(comps@).skip(i as int)),
    ensures
        final(e).name == old(e).name,
        final(e).pathname == old(e).pathname,
        final(e).next == old(e).next,
        wf_entry(*final(e)),
        r is Err <==> (edev_at(*old(e), texts(comps@).skip(i as int)) matches Some(d) && !dev_eq(
            d,
            dev,
        )),
        r matches Err(x) ==> (x matches SquashError::Other(m) && m@ == clash_message(alltarget@)),
        forall|q: Seq<Seq<char>>|
            q.len() > 0 && q[0] == comps@[i as int]@ ==> #[trigger] edev_at(*final(e), q) == (if q
                == texts(comps@).skip(i as int) && edev_at(*old(e), q) is None {
                Some(dev)
            } else {
                edev_at(*old(e), q)
            }),
        forall|q: Seq<Seq<char>>|
            q.len() > 0 && q[0] == comps@[i as int]@ ==> #[trigger] ehas_path(*final(e), q) == (
            ehas_path(*old(e), q) || leads_to(q, texts(comps@).skip(i as int))),
    decreases comps@.len() - i, 0int, old(e).next,
{
    let ghost t = texts(comps@).skip(i as int);
    let ghost old_e = *e;
    assert(t[0] == comps@[i as int]@);
    if i == comps.len() - 1 {
        assert(t.len() == 1);
        let clash = match &e.dev {
            Some(existing) => !existing.eq(&dev),
            None => false,
        };
        if clash {
            let m = concat(alltarget, " already exists as a different pseudo definition");
            return Err(SquashError::Other(m));
        }
        if e.dev.is_none() {
            e.dev = Some(dev);
        }
        assert forall|q: Seq<Seq<char>>| q.len() > 0 && q[0] == comps@[i as int]@ implies
            #[trigger] edev_at(*e, q) == (if q == t && edev_at(old_e, q) is None {
                Some(dev)
            } else {
                edev_at(old_e, q)
            }) by {
            if q.len() == 1 {
                assert(q =~= t);
            }
        }
        assert forall|q: Seq<Seq<char>>| q.len() > 0 && q[0] == comps@[i as int]@ implies
            #[trigger] ehas_path(*e, q) == (ehas_path(old_e, q) || leads_to(q, t)) by {
            lemma_leads_to(q, t);
        }
        Ok(())
    } else {
        let mut sub: Box<Pseudo> = match e.pseudo.take() {
            Some(p) => p,
            None => Box::new(Pseudo::new()),
        };
        let ghost old_sub = *sub;
        assert(t.len() >= 2);
        let mut next_path = concat(pathname, "/");
        push_str(&mut next_path, comps[i + 1].as_str());
        assert(texts(comps@).skip(i + 1) =~= t.drop_first());
        assert(texts(comps@)[i + 1] == comps@[i + 1]@);
        assert(room(old_sub.head, t.drop_first()));
        let (created, res) = add_in_list(&mut sub.head, comps, i + 1, next_path, dev, alltarget);
        if created {
            sub.names = sub.names + 1;
        }
        let ghost new_sub = *sub;
        e.pseudo = Some(sub);
        assert forall|q: Seq<Seq<char>>| q.len() > 0 && q[0] == comps@[i as int]@ implies
            #[trigger] edev_at(*e, q) == (if q == t && edev_at(old_e, q) is None {
                Some(dev)
            } else {
                edev_at(old_e, q)
            }) by {
            if q.len() > 1 {
                let q1 = q.drop_first();
                assert(edev_at(*e, q) == dev_at(new_sub.head, q1));
                assert(dev_at(old_sub.head, q1) == edev_at(old_e, q));
                assert(dev_at(new_sub.head, q1) == (if q1 == t.drop_first() && dev_at(old_sub.head, q1)
                    is None {
                    Some(dev)
                } else {
                    dev_at(old_sub.head, q1)
                }));
                assert((q == t) == (q1 == t.drop_first())) by {
                    if q1 == t.drop_first() {
                        assert(q =~= seq![q[0]] + q1);
                        assert(t =~= seq![t[0]] + t.drop_first());
                    }
                }
            } else {
                assert(q != t);
            }
        }
        assert forall|q: Seq<Seq<char>>| q.len() > 0 && q[0] == comps@[i as int]@ implies
            #[trigger] ehas_path(*e, q) == (ehas_path(old_e, q) || leads_to(q, t)) by {
            lemma_leads_to(q, t);
            if q.len() > 1 {
                let q1 = q.drop_first();
                assert(ehas_path(*e, q) == has_path(new_sub.head, q1));
                assert(has_path(old_sub.head, q1) == ehas_path(old_e, q));
                assert(has_path(new_sub.head, q1) == (has_path(old_sub.head, q1) || leads_to(q1, t.drop_first())));
            }
        }
        res
    }
}

/// Place `dev` at the path `comps[i..]` in list `list`, creating the
/// entry `comps[i]`, with path `pathname`, where it is missing; whether
/// it was created comes first.
fn add_in_list(
    list: &mut Option<Box<PseudoEntry>>,
    comps: &Vec<String>,
    i: usize,
    pathname: String,
    dev: PseudoDev,
    alltarget: &str,
) -> (r: (bool, Result<(), SquashError>))
    requires
        i < comps@.len(),
        wf_list(*old(list)),
        room(*old(list), texts(comps@).skip(i as int)),
    ensures
        wf_list(*final(list)),
        r.0 <==> find(*old(list), comps@[i as int]@) is None,
        list_len(*final(list)) == list_len(*old(list)) + if r.0 {
            1int
        } else {
            0int
        },
        *final(list) matches Some(h) ==> (h.name@ == comps@[i as int]@ || (*old(list) matches Some(
            o,
        ) && h.name@ == o.name@)),
        r.1 is Err <==> (dev_at(*old(list), texts(comps@).skip(i as int)) matches Some(d) && !dev_eq(
            d,
            dev,
        )),
        r.1 matches Err(x) ==> (x matches SquashError::Other(m) && m@ == clash_message(alltarget@)),
        forall|q: Seq<Seq<char>>| #[trigger]
            dev_at(*final(list), q) == (if q == texts(comps@).skip(i as int) && dev_at(
                *old(list),
                q,
            ) is None {
                Some(dev)
            } else {
                dev_at(*old(list), q)
            }),
        forall|q: Seq<Seq<char>>| #[trigger]
            has_path(*final(list), q) == (has_path(*old(list), q) || leads_to(
                q,
                texts(comps@).skip(i as int),
            )),
    decreases comps@.len() - i, 1int, *old(list),
{
    let ghost t = texts(comps@).skip(i as int);
    let ghost old_list = *list;
    assert(t[0] == comps@[i as int]@);
    match list.take() {
        None => {
            let mut e = new_entry(owned(comps[i].as_str()), owned(pathname.as_str()));
            let ghost fresh = e;
            proof {
                lemma_fresh_entry(fresh);
            }
            let res = apply_entry(&mut e, comps, i, pathname.as_str(), dev, alltarget);
            let ghost applied = e;
            *list = Some(Box::new(e));
            proof {
                assert forall|q: Seq<Seq<char>>| #[trigger]
                    dev_at(*list, q) == (if q == t && dev_at(old_list, q) is None {
                        Some(dev)
                    } else {
                        dev_at(old_list, q)
                    }) by {
                    if q.len() > 0 {
                        assert(dev_at(old_list, q) is None);
                        if q[0] == t[0] {
                            assert(find(*list, q[0]) == Some(applied));
                            assert(edev_at(fresh, q) is None);
                            assert(dev_at(*list, q) == edev_at(applied, q));
                        } else {
                            assert(q != t);
                            assert(find(*list, q[0]) is None);
                        }
                    }
                }
                assert forall|q: Seq<Seq<char>>| #[trigger]
                    has_path(*list, q) == (has_path(old_list, q) || leads_to(q, t)) by {
                    if q.len() > 0 {
                        lemma_leads_to(q, t);
                        assert(!has_path(old_list, q));
                        if q[0] == t[0] {
                            assert(find(*list, q[0]) == Some(applied));
                            assert(has_path(*list, q) == ehas_path(applied, q));
                            if q.len() > 1 {
                                assert(!ehas_path(fresh, q));
                            }
                        } else {
                            assert(find(*list, q[0]) is None);
                        }
                    }
                }
            }
            (true, res)
        },
        Some(mut node) => {
            let ghost old_node = *node;
            if str_eq(node.name.as_str(), comps[i].as_str()) {
                let res = apply_entry(&mut *node, comps, i, pathname.as_str(), dev, alltarget);
                let ghost new_node = *node;
                *list = Some(node);
                proof {
                    assert forall|q: Seq<Seq<char>>| #[trigger]
                        dev_at(*list, q) == (if q == t && dev_at(old_list, q) is None {
                            Some(dev)
                        } else {
                            dev_at(old_list, q)
                        }) by {
                        if q.len() > 0 {
                            if q[0] == t[0] {
                                assert(dev_at(*list, q) == edev_at(new_node, q));
                                assert(dev_at(old_list, q) == edev_at(old_node, q));
                            } else {
                                assert(q != t);
                                assert(find(*list, q[0]) == find(old_list, q[0]));
                            }
                        }
                    }
                    assert forall|q: Seq<Seq<char>>| #[trigger]
                        has_path(*list, q) == (has_path(old_list, q) || leads_to(q, t)) by {
                        if q.len() > 0 {
                            lemma_leads_to(q, t);
                            if q[0] == t[0] {
                                assert(has_path(*list, q) == ehas_path(new_node, q));
                                assert(has_path(old_list, q) == ehas_path(old_node, q));
                            } else {
                                assert(find(*list, q[0]) == find(old_list, q[0]));
                            }
                        }
                    }
                }
                (false, res)
            } else if !str_le(node.name.as_str(), comps[i].as_str()) {
                proof {
                    lemma_before_head_absent(old_list, t[0]);
                }
                let mut e = new_entry(owned(comps[i].as_str()), owned(pathname.as_str()));
                let ghost fresh = e;
                proof {
                    lemma_fresh_entry(fresh);
                }
                let res = apply_entry(&mut e, comps, i, pathname.as_str(), dev, alltarget);
                let ghost applied0 = e;
                e.next = Some(node);
                let ghost applied = e;
                assert(applied.dev == applied0.dev && applied.pseudo == applied0.pseudo);
                *list = Some(Box::new(e));
                proof {
                    assert forall|q: Seq<Seq<char>>| #[trigger]
                        dev_at(*list, q) == (if q == t && dev_at(old_list, q) is None {
                            Some(dev)
                        } else {
                            dev_at(old_list, q)
                        }) by {
                        if q.len() > 0 {
                            if q[0] == t[0] {
                                assert(find(*list, q[0]) == Some(applied));
                                assert(edev_at(fresh, q) is None);
                                assert(edev_at(applied, q) == edev_at(applied0, q));
                                assert(dev_at(*list, q) == edev_at(applied, q));
                                assert(dev_at(old_list, q) is None);
                            } else {
                                assert(q != t);
                                assert(find(*list, q[0]) == find(old_list, q[0]));
                            }
                        }
                    }
                    assert forall|q: Seq<Seq<char>>| #[trigger]
                        has_path(*list, q) == (has_path(old_list, q) || leads_to(q, t)) by {
                        if q.len() > 0 {
                            lemma_leads_to(q, t);
                            if q[0] == t[0] {
                                assert(find(*list, q[0]) == Some(applied));
                                assert(ehas_path(applied, q) == ehas_path(applied0, q));
                                assert(has_path(*list, q) == ehas_path(applied, q));
                                assert(!has_path(old_list, q));
                                if q.len() > 1 {
                                    assert(!ehas_path(fresh, q));
                                }
                            } else {
                                assert(find(*list, q[0]) == find(old_list, q[0]));
                            }
                        }
                    }
                }
                (true, res)
            } else {
                proof {
                    if name_le(t[0], old_node.name@) {
                        lemma_name_le_antisym(old_node.name@, t[0]);
                    }
                    assert(room(old_node.next, t) == room(old_list, t));
                }
                let (created, res) = add_in_list(&mut node.next, comps, i, pathname, dev, alltarget);
                let ghost new_next = node.next;
                *list = Some(node);
                proof {
                    assert forall|q: Seq<Seq<char>>| #[trigger]
                        dev_at(*list, q) == (if q == t && dev_at(old_list, q) is None {
                            Some(dev)
                        } else {
                            dev_at(old_list, q)
                        }) by {
                        if q.len() > 0 {
                            if q[0] == old_node.name@ {
                                assert(q != t);
                            } else {
                                assert(find(*list, q[0]) == find(new_next, q[0]));
                                assert(find(old_list, q[0]) == find(old_node.next, q[0]));
                                assert(dev_at(*list, q) == dev_at(new_next, q));
                                assert(dev_at(old_list, q) == dev_at(old_node.next, q));
                            }
                        }
                    }
                    assert forall|q: Seq<Seq<char>>| #[trigger]
                        has_path(*list, q) == (has_path(old_list, q) || leads_to(q, t)) by {
                        if q.len() > 0 {
                            lemma_leads_to(q, t);
                            if q[0] == old_node.name@ {
                                assert(!leads_to(q, t));
                            } else {
                                assert(find(*list, q[0]) == find(new_next, q[0]));
                                assert(find(old_list, q[0]) == find(old_node.next, q[0]));
                                assert(has_path(*list, q) == has_path(new_next, q));
                                assert(has_path(old_list, q) == has_path(old_node.next, q));
                            }
                        }
                    }
                }
                (created, res)
            }
        },
    }
}

/// Where reading a directory resumes: the position after the entries
/// already read.
pub open spec fn cursor(c: Option<usize>) -> nat {
    match c {
        Some(k) => k as nat,
        None => 0,
    }
}

proof fn lemma_nth_within(l: Option<Box<PseudoEntry>>, k: nat)
    ensures
        nth_entry(l, k) is Some <==> k < list_len(l),
    decreases l,
{
    match l {
        Some(n) => {
            if k > 0 {
                lemma_nth_within(n.next, (k - 1) as nat);
            }
        },
        None => {},
    }
}

fn nth_exec(l: &Option<Box<PseudoEntry>>, k: usize) -> (r: Option<&PseudoEntry>)
    ensures
        r matches Some(e) ==> nth_entry(*l, k as nat) == Some(*e),
        r is None ==> nth_entry(*l, k as nat) is None,
{
    let mut cur: &Option<Box<PseudoEntry>> = l;
    let mut j: usize = 0;
    while j < k
        invariant
            j <= k,
            nth_entry(*cur, (k - j) as nat) == nth_entry(*l, k as nat),
        decreases k - j,
    {
        match cur {
            Some(n) => {
                cur = &n.next;
                j = j + 1;
            },
            None => {
                return None;
            },
        }
    }
    match cur {
        Some(n) => Some(&**n),
        None => None,
    }
}

impl Pseudo {
    /// An empty directory.
    pub fn new() -> (r: Self)
        ensures
            r.names == 0,
            r.current is None,
            r.head is None,
            wf_pseudo(r),
    {
        Pseudo { names: 0, current: None, head: None }
    }

    /// Define the pseudo file `dev` at path `target` (named `alltarget`
    /// in messages): the directories along the path are created where
    /// missing, and an existing definition there is kept; it is an error
    /// where that definition is a different one (the directories created
    /// on the way stay).
    pub fn add_pseudo(&mut self, dev: PseudoDev, target: &str, alltarget: &str) -> (r: Result<(), SquashError>)
        requires
            wf_pseudo(*old(self)),
            old(self).names < i32::MAX,
            room(old(self).head, path_components(target@)),
        ensures
            wf_pseudo(*final(self)),
            final(self).current == old(self).current,
            r is Err <==> (dev_at(old(self).head, path_components(target@)) matches Some(d) && !dev_eq(
                d,
                dev,
            )),
            r matches Err(x) ==> (x matches SquashError::Other(m) && m@ == clash_message(alltarget@)),
            forall|q: Seq<Seq<char>>| #[trigger]
                dev_at(final(self).head, q) == (if q == path_components(target@) && dev_at(
                    old(self).head,
                    q,
                ) is None {
                    Some(dev)
                } else {
                    dev_at(old(self).head, q)
                }),
            forall|q: Seq<Seq<char>>| #[trigger]
                has_path(final(self).head, q) == (has_path(old(self).head, q) || leads_to(
                    q,
                    path_components(target@),
                )),
    {
        let comps = path_components_exec(target);
        proof {
            assert(texts(comps@) =~= path_components(target@));
            assert(texts(comps@).skip(0) =~= texts(comps@));
        }
        let first = owned(comps[0].as_str());
        let (created, res) = add_in_list(&mut self.head, &comps, 0, first, dev, alltarget);
        if created {
            self.names = self.names + 1;
        }
        res
    }

    /// The directory opened by the first entry, where that entry is named
    /// `filename`.
    pub fn subdir(&self, filename: &str) -> (r: Option<&Pseudo>)
        ensures
            match self.head {
                Some(h) => if h.name@ == filename@ {
                    match h.pseudo {
                        Some(p) => r matches Some(x) && *x == *p,
                        None => r is None,
                    }
                } else {
                    r is None
                },
                None => r is None,
            },
    {
        match &self.head {
            Some(h) => {
                if str_eq(h.name.as_str(), filename) {
                    match &h.pseudo {
                        Some(p) => Some(&**p),
                        None => None,
                    }
                } else {
                    None
                }
            },
            None => None,
        }
    }

    /// The next entry of the directory, in the order of the names; after
    /// the last one, nothing, and reading starts again from the first.
    pub fn readdir(&mut self) -> (r: Option<&PseudoEntry>)
        requires
            wf_pseudo(*old(self)),
        ensures
            final(self).head == old(self).head,
            final(self).names == old(self).names,
            r matches Some(e) ==> nth_entry(old(self).head, cursor(old(self).current)) == Some(*e)
                && final(self).current == Some((cursor(old(self).current) + 1) as usize),
            r is None ==> nth_entry(old(self).head, cursor(old(self).current)) is None
                && final(self).current is None,
    {
        let k: usize = match self.current {
            Some(k) => k,
            None => 0,
        };
        proof {
            lemma_nth_within(self.head, k as nat);
        }
        let found = nth_exec(&self.head, k);
        let exists = found.is_some();
        if exists {
            self.current = Some(k + 1);
        } else {
            self.current = None;
        }
        nth_exec(&self.head, k)
    }
}

impl PseudoDev {
    /// A definition of kind `type_` with mode `mode` and owner `uid` and
    /// `gid`, made now.
    pub fn new(type_: PseudoType, mode: u32, uid: u32, gid: u32) -> (r: Self)
        ensures
            r.type_ == type_,
            r.pseudo_type == PseudoFileType::Other,
            r.stat.mode == mode && r.stat.uid == uid && r.stat.gid == gid,
            r.stat.major == 0 && r.stat.minor == 0 && r.stat.ino == 0,
            r.data is None && r.command is None && r.symlink is None && r.linkname is None,
    {
        PseudoDev {
            type_,
            pseudo_type: PseudoFileType::Other,
            stat: PseudoStat { mode, uid, gid, major: 0, minor: 0, mtime: now_seconds(), ino: 0 },
            data: None,
            command: None,
            symlink: None,
            linkname: None,
        }
    }

    /// A directory with permissions `mode`.
    pub fn new_directory(mode: u32, uid: u32, gid: u32) -> (r: Self)
        ensures
            r.type_ == PseudoType::Directory,
            r.pseudo_type == PseudoFileType::Other,
            r.stat.mode == mode | S_IFDIR && r.stat.uid == uid && r.stat.gid == gid,
            r.stat.major == 0 && r.stat.minor == 0 && r.stat.ino == 0,
            r.data is None && r.command is None && r.symlink is None && r.linkname is None,
    {
        Self::new(PseudoType::Directory, mode | S_IFDIR, uid, gid)
    }

    /// A regular file with permissions `mode`.
    pub fn new_regular(mode: u32, uid: u32, gid: u32) -> (r: Self)
        ensures
            r.type_ == PseudoType::Regular,
            r.pseudo_type == PseudoFileType::Other,
            r.stat.mode == mode | S_IFREG && r.stat.uid == uid && r.stat.gid == gid,
            r.stat.major == 0 && r.stat.minor == 0 && r.stat.ino == 0,
            r.data is None && r.command is None && r.symlink is None && r.linkname is None,
    {
        Self::new(PseudoType::Regular, mode | S_IFREG, uid, gid)
    }

    /// A symbolic link to `target`, open to all.
    pub fn new_symlink(target: String, uid: u32, gid: u32) -> (r: Self)
        ensures
            r.type_ == PseudoType::Symlink,
            r.pseudo_type == PseudoFileType::Other,
            r.stat.mode == S_IFLNK | 0o777 && r.stat.uid == uid && r.stat.gid == gid,
            r.stat.major == 0 && r.stat.minor == 0 && r.stat.ino == 0,
            r.symlink == Some(target),
            r.data is None && r.command is None && r.linkname is None,
    {
        PseudoDev {
            type_: PseudoType::Symlink,
            pseudo_type: PseudoFileType::Other,
            stat: PseudoStat { mode: S_IFLNK | 0o777, uid, gid, major: 0, minor: 0, mtime: now_seconds(), ino: 0 },
            data: None,
            command: None,
            symlink: Some(target),
            linkname: None,
        }
    }

    /// A regular file whose content is the output of `command`.
    pub fn new_process(command: String, mode: u32, uid: u32, gid: u32) -> (r: Self)
        ensures
            r.type_ == PseudoType::Regular,
            r.pseudo_type == PseudoFileType::Process,
            r.stat.mode == mode | S_IFREG && r.stat.uid == uid && r.stat.gid == gid,
            r.stat.major == 0 && r.stat.minor == 0 && r.stat.ino == 0,
            r.command == Some(command),
            r.data is None && r.symlink is None && r.linkname is None,
    {
        PseudoDev {
            type_: PseudoType::Regular,
            pseudo_type: PseudoFileType::Process,
            stat: PseudoStat { mode: mode | S_IFREG, uid, gid, major: 0, minor: 0, mtime: now_seconds(), ino: 0 },
            data: None,
            command: Some(command),
            symlink: None,
            linkname: None,
        }
    }

    /// A regular file, readable by all and owned by root, whose content is
    /// `length` bytes of `file` from `offset`.
    pub fn new_data(file: PseudoFile, offset: i64, length: i64, sparse: bool) -> (r: Self)
        ensures
            r.type_ == PseudoType::Regular,
            r.pseudo_type == PseudoFileType::Data,
            r.stat.mode == S_IFREG | 0o644 && r.stat.uid == 0 && r.stat.gid == 0,
            r.stat.major == 0 && r.stat.minor == 0 && r.stat.ino == 0,
            r.data matches Some(d) && *d.file == file && d.offset == offset && d.length == length
                && d.sparse == sparse,
            r.command is None && r.symlink is None && r.linkname is None,
    {
        PseudoDev {
            type_: PseudoType::Regular,
            pseudo_type: PseudoFileType::Data,
            stat: PseudoStat { mode: S_IFREG | 0o644, uid: 0, gid: 0, major: 0, minor: 0, mtime: now_seconds(), ino: 0 },
            data: Some(PseudoData { file: Box::new(file), offset, length, sparse }),
            command: None,
            symlink: None,
            linkname: None,
        }
    }

    /// Whether `other` defines the same file (see `dev_eq`).
    pub fn eq(&self, other: &PseudoDev) -> (r: bool)
        ensures
            r == dev_eq(*self, *other),
    {
        self.type_ == other.type_ && self.pseudo_type == other.pseudo_type && self.stat.mode
            == other.stat.mode && self.stat.uid == other.stat.uid && self.stat.gid == other.stat.gid
            && self.stat.major == other.stat.major && self.stat.minor == other.stat.minor
            && same_text_exec(&self.command, &other.command) && same_text_exec(
            &self.symlink,
            &other.symlink,
        ) && same_text_exec(&self.linkname, &other.linkname)
    }
}

} // verus!
