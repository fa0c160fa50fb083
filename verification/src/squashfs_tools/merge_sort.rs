use vstd::prelude::*;
use crate::text::chars_of;

verus! {

broadcast use vstd::seq_lib::group_to_multiset_ensures;

/// Whether name `a` comes no later than name `b`: the order of strings by
/// their characters' code points, a prefix before its extensions.
pub open spec fn name_le(a: Seq<char>, b: Seq<char>) -> bool
    decreases a.len(),
{
    if a.len() == 0 {
        true
    } else if b.len() == 0 {
        false
    } else if a[0] != b[0] {
        (a[0] as u32) < (b[0] as u32)
    } else {
        name_le(a.drop_first(), b.drop_first())
    }
}

/// Any two names are ordered one way or the other.
pub proof fn lemma_name_le_total(a: Seq<char>, b: Seq<char>)
    ensures
        name_le(a, b) || name_le(b, a),
    decreases a.len(),
{
    if a.len() > 0 && b.len() > 0 {
        if a[0] == b[0] {
            lemma_name_le_total(a.drop_first(), b.drop_first());
        } else {
            vstd::utf8::char_u32_cast(a[0], a[0] as u32);
            vstd::utf8::char_u32_cast(b[0], b[0] as u32);
        }
    }
}

/// The order of names is transitive.
pub proof fn lemma_name_le_trans(a: Seq<char>, b: Seq<char>, c: Seq<char>)
    requires
        name_le(a, b),
        name_le(b, c),
    ensures
        name_le(a, c),
    decreases a.len(),
{
    if a.len() > 0 && b.len() > 0 && c.len() > 0 && a[0] == b[0] && b[0] == c[0] {
        lemma_name_le_trans(a.drop_first(), b.drop_first(), c.drop_first());
    }
}

/// Every name comes no later than itself.
pub proof fn lemma_name_le_refl(a: Seq<char>)
    ensures
        name_le(a, a),
    decreases a.len(),
{
    if a.len() > 0 {
        lemma_name_le_refl(a.drop_first());
    }
}

/// Whether `a` comes no later than `b` (`a <= b` on strings).
pub fn str_le(a: &str, b: &str) -> (r: bool)
    ensures
        r == name_le(a@, b@),
{
    let x = chars_of(a);
    let y = chars_of(b);
    let mut i: usize = 0;
    assert(a@.skip(0) =~= a@);
    assert(b@.skip(0) =~= b@);
    while i < x.len() && i < y.len()
        invariant
            x@ == a@,
            y@ == b@,
            i <= x@.len(),
            i <= y@.len(),
            name_le(a@, b@) == name_le(a@.skip(i as int), b@.skip(i as int)),
        decreases x@.len() - i,
    {
        if x[i] != y[i] {
            assert(a@.skip(i as int)[0] == a@[i as int]);
            assert(b@.skip(i as int)[0] == b@[i as int]);
            return (x[i] as u32) < (y[i] as u32);
        }
        assert(a@.skip(i as int).drop_first() =~= a@.skip(i + 1));
        assert(b@.skip(i as int).drop_first() =~= b@.skip(i + 1));
        i = i + 1;
    }
    x.len() <= y.len()
}

/// Items that carry a name to be sorted by.
pub trait SortableByName {
    /// The name of the item.
    spec fn name_view(&self) -> Seq<char>;

    /// The name of the item.
    fn name(&self) -> (r: &str)
        ensures
            r@ == self.name_view(),
    ;
}

/// A string is sorted by itself.
impl SortableByName for String {
    open spec fn name_view(&self) -> Seq<char> {
        self@
    }

    fn name(&self) -> (r: &str) {
        self.as_str()
    }
}

/// Whether item `x` comes no later than item `y` by name.
pub open spec fn item_le<T: SortableByName>(x: T, y: T) -> bool {
    name_le(x.name_view(), y.name_view())
}

/// Whether the items of `s` are in order of their names.
pub open spec fn sorted_by_name<T: SortableByName>(s: Seq<T>) -> bool {
    forall|i: int, j: int| 0 <= i < j < s.len() ==> item_le(#[trigger] s[i], #[trigger] s[j])
}

/// The runs of `rs` one after the other.
pub open spec fn flatten<T>(rs: Seq<Seq<T>>) -> Seq<T>
    decreases rs.len(),
{
    if rs.len() == 0 {
        Seq::empty()
    } else {
        flatten(rs.drop_last()) + rs.last()
    }
}

/// The views of the vectors of `v`.
pub open spec fn runs_view<T>(v: Seq<Vec<T>>) -> Seq<Seq<T>> {
    Seq::new(v.len(), |i: int| v[i]@)
}

proof fn lemma_flatten_push<T>(rs: Seq<Seq<T>>, r: Seq<T>)
    ensures
        flatten(rs.push(r)) == flatten(rs) + r,
{
    assert(rs.push(r).drop_last() =~= rs);
}

proof fn lemma_flatten_front<T>(r: Seq<T>, rs: Seq<Seq<T>>)
    ensures
        flatten(seq![r] + rs) == r + flatten(rs),
    decreases rs.len(),
{
    if rs.len() == 0 {
        assert(seq![r] + rs =~= seq![r]);
        assert(seq![r].drop_last() =~= Seq::<Seq<T>>::empty());
        assert(flatten(seq![r].drop_last()) =~= Seq::<T>::empty());
        assert(Seq::<T>::empty() + r =~= r);
        assert(r + Seq::<T>::empty() =~= r);
        assert(flatten(seq![r]) == flatten(seq![r].drop_last()) + r);
    } else {
        lemma_flatten_front(r, rs.drop_last());
        assert((seq![r] + rs).drop_last() =~= seq![r] + rs.drop_last());
        assert((seq![r] + rs).last() == rs.last());
        assert(r + flatten(rs.drop_last()) + rs.last() =~= r + (flatten(rs.drop_last()) + rs.last()));
    }
}

/// Whether an item has the name `k`.
pub open spec fn name_is<T: SortableByName>(k: Seq<char>) -> spec_fn(T) -> bool {
    |x: T| x.name_view() == k
}

/// The items of `s` whose name is `k`, in their order in `s`.
pub open spec fn with_name<T: SortableByName>(s: Seq<T>, k: Seq<char>) -> Seq<T> {
    s.filter(name_is(k))
}

proof fn lemma_filter_push<A>(s: Seq<A>, x: A, p: spec_fn(A) -> bool)
    ensures
        s.push(x).filter(p) == (if p(x) {
            s.filter(p).push(x)
        } else {
            s.filter(p)
        }),
{
    reveal(Seq::filter);
    assert(s.push(x).drop_last() =~= s);
}

proof fn lemma_filter_empty<A>(s: Seq<A>, p: spec_fn(A) -> bool)
    requires
        forall|i: int| 0 <= i < s.len() ==> !p(#[trigger] s[i]),
    ensures
        s.filter(p) == Seq::<A>::empty(),
    decreases s.len(),
{
    reveal(Seq::filter);
    if s.len() > 0 {
        lemma_filter_empty(s.drop_last(), p);
    } else {
        assert(s =~= Seq::<A>::empty());
    }
}

proof fn lemma_filter_reverse<A>(s: Seq<A>, p: spec_fn(A) -> bool)
    ensures
        s.reverse().filter(p) == s.filter(p).reverse(),
    decreases s.len(),
{
    if s.len() == 0 {
        lemma_filter_empty(s, p);
        lemma_filter_empty(s.reverse(), p);
        assert(s.filter(p).reverse() =~= Seq::<A>::empty());
    } else {
        let t = s.drop_last();
        let x = s.last();
        lemma_filter_reverse(t, p);
        assert(s =~= t.push(x));
        assert(s.reverse() =~= seq![x] + t.reverse());
        Seq::filter_distributes_over_add(seq![x], t.reverse(), p);
        assert(seq![x] =~= Seq::<A>::empty().push(x));
        lemma_filter_push(Seq::<A>::empty(), x, p);
        lemma_filter_empty(Seq::<A>::empty(), p);
        lemma_filter_push(t, x, p);
        if p(x) {
            assert(t.filter(p).push(x).reverse() =~= seq![x] + t.filter(p).reverse());
            assert(Seq::<A>::empty().push(x) =~= seq![x]);
        } else {
            assert(Seq::<A>::empty() + t.reverse().filter(p) =~= t.reverse().filter(p));
        }
    }
}

proof fn lemma_with_name_add<T: SortableByName>(x: Seq<T>, y: Seq<T>)
    ensures
        forall|k: Seq<char>| #[trigger] with_name(x + y, k) == with_name(x, k) + with_name(y, k),
{
    assert forall|k: Seq<char>| #[trigger] with_name(x + y, k) == with_name(x, k) + with_name(
        y,
        k,
    ) by {
        Seq::filter_distributes_over_add(x, y, name_is(k));
    }
}

/// The items of each name in `a`, `b` and `rev` read backwards are those of
/// `a_in` followed by those of `b_in`.
spec fn merge_keeps_ties<T: SortableByName>(
    a: Seq<T>,
    b: Seq<T>,
    rev: Seq<T>,
    a_in: Seq<T>,
    b_in: Seq<T>,
) -> bool {
    forall|k: Seq<char>|
        #[trigger] with_name(a, k) + with_name(b, k) + with_name(rev, k).reverse() == with_name(
            a_in,
            k,
        ) + with_name(b_in, k)
}

proof fn lemma_merge_step_b<T: SortableByName>(
    a: Seq<T>,
    b: Seq<T>,
    rev: Seq<T>,
    x: T,
    a_in: Seq<T>,
    b_in: Seq<T>,
)
    requires
        merge_keeps_ties(a, b.push(x), rev, a_in, b_in),
    ensures
        merge_keeps_ties(a, b, rev.push(x), a_in, b_in),
{
    assert forall|k: Seq<char>|
        #[trigger] with_name(a, k) + with_name(b, k) + with_name(rev.push(x), k).reverse()
            == with_name(a_in, k) + with_name(b_in, k) by {
        assert(with_name(a, k) + with_name(b.push(x), k) + with_name(rev, k).reverse() == with_name(
            a_in,
            k,
        ) + with_name(b_in, k));
        lemma_filter_push(b, x, name_is(k));
        lemma_filter_push(rev, x, name_is(k));
        let rk = with_name(rev, k);
        if x.name_view() == k {
            assert(rk.push(x).reverse() =~= seq![x] + rk.reverse());
            assert(with_name(a, k) + with_name(b, k).push(x) + rk.reverse() =~= with_name(a, k)
                + with_name(b, k) + (seq![x] + rk.reverse()));
        }
    }
}

proof fn lemma_merge_step_a<T: SortableByName>(
    a: Seq<T>,
    b: Seq<T>,
    rev: Seq<T>,
    x: T,
    a_in: Seq<T>,
    b_in: Seq<T>,
)
    requires
        merge_keeps_ties(a.push(x), b, rev, a_in, b_in),
        forall|y: int| 0 <= y < b.len() ==> #[trigger] b[y].name_view() != x.name_view(),
    ensures
        merge_keeps_ties(a, b, rev.push(x), a_in, b_in),
{
    assert forall|k: Seq<char>|
        #[trigger] with_name(a, k) + with_name(b, k) + with_name(rev.push(x), k).reverse()
            == with_name(a_in, k) + with_name(b_in, k) by {
        assert(with_name(a.push(x), k) + with_name(b, k) + with_name(rev, k).reverse() == with_name(
            a_in,
            k,
        ) + with_name(b_in, k));
        lemma_filter_push(a, x, name_is(k));
        lemma_filter_push(rev, x, name_is(k));
        let rk = with_name(rev, k);
        if x.name_view() == k {
            assert forall|y: int| 0 <= y < b.len() implies !name_is::<T>(k)(#[trigger] b[y]) by {
                assert(b[y].name_view() != x.name_view());
            }
            lemma_filter_empty(b, name_is(k));
            assert(rk.push(x).reverse() =~= seq![x] + rk.reverse());
            assert(with_name(a, k).push(x) + with_name(b, k) + rk.reverse() =~= with_name(a, k)
                + with_name(b, k) + (seq![x] + rk.reverse()));
        }
    }
}

/// Merge two runs in order of names; where names tie, the items of `a`
/// come first.
fn merge_runs<T: SortableByName>(a: Vec<T>, b: Vec<T>) -> (r: Vec<T>)
    requires
        sorted_by_name(a@),
        sorted_by_name(b@),
    ensures
        sorted_by_name(r@),
        r@.to_multiset() == a@.to_multiset().add(b@.to_multiset()),
        r@.len() == a@.len() + b@.len(),
        forall|k: Seq<char>| #[trigger] with_name(r@, k) == with_name(a@, k) + with_name(b@, k),
{
    let ghost a_in = a@;
    let ghost b_in = b@;
    let mut a = a;
    let mut b = b;
    let ghost ms0 = a@.to_multiset().add(b@.to_multiset());
    let ghost total = a@.len() + b@.len();
    let mut rev: Vec<T> = Vec::new();
    while a.len() > 0 || b.len() > 0
        invariant
            rev@.len() + a@.len() + b@.len() == total,
            sorted_by_name(a@),
            sorted_by_name(b@),
            forall|i: int, j: int|
                0 <= i < j < rev@.len() ==> item_le(#[trigger] rev@[j], #[trigger] rev@[i]),
            forall|k: int, y: int|
                0 <= k < rev@.len() && 0 <= y < a@.len() ==> item_le(
                    #[trigger] a@[y],
                    #[trigger] rev@[k],
                ),
            forall|k: int, y: int|
                0 <= k < rev@.len() && 0 <= y < b@.len() ==> item_le(
                    #[trigger] b@[y],
                    #[trigger] rev@[k],
                ),
            rev@.to_multiset().add(a@.to_multiset()).add(b@.to_multiset()) == ms0,
            merge_keeps_ties(a@, b@, rev@, a_in, b_in),
        decreases a@.len() + b@.len(),
    {
        let take_b = if a.len() == 0 {
            true
        } else if b.len() == 0 {
            false
        } else {
            let la = a.len() - 1;
            let lb = b.len() - 1;
            str_le(a[la].name(), b[lb].name())
        };
        let ghost a0 = a@;
        let ghost b0 = b@;
        let ghost rev0 = rev@;
        if take_b {
            let x = b.pop().unwrap();
            proof {
                if a0.len() > 0 {
                    assert forall|y: int| 0 <= y < a@.len() implies item_le(a@[y], x) by {
                        if y < a0.len() - 1 {
                            lemma_name_le_trans(
                                a0[y].name_view(),
                                a0[a0.len() - 1].name_view(),
                                x.name_view(),
                            );
                        }
                    }
                }
                assert forall|y: int| 0 <= y < b@.len() implies item_le(b@[y], x) by {
                    assert(b@[y] == b0[y]);
                }
                assert(b0 =~= b@.push(x));
                lemma_merge_step_b(a@, b@, rev0, x, a_in, b_in);
            }
            rev.push(x);
        } else {
            let x = a.pop().unwrap();
            proof {
                if b0.len() > 0 {
                    lemma_name_le_total(x.name_view(), b0[b0.len() - 1].name_view());
                    assert forall|y: int| 0 <= y < b@.len() implies item_le(b@[y], x) by {
                        if y < b0.len() - 1 {
                            lemma_name_le_trans(
                                b0[y].name_view(),
                                b0[b0.len() - 1].name_view(),
                                x.name_view(),
                            );
                        }
                    }
                }
                assert forall|y: int| 0 <= y < a@.len() implies item_le(a@[y], x) by {
                    assert(a@[y] == a0[y]);
                }
                assert(a0 =~= a@.push(x));
                assert forall|y: int| 0 <= y < b@.len() implies #[trigger] b@[y].name_view()
                    != x.name_view() by {
                    if b@[y].name_view() == x.name_view() {
                        if y < b0.len() - 1 {
                            assert(item_le(b0[y], b0[b0.len() - 1]));
                        } else {
                            lemma_name_le_refl(x.name_view());
                        }
                    }
                }
                lemma_merge_step_a(a@, b@, rev0, x, a_in, b_in);
            }
            rev.push(x);
        }
        proof {
            assert forall|i: int, j: int| 0 <= i < j < rev@.len() implies item_le(
                #[trigger] rev@[j],
                #[trigger] rev@[i],
            ) by {
                if j == rev@.len() - 1 {
                    assert(rev@[i] == rev0[i]);
                } else {
                    assert(rev@[i] == rev0[i]);
                    assert(rev@[j] == rev0[j]);
                }
            }
        }
    }
    let mut r: Vec<T> = Vec::new();
    let ghost full = rev@;
    while rev.len() > 0
        invariant
            forall|i: int, j: int|
                0 <= i < j < full.len() ==> item_le(#[trigger] full[j], #[trigger] full[i]),
            rev@ == full.take(rev@.len() as int),
            r@ == full.skip(rev@.len() as int).reverse(),
            rev@.len() <= full.len(),
            r@.len() + rev@.len() == full.len(),
        decreases rev@.len(),
    {
        let x = rev.pop().unwrap();
        proof {
            assert(full.skip(rev@.len() as int) =~= seq![x] + full.skip((rev@.len() + 1) as int));
            assert((seq![x] + full.skip((rev@.len() + 1) as int)).reverse() =~= full.skip(
                (rev@.len() + 1) as int,
            ).reverse().push(x));
        }
        r.push(x);
        assert(rev@ =~= full.take(rev@.len() as int));
    }
    proof {
        assert(full.skip(0) =~= full);
        full.lemma_reverse_to_multiset();
        assert forall|i: int, j: int| 0 <= i < j < r@.len() implies item_le(
            #[trigger] r@[i],
            #[trigger] r@[j],
        ) by {
            assert(r@[i] == full[full.len() - 1 - i]);
            assert(r@[j] == full[full.len() - 1 - j]);
        }
        assert(rev@.to_multiset() =~= vstd::multiset::Multiset::empty());
        assert(a@.to_multiset() =~= vstd::multiset::Multiset::empty());
        assert(b@.to_multiset() =~= vstd::multiset::Multiset::empty());
        assert(r@ =~= full.reverse());
        assert forall|k: Seq<char>| #[trigger] with_name(r@, k) == with_name(a_in, k) + with_name(
            b_in,
            k,
        ) by {
            lemma_filter_empty(a@, name_is(k));
            lemma_filter_empty(b@, name_is(k));
            lemma_filter_reverse(full, name_is(k));
            assert(with_name(a@, k) + with_name(b@, k) + with_name(full, k).reverse()
                =~= with_name(full, k).reverse());
        }
    }
    r
}

proof fn lemma_ties_merge<T: SortableByName>(
    o: Seq<T>,
    m: Seq<T>,
    a: Seq<T>,
    b: Seq<T>,
    rest: Seq<T>,
    target: Seq<T>,
)
    requires
        forall|k: Seq<char>|
            #[trigger] with_name(o, k) + with_name(a + (b + rest), k) == with_name(target, k),
        forall|k: Seq<char>| #[trigger] with_name(m, k) == with_name(a, k) + with_name(b, k),
    ensures
        forall|k: Seq<char>|
            #[trigger] with_name(o + m, k) + with_name(rest, k) == with_name(target, k),
{
    lemma_with_name_add(o, m);
    lemma_with_name_add(a, b + rest);
    lemma_with_name_add(b, rest);
    assert forall|k: Seq<char>|
        #[trigger] with_name(o + m, k) + with_name(rest, k) == with_name(target, k) by {
        assert(with_name(o, k) + with_name(a + (b + rest), k) == with_name(target, k));
        assert(with_name(m, k) == with_name(a, k) + with_name(b, k));
        assert(with_name(o, k) + (with_name(a, k) + with_name(b, k)) + with_name(rest, k)
            =~= with_name(o, k) + (with_name(a, k) + (with_name(b, k) + with_name(rest, k))));
    }
}

proof fn lemma_ties_move<T: SortableByName>(o: Seq<T>, a: Seq<T>, rest: Seq<T>, target: Seq<T>)
    requires
        forall|k: Seq<char>|
            #[trigger] with_name(o, k) + with_name(a + rest, k) == with_name(target, k),
    ensures
        forall|k: Seq<char>|
            #[trigger] with_name(o + a, k) + with_name(rest, k) == with_name(target, k),
{
    lemma_with_name_add(o, a);
    lemma_with_name_add(a, rest);
    assert forall|k: Seq<char>|
        #[trigger] with_name(o + a, k) + with_name(rest, k) == with_name(target, k) by {
        assert(with_name(o, k) + with_name(a + rest, k) == with_name(target, k));
        assert(with_name(o, k) + with_name(a, k) + with_name(rest, k) =~= with_name(o, k) + (
        with_name(a, k) + with_name(rest, k)));
    }
}

/// Merge the runs pairwise: the first with the second, the third with the
/// fourth, and so on; an odd last run stays as it is.
fn merge_pass<T: SortableByName>(runs: Vec<Vec<T>>) -> (r: Vec<Vec<T>>)
    requires
        forall|i: int| 0 <= i < runs@.len() ==> sorted_by_name(#[trigger] runs@[i]@),
    ensures
        forall|i: int| 0 <= i < r@.len() ==> sorted_by_name(#[trigger] r@[i]@),
        flatten(runs_view(r@)).to_multiset() == flatten(runs_view(runs@)).to_multiset(),
        forall|k: Seq<char>|
            #[trigger] with_name(flatten(runs_view(r@)), k) == with_name(
                flatten(runs_view(runs@)),
                k,
            ),
        r@.len() == (runs@.len() + 1) / 2,
{
    let ghost n = runs@.len();
    let ghost orig = runs_view(runs@);
    let mut runs = runs;
    let mut st: Vec<Vec<T>> = Vec::new();
    while runs.len() > 0
        invariant
            runs_view(runs@) + runs_view(st@).reverse() == orig,
            forall|i: int| 0 <= i < runs@.len() ==> sorted_by_name(#[trigger] runs@[i]@),
            forall|i: int| 0 <= i < st@.len() ==> sorted_by_name(#[trigger] st@[i]@),
        decreases runs@.len(),
    {
        let ghost r0 = runs@;
        let ghost s0 = st@;
        let x = runs.pop().unwrap();
        st.push(x);
        proof {
            assert(runs_view(st@).reverse() =~= seq![x@] + runs_view(s0).reverse());
            assert(runs_view(r0) =~= runs_view(runs@).push(x@));
            assert(runs_view(runs@) + runs_view(st@).reverse() =~= runs_view(r0) + runs_view(
                s0,
            ).reverse());
        }
    }
    assert(runs_view(runs@) =~= Seq::<Seq<T>>::empty());
    assert(runs_view(st@).reverse() =~= orig);
    let mut out: Vec<Vec<T>> = Vec::new();
    assert(runs_view(out@) =~= Seq::<Seq<T>>::empty());
    assert(flatten(runs_view(out@)).to_multiset() =~= vstd::multiset::Multiset::empty());
    proof {
        assert(flatten(runs_view(out@)) =~= Seq::<T>::empty());
        assert forall|k: Seq<char>|
            #[trigger] with_name(flatten(runs_view(out@)), k) + with_name(
                flatten(runs_view(st@).reverse()),
                k,
            ) == with_name(flatten(orig), k) by {
            lemma_filter_empty(flatten(runs_view(out@)), name_is(k));
            assert(Seq::<T>::empty() + with_name(flatten(orig), k) =~= with_name(flatten(orig), k));
        }
    }
    while st.len() > 0
        invariant
            flatten(runs_view(out@)).to_multiset().add(
                flatten(runs_view(st@).reverse()).to_multiset(),
            ) == flatten(orig).to_multiset(),
            forall|k: Seq<char>|
                #[trigger] with_name(flatten(runs_view(out@)), k) + with_name(
                    flatten(runs_view(st@).reverse()),
                    k,
                ) == with_name(flatten(orig), k),
            forall|i: int| 0 <= i < st@.len() ==> sorted_by_name(#[trigger] st@[i]@),
            forall|i: int| 0 <= i < out@.len() ==> sorted_by_name(#[trigger] out@[i]@),
            2 * out@.len() + st@.len() == n || (2 * out@.len() + st@.len() == n + 1
                && st@.len() == 0),
            st@.len() <= n,
        decreases st@.len(),
    {
        let ghost s0 = st@;
        let ghost o0 = out@;
        let a = st.pop().unwrap();
        proof {
            assert(runs_view(s0).reverse() =~= seq![a@] + runs_view(st@).reverse());
            lemma_flatten_front(a@, runs_view(st@).reverse());
        }
        if st.len() > 0 {
            let ghost s1 = st@;
            let b = st.pop().unwrap();
            proof {
                assert(runs_view(s1).reverse() =~= seq![b@] + runs_view(st@).reverse());
                lemma_flatten_front(b@, runs_view(st@).reverse());
                vstd::seq_lib::lemma_multiset_commutative(a@, flatten(runs_view(s1).reverse()));
                vstd::seq_lib::lemma_multiset_commutative(b@, flatten(runs_view(st@).reverse()));
            }
            let ghost av = a@;
            let ghost bv = b@;
            let m = merge_runs(a, b);
            out.push(m);
            proof {
                let rest = flatten(runs_view(st@).reverse());
                assert(flatten(runs_view(s0).reverse()) == av + (bv + rest));
                lemma_ties_merge(flatten(runs_view(o0)), m@, av, bv, rest, flatten(orig));
                assert(runs_view(out@) =~= runs_view(o0).push(m@));
                lemma_flatten_push(runs_view(o0), m@);
                vstd::seq_lib::lemma_multiset_commutative(flatten(runs_view(o0)), m@);
                assert(flatten(runs_view(out@)).to_multiset().add(
                    flatten(runs_view(st@).reverse()).to_multiset(),
                ) =~= flatten(runs_view(o0)).to_multiset().add(
                    flatten(runs_view(s0).reverse()).to_multiset(),
                ));
            }
        } else {
            let ghost av = a@;
            out.push(a);
            proof {
                let rest = flatten(runs_view(st@).reverse());
                assert(flatten(runs_view(s0).reverse()) == av + rest);
                lemma_ties_move(flatten(runs_view(o0)), av, rest, flatten(orig));
                assert(runs_view(out@) =~= runs_view(o0).push(av));
                lemma_flatten_push(runs_view(o0), av);
                vstd::seq_lib::lemma_multiset_commutative(flatten(runs_view(o0)), av);
                vstd::seq_lib::lemma_multiset_commutative(av, flatten(runs_view(st@).reverse()));
                assert(flatten(runs_view(out@)).to_multiset().add(
                    flatten(runs_view(st@).reverse()).to_multiset(),
                ) =~= flatten(runs_view(o0)).to_multiset().add(
                    flatten(runs_view(s0).reverse()).to_multiset(),
                ));
            }
        }
    }
    proof {
        assert(runs_view(st@).reverse() =~= Seq::<Seq<T>>::empty());
        assert(flatten(runs_view(st@).reverse()).to_multiset() =~= vstd::multiset::Multiset::empty());
        assert forall|k: Seq<char>| #[trigger] with_name(flatten(runs_view(out@)), k) == with_name(
            flatten(orig),
            k,
        ) by {
            let rest = flatten(runs_view(st@).reverse());
            assert(with_name(flatten(runs_view(out@)), k) + with_name(rest, k) == with_name(
                flatten(orig),
                k,
            ));
            assert(rest =~= Seq::<T>::empty());
            lemma_filter_empty(rest, name_is(k));
            assert(with_name(flatten(runs_view(out@)), k) + with_name(rest, k) =~= with_name(
                flatten(runs_view(out@)),
                k,
            ));
        }
    }
    out
}

/// Sort items by name, the way a bottom-up merge sort of `count` items
/// does: runs of one item are merged pairwise while the run length is
/// below `count`. Names that tie keep their order. The items are always
/// the same afterwards; they are in order of name when `count` is at least
/// the number of items (or below 2 only if there is at most one item).
pub fn sort_by_name<T: SortableByName>(list: &mut Vec<T>, count: usize)
    requires
        count <= isize::MAX,
    ensures
        final(list)@.to_multiset() == old(list)@.to_multiset(),
        final(list)@.len() == old(list)@.len(),
        (count >= 2 && count >= old(list)@.len()) || old(list)@.len() <= 1 ==> sorted_by_name(
            final(list)@,
        ),
        count < 2 ==> final(list)@ == old(list)@,
        forall|k: Seq<char>| #[trigger] with_name(final(list)@, k) == with_name(old(list)@, k),
{
    if list.len() == 0 || count < 2 {
        return;
    }
    let ghost n = list@.len();
    let ghost orig = list@;
    let mut rev: Vec<T> = Vec::new();
    while list.len() > 0
        invariant
            list@ + rev@.reverse() == orig,
        decreases list@.len(),
    {
        let ghost l0 = list@;
        let ghost r0 = rev@;
        let x = list.pop().unwrap();
        rev.push(x);
        proof {
            assert(rev@.reverse() =~= seq![x] + r0.reverse());
            assert(l0 =~= list@.push(x));
            assert(list@ + rev@.reverse() =~= l0 + r0.reverse());
        }
    }
    assert(rev@.reverse() =~= orig);
    let mut runs: Vec<Vec<T>> = Vec::new();
    while rev.len() > 0
        invariant
            flatten(runs_view(runs@)) + rev@.reverse() == orig,
            runs@.len() + rev@.len() == n,
            forall|i: int| 0 <= i < runs@.len() ==> sorted_by_name(#[trigger] runs@[i]@),
        decreases rev@.len(),
    {
        let ghost r0 = runs@;
        let ghost v0 = rev@;
        let x = rev.pop().unwrap();
        let mut one: Vec<T> = Vec::new();
        one.push(x);
        runs.push(one);
        proof {
            assert(runs_view(runs@) =~= runs_view(r0).push(one@));
            lemma_flatten_push(runs_view(r0), one@);
            assert(v0.reverse() =~= seq![x] + rev@.reverse());
            assert(one@ =~= seq![x]);
            assert(flatten(runs_view(runs@)) + rev@.reverse() =~= flatten(runs_view(r0))
                + v0.reverse());
        }
    }
    assert(flatten(runs_view(runs@)) + rev@.reverse() =~= flatten(runs_view(runs@)));
    let mut stride: usize = 1;
    while stride < count
        invariant
            flatten(runs_view(runs@)).to_multiset() == orig.to_multiset(),
            forall|k: Seq<char>| #[trigger] with_name(flatten(runs_view(runs@)), k) == with_name(orig, k),
            forall|i: int| 0 <= i < runs@.len() ==> sorted_by_name(#[trigger] runs@[i]@),
            runs@.len() >= 1,
            (runs@.len() - 1) * stride < n,
            1 <= stride,
            count <= isize::MAX,
            stride <= 2 * count,
        decreases 2 * count - stride,
    {
        let ghost k = runs@.len();
        runs = merge_pass(runs);
        proof {
            let k2 = runs@.len();
            assert(2 * k2 - 2 <= k - 1);
            assert((2 * k2 - 2) * stride <= (k - 1) * stride) by (nonlinear_arith)
                requires
                    2 * k2 - 2 <= k - 1,
                    stride >= 1,
            ;
            assert((k2 - 1) * (2 * stride) == (2 * k2 - 2) * stride) by (nonlinear_arith);
        }
        stride = stride * 2;
    }
    proof {
        if count >= n {
            let k = runs@.len();
            assert(k - 1 < 1) by (nonlinear_arith)
                requires
                    (k - 1) * stride < n,
                    n <= stride,
                    k >= 1,
            ;
        }
    }
    let ghost final_runs = runs_view(runs@);
    let mut st: Vec<Vec<T>> = Vec::new();
    while runs.len() > 0
        invariant
            runs_view(runs@) + runs_view(st@).reverse() == final_runs,
        decreases runs@.len(),
    {
        let ghost r0 = runs@;
        let ghost s0 = st@;
        let x = runs.pop().unwrap();
        st.push(x);
        proof {
            assert(runs_view(st@).reverse() =~= seq![x@] + runs_view(s0).reverse());
            assert(runs_view(r0) =~= runs_view(runs@).push(x@));
            assert(runs_view(runs@) + runs_view(st@).reverse() =~= runs_view(r0) + runs_view(
                s0,
            ).reverse());
        }
    }
    assert(runs_view(runs@) =~= Seq::<Seq<T>>::empty());
    assert(runs_view(st@).reverse() =~= final_runs);
    while st.len() > 0
        invariant
            list@ + flatten(runs_view(st@).reverse()) == flatten(final_runs),
        decreases st@.len(),
    {
        let ghost s0 = st@;
        let ghost l0 = list@;
        let mut a = st.pop().unwrap();
        proof {
            assert(runs_view(s0).reverse() =~= seq![a@] + runs_view(st@).reverse());
            lemma_flatten_front(a@, runs_view(st@).reverse());
        }
        let ghost av = a@;
        list.append(&mut a);
        assert(list@ + flatten(runs_view(st@).reverse()) =~= l0 + flatten(
            runs_view(s0).reverse(),
        ));
    }
    proof {
        assert(runs_view(st@).reverse() =~= Seq::<Seq<T>>::empty());
        assert(list@ + Seq::<T>::empty() =~= list@);
        vstd::seq_lib::to_multiset_len(list@);
        vstd::seq_lib::to_multiset_len(orig);
        if count >= n {
            assert(final_runs.len() == 1);
            assert(final_runs.drop_last() =~= Seq::<Seq<T>>::empty());
            assert(flatten(final_runs) =~= final_runs[0]);
        }
    }
}

} // verus!
