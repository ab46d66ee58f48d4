use vstd::prelude::*;

use crate::extensions::SortOrder;

verus! {

/// Lexicographic comparison of two character sequences, starting at index `i`
/// (the characters before `i` are taken to be equal).
pub open spec fn text_le_from(s: Seq<char>, t: Seq<char>, i: nat) -> bool
    decreases s.len() - i,
{
    if i >= s.len() {
        true
    } else if i >= t.len() {
        false
    } else if s[i as int] != t[i as int] {
        (s[i as int] as u32) < (t[i as int] as u32)
    } else {
        text_le_from(s, t, i + 1)
    }
}

/// `s <= t` in the order of `String`: lexicographic by code point, a proper
/// prefix before the longer text.
pub open spec fn text_le(s: Seq<char>, t: Seq<char>) -> bool {
    text_le_from(s, t, 0)
}

/// A value by which a table row is ordered: a number, or a text.
#[derive(Debug)]
pub enum SortKey {
    Int(i128),
    Text(String),
}

/// The mathematical content of a `SortKey`.
pub enum SortKeyView {
    Int(int),
    Text(Seq<char>),
}

impl View for SortKey {
    type V = SortKeyView;

    open spec fn view(&self) -> SortKeyView {
        match self {
            SortKey::Int(x) => SortKeyView::Int(*x as int),
            SortKey::Text(s) => SortKeyView::Text(s@),
        }
    }
}

/// The total order on keys: numbers by value, texts lexicographically, and
/// (never needed by one column) every number before every text.
pub open spec fn key_le(a: SortKeyView, b: SortKeyView) -> bool {
    match a {
        SortKeyView::Int(x) => match b {
            SortKeyView::Int(y) => x <= y,
            SortKeyView::Text(_) => true,
        },
        SortKeyView::Text(s) => match b {
            SortKeyView::Int(_) => false,
            SortKeyView::Text(t) => text_le(s, t),
        },
    }
}

/// The key of an optional number: absent values come first, as `None` does
/// in the order of `Option`.
pub open spec fn opt_key(o: Option<int>) -> SortKeyView {
    match o {
        Some(x) => SortKeyView::Int(x),
        None => SortKeyView::Int(-0x1_0000_0000_0000_0000int),
    }
}

/// Inserts `p` after every element whose key is at most the key of `p`,
/// scanning from the back.
pub open spec fn insert_by_key<T>(s: Seq<(SortKeyView, T)>, p: (SortKeyView, T)) -> Seq<
    (SortKeyView, T),
>
    decreases s.len(),
{
    if s.len() == 0 {
        seq![p]
    } else if key_le(s.last().0, p.0) {
        s.push(p)
    } else {
        insert_by_key(s.drop_last(), p).push(s.last())
    }
}

/// The stable sort of a keyed sequence: ascending by key, elements with equal
/// keys keep their relative order.
pub open spec fn stable_sort_by_key<T>(s: Seq<(SortKeyView, T)>) -> Seq<(SortKeyView, T)>
    decreases s.len(),
{
    if s.len() == 0 {
        s
    } else {
        insert_by_key(stable_sort_by_key(s.drop_last()), s.last())
    }
}

/// The stable sort of `s` by the key `key`, as `sort_by_key` of a slice does.
pub open spec fn sort_seq_by<T>(s: Seq<T>, key: spec_fn(T) -> SortKeyView) -> Seq<T> {
    stable_sort_by_key(s.map_values(|x: T| (key(x), x))).map_values(
        |p: (SortKeyView, T)| p.1,
    )
}

/// The keys of `s` never decrease.
pub open spec fn keys_sorted<T>(s: Seq<(SortKeyView, T)>) -> bool {
    forall|i: int, j: int| 0 <= i < j < s.len() ==> key_le(#[trigger] s[i].0, #[trigger] s[j].0)
}

/// Of two texts, one is at most the other.
pub proof fn lemma_text_le_total(s: Seq<char>, t: Seq<char>, i: nat)
    ensures
        text_le_from(s, t, i) || text_le_from(t, s, i),
    decreases s.len() - i,
{
    if i < s.len() && i < t.len() {
        if s[i as int] == t[i as int] {
            lemma_text_le_total(s, t, i + 1);
        } else {
            let a = s[i as int];
            let b = t[i as int];
            assert((a as u32) != (b as u32)) by {
                vstd::utf8::char_u32_cast(a, a as u32);
                vstd::utf8::char_u32_cast(b, b as u32);
            }
        }
    }
}

/// The order of texts is transitive.
pub proof fn lemma_text_le_trans(s: Seq<char>, t: Seq<char>, u: Seq<char>, i: nat)
    requires
        text_le_from(s, t, i),
        text_le_from(t, u, i),
    ensures
        text_le_from(s, u, i),
    decreases s.len() - i,
{
    if i < s.len() && i < t.len() && i < u.len() && s[i as int] == t[i as int] && t[i as int] == u[i as int] {
        lemma_text_le_trans(s, t, u, i + 1);
    }
}

/// Of two keys, one is at most the other.
pub proof fn lemma_key_le_total(a: SortKeyView, b: SortKeyView)
    ensures
        key_le(a, b) || key_le(b, a),
{
    match (a, b) {
        (SortKeyView::Text(s), SortKeyView::Text(t)) => lemma_text_le_total(s, t, 0),
        _ => {},
    }
}

/// The order of keys is transitive.
pub proof fn lemma_key_le_trans(a: SortKeyView, b: SortKeyView, c: SortKeyView)
    requires
        key_le(a, b),
        key_le(b, c),
    ensures
        key_le(a, c),
{
    match (a, b, c) {
        (SortKeyView::Text(s), SortKeyView::Text(t), SortKeyView::Text(u)) => lemma_text_le_trans(s, t, u, 0),
        _ => {},
    }
}

/// Inserting keeps an upper bound of all keys.
proof fn lemma_insert_bounded<T>(s: Seq<(SortKeyView, T)>, p: (SortKeyView, T), b: SortKeyView)
    requires
        forall|j: int| 0 <= j < s.len() ==> key_le(#[trigger] s[j].0, b),
        key_le(p.0, b),
    ensures
        insert_by_key(s, p).len() == s.len() + 1,
        forall|k: int| 0 <= k < insert_by_key(s, p).len() ==> key_le(#[trigger] insert_by_key(s, p)[k].0, b),
    decreases s.len(),
{
    if s.len() > 0 && !key_le(s.last().0, p.0) {
        let d = s.drop_last();
        assert forall|j: int| 0 <= j < d.len() implies key_le(#[trigger] d[j].0, b) by {
            assert(d[j] == s[j]);
        }
        lemma_insert_bounded(d, p, b);
        let r = insert_by_key(d, p);
        assert forall|k: int| 0 <= k < r.push(s.last()).len() implies key_le(#[trigger] r.push(s.last())[k].0, b) by {
            if k < r.len() {
                assert(r.push(s.last())[k] == r[k]);
            }
        }
    }
}

/// Inserting into keys that never decrease keeps them so.
proof fn lemma_insert_sorted<T>(s: Seq<(SortKeyView, T)>, p: (SortKeyView, T))
    requires
        keys_sorted(s),
    ensures
        keys_sorted(insert_by_key(s, p)),
        insert_by_key(s, p).len() == s.len() + 1,
    decreases s.len(),
{
    if s.len() == 0 {
    } else if key_le(s.last().0, p.0) {
        let r = s.push(p);
        assert forall|i: int, j: int| 0 <= i < j < r.len() implies key_le(#[trigger] r[i].0, #[trigger] r[j].0) by {
            if j == s.len() {
                if i < s.len() - 1 {
                    lemma_key_le_trans(s[i].0, s.last().0, p.0);
                }
            } else {
                assert(r[i] == s[i] && r[j] == s[j]);
            }
        }
    } else {
        let d = s.drop_last();
        let last = s.last();
        assert(keys_sorted(d)) by {
            assert forall|i: int, j: int| 0 <= i < j < d.len() implies key_le(#[trigger] d[i].0, #[trigger] d[j].0) by {
                assert(d[i] == s[i] && d[j] == s[j]);
            }
        }
        lemma_insert_sorted(d, p);
        lemma_key_le_total(last.0, p.0);
        assert forall|j: int| 0 <= j < d.len() implies key_le(#[trigger] d[j].0, last.0) by {
            assert(d[j] == s[j]);
            assert(key_le(s[j].0, s[s.len() - 1].0));
        }
        lemma_insert_bounded(d, p, last.0);
        let r = insert_by_key(d, p);
        let q = r.push(last);
        assert forall|i: int, j: int| 0 <= i < j < q.len() implies key_le(#[trigger] q[i].0, #[trigger] q[j].0) by {
            assert(q[i] == r[i]);
            if j < r.len() {
                assert(q[j] == r[j]);
            }
        }
    }
}

/// Inserting adds the inserted element to what a sequence holds, also as
/// seen through `f`.
proof fn lemma_insert_multiset<T, U>(s: Seq<(SortKeyView, T)>, p: (SortKeyView, T), f: spec_fn((SortKeyView, T)) -> U)
    ensures
        insert_by_key(s, p).map_values(f).to_multiset() == s.map_values(f).to_multiset().insert(f(p)),
    decreases s.len(),
{
    broadcast use vstd::seq_lib::group_to_multiset_ensures;
    if s.len() == 0 {
        assert(seq![p].map_values(f) =~= Seq::<U>::empty().push(f(p)));
        assert(s.map_values(f) =~= Seq::<U>::empty());
    } else if key_le(s.last().0, p.0) {
        assert(s.push(p).map_values(f) =~= s.map_values(f).push(f(p)));
    } else {
        let d = s.drop_last();
        lemma_insert_multiset(d, p, f);
        let r = insert_by_key(d, p);
        assert(r.push(s.last()).map_values(f) =~= r.map_values(f).push(f(s.last())));
        assert(s.map_values(f) =~= d.map_values(f).push(f(s.last())));
        assert(r.push(s.last()).map_values(f).to_multiset() =~= s.map_values(f).to_multiset().insert(f(p)));
    }
}

/// Every element of an insertion is the inserted one or one of the sequence.
proof fn lemma_insert_members<T>(s: Seq<(SortKeyView, T)>, p: (SortKeyView, T))
    ensures
        forall|k: int| 0 <= k < insert_by_key(s, p).len() ==> #[trigger] insert_by_key(s, p)[k] == p || s.contains(insert_by_key(s, p)[k]),
    decreases s.len(),
{
    if s.len() > 0 && !key_le(s.last().0, p.0) {
        let d = s.drop_last();
        lemma_insert_members(d, p);
        let r = insert_by_key(d, p);
        assert forall|k: int| 0 <= k < r.push(s.last()).len() implies #[trigger] r.push(s.last())[k] == p || s.contains(r.push(s.last())[k]) by {
            if k < r.len() {
                assert(r.push(s.last())[k] == r[k]);
                if r[k] != p {
                    let j = choose|j: int| 0 <= j < d.len() && d[j] == r[k];
                    assert(s[j] == d[j]);
                }
            } else {
                assert(s[s.len() - 1] == s.last());
            }
        }
    } else if s.len() > 0 {
        assert forall|k: int| 0 <= k < s.push(p).len() implies #[trigger] s.push(p)[k] == p || s.contains(s.push(p)[k]) by {
            if k < s.len() {
                assert(s.push(p)[k] == s[k]);
            }
        }
    }
}

/// The stable sort orders the keys, holds what the sequence holds (also as
/// seen through `f`), and holds nothing else.
pub proof fn lemma_stable_sort<T, U>(s: Seq<(SortKeyView, T)>, f: spec_fn((SortKeyView, T)) -> U)
    ensures
        keys_sorted(stable_sort_by_key(s)),
        stable_sort_by_key(s).len() == s.len(),
        stable_sort_by_key(s).map_values(f).to_multiset() == s.map_values(f).to_multiset(),
        forall|k: int| 0 <= k < s.len() ==> s.contains(#[trigger] stable_sort_by_key(s)[k]),
    decreases s.len(),
{
    broadcast use vstd::seq_lib::group_to_multiset_ensures;
    if s.len() > 0 {
        let d = s.drop_last();
        lemma_stable_sort(d, f);
        let sd = stable_sort_by_key(d);
        lemma_insert_sorted(sd, s.last());
        lemma_insert_multiset(sd, s.last(), f);
        lemma_insert_members(sd, s.last());
        assert(s.map_values(f) =~= d.map_values(f).push(f(s.last())));
        let r = insert_by_key(sd, s.last());
        assert forall|k: int| 0 <= k < s.len() implies s.contains(#[trigger] r[k]) by {
            if r[k] == s.last() {
                assert(s[s.len() - 1] == s.last());
            } else {
                let j = choose|j: int| 0 <= j < sd.len() && sd[j] == r[k];
                let i = choose|i: int| 0 <= i < d.len() && d[i] == sd[j];
                assert(s[i] == d[i]);
            }
        }
    } else {
        assert(s.map_values(f) =~= stable_sort_by_key(s).map_values(f));
    }
}

/// Inserting by key puts the element after a prefix of the sequence and
/// before a suffix whose keys all exceed its key.
proof fn lemma_insert_split<T>(s: Seq<(SortKeyView, T)>, p: (SortKeyView, T)) -> (m: int)
    ensures
        0 <= m <= s.len(),
        insert_by_key(s, p) == s.take(m).push(p) + s.skip(m),
        forall|j: int| m <= j < s.len() ==> !key_le(#[trigger] s[j].0, p.0),
    decreases s.len(),
{
    if s.len() == 0 {
        assert(s.take(0).push(p) + s.skip(0) =~= seq![p]);
        0
    } else if key_le(s.last().0, p.0) {
        assert(s.take(s.len() as int).push(p) + s.skip(s.len() as int) =~= s.push(p));
        s.len() as int
    } else {
        let d = s.drop_last();
        let m = lemma_insert_split(d, p);
        assert(d.take(m) =~= s.take(m));
        assert((d.take(m).push(p) + d.skip(m)).push(s.last()) =~= s.take(m).push(p) + s.skip(m));
        assert forall|j: int| m <= j < s.len() implies !key_le(#[trigger] s[j].0, p.0) by {
            if j < s.len() - 1 {
                assert(s[j] == d[j]);
            }
        }
        m
    }
}

/// The elements whose key is `k`.
pub open spec fn with_key<T>(k: SortKeyView) -> spec_fn((SortKeyView, T)) -> bool {
    |q: (SortKeyView, T)| q.0 == k
}

/// The stable sort keeps the order of the elements that share a key.
pub proof fn lemma_stable_sort_keeps_ties<T>(s: Seq<(SortKeyView, T)>, k: SortKeyView)
    ensures
        stable_sort_by_key(s).filter(with_key::<T>(k)) == s.filter(with_key::<T>(k)),
    decreases s.len(),
{
    reveal(Seq::filter);
    broadcast use Seq::filter_distributes_over_add;
    if s.len() > 0 {
        let d = s.drop_last();
        let p = s.last();
        let pred = with_key::<T>(k);
        lemma_stable_sort_keeps_ties(d, k);
        let sd = stable_sort_by_key(d);
        let m = lemma_insert_split(sd, p);
        let a = sd.take(m);
        let b = sd.skip(m);
        assert(sd =~= a + b);
        assert(a.push(p).drop_last() =~= a);
        assert(a.push(p).last() == p);
        if p.0 == k {
            lemma_key_le_total(k, k);
            assert forall|j: int| 0 <= j < b.len() implies !pred(#[trigger] b[j]) by {
                assert(b[j] == sd[m + j]);
            }
            lemma_filter_none(b, pred);
        }
    }
}

/// Filtering out every element leaves nothing.
proof fn lemma_filter_none<A>(s: Seq<A>, pred: spec_fn(A) -> bool)
    requires
        forall|j: int| 0 <= j < s.len() ==> !pred(#[trigger] s[j]),
    ensures
        s.filter(pred) == Seq::<A>::empty(),
    decreases s.len(),
{
    reveal(Seq::filter);
    if s.len() > 0 {
        let d = s.drop_last();
        assert forall|j: int| 0 <= j < d.len() implies !pred(#[trigger] d[j]) by {
            assert(d[j] == s[j]);
        }
        lemma_filter_none(d, pred);
        assert(!pred(s[s.len() - 1]));
    }
}

/// The view of a keyed vector.
pub open spec fn keyed_view<T>(s: Seq<(SortKey, T)>) -> Seq<(SortKeyView, T)> {
    s.map_values(|p: (SortKey, T)| (p.0@, p.1))
}

/// `s <= t` on texts.
pub fn text_le_exec(s: &str, t: &str) -> (r: bool)
    ensures
        r == text_le(s@, t@),
{
    let n = s.unicode_len();
    let m = t.unicode_len();
    let mut i: usize = 0;
    while i < n
        invariant
            i <= n,
            n == s@.len(),
            m == t@.len(),
            text_le(s@, t@) == text_le_from(s@, t@, i as nat),
        decreases n - i,
    {
        if i >= m {
            return false;
        }
        let c = s.get_char(i);
        let d = t.get_char(i);
        if c != d {
            return (c as u32) < (d as u32);
        }
        i = i + 1;
    }
    true
}

/// Whether the key `a` is at most the key `b`.
pub fn key_le_exec(a: &SortKey, b: &SortKey) -> (r: bool)
    ensures
        r == key_le(a@, b@),
{
    match a {
        SortKey::Int(x) => match b {
            SortKey::Int(y) => *x <= *y,
            SortKey::Text(_) => true,
        },
        SortKey::Text(s) => match b {
            SortKey::Int(_) => false,
            SortKey::Text(t) => text_le_exec(s.as_str(), t.as_str()),
        },
    }
}

/// Inserting at a position `j` behind which only greater keys stand, and
/// before which a key at most that of `p` stands, is `insert_by_key`.
pub proof fn lemma_insert_at<T>(s: Seq<(SortKeyView, T)>, p: (SortKeyView, T), j: int)
    requires
        0 <= j <= s.len(),
        forall|k: int| j <= k < s.len() ==> !key_le(#[trigger] s[k].0, p.0),
        j == 0 || key_le(s[j - 1].0, p.0),
    ensures
        insert_by_key(s, p) == s.take(j) + seq![p] + s.skip(j),
    decreases s.len(),
{
    if s.len() == 0 {
        assert(s.take(j) + seq![p] + s.skip(j) =~= seq![p]);
    } else if key_le(s.last().0, p.0) {
        if j < s.len() {
            assert(!key_le(s[s.len() - 1].0, p.0));
        }
        assert(s.take(j) + seq![p] + s.skip(j) =~= s.push(p));
    } else {
        let d = s.drop_last();
        assert(j < s.len());
        assert forall|k: int| j <= k < d.len() implies !key_le(#[trigger] d[k].0, p.0) by {
            assert(d[k] == s[k]);
        }
        if j > 0 {
            assert(d[j - 1] == s[j - 1]);
        }
        lemma_insert_at(d, p, j);
        assert(d.take(j) + seq![p] + d.skip(j) + seq![s.last()] =~= s.take(j) + seq![p] + s.skip(
            j,
        ));
    }
}

/// Inserts `p` into `res` where `insert_by_key` puts it.
fn insert_keyed<T>(res: &mut Vec<(SortKey, T)>, p: (SortKey, T))
    ensures
        keyed_view(final(res)@) == insert_by_key(keyed_view(old(res)@), (p.0@, p.1)),
{
    let ghost s = keyed_view(res@);
    let ghost pv = (p.0@, p.1);
    let mut j = res.len();
    while j > 0 && !key_le_exec(&res[j - 1].0, &p.0)
        invariant
            j <= res.len(),
            s == keyed_view(res@),
            pv == (p.0@, p.1),
            forall|k: int| j <= k < s.len() ==> !key_le(#[trigger] s[k].0, pv.0),
        decreases j,
    {
        j = j - 1;
    }
    proof {
        lemma_insert_at(s, pv, j as int);
    }
    res.insert(j, p);
    assert(keyed_view(res@) =~= s.take(j as int) + seq![pv] + s.skip(j as int));
}

/// Sorts keyed items stably by key.
pub fn sort_keyed<T>(items: Vec<(SortKey, T)>) -> (res: Vec<(SortKey, T)>)
    ensures
        keyed_view(res@) == stable_sort_by_key(keyed_view(items@)),
{
    let ghost orig = keyed_view(items@);
    let mut rest = items;
    let mut res: Vec<(SortKey, T)> = Vec::new();
    let ghost mut i: int = 0;
    assert(orig.take(0) =~= Seq::<(SortKeyView, T)>::empty());
    while rest.len() > 0
        invariant
            0 <= i <= orig.len(),
            rest.len() == orig.len() - i,
            keyed_view(rest@) == orig.skip(i),
            keyed_view(res@) == stable_sort_by_key(orig.take(i)),
        decreases rest.len(),
    {
        let ghost before = keyed_view(rest@);
        let p = rest.remove(0);
        proof {
            assert(before[0] == orig[i]);
            assert forall|k: int| 0 <= k < rest.len() implies keyed_view(rest@)[k] == orig.skip(i + 1)[k] by {
                assert(keyed_view(rest@)[k] == before[k + 1]);
            }
            assert(orig.take(i + 1).drop_last() =~= orig.take(i));
            assert(orig.take(i + 1).last() == orig[i]);
            assert(keyed_view(rest@) =~= orig.skip(i + 1));
        }
        insert_keyed(&mut res, p);
        proof {
            i = i + 1;
        }
    }
    assert(orig.take(i) =~= orig);
    res
}

/// Pairs each item with its key, keeping the order.
pub fn values_of<T>(items: Vec<(SortKey, T)>) -> (res: Vec<T>)
    ensures
        res@ == items@.map_values(|p: (SortKey, T)| p.1),
{
    let ghost orig = items@;
    let mut rest = items;
    let mut res: Vec<T> = Vec::new();
    while rest.len() > 0
        invariant
            res.len() + rest.len() == orig.len(),
            rest@ == orig.skip(res.len() as int),
            res@ == orig.take(res.len() as int).map_values(|p: (SortKey, T)| p.1),
        decreases rest.len(),
    {
        let ghost k = res.len() as int;
        let p = rest.remove(0);
        assert(orig.skip(k)[0] == orig[k]);
        res.push(p.1);
        assert(rest@ =~= orig.skip(k + 1));
        assert(res@ =~= orig.take(k + 1).map_values(|p: (SortKey, T)| p.1));
    }
    assert(orig.take(orig.len() as int) =~= orig);
    res
}

/// Reverses a vector in place.
pub fn reverse_vec<T>(v: &mut Vec<T>)
    ensures
        final(v)@ == old(v)@.reverse(),
{
    let ghost orig = v@;
    let mut res: Vec<T> = Vec::new();
    while v.len() > 0
        invariant
            res.len() + v.len() == orig.len(),
            v@ == orig.take(v.len() as int),
            res@ == orig.skip(v.len() as int).reverse(),
        decreases v.len(),
    {
        let ghost n = v.len() as int;
        let x = v.pop().unwrap();
        assert(x == orig[n - 1]);
        res.push(x);
        assert(v@ =~= orig.take(n - 1));
        assert(res@ =~= orig.skip(n - 1).reverse());
    }
    assert(orig.skip(0) =~= orig);
    *v = res;
}

} // verus!

verus! {

/// An item of a table that can be ordered by one of its columns.
pub trait FocusKey: Sized {
    /// The number of columns by which items can be sorted.
    spec fn key_columns() -> nat;

    /// The key of this item in column `focus_index`; `delta_toggle` chooses
    /// between the absolute and the relative values of the time columns.
    spec fn focus_key(&self, focus_index: usize, delta_toggle: bool) -> SortKeyView;

    fn key_column_count() -> (n: usize)
        ensures
            n == Self::key_columns(),
    ;

    fn focus_key_exec(&self, focus_index: usize, delta_toggle: bool) -> (k: SortKey)
        requires
            focus_index < Self::key_columns(),
        ensures
            k@ == self.focus_key(focus_index, delta_toggle),
    ;
}

/// The order that `sort_by_focus` gives to `items`: stable by the column's
/// key, and unchanged for a column that is not sortable.
pub open spec fn focus_sorted<X: FocusKey>(items: Seq<X>, focus_index: usize, delta_toggle: bool) -> Seq<X> {
    if focus_index < X::key_columns() {
        sort_seq_by(items, |x: X| x.focus_key(focus_index, delta_toggle))
    } else {
        items
    }
}

/// The items as a table sorted by column `by` in `order` shows them.
pub open spec fn ordered_items<X: FocusKey>(items: Seq<X>, by: usize, order: SortOrder, delta_toggle: bool) -> Seq<X> {
    match order {
        SortOrder::Ascending => focus_sorted(items, by, delta_toggle),
        SortOrder::Descending => focus_sorted(items, by, delta_toggle).reverse(),
    }
}

/// The items are ordered by the key of column `by`, ascending or descending.
pub open spec fn in_column_order<X: FocusKey>(r: Seq<X>, by: usize, order: SortOrder, delta_toggle: bool) -> bool {
    match order {
        SortOrder::Ascending => forall|i: int, j: int| 0 <= i < j < r.len()
            ==> key_le(#[trigger] r[i].focus_key(by, delta_toggle), #[trigger] r[j].focus_key(by, delta_toggle)),
        SortOrder::Descending => forall|i: int, j: int| 0 <= i < j < r.len()
            ==> key_le(#[trigger] r[j].focus_key(by, delta_toggle), #[trigger] r[i].focus_key(by, delta_toggle)),
    }
}

/// Sorting by a sortable column orders the items by the column's key and
/// keeps every item: ascending, or, reversed, descending.
pub proof fn lemma_ordered_items<X: FocusKey>(items: Seq<X>, by: usize, order: SortOrder, delta_toggle: bool)
    requires
        by < X::key_columns(),
    ensures
        ordered_items(items, by, order, delta_toggle).to_multiset() == items.to_multiset(),
        ordered_items(items, by, order, delta_toggle).len() == items.len(),
        in_column_order(ordered_items(items, by, order, delta_toggle), by, order, delta_toggle),
{
    let key = |x: X| x.focus_key(by, delta_toggle);
    let keyed = items.map_values(|x: X| (key(x), x));
    let sorted = stable_sort_by_key(keyed);
    let second = |p: (SortKeyView, X)| p.1;
    lemma_stable_sort(keyed, second);
    assert(keyed.map_values(second) =~= items);
    let up = sorted.map_values(second);
    assert(up == focus_sorted(items, by, delta_toggle));
    assert forall|k: int| 0 <= k < sorted.len() implies (#[trigger] sorted[k]).0 == key(sorted[k].1) by {
        assert(keyed.contains(sorted[k]));
        let m = choose|m: int| 0 <= m < keyed.len() && keyed[m] == sorted[k];
    }
    assert forall|i: int, j: int| 0 <= i < j < up.len() implies key_le(#[trigger] up[i].focus_key(by, delta_toggle), #[trigger] up[j].focus_key(by, delta_toggle)) by {
        assert(key_le(sorted[i].0, sorted[j].0));
        assert(sorted[i].0 == key(sorted[i].1));
        assert(sorted[j].0 == key(sorted[j].1));
    }
    match order {
        SortOrder::Ascending => {},
        SortOrder::Descending => {
            up.lemma_reverse_to_multiset();
            let down = up.reverse();
            assert forall|i: int, j: int| 0 <= i < j < down.len() implies key_le(#[trigger] down[j].focus_key(by, delta_toggle), #[trigger] down[i].focus_key(by, delta_toggle)) by {
                let n = up.len() as int;
                assert(down[i] == up[n - 1 - i]);
                assert(down[j] == up[n - 1 - j]);
                assert(key_le(up[n - 1 - j].focus_key(by, delta_toggle), up[n - 1 - i].focus_key(by, delta_toggle)));
            }
        },
    }
}

/// Filtering keyed elements by key and dropping the keys is filtering the
/// elements by their key.
proof fn lemma_filter_keyed<X: FocusKey>(q: Seq<(SortKeyView, X)>, by: usize, delta_toggle: bool, k: SortKeyView)
    requires
        forall|i: int| 0 <= i < q.len() ==> (#[trigger] q[i]).0 == q[i].1.focus_key(by, delta_toggle),
    ensures
        q.filter(with_key::<X>(k)).map_values(|p: (SortKeyView, X)| p.1)
            == q.map_values(|p: (SortKeyView, X)| p.1).filter(|x: X| x.focus_key(by, delta_toggle) == k),
    decreases q.len(),
{
    reveal(Seq::filter);
    let second = |p: (SortKeyView, X)| p.1;
    if q.len() == 0 {
        assert(q.filter(with_key::<X>(k)).map_values(second) =~= Seq::<X>::empty());
        assert(q.map_values(second) =~= Seq::<X>::empty());
    } else {
        let d = q.drop_last();
        assert forall|i: int| 0 <= i < d.len() implies (#[trigger] d[i]).0 == d[i].1.focus_key(by, delta_toggle) by {
            assert(d[i] == q[i]);
        }
        lemma_filter_keyed(d, by, delta_toggle, k);
        assert(q.map_values(second).drop_last() =~= d.map_values(second));
        assert(q.map_values(second).last() == q.last().1);
        assert(q[q.len() - 1] == q.last());
        if q.last().0 == k {
            assert(d.filter(with_key::<X>(k)).push(q.last()).map_values(second)
                =~= d.filter(with_key::<X>(k)).map_values(second).push(q.last().1));
        }
    }
}

/// Sorting by a column is stable: the items that share the column's key
/// come out in the order in which they went in.
pub proof fn lemma_sort_keeps_ties_in_order<X: FocusKey>(items: Seq<X>, by: usize, delta_toggle: bool, k: SortKeyView)
    requires
        by < X::key_columns(),
    ensures
        focus_sorted(items, by, delta_toggle).filter(|x: X| x.focus_key(by, delta_toggle) == k)
            == items.filter(|x: X| x.focus_key(by, delta_toggle) == k),
{
    let key = |x: X| x.focus_key(by, delta_toggle);
    let keyed = items.map_values(|x: X| (key(x), x));
    let sorted = stable_sort_by_key(keyed);
    let second = |p: (SortKeyView, X)| p.1;
    lemma_stable_sort(keyed, second);
    lemma_stable_sort_keeps_ties(keyed, k);
    assert(keyed.map_values(second) =~= items);
    assert forall|i: int| 0 <= i < sorted.len() implies (#[trigger] sorted[i]).0 == sorted[i].1.focus_key(by, delta_toggle) by {
        assert(keyed.contains(sorted[i]));
        let m = choose|m: int| 0 <= m < keyed.len() && keyed[m] == sorted[i];
    }
    assert forall|i: int| 0 <= i < keyed.len() implies (#[trigger] keyed[i]).0 == keyed[i].1.focus_key(by, delta_toggle) by {}
    lemma_filter_keyed(sorted, by, delta_toggle, k);
    lemma_filter_keyed(keyed, by, delta_toggle, k);
    assert(focus_sorted(items, by, delta_toggle) == sorted.map_values(second));
}

/// Sorts items stably by the key of one column.
pub fn sort_items_by_focus<X: FocusKey>(items: Vec<X>, focus_index: usize, delta_toggle: bool) -> (res: Vec<X>)
    ensures
        res@ == focus_sorted(items@, focus_index, delta_toggle),
{
    if focus_index >= X::key_column_count() {
        return items;
    }
    let ghost orig = items@;
    let ghost key = |x: X| x.focus_key(focus_index, delta_toggle);
    let mut rest = items;
    let mut keyed: Vec<(SortKey, X)> = Vec::new();
    while rest.len() > 0
        invariant
            focus_index < X::key_columns(),
            key == (|x: X| x.focus_key(focus_index, delta_toggle)),
            keyed.len() + rest.len() == orig.len(),
            rest@ == orig.skip(keyed.len() as int),
            keyed_view(keyed@) == orig.take(keyed.len() as int).map_values(|x: X| (key(x), x)),
        decreases rest.len(),
    {
        let ghost k = keyed.len() as int;
        let ghost before = keyed_view(keyed@);
        let ghost before_raw = keyed@;
        let x = rest.remove(0);
        assert(orig.skip(k)[0] == orig[k]);
        assert(x == orig[k]);
        let kx = x.focus_key_exec(focus_index, delta_toggle);
        let ghost pv = (kx@, x);
        assert(key(x) == kx@);
        keyed.push((kx, x));
        assert(rest@ =~= orig.skip(k + 1));
        assert(keyed_view(keyed@)[k] == pv);
        assert forall|i: int| 0 <= i < k + 1 implies keyed_view(keyed@)[i] == orig.take(k + 1).map_values(|x: X| (key(x), x))[i] by {
            if i < k {
                assert(keyed@[i] == before_raw[i]);
                assert(keyed_view(keyed@)[i] == before[i]);
                assert(before[i] == orig.take(k).map_values(|x: X| (key(x), x))[i]);
                assert(orig.take(k)[i] == orig[i]);
            }
        }
        assert(keyed_view(keyed@) =~= orig.take(k + 1).map_values(|x: X| (key(x), x)));
    }
    assert(orig.take(orig.len() as int) =~= orig);
    let sorted = sort_keyed(keyed);
    let res = values_of(sorted);
    assert(sorted@.map_values(|p: (SortKey, X)| p.1) =~= keyed_view(sorted@).map_values(
        |p: (SortKeyView, X)| p.1,
    ));
    res
}

/// A collection of table rows that can be sorted by a column.
pub trait SortableByFocus: Sized {
    type Item;

    spec fn items(&self) -> Seq<Self::Item>;

    /// The rows as `sort_by_focus` leaves them.
    spec fn sorted_items(&self, focus_index: usize, delta_toggle: bool) -> Seq<Self::Item>;

    fn empty() -> (r: Self)
        ensures
            r.items() == Seq::<Self::Item>::empty(),
    ;

    fn count(&self) -> (n: usize)
        ensures
            n == self.items().len(),
    ;

    fn sort_by_focus(&mut self, focus_index: usize, delta_toggle: bool)
        ensures
            final(self).items() == old(self).sorted_items(focus_index, delta_toggle),
    ;

    fn rev(&mut self)
        ensures
            final(self).items() == old(self).items().reverse(),
    ;
}

impl<X: FocusKey> SortableByFocus for Vec<X> {
    type Item = X;

    open spec fn items(&self) -> Seq<X> {
        self@
    }

    open spec fn sorted_items(&self, focus_index: usize, delta_toggle: bool) -> Seq<X> {
        focus_sorted(self@, focus_index, delta_toggle)
    }

    fn empty() -> (r: Self) {
        Vec::new()
    }

    fn count(&self) -> (n: usize) {
        self.len()
    }

    fn sort_by_focus(&mut self, focus_index: usize, delta_toggle: bool) {
        let mut items: Vec<X> = Vec::new();
        std::mem::swap(&mut items, self);
        let sorted = sort_items_by_focus(items, focus_index, delta_toggle);
        *self = sorted;
    }

    fn rev(&mut self) {
        reverse_vec(self);
    }
}

} // verus!
