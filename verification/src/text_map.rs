use vstd::prelude::*;

use crate::extensions::sorting::{text_le, text_le_exec};
use crate::text::str_eq;

verus! {

/// The map that a list of entries stands for: a later entry for a key
/// overrides an earlier one.
pub open spec fn entries_map<V>(s: Seq<(String, V)>) -> Map<Seq<char>, V>
    decreases s.len(),
{
    if s.len() == 0 {
        Map::empty()
    } else {
        entries_map(s.drop_last()).insert(s.last().0@, s.last().1)
    }
}

/// The last entry of `s` for the key `k`, if there is one.
pub open spec fn last_index_of<V>(s: Seq<(String, V)>, k: Seq<char>) -> Option<int>
    decreases s.len(),
{
    if s.len() == 0 {
        None
    } else if s.last().0@ == k {
        Some(s.len() - 1)
    } else {
        last_index_of(s.drop_last(), k)
    }
}

/// The keys of `s` ascend strictly in text order, as the keys of a sorted
/// map do: each key comes once, after every smaller one.
pub open spec fn keys_ascending<V>(s: Seq<(String, V)>) -> bool {
    forall|i: int, j: int|
        0 <= i < j < s.len() ==> text_le((#[trigger] s[i]).0@, (#[trigger] s[j]).0@) && s[i].0@ != s[j].0@
}

/// Whether the keys of `s` ascend strictly in text order.
pub fn check_keys_ascending<V>(s: &Vec<(String, V)>) -> (res: bool)
    ensures
        res == keys_ascending(s@),
{
    let mut i: usize = 0;
    while i < s.len()
        invariant
            i <= s@.len(),
            forall|a: int, b: int|
                0 <= a < i && a < b < s@.len() ==> text_le((#[trigger] s@[a]).0@, (#[trigger] s@[b]).0@)
                    && s@[a].0@ != s@[b].0@,
        decreases s@.len() - i,
    {
        let mut j: usize = i + 1;
        while j < s.len()
            invariant
                i < s@.len(),
                i + 1 <= j <= s@.len(),
                forall|a: int, b: int|
                    0 <= a < i && a < b < s@.len() ==> text_le((#[trigger] s@[a]).0@, (#[trigger] s@[b]).0@)
                        && s@[a].0@ != s@[b].0@,
                forall|b: int| i < b < j ==> text_le(s@[i as int].0@, (#[trigger] s@[b]).0@) && s@[i as int].0@ != s@[b].0@,
            decreases s@.len() - j,
        {
            let a = s[i].0.as_str();
            let b = s[j].0.as_str();
            if !text_le_exec(a, b) || str_eq(a, b) {
                return false;
            }
            j = j + 1;
        }
        i = i + 1;
    }
    true
}

/// A map from texts to values that keeps its entries in the order in which
/// their keys first arrived.
#[derive(Debug)]
pub struct TextMap<V> {
    pub entries: Vec<(String, V)>,
}

impl<V> View for TextMap<V> {
    type V = Map<Seq<char>, V>;

    open spec fn view(&self) -> Map<Seq<char>, V> {
        entries_map(self.entries@)
    }
}

/// The last entry for a key holds the map's value for it.
pub proof fn lemma_last_index<V>(s: Seq<(String, V)>, k: Seq<char>)
    ensures
        match last_index_of(s, k) {
            Some(i) => 0 <= i < s.len() && s[i].0@ == k && entries_map(s).contains_key(k)
                && entries_map(s)[k] == s[i].1 && forall|j: int|
                i < j < s.len() ==> (#[trigger] s[j]).0@ != k,
            None => !entries_map(s).contains_key(k) && forall|j: int|
                0 <= j < s.len() ==> (#[trigger] s[j]).0@ != k,
        },
    decreases s.len(),
{
    if s.len() > 0 {
        let d = s.drop_last();
        lemma_last_index(d, k);
        if s.last().0@ != k {
            assert forall|j: int| 0 <= j < d.len() implies (#[trigger] s[j]) == d[j] by {}
        }
    }
}

/// Replacing the value of the last entry for a key is inserting into the map.
pub proof fn lemma_update_last<V>(s: Seq<(String, V)>, i: int, e: (String, V))
    requires
        0 <= i < s.len(),
        s[i].0@ == e.0@,
        forall|j: int| i < j < s.len() ==> (#[trigger] s[j]).0@ != e.0@,
    ensures
        entries_map(s.update(i, e)) == entries_map(s).insert(e.0@, e.1),
    decreases s.len(),
{
    let t = s.update(i, e);
    if i == s.len() - 1 {
        assert(t.drop_last() =~= s.drop_last());
        assert(entries_map(s).insert(e.0@, e.1) =~= entries_map(s.drop_last()).insert(e.0@, e.1));
    } else {
        let d = s.drop_last();
        assert forall|j: int| i < j < d.len() implies (#[trigger] d[j]).0@ != e.0@ by {
            assert(d[j] == s[j]);
        }
        lemma_update_last(d, i, e);
        assert(t.drop_last() =~= d.update(i, e));
        assert(s.last().0@ != e.0@);
        assert(entries_map(t) =~= entries_map(s).insert(e.0@, e.1));
    }
}

/// No two entries have the same key.
pub open spec fn keys_distinct<V>(s: Seq<(String, V)>) -> bool {
    forall|i: int, j: int| 0 <= i < j < s.len() ==> (#[trigger] s[i]).0@ != (#[trigger] s[j]).0@
}

/// Entries with distinct keys stand for a finite map with one key per entry.
pub proof fn lemma_distinct_entries_len<V>(s: Seq<(String, V)>)
    requires
        keys_distinct(s),
    ensures
        entries_map(s).dom().finite(),
        entries_map(s).dom().len() == s.len(),
    decreases s.len(),
{
    if s.len() > 0 {
        let d = s.drop_last();
        assert(keys_distinct(d)) by {
            assert forall|i: int, j: int| 0 <= i < j < d.len() implies (#[trigger] d[i]).0@ != (#[trigger] d[j]).0@ by {
                assert(d[i] == s[i] && d[j] == s[j]);
            }
        }
        lemma_distinct_entries_len(d);
        lemma_last_index(d, s.last().0@);
        if last_index_of(d, s.last().0@) is Some {
            let i = last_index_of(d, s.last().0@)->0;
            assert(s[i] == d[i]);
        }
    }
}

impl<V> TextMap<V> {
    /// The entries have distinct keys, as `insert` keeps them.
    pub open spec fn well_formed(&self) -> bool {
        keys_distinct(self.entries@)
    }

    pub fn new() -> (res: TextMap<V>)
        ensures
            res@ == Map::<Seq<char>, V>::empty(),
            res.entries@.len() == 0,
            res.well_formed(),
    {
        TextMap { entries: Vec::new() }
    }

    /// The position of the last entry for `key`.
    pub fn find(&self, key: &str) -> (res: Option<usize>)
        ensures
            match res {
                Some(i) => last_index_of(self.entries@, key@) == Some(i as int),
                None => last_index_of(self.entries@, key@) is None,
            },
    {
        let mut i = self.entries.len();
        assert(self.entries@.take(i as int) =~= self.entries@);
        while i > 0
            invariant
                i <= self.entries@.len(),
                last_index_of(self.entries@, key@) == last_index_of(self.entries@.take(i as int), key@),
            decreases i,
        {
            let ghost t = self.entries@.take(i as int);
            assert(t.drop_last() =~= self.entries@.take(i - 1));
            assert(t.last() == self.entries@[i - 1]);
            if str_eq(self.entries[i - 1].0.as_str(), key) {
                return Some(i - 1);
            }
            i = i - 1;
        }
        None
    }

    /// The value for `key`.
    pub fn get(&self, key: &str) -> (res: Option<&V>)
        ensures
            match res {
                Some(v) => self@.contains_key(key@) && *v == self@[key@],
                None => !self@.contains_key(key@),
            },
    {
        proof {
            lemma_last_index(self.entries@, key@);
        }
        match self.find(key) {
            Some(i) => Some(&self.entries[i].1),
            None => None,
        }
    }

    /// Sets the value for `key`; a key not yet present goes last.
    pub fn insert(&mut self, key: String, value: V)
        ensures
            final(self)@ == old(self)@.insert(key@, value),
            old(self).well_formed() ==> final(self).well_formed(),
    {
        proof {
            lemma_last_index(self.entries@, key@);
        }
        match self.find(key.as_str()) {
            Some(i) => {
                proof {
                    lemma_update_last(self.entries@, i as int, (key, value));
                }
                self.entries[i] = (key, value);
            },
            None => {
                let ghost old_entries = self.entries@;
                self.entries.push((key, value));
                assert(self.entries@.drop_last() =~= old_entries);
                assert(keys_distinct(old_entries) ==> keys_distinct(self.entries@)) by {
                    if keys_distinct(old_entries) {
                        assert forall|i: int, j: int| 0 <= i < j < self.entries@.len() implies
                            (#[trigger] self.entries@[i]).0@ != (#[trigger] self.entries@[j]).0@ by {
                            assert(self.entries@[i] == old_entries[i] || i == old_entries.len());
                        }
                    }
                }
            },
        }
    }

    /// The number of keys.
    pub fn len(&self) -> (n: usize)
        requires
            self.well_formed(),
        ensures
            n == self@.dom().len(),
    {
        proof {
            lemma_distinct_entries_len(self.entries@);
        }
        self.entries.len()
    }

    /// Whether no key has a value.
    pub fn is_empty(&self) -> (b: bool)
        ensures
            b == (self@ == Map::<Seq<char>, V>::empty()),
    {
        if self.entries.len() == 0 {
            assert(self@ =~= Map::<Seq<char>, V>::empty());
            true
        } else {
            assert(self@.contains_key(self.entries@.last().0@));
            false
        }
    }
}

} // verus!
