use vstd::prelude::*;
use std::collections::BTreeMap;
use vstd::std_specs::btree::{increasing_seq, spec_btree_map_iter};
use vstd::std_specs::iter::IteratorSpec;

verus! {

broadcast use {vstd::std_specs::btree::group_btree_axioms, vstd::laws_cmp::group_laws_cmp};

/// `k` is the smallest level of `m` at or after `level`.
pub open spec fn is_next_level<V>(m: Map<int, V>, level: int, k: int) -> bool {
    &&& m.contains_key(k)
    &&& k >= level
    &&& forall|k2: int| #[trigger] m.contains_key(k2) && k2 >= level ==> k <= k2
}

/// `m` has no level at or after `level`.
pub open spec fn no_next_level<V>(m: Map<int, V>, level: int) -> bool {
    forall|k2: int| #[trigger] m.contains_key(k2) ==> k2 < level
}

/// `result` is `m` with the entries recorded in turn: a key given in
/// `entries` has the value of its last entry, every other key keeps what it
/// had in `m`, and no other key appears.
pub open spec fn last_entries_win<K, V>(m: Map<K, V>, entries: Seq<(K, V)>, result: Map<K, V>) -> bool {
    &&& forall|j: int| 0 <= j < entries.len() && (forall|j2: int| j < j2 < entries.len() ==> #[trigger] entries[j2].0 != entries[j].0)
        ==> result.contains_key(#[trigger] entries[j].0) && result[entries[j].0] == entries[j].1
    &&& forall|k: K| (forall|j: int| 0 <= j < entries.len() ==> #[trigger] entries[j].0 != k)
        ==> (#[trigger] result.contains_key(k) <==> m.contains_key(k)) && (m.contains_key(k) ==> result[k] == m[k])
    &&& forall|k: K| #[trigger] result.contains_key(k) ==> m.contains_key(k)
        || exists|j: int| 0 <= j < entries.len() && #[trigger] entries[j].0 == k
}

/// Recording one more entry after `result` keeps the last entries winning.
pub proof fn lemma_last_entries_win_push<K, V>(m: Map<K, V>, entries: Seq<(K, V)>, result: Map<K, V>, e: (K, V))
    requires
        last_entries_win(m, entries, result),
    ensures
        last_entries_win(m, entries.push(e), result.insert(e.0, e.1)),
{
    let es = entries.push(e);
    let r = result.insert(e.0, e.1);
    let n = entries.len() as int;
    assert(es[n] == e);
    assert forall|j: int| 0 <= j < es.len() && (forall|j2: int| j < j2 < es.len() ==> #[trigger] es[j2].0 != es[j].0)
        implies r.contains_key(#[trigger] es[j].0) && r[es[j].0] == es[j].1 by {
        if j < n {
            assert(es[j] == entries[j]);
            assert(es[n].0 != es[j].0);
            assert forall|j2: int| j < j2 < entries.len() implies #[trigger] entries[j2].0 != entries[j].0 by {
                assert(es[j2] == entries[j2]);
            }
        }
    }
    assert forall|k: K| (forall|j: int| 0 <= j < es.len() ==> #[trigger] es[j].0 != k)
        implies (#[trigger] r.contains_key(k) <==> m.contains_key(k)) && (m.contains_key(k) ==> r[k] == m[k]) by {
        assert(es[n].0 != k);
        assert forall|j: int| 0 <= j < entries.len() implies #[trigger] entries[j].0 != k by {
            assert(es[j] == entries[j]);
        }
    }
    assert forall|k: K| #[trigger] r.contains_key(k) implies m.contains_key(k)
        || exists|j: int| 0 <= j < es.len() && #[trigger] es[j].0 == k by {
        if k == e.0 {
            assert(es[n].0 == k);
        } else if !m.contains_key(k) {
            let j = choose|j: int| 0 <= j < entries.len() && #[trigger] entries[j].0 == k;
            assert(es[j] == entries[j]);
        }
    }
}

/// The levels of `m` as integers.
pub open spec fn int_levels<V>(m: Map<i32, V>) -> Map<int, V> {
    Map::new(|k: int| i32::MIN <= k <= i32::MAX && m.contains_key(k as i32), |k: int| m[k as i32])
}

/// Levels that a map yields in increasing order ascend strictly.
proof fn lemma_increasing_levels(keys: Seq<i32>)
    requires
        increasing_seq(keys),
    ensures
        forall|a: int, b: int| 0 <= a < b < keys.len() ==> keys[a] < keys[b],
{
    assert(vstd::laws_cmp::obeys_cmp::<i32>());
    vstd::std_specs::btree::axiom_increasing_seq_meaning(keys);
    assert forall|a: int, b: int| 0 <= a < b < keys.len() implies keys[a] < keys[b] by {
        assert(vstd::std_specs::cmp::OrdSpec::cmp_spec(&keys[a], &keys[b]) is Less);
    }
}

/// A map from block levels to values, kept in a `BTreeMap`.
#[derive(Debug)]
pub struct LevelMap<V> {
    pub map: BTreeMap<i32, V>,
}

impl<V> View for LevelMap<V> {
    type V = Map<int, V>;

    open spec fn view(&self) -> Map<int, V> {
        int_levels(self.map@)
    }
}

impl<V> LevelMap<V> {
    pub fn new() -> (res: LevelMap<V>)
        ensures
            res@ == Map::<int, V>::empty(),
    {
        let res = LevelMap { map: BTreeMap::new() };
        assert(res@ =~= Map::<int, V>::empty());
        res
    }

    /// Whether no level has a value.
    pub fn is_empty(&self) -> (b: bool)
        ensures
            b == (self@.dom().len() == 0),
    {
        let b = self.map.is_empty();
        proof {
            let d = self@.dom();
            assert(d =~= self.map@.dom().map(|k: i32| k as int));
            self.map@.dom().lemma_map_finite(|k: i32| k as int);
            vstd::set_lib::lemma_set_empty_equivalency_len(d);
            if b {
                assert(d =~= Set::<int>::empty());
            } else {
                let k = choose|k: i32| self.map@.contains_key(k);
                assert(d.contains(k as int));
            }
        }
        b
    }

    /// Sets the value for `level`.
    pub fn insert(&mut self, level: i32, value: V)
        ensures
            final(self)@ == old(self)@.insert(level as int, value),
    {
        self.map.insert(level, value);
        assert(self@ =~= old(self)@.insert(level as int, value));
    }

    /// The value for `level`.
    pub fn get(&self, level: i32) -> (res: Option<&V>)
        ensures
            match res {
                Some(v) => self@.contains_key(level as int) && *v == self@[level as int],
                None => !self@.contains_key(level as int),
            },
    {
        self.map.get(&level)
    }
}

impl<V: Copy> LevelMap<V> {
    /// The entry with the smallest level at or after `level`.
    pub fn next_from(&self, level: i32) -> (res: Option<(i32, V)>)
        ensures
            match res {
                Some(e) => is_next_level(self@, level as int, e.0 as int) && self@[e.0 as int] == e.1,
                None => no_next_level(self@, level as int),
            },
    {
        let ghost s = spec_btree_map_iter(&self.map).remaining();
        let iter = self.map.iter();
        assert(iter.remaining() == s);
        let ghost keys = s.map_values(|kv: (&i32, &V)| *kv.0);
        proof {
            lemma_increasing_levels(keys);
        }
        for item in it: iter
            invariant
                it.seq() == s,
                keys == s.map_values(|kv: (&i32, &V)| *kv.0),
                forall|a: int, b: int| 0 <= a < b < keys.len() ==> keys[a] < keys[b],
                forall|j: int| 0 <= j < s.len() ==> self.map@.contains_key(*s[j].0) && self.map@[*s[j].0] == *s[j].1,
                forall|k: i32| #[trigger] self.map@.contains_key(k) ==> s.contains((&k, &self.map@[k])),
                forall|j: int| 0 <= j < it.index() ==> (*#[trigger] s[j].0) < level,
        {
            let (k, v) = item;
            if *k >= level {
                proof {
                    let i = it.index() as int;
                    assert(s[i] == (k, v));
                    assert forall|k2: int| #[trigger] self@.contains_key(k2) && k2 >= level implies *k <= k2 by {
                        let kk = k2 as i32;
                        assert(self.map@.contains_key(kk));
                        assert(s.contains((&kk, &self.map@[kk])));
                        let j = choose|j: int| 0 <= j < s.len() && s[j] == (&kk, &self.map@[kk]);
                        assert(keys[j] == kk);
                        assert(keys[i] == *k);
                        if j < i {
                            assert(*s[j].0 < level);
                        } else if j > i {
                            assert(keys[i] < keys[j]);
                        }
                    }
                }
                return Some((*k, *v));
            }
        }
        proof {
            assert forall|k2: int| #[trigger] self@.contains_key(k2) implies k2 < level by {
                let kk = k2 as i32;
                assert(self.map@.contains_key(kk));
                assert(s.contains((&kk, &self.map@[kk])));
                let j = choose|j: int| 0 <= j < s.len() && s[j] == (&kk, &self.map@[kk]);
                assert(*s[j].0 < level);
            }
        }
        None
    }

    /// Drops every level before `level`.
    pub fn retain_from(&mut self, level: i32)
        ensures
            final(self)@ == old(self)@.restrict(old(self)@.dom().filter(|k: int| k >= level)),
    {
        let ghost s = spec_btree_map_iter(&self.map).remaining();
        let mut kept: BTreeMap<i32, V> = BTreeMap::new();
        let iter = self.map.iter();
        assert(iter.remaining() == s);
        for item in it: iter
            invariant
                it.seq() == s,
                forall|j: int| 0 <= j < s.len() ==> self.map@.contains_key(*s[j].0) && self.map@[*s[j].0] == *s[j].1,
                forall|k: i32| #[trigger] self.map@.contains_key(k) ==> s.contains((&k, &self.map@[k])),
                forall|k: i32| #[trigger] kept@.contains_key(k) ==> k >= level && self.map@.contains_key(k)
                    && kept@[k] == self.map@[k],
                forall|j: int| 0 <= j < it.index() && *s[j].0 >= level ==> kept@.contains_key(*#[trigger] s[j].0),
        {
            let (k, v) = item;
            proof {
                assert(s[it.index() as int] == (k, v));
            }
            if *k >= level {
                kept.insert(*k, *v);
            }
        }
        proof {
            assert forall|k: i32| #[trigger] self.map@.contains_key(k) && k >= level implies kept@.contains_key(k) by {
                assert(s.contains((&k, &self.map@[k])));
                let j = choose|j: int| 0 <= j < s.len() && s[j] == (&k, &self.map@[k]);
                assert(*s[j].0 == k);
            }
        }
        let ghost before = self@;
        self.map = kept;
        assert(self@ =~= before.restrict(before.dom().filter(|k: int| k >= level)));
    }
}

} // verus!
