//! A map from text keys to decimals, kept as the list of its insertions.
use vstd::prelude::*;
use crate::decimal::Dec;
use crate::text::str_eq;

verus! {

/// The value of the last pair in `entries` whose key is `key`.
pub open spec fn assoc_get(entries: Seq<(Seq<char>, Dec)>, key: Seq<char>) -> Option<Dec>
    decreases entries.len(),
{
    if entries.len() == 0 {
        None
    } else if entries.last().0 == key {
        Some(entries.last().1)
    } else {
        assoc_get(entries.drop_last(), key)
    }
}

/// The index of the last pair in `entries` whose key is `key`, or -1.
pub open spec fn key_pos(entries: Seq<(Seq<char>, Dec)>, key: Seq<char>) -> int
    decreases entries.len(),
{
    if entries.len() == 0 {
        -1
    } else if entries.last().0 == key {
        entries.len() - 1
    } else {
        key_pos(entries.drop_last(), key)
    }
}

/// Whether no key occurs twice.
pub open spec fn keys_distinct(entries: Seq<(Seq<char>, Dec)>) -> bool {
    forall|i: int, j: int| 0 <= i < j < entries.len() ==> #[trigger] entries[i].0 != #[trigger] entries[j].0
}

/// The entries after setting `key` to `value`: the pair of the key is
/// replaced where it has one, else the pair is appended.
pub open spec fn map_insert(entries: Seq<(Seq<char>, Dec)>, key: Seq<char>, value: Dec) -> Seq<
    (Seq<char>, Dec),
> {
    let i = key_pos(entries, key);
    if i < 0 {
        entries.push((key, value))
    } else {
        entries.update(i, (key, value))
    }
}

/// The entries after setting each pair of `pairs` in turn.
pub open spec fn insert_all(entries: Seq<(Seq<char>, Dec)>, pairs: Seq<(Seq<char>, Dec)>) -> Seq<
    (Seq<char>, Dec),
>
    decreases pairs.len(),
{
    if pairs.len() == 0 {
        entries
    } else {
        map_insert(insert_all(entries, pairs.drop_last()), pairs.last().0, pairs.last().1)
    }
}

/// `key_pos` finds the last pair with the key, and `assoc_get` its value.
pub proof fn lemma_key_pos(entries: Seq<(Seq<char>, Dec)>, key: Seq<char>)
    ensures
        -1 <= key_pos(entries, key) < entries.len(),
        key_pos(entries, key) >= 0 ==> entries[key_pos(entries, key)].0 == key,
        forall|i: int| key_pos(entries, key) < i < entries.len() ==> #[trigger] entries[i].0 != key,
        assoc_get(entries, key) == if key_pos(entries, key) < 0 {
            None
        } else {
            Some(entries[key_pos(entries, key)].1)
        },
    decreases entries.len(),
{
    if entries.len() > 0 && entries.last().0 != key {
        lemma_key_pos(entries.drop_last(), key);
        assert forall|i: int| key_pos(entries, key) < i < entries.len() implies #[trigger] entries[i].0
            != key by {
            if i < entries.len() - 1 {
                assert(entries[i] == entries.drop_last()[i]);
            }
        }
        if key_pos(entries, key) >= 0 {
            assert(entries[key_pos(entries, key)] == entries.drop_last()[key_pos(entries, key)]);
        }
    }
}

/// Sequences with the same keys, index by index, find a key at the same place.
proof fn lemma_key_pos_same_keys(a: Seq<(Seq<char>, Dec)>, b: Seq<(Seq<char>, Dec)>, key: Seq<char>)
    requires
        a.len() == b.len(),
        forall|i: int| 0 <= i < a.len() ==> #[trigger] a[i].0 == b[i].0,
    ensures
        key_pos(a, key) == key_pos(b, key),
    decreases a.len(),
{
    if a.len() > 0 {
        assert(a.last().0 == b.last().0);
        assert forall|i: int| 0 <= i < a.drop_last().len() implies #[trigger] a.drop_last()[i].0
            == b.drop_last()[i].0 by {
            assert(a.drop_last()[i] == a[i] && b.drop_last()[i] == b[i]);
        }
        lemma_key_pos_same_keys(a.drop_last(), b.drop_last(), key);
    }
}

/// Setting a key gives it the value and leaves every other key as it was;
/// distinct keys stay distinct.
pub proof fn lemma_map_insert(entries: Seq<(Seq<char>, Dec)>, key: Seq<char>, value: Dec)
    ensures
        assoc_get(map_insert(entries, key, value), key) == Some(value),
        forall|k: Seq<char>|
            k != key ==> #[trigger] assoc_get(map_insert(entries, key, value), k) == assoc_get(entries, k),
        keys_distinct(entries) ==> keys_distinct(map_insert(entries, key, value)),
{
    let t = map_insert(entries, key, value);
    let i = key_pos(entries, key);
    lemma_key_pos(entries, key);
    if i < 0 {
        assert(t.drop_last() =~= entries);
        if keys_distinct(entries) {
            assert forall|a: int, b: int| 0 <= a < b < t.len() implies #[trigger] t[a].0 != #[trigger] t[b].0 by {
                if b == t.len() - 1 {
                    assert(t[a] == entries[a]);
                } else {
                    assert(t[a] == entries[a] && t[b] == entries[b]);
                }
            }
        }
    } else {
        assert forall|j: int| 0 <= j < t.len() implies #[trigger] t[j].0 == entries[j].0 by {}
        lemma_key_pos(t, key);
        let p = key_pos(t, key);
        if p != i {
            if p > i {
                assert(t[p] == entries[p]);
            } else {
                assert(t[i].0 == key);
            }
        }
        assert forall|k: Seq<char>| k != key implies #[trigger] assoc_get(t, k) == assoc_get(entries, k) by {
            lemma_key_pos_same_keys(t, entries, k);
            lemma_key_pos(t, k);
            lemma_key_pos(entries, k);
            if key_pos(t, k) >= 0 {
                assert(key_pos(t, k) != i);
            }
        }
        if keys_distinct(entries) {
            assert forall|a: int, b: int| 0 <= a < b < t.len() implies #[trigger] t[a].0 != #[trigger] t[b].0 by {
                assert(t[a].0 == entries[a].0 && t[b].0 == entries[b].0);
            }
        }
    }
}

/// Setting the pairs of `pairs.push(x)` is setting those of `pairs`, then `x`.
pub proof fn lemma_insert_all_push(entries: Seq<(Seq<char>, Dec)>, pairs: Seq<(Seq<char>, Dec)>, x: (
    Seq<char>,
    Dec,
))
    ensures
        insert_all(entries, pairs.push(x)) == map_insert(insert_all(entries, pairs), x.0, x.1),
{
    assert(pairs.push(x).drop_last() =~= pairs);
}

/// Setting `b` and then `c` is setting `b + c`.
pub proof fn lemma_insert_all_concat(
    a: Seq<(Seq<char>, Dec)>,
    b: Seq<(Seq<char>, Dec)>,
    c: Seq<(Seq<char>, Dec)>,
)
    ensures
        insert_all(insert_all(a, b), c) == insert_all(a, b + c),
    decreases c.len(),
{
    if c.len() == 0 {
        assert(b + c =~= b);
    } else {
        lemma_insert_all_concat(a, b, c.drop_last());
        assert((b + c.drop_last()).push(c.last()) =~= b + c);
        lemma_insert_all_push(a, b + c.drop_last(), c.last());
    }
}

/// The pairs of a vector, each key taken by its characters.
pub open spec fn entry_views(v: Seq<(String, Dec)>) -> Seq<(Seq<char>, Dec)> {
    v.map_values(|e: (String, Dec)| (e.0@, e.1))
}

/// The position of the last entry of `v` whose key is `key`.
fn key_position(v: &Vec<(String, Dec)>, key: &str) -> (r: Option<usize>)
    ensures
        match r {
            Some(i) => i < v.len() && i as int == key_pos(entry_views(v@), key@),
            None => key_pos(entry_views(v@), key@) < 0,
        },
{
    let ghost s = entry_views(v@);
    let mut j: usize = v.len();
    proof {
        assert(s.take(j as int) =~= s);
    }
    while j > 0
        invariant
            j <= v.len(),
            s == entry_views(v@),
            key_pos(s, key@) == key_pos(s.take(j as int), key@),
        decreases j,
    {
        let ghost prefix = s.take(j as int);
        proof {
            assert(prefix.last() == s[j - 1]);
            assert(prefix.drop_last() =~= s.take(j - 1));
        }
        if str_eq(v[j - 1].0.as_str(), key) {
            return Some(j - 1);
        }
        j -= 1;
    }
    proof {
        assert(s.take(0) =~= Seq::<(Seq<char>, Dec)>::empty());
    }
    None
}

/// A map from strings to decimals.  Each key has one entry; setting a key
/// again replaces its value.
#[derive(Debug)]
pub struct DecimalMap {
    entries: Vec<(String, Dec)>,
}

impl DecimalMap {
    /// The entries, in the order in which their keys were first set, each key
    /// taken by its characters.
    pub closed spec fn pairs(self) -> Seq<(Seq<char>, Dec)> {
        entry_views(self.entries@)
    }

    /// No key has two entries.
    #[verifier::type_invariant]
    spec fn keys_unique(self) -> bool {
        keys_distinct(self.pairs())
    }

    /// The value that the map holds for `key`.
    pub open spec fn spec_get(self, key: Seq<char>) -> Option<Dec> {
        assoc_get(self.pairs(), key)
    }

    /// The empty map.
    pub fn new() -> (r: DecimalMap)
        ensures
            r.pairs() == Seq::<(Seq<char>, Dec)>::empty(),
            forall|k: Seq<char>| #[trigger] r.spec_get(k) is None,
    {
        let r = DecimalMap { entries: Vec::new() };
        assert(r.pairs() =~= Seq::<(Seq<char>, Dec)>::empty());
        r
    }

    /// Sets the value of `key` to `value`: the key's entry is replaced where
    /// it has one, else an entry is added after the others.
    pub fn insert(&mut self, key: String, value: Dec)
        ensures
            final(self).pairs() == map_insert(old(self).pairs(), key@, value),
            final(self).spec_get(key@) == Some(value),
            forall|k: Seq<char>|
                k != key@ ==> #[trigger] final(self).spec_get(k) == old(self).spec_get(k),
    {
        proof {
            use_type_invariant(&*self);
        }
        let ghost k0 = key@;
        let ghost before = self.pairs();
        let mut entries: Vec<(String, Dec)> = Vec::new();
        std::mem::swap(&mut entries, &mut self.entries);
        assert(entry_views(entries@) == before);
        match key_position(&entries, key.as_str()) {
            Some(i) => {
                entries.set(i, (key, value));
            },
            None => {
                entries.push((key, value));
            },
        }
        proof {
            assert(entry_views(entries@) =~= map_insert(before, k0, value));
            lemma_map_insert(before, k0, value);
        }
        self.entries = entries;
    }

    /// The value that the map holds for `key`.
    pub fn get(&self, key: &str) -> (r: Option<Dec>)
        ensures
            r == self.spec_get(key@),
    {
        let mut j: usize = self.entries.len();
        proof {
            assert(self.pairs().take(j as int) =~= self.pairs());
        }
        while j > 0
            invariant
                j <= self.entries.len(),
                assoc_get(self.pairs(), key@) == assoc_get(self.pairs().take(j as int), key@),
            decreases j,
        {
            let ghost prefix = self.pairs().take(j as int);
            proof {
                assert(prefix.last() == self.pairs()[j - 1]);
                assert(prefix.drop_last() =~= self.pairs().take(j - 1));
            }
            if str_eq(self.entries[j - 1].0.as_str(), key) {
                return Some(self.entries[j - 1].1);
            }
            j -= 1;
        }
        proof {
            assert(self.pairs().take(0) =~= Seq::<(Seq<char>, Dec)>::empty());
        }
        None
    }

    /// The entries of the map, each key once, in the order in which the keys
    /// were first set.
    pub fn to_pairs(&self) -> (r: Vec<(String, Dec)>)
        ensures
            r@.map_values(|e: (String, Dec)| (e.0@, e.1)) == self.pairs(),
            keys_distinct(self.pairs()),
    {
        proof {
            use_type_invariant(self);
        }
        let mut out: Vec<(String, Dec)> = Vec::new();
        let mut i: usize = 0;
        while i < self.entries.len()
            invariant
                i <= self.entries.len(),
                out@.map_values(|e: (String, Dec)| (e.0@, e.1)) == self.pairs().take(i as int),
            decreases self.entries.len() - i,
        {
            let k = self.entries[i].0.clone();
            let ghost before = out@;
            out.push((k, self.entries[i].1));
            proof {
                assert(self.pairs()[i as int] == (self.entries@[i as int].0@, self.entries@[i as int].1));
                assert(out@ == before.push((k, self.entries@[i as int].1)));
                assert(out@.map_values(|e: (String, Dec)| (e.0@, e.1)) =~= before.map_values(
                    |e: (String, Dec)| (e.0@, e.1),
                ).push((k@, self.entries@[i as int].1)));
                assert(out@.map_values(|e: (String, Dec)| (e.0@, e.1)) =~= self.pairs().take(
                    i + 1,
                ));
            }
            i += 1;
        }
        proof {
            assert(self.pairs().take(self.entries.len() as int) =~= self.pairs());
        }
        out
    }
}

impl Clone for DecimalMap {
    /// A copy with the same entries.
    fn clone(&self) -> (r: Self)
        ensures
            r.pairs() == self.pairs(),
    {
        DecimalMap { entries: self.to_pairs() }
    }
}

} // verus!
