//! The context store: a mapping from string keys to boolean flags.
//!
//! The store is modelled as a `Map<Seq<char>, bool>`. Keys are only ever
//! inserted or overwritten, never removed, and a key that was never set
//! reads as `false`.

use vstd::prelude::*;

verus! {

/// No two entries carry the same key.
pub open spec fn unique_keys(entries: Seq<(String, bool)>) -> bool {
    forall|i: int, j: int|
        0 <= i < j < entries.len() ==> entries[i].0@ != entries[j].0@
}

/// The mathematical map held by a sequence of key/flag entries; a later
/// entry for a key overrides an earlier one.
pub open spec fn map_of(entries: Seq<(String, bool)>) -> Map<Seq<char>, bool>
    decreases entries.len(),
{
    if entries.len() == 0 {
        Map::empty()
    } else {
        map_of(entries.drop_last()).insert(entries.last().0@, entries.last().1)
    }
}

/// The flag recorded for `key`, where an absent key means `false`
/// ("do not speak up").
pub open spec fn flag_of(m: Map<Seq<char>, bool>, key: Seq<char>) -> bool {
    if m.contains_key(key) {
        m[key]
    } else {
        false
    }
}

/// A store of named boolean flags, kept as one entry per key.
pub struct ContextStore {
    entries: Vec<(String, bool)>,
}

impl View for ContextStore {
    type V = Map<Seq<char>, bool>;

    closed spec fn view(&self) -> Map<Seq<char>, bool> {
        map_of(self.entries@)
    }
}

impl ContextStore {
    /// Well-formedness: one entry per key.
    pub closed spec fn wf(&self) -> bool {
        unique_keys(self.entries@)
    }

    /// An empty store: every key reads as `false`.
    pub fn new() -> (r: ContextStore)
        ensures
            r.wf(),
            r@ == Map::<Seq<char>, bool>::empty(),
    {
        ContextStore { entries: Vec::new() }
    }

    /// The flag stored under `key`; `false` when the key was never set.
    pub fn lookup(&self, key: &str) -> (r: bool)
        requires
            self.wf(),
        ensures
            r == flag_of(self@, key@),
    {
        let k: String = key.to_owned();
        let n: usize = self.entries.len();
        let mut i: usize = 0;
        while i < n
            invariant
                n == self.entries.len(),
                0 <= i <= n,
                self.wf(),
                k@ == key@,
                forall|j: int| 0 <= j < i ==> self.entries@[j].0@ != k@,
            decreases n - i,
        {
            if self.entries[i].0 == k {
                proof {
                    lemma_map_of_entry(self.entries@, i as int);
                }
                return self.entries[i].1;
            }
            i += 1;
        }
        proof {
            lemma_map_of_absent(self.entries@, k@);
        }
        false
    }

    /// Record `key -> value`, overwriting any earlier flag for `key`.
    pub fn set(&mut self, key: &str, value: bool)
        requires
            old(self).wf(),
        ensures
            final(self).wf(),
            final(self)@ == old(self)@.insert(key@, value),
    {
        let k: String = key.to_owned();
        let n: usize = self.entries.len();
        let mut i: usize = 0;
        while i < n
            invariant
                *self == *old(self),
                n == self.entries.len(),
                0 <= i <= n,
                self.wf(),
                k@ == key@,
                forall|j: int| 0 <= j < i ==> self.entries@[j].0@ != k@,
            decreases n - i,
        {
            if self.entries[i].0 == k {
                let ghost old_entries = self.entries@;
                self.entries[i] = (k, value);
                proof {
                    lemma_map_of_update(old_entries, i as int, (self.entries@[i as int]));
                }
                return;
            }
            i += 1;
        }
        let ghost old_entries = self.entries@;
        self.entries.push((k, value));
        proof {
            assert(self.entries@.drop_last() =~= old_entries);
            assert forall|p: int, q: int|
                0 <= p < q < self.entries@.len() implies self.entries@[p].0@ != self.entries@[q].0@ by {
                if q < self.entries@.len() - 1 {
                    assert(old_entries[p] == self.entries@[p]);
                    assert(old_entries[q] == self.entries@[q]);
                } else {
                    assert(old_entries[p] == self.entries@[p]);
                }
            }
        }
    }
}

/// Law: writes to distinct keys do not interfere — after setting `k1` and
/// then `k2`, each key reads back exactly the value written to it.
pub proof fn lemma_flags_independent(
    m: Map<Seq<char>, bool>,
    k1: Seq<char>,
    v1: bool,
    k2: Seq<char>,
    v2: bool,
)
    requires
        k1 != k2,
    ensures
        flag_of(m.insert(k1, v1).insert(k2, v2), k1) == v1,
        flag_of(m.insert(k1, v1).insert(k2, v2), k2) == v2,
{
}

/// Law: two writes to one key leave the later value — the last writer wins.
pub proof fn lemma_last_write_wins(m: Map<Seq<char>, bool>, key: Seq<char>, v1: bool, v2: bool)
    ensures
        flag_of(m.insert(key, v1).insert(key, v2), key) == v2,
{
}

/// A well-formed entry list maps each entry's key to that entry's flag.
proof fn lemma_map_of_entry(entries: Seq<(String, bool)>, i: int)
    requires
        unique_keys(entries),
        0 <= i < entries.len(),
    ensures
        map_of(entries).contains_key(entries[i].0@),
        map_of(entries)[entries[i].0@] == entries[i].1,
    decreases entries.len(),
{
    if i < entries.len() - 1 {
        lemma_unique_keys_drop_last(entries);
        assert(entries.drop_last()[i] == entries[i]);
        lemma_map_of_entry(entries.drop_last(), i);
        assert(entries.last().0@ != entries[i].0@);
    }
}

/// A key held by no entry is absent from the map.
proof fn lemma_map_of_absent(entries: Seq<(String, bool)>, key: Seq<char>)
    requires
        forall|j: int| 0 <= j < entries.len() ==> entries[j].0@ != key,
    ensures
        !map_of(entries).contains_key(key),
    decreases entries.len(),
{
    if entries.len() > 0 {
        assert forall|j: int| 0 <= j < entries.drop_last().len() implies entries.drop_last()[j].0@ != key by {
            assert(entries.drop_last()[j] == entries[j]);
        }
        lemma_map_of_absent(entries.drop_last(), key);
    }
}

/// Uniqueness of keys carries over to the list without its last entry.
proof fn lemma_unique_keys_drop_last(entries: Seq<(String, bool)>)
    requires
        unique_keys(entries),
        entries.len() > 0,
    ensures
        unique_keys(entries.drop_last()),
{
    assert forall|p: int, q: int|
        0 <= p < q < entries.drop_last().len() implies entries.drop_last()[p].0@ != entries.drop_last()[q].0@ by {
        assert(entries.drop_last()[p] == entries[p]);
        assert(entries.drop_last()[q] == entries[q]);
    }
}

/// Replacing the entry that already holds a key acts as an insert of that
/// key, and keeps the keys unique.
proof fn lemma_map_of_update(entries: Seq<(String, bool)>, i: int, e: (String, bool))
    requires
        unique_keys(entries),
        0 <= i < entries.len(),
        entries[i].0@ == e.0@,
    ensures
        unique_keys(entries.update(i, e)),
        map_of(entries.update(i, e)) == map_of(entries).insert(e.0@, e.1),
    decreases entries.len(),
{
    let s2 = entries.update(i, e);
    assert forall|p: int, q: int|
        0 <= p < q < s2.len() implies s2[p].0@ != s2[q].0@ by {
        assert(s2[p].0@ == entries[p].0@);
        assert(s2[q].0@ == entries[q].0@);
    }
    if i == entries.len() - 1 {
        assert(s2.drop_last() =~= entries.drop_last());
        assert(map_of(s2) =~= map_of(entries).insert(e.0@, e.1));
    } else {
        lemma_unique_keys_drop_last(entries);
        assert(entries.drop_last()[i] == entries[i]);
        lemma_map_of_update(entries.drop_last(), i, e);
        assert(s2.drop_last() =~= entries.drop_last().update(i, e));
        assert(s2.last() == entries.last());
        assert(entries.last().0@ != e.0@);
        assert(map_of(s2) =~= map_of(entries).insert(e.0@, e.1));
    }
}

} // verus!
