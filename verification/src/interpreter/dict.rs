//! Hash tables keyed by a 64-bit hash.
//!
//! The tables are `ahash` maps. What such a map holds is known to the
//! verifier only through the contracts stated here.

use vstd::prelude::*;

verus! {

/// The key type of every table: the hash of a name or of a value.
pub type HashKeyT = u64;

/// `ahash::AHashMap`, the hash map of the `ahash` crate. The verifier
/// sees nothing inside a value of it.
#[verifier::external_type_specification]
#[verifier::external_body]
#[verifier::reject_recursive_types(K)]
#[verifier::reject_recursive_types(V)]
#[verifier::reject_recursive_types(S)]
pub struct ExAHashMap<K, V, S>(ahash::AHashMap<K, V, S>);

/// `ahash::RandomState`, the hasher state with which such a map is built.
#[verifier::external_type_specification]
#[verifier::external_body]
pub struct ExRandomState(ahash::RandomState);

/// A pair of ids: that of a name and that of what is bound to it.
pub type IdPair = (u64, u64);

/// A table from hashes to pairs of ids.
pub type PairTable = ahash::AHashMap<u64, IdPair, ahash::RandomState>;

/// The entries of a table from hashes to pairs of ids.
pub uninterp spec fn pair_table_entries(table: PairTable) -> Map<u64, IdPair>;

/// `AHashMap::new`: a table without entries.
#[verifier::external_body]
fn pair_table_new() -> (fresh: PairTable)
    ensures
        pair_table_entries(fresh) =~= Map::empty(),
{
    ahash::AHashMap::new()
}

/// `AHashMap::get`: the value held under `key`, if there is one.
#[verifier::external_body]
fn pair_table_get(table: &PairTable, key: u64) -> (value:
    Option<IdPair>)
    ensures
        value == if pair_table_entries(*table).contains_key(key) {
            Some(pair_table_entries(*table)[key])
        } else {
            None
        },
{
    table.get(&key).copied()
}

/// `AHashMap::insert`: puts `value` under `key` and hands back what was
/// held there before.
#[verifier::external_body]
fn pair_table_insert(
    table: &mut PairTable,
    key: u64,
    value: IdPair,
) -> (previous: Option<IdPair>)
    ensures
        pair_table_entries(*final(table)) == pair_table_entries(*old(table)).insert(key, value),
        previous == if pair_table_entries(*old(table)).contains_key(key) {
            Some(pair_table_entries(*old(table))[key])
        } else {
            None
        },
{
    table.insert(key, value)
}

/// Walks the table with `iter` and collects its entries. Each entry of the
/// table comes once; in which order is not known.
#[verifier::external_body]
fn pair_table_to_vec(table: &PairTable) -> (entries: Vec<(u64, IdPair)>)
    ensures
        forall|i: int|
            0 <= i < entries@.len() ==> pair_table_entries(*table).contains_pair(
                (#[trigger] entries@[i]).0,
                entries@[i].1,
            ),
        forall|i: int, j: int| 0 <= i < j < entries@.len() ==> entries@[i].0 != entries@[j].0,
        forall|key: u64| #[trigger]
            pair_table_entries(*table).contains_key(key) ==> exists|i: int|
                0 <= i < entries@.len() && (#[trigger] entries@[i]).0 == key,
{
    table.iter().map(|(key, value)| (*key, *value)).collect()
}

/// A table from one id to another.
pub type IdTable = ahash::AHashMap<u64, u64, ahash::RandomState>;

/// The entries of a table from ids to ids.
pub uninterp spec fn id_table_entries(table: IdTable) -> Map<u64, u64>;

/// `AHashMap::new`: a table without entries.
#[verifier::external_body]
pub(crate) fn id_table_new() -> (fresh: IdTable)
    ensures
        id_table_entries(fresh) =~= Map::empty(),
{
    ahash::AHashMap::new()
}

/// `AHashMap::get`: the value held under `key`, if there is one.
#[verifier::external_body]
pub(crate) fn id_table_get(table: &IdTable, key: u64) -> (value: Option<u64>)
    ensures
        value == if id_table_entries(*table).contains_key(key) {
            Some(id_table_entries(*table)[key])
        } else {
            None
        },
{
    table.get(&key).copied()
}

/// `AHashMap::insert`: puts `value` under `key`; every other entry stays.
#[verifier::external_body]
pub(crate) fn id_table_insert(table: &mut IdTable, key: u64, value: u64)
    ensures
        id_table_entries(*final(table)) == id_table_entries(*old(table)).insert(key, value),
{
    table.insert(key, value);
}

/// Walks the table with `iter` and collects its entries. Each entry of the
/// table comes once; in which order is not known.
#[verifier::external_body]
pub(crate) fn id_table_to_vec(table: &IdTable) -> (entries: Vec<IdPair>)
    ensures
        forall|i: int|
            0 <= i < entries@.len() ==> id_table_entries(*table).contains_pair(
                (#[trigger] entries@[i]).0,
                entries@[i].1,
            ),
        forall|i: int, j: int| 0 <= i < j < entries@.len() ==> entries@[i].0 != entries@[j].0,
        forall|key: u64| #[trigger]
            id_table_entries(*table).contains_key(key) ==> exists|i: int|
                0 <= i < entries@.len() && (#[trigger] entries@[i]).0 == key,
{
    table.iter().map(|(key, value)| (*key, *value)).collect()
}

/// The entries ordered by key. No key stands twice among them, so the
/// order is strict.
pub(crate) fn sort_by_key<V: Copy>(entries: &Vec<(u64, V)>) -> (sorted: Vec<(u64, V)>)
    requires
        forall|i: int, j: int| 0 <= i < j < entries@.len() ==> entries@[i].0 != entries@[j].0,
    ensures
        sorted@.len() == entries@.len(),
        forall|i: int, j: int| 0 <= i < j < sorted@.len() ==> sorted@[i].0 < sorted@[j].0,
        forall|i: int| 0 <= i < sorted@.len() ==> entries@.contains(#[trigger] sorted@[i]),
        forall|i: int| 0 <= i < entries@.len() ==> sorted@.contains(#[trigger] entries@[i]),
{
    let mut sorted: Vec<(u64, V)> = Vec::new();
    let mut n: usize = 0;
    while n < entries.len()
        invariant
            n <= entries@.len(),
            sorted@.len() == n,
            forall|i: int, j: int| 0 <= i < j < entries@.len() ==> entries@[i].0 != entries@[j].0,
            forall|i: int, j: int| 0 <= i < j < sorted@.len() ==> sorted@[i].0 < sorted@[j].0,
            forall|i: int|
                0 <= i < sorted@.len() ==> exists|k: int|
                    0 <= k < n && entries@[k] == #[trigger] sorted@[i],
            forall|k: int| 0 <= k < n ==> sorted@.contains(#[trigger] entries@[k]),
        decreases entries@.len() - n,
    {
        let entry = entries[n];
        let mut at: usize = 0;
        while at < sorted.len() && sorted[at].0 < entry.0
            invariant
                at <= sorted@.len(),
                forall|i: int| 0 <= i < at ==> sorted@[i].0 < entry.0,
            decreases sorted@.len() - at,
        {
            at += 1;
        }
        let ghost before = sorted@;
        proof {
            assert forall|i: int| at <= i < before.len() implies entry.0 < before[i].0 by {
                let k = choose|k: int| 0 <= k < n && entries@[k] == before[i];
                assert(entries@[k].0 != entries@[n as int].0);
                if i > at {
                    assert(before[at as int].0 < before[i].0);
                }
            }
        }
        sorted.insert(at, entry);
        proof {
            assert(sorted@ =~= before.insert(at as int, entry));
            assert forall|i: int, j: int| 0 <= i < j < sorted@.len() implies sorted@[i].0
                < sorted@[j].0 by {
                let bi = if i < at { i } else { i - 1 };
                let bj = if j < at { j } else { j - 1 };
                if i != at && j != at {
                    assert(before[bi].0 < before[bj].0);
                }
            }
            assert forall|i: int| 0 <= i < sorted@.len() implies exists|k: int|
                0 <= k < n + 1 && entries@[k] == #[trigger] sorted@[i] by {
                if i == at {
                    assert(entries@[n as int] == sorted@[i]);
                } else {
                    let bi = if i < at { i } else { i - 1 };
                    let k = choose|k: int| 0 <= k < n && entries@[k] == before[bi];
                    assert(entries@[k] == sorted@[i]);
                }
            }
            assert forall|k: int| 0 <= k < n + 1 implies sorted@.contains(
                #[trigger] entries@[k],
            ) by {
                if k == n {
                    assert(sorted@[at as int] == entries@[k]);
                } else {
                    assert(before.contains(entries@[k]));
                    let b = choose|b: int| 0 <= b < before.len() && before[b] == entries@[k];
                    let s = if b < at { b } else { b + 1 };
                    assert(sorted@[s] == entries@[k]);
                }
            }
        }
        n += 1;
    }
    proof {
        assert forall|i: int| 0 <= i < sorted@.len() implies entries@.contains(
            #[trigger] sorted@[i],
        ) by {
            let k = choose|k: int| 0 <= k < n && entries@[k] == sorted@[i];
            assert(entries@[k] == sorted@[i]);
        }
    }
    sorted
}

/// A map whose keys are exactly those of a strictly ascending list has as
/// many keys as the list is long.
pub proof fn lemma_keys_counted(entries: Map<u64, IdPair>, keys: Seq<u64>)
    requires
        forall|i: int, j: int| 0 <= i < j < keys.len() ==> keys[i] < keys[j],
        forall|i: int| 0 <= i < keys.len() ==> entries.contains_key(#[trigger] keys[i]),
        forall|key: u64| #[trigger]
            entries.contains_key(key) ==> exists|i: int| 0 <= i < keys.len() && keys[i] == key,
    ensures
        entries.dom().finite(),
        entries.dom().len() == keys.len(),
    decreases keys.len(),
{
    if keys.len() == 0 {
        assert(entries.dom() =~= Set::<u64>::empty());
    } else {
        let last = keys.last();
        let rest = entries.remove(last);
        let before = keys.drop_last();
        assert forall|key: u64| #[trigger] rest.contains_key(key) implies exists|i: int|
            0 <= i < before.len() && before[i] == key by {
            let i = choose|i: int| 0 <= i < keys.len() && keys[i] == key;
            assert(before[i] == key);
        }
        assert forall|i: int| 0 <= i < before.len() implies rest.contains_key(
            #[trigger] before[i],
        ) by {
            assert(keys[i] < keys[keys.len() - 1]);
        }
        lemma_keys_counted(rest, before);
        assert(entries.dom() =~= rest.dom().insert(last));
    }
}

/// The attribute table of a value: from the hash of a name to the ids of
/// the name and of what is bound to it.
pub struct PyDictRaw(pub PairTable);

impl View for PyDictRaw {
    type V = Map<u64, IdPair>;

    open spec fn view(&self) -> Map<u64, IdPair> {
        pair_table_entries(self.0)
    }
}

impl PyDictRaw {
    /// An empty table.
    pub fn new() -> (dict: Self)
        ensures
            dict@ == Map::<u64, IdPair>::empty(),
    {
        PyDictRaw(pair_table_new())
    }

    pub fn get(&self, key: HashKeyT) -> (value: Option<IdPair>)
        ensures
            value == if self@.contains_key(key) {
                Some(self@[key])
            } else {
                None
            },
    {
        pair_table_get(&self.0, key)
    }

    /// The entries ordered by key, each once.
    pub fn entries(&self) -> (entries: Vec<(u64, IdPair)>)
        ensures
            self@.dom().finite(),
            entries@.len() == self@.dom().len(),
            forall|i: int, j: int| 0 <= i < j < entries@.len() ==> entries@[i].0 < entries@[j].0,
            forall|i: int|
                0 <= i < entries@.len() ==> self@.contains_pair(
                    (#[trigger] entries@[i]).0,
                    entries@[i].1,
                ),
            forall|key: u64| #[trigger]
                self@.contains_key(key) ==> exists|i: int|
                    0 <= i < entries@.len() && (#[trigger] entries@[i]).0 == key,
    {
        let found = pair_table_to_vec(&self.0);
        let sorted = sort_by_key(&found);
        proof {
            assert forall|i: int| 0 <= i < sorted@.len() implies self@.contains_pair(
                (#[trigger] sorted@[i]).0,
                sorted@[i].1,
            ) by {
                assert(found@.contains(sorted@[i]));
                let k = choose|k: int| 0 <= k < found@.len() && found@[k] == sorted@[i];
                assert(self@.contains_pair(found@[k].0, found@[k].1));
            }
            assert forall|key: u64| #[trigger] self@.contains_key(key) implies exists|i: int|
                0 <= i < sorted@.len() && (#[trigger] sorted@[i]).0 == key by {
                let k = choose|k: int| 0 <= k < found@.len() && (#[trigger] found@[k]).0 == key;
                assert(sorted@.contains(found@[k]));
                let s = choose|s: int| 0 <= s < sorted@.len() && sorted@[s] == found@[k];
                assert(sorted@[s].0 == key);
            }
            let keys = Seq::new(sorted@.len(), |i: int| sorted@[i].0);
            assert forall|key: u64| #[trigger] self@.contains_key(key) implies exists|i: int|
                0 <= i < keys.len() && keys[i] == key by {
                let i = choose|i: int| 0 <= i < sorted@.len() && (#[trigger] sorted@[i]).0 == key;
                assert(keys[i] == key);
            }
            assert forall|i: int| 0 <= i < keys.len() implies self@.contains_key(
                #[trigger] keys[i],
            ) by {
                assert(self@.contains_pair(sorted@[i].0, sorted@[i].1));
            }
            lemma_keys_counted(self@, keys);
        }
        sorted
    }

    pub fn insert(&mut self, key: HashKeyT, value: IdPair) -> (previous: Option<IdPair>)
        ensures
            final(self)@ == old(self)@.insert(key, value),
            previous == if old(self)@.contains_key(key) {
                Some(old(self)@[key])
            } else {
                None
            },
    {
        pair_table_insert(&mut self.0, key, value)
    }
}

} // verus!
