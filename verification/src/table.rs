//! A small key-value table: the contract storage of the model. A later
//! insertion under a key shadows an earlier one, which is what overwriting a
//! storage entry means.
use vstd::prelude::*;

verus! {

/// Keys that can be compared at run time by their abstract value.
pub trait KeyEq: View + Sized {
    fn key_eq(&self, other: &Self) -> (r: bool)
        ensures
            r == (self@ == other@),
    ;
}

/// Byte-wise equality of two 32-byte strings.
pub fn bytes32_eq(a: &[u8; 32], b: &[u8; 32]) -> (r: bool)
    ensures
        r == (a@ == b@),
{
    let mut i: usize = 0;
    while i < 32
        invariant
            i <= 32,
            forall|j: int| 0 <= j < i ==> a@[j] == b@[j],
        decreases 32 - i,
    {
        if a[i] != b[i] {
            return false;
        }
        i = i + 1;
    }
    assert(a@ =~= b@);
    true
}

/// Byte-wise equality of two byte vectors.
pub fn bytes_eq(a: &Vec<u8>, b: &Vec<u8>) -> (r: bool)
    ensures
        r == (a@ == b@),
{
    if a.len() != b.len() {
        return false;
    }
    let mut i: usize = 0;
    while i < a.len()
        invariant
            i <= a.len(),
            a.len() == b.len(),
            forall|j: int| 0 <= j < i ==> a@[j] == b@[j],
        decreases a.len() - i,
    {
        if a[i] != b[i] {
            return false;
        }
        i = i + 1;
    }
    assert(a@ =~= b@);
    true
}

/// A fresh vector holding the same bytes.
pub fn copy_bytes(a: &Vec<u8>) -> (r: Vec<u8>)
    ensures
        r@ == a@,
{
    let mut r: Vec<u8> = Vec::new();
    let mut i: usize = 0;
    while i < a.len()
        invariant
            i <= a.len(),
            r@ == a@.subrange(0, i as int),
        decreases a.len() - i,
    {
        r.push(a[i]);
        i = i + 1;
        assert(r@ =~= a@.subrange(0, i as int));
    }
    assert(a@.subrange(0, a.len() as int) =~= a@);
    r
}

impl KeyEq for u32 {
    fn key_eq(&self, other: &u32) -> (r: bool) {
        *self == *other
    }
}

impl KeyEq for [u8; 32] {
    fn key_eq(&self, other: &[u8; 32]) -> (r: bool) {
        bytes32_eq(self, other)
    }
}

/// The value found under `k` in a log of insertions: the latest one wins.
pub open spec fn lookup<K: View, V>(s: Seq<(K, V)>, k: K::V) -> Option<V>
    decreases s.len(),
{
    if s.len() == 0 {
        None
    } else if s.last().0@ == k {
        Some(s.last().1)
    } else {
        lookup(s.drop_last(), k)
    }
}

/// The map that a log of insertions denotes.
pub open spec fn table_map<K: View, V>(s: Seq<(K, V)>) -> Map<K::V, V> {
    Map::new(|k: K::V| lookup(s, k) is Some, |k: K::V| lookup(s, k)->Some_0)
}

/// A map from keys (by their abstract value) to values.
pub struct Table<K, V> {
    entries: Vec<(K, V)>,
}

impl<K: KeyEq, V> View for Table<K, V> {
    type V = Map<K::V, V>;

    closed spec fn view(&self) -> Map<K::V, V> {
        table_map(self.entries@)
    }
}

impl<K: KeyEq, V> Table<K, V> {
    /// An empty table.
    pub fn new() -> (t: Self)
        ensures
            t@ == Map::<K::V, V>::empty(),
    {
        let t = Table { entries: Vec::new() };
        assert(t@ =~= Map::<K::V, V>::empty());
        t
    }

    /// The table whose insertions, in order, are `entries`.
    pub fn from_entries(entries: Vec<(K, V)>) -> (t: Self)
        ensures
            t@ == table_map(entries@),
    {
        Table { entries }
    }

    /// The insertions that make up the table, in order.
    pub fn entries(&self) -> (r: &Vec<(K, V)>)
        ensures
            table_map(r@) == self@,
    {
        &self.entries
    }

    /// The value stored under `k`, if any.
    pub fn get(&self, k: &K) -> (r: Option<&V>)
        ensures
            r is Some == self@.contains_key(k@),
            r matches Some(v) ==> *v == self@[k@],
    {
        let n = self.entries.len();
        let mut i = n;
        assert(self.entries@.subrange(0, n as int) =~= self.entries@);
        while i > 0
            invariant
                i <= n,
                n == self.entries.len(),
                lookup(self.entries@, k@) == lookup(self.entries@.subrange(0, i as int), k@),
            decreases i,
        {
            i = i - 1;
            let ghost pre = self.entries@.subrange(0, i as int + 1);
            assert(pre.last() == self.entries@[i as int]);
            assert(pre.drop_last() =~= self.entries@.subrange(0, i as int));
            if self.entries[i].0.key_eq(k) {
                return Some(&self.entries[i].1);
            }
        }
        None
    }

    /// Whether a value is stored under `k`.
    pub fn contains_key(&self, k: &K) -> (r: bool)
        ensures
            r == self@.contains_key(k@),
    {
        self.get(k).is_some()
    }

    /// Stores `v` under `k`, replacing what was there.
    pub fn insert(&mut self, k: K, v: V)
        ensures
            final(self)@ == old(self)@.insert(k@, v),
    {
        let ghost kv = k@;
        self.entries.push((k, v));
        proof {
            let s = self.entries@;
            assert(s.drop_last() =~= old(self).entries@);
            assert forall|x: K::V| #[trigger] lookup(s, x) == (if x == kv {
                Some(v)
            } else {
                lookup(old(self).entries@, x)
            }) by {}
        }
        assert(self@ =~= old(self)@.insert(kv, v));
    }
}

} // verus!
