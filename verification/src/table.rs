//! An ordered key/value table kept as a vector of entries sorted by key.
//!
//! Every persistent table of the canister is one of these. Iteration visits the
//! entries in ascending key order, which is the order in which the pages of the
//! listing functions are cut.
use vstd::prelude::*;

verus! {

/// Result of comparing two keys.
#[derive(PartialEq, Eq, Structural, Debug, Clone, Copy)]
pub enum KeyCmp {
    Less,
    Equal,
    Greater,
}

/// Keys of a `SortedMap`: a strict total order with an executable comparison.
pub trait TableKey: Sized + Copy {
    spec fn key_lt(self, other: Self) -> bool;

    proof fn lemma_lt_irreflexive(a: Self)
        ensures
            !a.key_lt(a),
    ;

    proof fn lemma_lt_transitive(a: Self, b: Self, c: Self)
        requires
            a.key_lt(b),
            b.key_lt(c),
        ensures
            a.key_lt(c),
    ;

    proof fn lemma_lt_total(a: Self, b: Self)
        ensures
            a.key_lt(b) || b.key_lt(a) || a == b,
    ;

    fn compare(&self, other: &Self) -> (c: KeyCmp)
        ensures
            c == KeyCmp::Less <==> self.key_lt(*other),
            c == KeyCmp::Greater <==> other.key_lt(*self),
            c == KeyCmp::Equal <==> *self == *other,
    ;
}

impl TableKey for u32 {
    open spec fn key_lt(self, other: Self) -> bool {
        self < other
    }

    proof fn lemma_lt_irreflexive(a: Self) {
    }

    proof fn lemma_lt_transitive(a: Self, b: Self, c: Self) {
    }

    proof fn lemma_lt_total(a: Self, b: Self) {
    }

    fn compare(&self, other: &Self) -> (c: KeyCmp) {
        if *self < *other {
            KeyCmp::Less
        } else if *self == *other {
            KeyCmp::Equal
        } else {
            KeyCmp::Greater
        }
    }
}

impl TableKey for u128 {
    open spec fn key_lt(self, other: Self) -> bool {
        self < other
    }

    proof fn lemma_lt_irreflexive(a: Self) {
    }

    proof fn lemma_lt_transitive(a: Self, b: Self, c: Self) {
    }

    proof fn lemma_lt_total(a: Self, b: Self) {
    }

    fn compare(&self, other: &Self) -> (c: KeyCmp) {
        if *self < *other {
            KeyCmp::Less
        } else if *self == *other {
            KeyCmp::Equal
        } else {
            KeyCmp::Greater
        }
    }
}

/// `a` comes before `b` in lexicographic byte order, both being of one length.
pub open spec fn bytes_lt(a: Seq<u8>, b: Seq<u8>) -> bool {
    exists|i: int|
        0 <= i < a.len() && i < b.len() && a[i] < b[i] && (forall|j: int|
            0 <= j < i ==> #[trigger] a[j] == b[j])
}

/// Two byte sequences of one length that differ have a first differing position.
proof fn lemma_first_difference(a: Seq<u8>, b: Seq<u8>, n: int)
    requires
        a.len() == b.len(),
        0 <= n <= a.len(),
        exists|i: int| 0 <= i < n && a[i] != b[i],
    ensures
        exists|i: int|
            0 <= i < n && a[i] != b[i] && (forall|j: int| 0 <= j < i ==> #[trigger] a[j] == b[j]),
    decreases n,
{
    if exists|i: int| 0 <= i < n - 1 && a[i] != b[i] {
        lemma_first_difference(a, b, n - 1);
    } else {
        assert(a[n - 1] != b[n - 1]);
        assert(forall|j: int| 0 <= j < n - 1 ==> #[trigger] a[j] == b[j]);
    }
}

impl<const N: usize> TableKey for [u8; N] {
    open spec fn key_lt(self, other: Self) -> bool {
        bytes_lt(self@, other@)
    }

    proof fn lemma_lt_irreflexive(a: Self) {
    }

    proof fn lemma_lt_transitive(a: Self, b: Self, c: Self) {
        let i = choose|i: int|
            0 <= i < a@.len() && i < b@.len() && a@[i] < b@[i] && (forall|j: int|
                0 <= j < i ==> #[trigger] a@[j] == b@[j]);
        let k = choose|k: int|
            0 <= k < b@.len() && k < c@.len() && b@[k] < c@[k] && (forall|j: int|
                0 <= j < k ==> #[trigger] b@[j] == c@[j]);
        if i < k {
            assert(a@[i] < c@[i]);
            assert(forall|j: int| 0 <= j < i ==> #[trigger] a@[j] == c@[j]);
        } else if k < i {
            assert(a@[k] < c@[k]);
            assert(forall|j: int| 0 <= j < k ==> #[trigger] a@[j] == c@[j]);
        } else {
            assert(a@[i] < c@[i]);
            assert(forall|j: int| 0 <= j < i ==> #[trigger] a@[j] == c@[j]);
        }
    }

    proof fn lemma_lt_total(a: Self, b: Self) {
        if a != b {
            if forall|i: int| 0 <= i < N ==> a@[i] == b@[i] {
                assert(a =~= b);
            }
            lemma_first_difference(a@, b@, N as int);
            let i = choose|i: int|
                0 <= i < N && a@[i] != b@[i] && (forall|j: int| 0 <= j < i ==> #[trigger] a@[j] == b@[j]);
            if a@[i] < b@[i] {
                assert(bytes_lt(a@, b@));
            } else {
                assert(forall|j: int| 0 <= j < i ==> #[trigger] b@[j] == a@[j]);
                assert(bytes_lt(b@, a@));
            }
        }
    }

    fn compare(&self, other: &Self) -> (c: KeyCmp) {
        let mut i: usize = 0;
        while i < N
            invariant
                0 <= i <= N,
                self@.len() == N,
                other@.len() == N,
                forall|j: int| 0 <= j < i ==> #[trigger] self@[j] == other@[j],
            decreases N - i,
        {
            if self[i] < other[i] {
                proof {
                    assert(bytes_lt(self@, other@));
                    if bytes_lt(other@, self@) {
                        Self::lemma_lt_transitive(*self, *other, *self);
                        Self::lemma_lt_irreflexive(*self);
                    }
                }
                return KeyCmp::Less;
            } else if self[i] > other[i] {
                proof {
                    assert(forall|j: int| 0 <= j < i ==> #[trigger] other@[j] == self@[j]);
                    assert(bytes_lt(other@, self@));
                    if bytes_lt(self@, other@) {
                        Self::lemma_lt_transitive(*self, *other, *self);
                        Self::lemma_lt_irreflexive(*self);
                    }
                }
                return KeyCmp::Greater;
            }
            i = i + 1;
        }
        proof {
            assert(*self =~= *other);
            Self::lemma_lt_irreflexive(*self);
        }
        KeyCmp::Equal
    }
}

/// A table of entries sorted strictly by key.
pub struct SortedMap<K, V> {
    entries: Vec<(K, V)>,
}

/// Entries are sorted strictly ascending by key.
pub open spec fn sorted_entries<K: TableKey, V>(s: Seq<(K, V)>) -> bool {
    forall|i: int, j: int| 0 <= i < j < s.len() ==> (#[trigger] s[i]).0.key_lt((#[trigger] s[j]).0)
}

/// Byte-array keys are ordered lexicographically: `a` sorts before `b` exactly when, at the
/// first index where the two differ, `a` has the smaller byte.
pub proof fn lemma_byte_key_order<const N: usize>(a: [u8; N], b: [u8; N])
    ensures
        a.key_lt(b) <==> exists|i: int|
            0 <= i < N && a@[i] < b@[i] && (forall|j: int| 0 <= j < i ==> a@[j] == b@[j]),
{
    if a.key_lt(b) {
        let i = choose|i: int|
            0 <= i < a@.len() && i < b@.len() && a@[i] < b@[i] && (forall|j: int|
                0 <= j < i ==> #[trigger] a@[j] == b@[j]);
        assert(forall|j: int| 0 <= j < i ==> a@[j] == b@[j]);
    }
    if exists|i: int|
        0 <= i < N && a@[i] < b@[i] && (forall|j: int| 0 <= j < i ==> a@[j] == b@[j]) {
        let i = choose|i: int|
            0 <= i < N && a@[i] < b@[i] && (forall|j: int| 0 <= j < i ==> a@[j] == b@[j]);
        assert(forall|j: int| 0 <= j < i ==> #[trigger] a@[j] == b@[j]);
        assert(bytes_lt(a@, b@));
    }
}

/// In a well-formed table of byte-array keys, the last entry has the lexicographically
/// greatest key: every other key is smaller at the first byte where they differ.
pub proof fn lemma_last_byte_key_is_greatest<const N: usize, V>(m: SortedMap<[u8; N], V>, k: [u8; N])
    requires
        m.wf(),
        m.entries().len() > 0,
        m@.contains_key(k),
        k != m.entries().last().0,
    ensures
        exists|i: int|
            0 <= i < N && k@[i] < m.entries().last().0@[i] && (forall|j: int|
                0 <= j < i ==> k@[j] == m.entries().last().0@[j]),
{
    let n = m.entries().len();
    let idx = m.index_of(k);
    assert(m.contains(k));
    assert(0 <= idx < n && m.entries()[idx].0 == k);
    assert(idx != n - 1);
    assert(m.entries()[idx].0.key_lt(m.entries()[n - 1].0));
    lemma_byte_key_order(k, m.entries().last().0);
}

impl<K: TableKey, V> SortedMap<K, V> {
    /// The entries in ascending key order.
    pub closed spec fn entries(&self) -> Seq<(K, V)> {
        self.entries@
    }

    /// The table is well formed: its entries are sorted strictly by key.
    pub open spec fn wf(&self) -> bool {
        sorted_entries(self.entries())
    }

    /// The keys in ascending order.
    pub open spec fn keys(&self) -> Seq<K> {
        self.entries().map_values(|e: (K, V)| e.0)
    }

    pub open spec fn contains(&self, k: K) -> bool {
        exists|i: int| 0 <= i < self.entries().len() && (#[trigger] self.entries()[i]).0 == k
    }

    pub open spec fn index_of(&self, k: K) -> int {
        choose|i: int| 0 <= i < self.entries().len() && (#[trigger] self.entries()[i]).0 == k
    }

    /// The table as a map from key to value.
    pub open spec fn view(&self) -> Map<K, V> {
        Map::new(|k: K| self.contains(k), |k: K| self.entries()[self.index_of(k)].1)
    }

    /// In a well-formed table a key occurs at one position only.
    pub proof fn lemma_unique_index(&self, i: int, j: int)
        requires
            self.wf(),
            0 <= i < self.entries().len(),
            0 <= j < self.entries().len(),
            self.entries()[i].0 == self.entries()[j].0,
        ensures
            i == j,
    {
        if i < j {
            K::lemma_lt_irreflexive(self.entries()[i].0);
        } else if j < i {
            K::lemma_lt_irreflexive(self.entries()[i].0);
        }
    }

    /// The value stored at position `i` is the map's value for the key there.
    pub proof fn lemma_entry_in_view(&self, i: int)
        requires
            self.wf(),
            0 <= i < self.entries().len(),
        ensures
            self@.contains_key(self.entries()[i].0),
            self@[self.entries()[i].0] == self.entries()[i].1,
    {
        let k = self.entries()[i].0;
        assert(self.contains(k));
        let j = self.index_of(k);
        self.lemma_unique_index(i, j);
    }

    pub fn new() -> (m: Self)
        ensures
            m.wf(),
            m.entries() == Seq::<(K, V)>::empty(),
            m@ == Map::<K, V>::empty(),
    {
        let m = SortedMap { entries: Vec::new() };
        assert(m@ =~= Map::<K, V>::empty());
        m
    }

    pub fn len(&self) -> (n: usize)
        ensures
            n == self.entries().len(),
    {
        self.entries.len()
    }

    /// The entry at position `i` in key order.
    pub fn entry_at(&self, i: usize) -> (e: &(K, V))
        requires
            i < self.entries().len(),
        ensures
            *e == self.entries()[i as int],
    {
        &self.entries[i]
    }

    /// Position of `k`, or the position where it would be inserted.
    fn search(&self, k: &K) -> (r: (usize, bool))
        requires
            self.wf(),
        ensures
            r.0 <= self.entries().len(),
            r.1 ==> r.0 < self.entries().len() && self.entries()[r.0 as int].0 == *k,
            !r.1 ==> (forall|i: int| 0 <= i < r.0 ==> (#[trigger] self.entries()[i]).0.key_lt(*k)),
            !r.1 ==> (forall|i: int|
                r.0 <= i < self.entries().len() ==> k.key_lt((#[trigger] self.entries()[i]).0)),
    {
        let n = self.entries.len();
        let mut i: usize = 0;
        while i < n
            invariant
                self.wf(),
                n == self.entries().len(),
                0 <= i <= n,
                forall|j: int| 0 <= j < i ==> (#[trigger] self.entries()[j]).0.key_lt(*k),
            decreases n - i,
        {
            match self.entries[i].0.compare(k) {
                KeyCmp::Less => {
                },
                KeyCmp::Equal => {
                    return (i, true);
                },
                KeyCmp::Greater => {
                    proof {
                        assert forall|j: int| i <= j < self.entries().len() implies k.key_lt(
                            (#[trigger] self.entries()[j]).0,
                        ) by {
                            if j > i {
                                K::lemma_lt_transitive(*k, self.entries()[i as int].0, self.entries()[j].0);
                            }
                        }
                    }
                    return (i, false);
                },
            }
            i = i + 1;
        }
        (i, false)
    }

    pub fn contains_key(&self, k: &K) -> (b: bool)
        requires
            self.wf(),
        ensures
            b == self@.contains_key(*k),
    {
        let (_, found) = self.search(k);
        proof {
            if !found && self.contains(*k) {
                let j = self.index_of(*k);
                K::lemma_lt_irreflexive(*k);
            }
        }
        found
    }

    pub fn get(&self, k: &K) -> (r: Option<&V>)
        requires
            self.wf(),
        ensures
            r is Some <==> self@.contains_key(*k),
            r matches Some(v) ==> *v == self@[*k],
    {
        let (i, found) = self.search(k);
        if found {
            proof {
                self.lemma_entry_in_view(i as int);
            }
            Some(&self.entries[i].1)
        } else {
            proof {
                if self.contains(*k) {
                    let j = self.index_of(*k);
                    K::lemma_lt_irreflexive(*k);
                }
            }
            None
        }
    }

    /// Insert or replace the value for `k`. Returns the value that was replaced.
    pub fn insert(&mut self, k: K, v: V) -> (old_v: Option<V>)
        requires
            old(self).wf(),
        ensures
            final(self).wf(),
            final(self)@ == old(self)@.insert(k, v),
            old_v is Some <==> old(self)@.contains_key(k),
            old_v matches Some(ov) ==> ov == old(self)@[k],
    {
        let (i, found) = self.search(&k);
        let ghost old_entries = self.entries();
        if found {
            proof {
                self.lemma_entry_in_view(i as int);
            }
            let mut tmp: Vec<(K, V)> = Vec::new();
            std::mem::swap(&mut tmp, &mut self.entries);
            let (_, ov) = tmp.remove(i);
            tmp.insert(i, (k, v));
            self.entries = tmp;
            assert(self.entries() == old_entries.update(i as int, (k, v)));
            assert(self.wf());
            proof {
                assert forall|key: K| #![auto]
                    self@.contains_key(key) == old(self)@.insert(k, v).contains_key(key) by {
                    if key == k {
                        assert(self.entries()[i as int].0 == k);
                    } else if old(self).contains(key) {
                        let j = old(self).index_of(key);
                        assert(self.entries()[j].0 == key);
                    } else if self.contains(key) {
                        let j = self.index_of(key);
                        assert(old_entries[j].0 == key);
                    }
                }
                assert forall|key: K| #[trigger] self@.contains_key(key) implies self@[key]
                    == old(self)@.insert(k, v)[key] by {
                    let j = self.index_of(key);
                    self.lemma_entry_in_view(j);
                    if key != k {
                        assert(old_entries[j].0 == key);
                        old(self).lemma_entry_in_view(j);
                    } else {
                        self.lemma_unique_index(j, i as int);
                    }
                }
                assert(self@ =~= old(self)@.insert(k, v));
            }
            Some(ov)
        } else {
            let mut tmp: Vec<(K, V)> = Vec::new();
            std::mem::swap(&mut tmp, &mut self.entries);
            tmp.insert(i, (k, v));
            self.entries = tmp;
            assert(self.entries() == old_entries.insert(i as int, (k, v)));
            proof {
                assert forall|a: int, b: int| 0 <= a < b < self.entries().len() implies (
                #[trigger] self.entries()[a]).0.key_lt((#[trigger] self.entries()[b]).0) by {
                    if a < i && b > i {
                        K::lemma_lt_transitive(old_entries[a].0, k, old_entries[b - 1].0);
                    }
                }
                assert forall|key: K| #![auto]
                    self@.contains_key(key) == old(self)@.insert(k, v).contains_key(key) by {
                    if key == k {
                        assert(self.entries()[i as int].0 == k);
                    } else if old(self).contains(key) {
                        let j = old(self).index_of(key);
                        if j < i {
                            assert(self.entries()[j].0 == key);
                        } else {
                            assert(self.entries()[j + 1].0 == key);
                        }
                    } else if self.contains(key) {
                        let j = self.index_of(key);
                        if j < i {
                            assert(old_entries[j].0 == key);
                        } else if j > i {
                            assert(old_entries[j - 1].0 == key);
                        }
                    }
                }
                assert forall|key: K| #[trigger] self@.contains_key(key) implies self@[key]
                    == old(self)@.insert(k, v)[key] by {
                    let j = self.index_of(key);
                    self.lemma_entry_in_view(j);
                    if key != k {
                        if j < i {
                            old(self).lemma_entry_in_view(j);
                        } else if j > i {
                            old(self).lemma_entry_in_view(j - 1);
                        }
                    } else {
                        self.lemma_unique_index(j, i as int);
                    }
                }
                assert(self@ =~= old(self)@.insert(k, v));
                if old(self).contains(k) {
                    let j = old(self).index_of(k);
                    K::lemma_lt_irreflexive(k);
                }
            }
            None
        }
    }

    /// Remove the entry for `k`, returning its value.
    pub fn remove(&mut self, k: &K) -> (old_v: Option<V>)
        requires
            old(self).wf(),
        ensures
            final(self).wf(),
            final(self)@ == old(self)@.remove(*k),
            old_v is Some <==> old(self)@.contains_key(*k),
            old_v matches Some(ov) ==> ov == old(self)@[*k],
    {
        let (i, found) = self.search(k);
        let ghost old_entries = self.entries();
        if found {
            proof {
                self.lemma_entry_in_view(i as int);
            }
            let mut tmp: Vec<(K, V)> = Vec::new();
            std::mem::swap(&mut tmp, &mut self.entries);
            let (_, ov) = tmp.remove(i);
            self.entries = tmp;
            assert(self.entries() == old_entries.remove(i as int));
            proof {
                assert forall|a: int, b: int| 0 <= a < b < self.entries().len() implies (
                #[trigger] self.entries()[a]).0.key_lt((#[trigger] self.entries()[b]).0) by {
                    if a < i && b >= i {
                        assert(old_entries[a].0.key_lt(old_entries[b + 1].0));
                    } else if a >= i {
                        assert(old_entries[a + 1].0.key_lt(old_entries[b + 1].0));
                    }
                }
                assert forall|key: K| #![auto]
                    self@.contains_key(key) == old(self)@.remove(*k).contains_key(key) by {
                    if old(self).contains(key) && key != *k {
                        let j = old(self).index_of(key);
                        if j < i {
                            assert(self.entries()[j].0 == key);
                        } else {
                            if j == i {
                                old(self).lemma_unique_index(j, i as int);
                            }
                            assert(self.entries()[j - 1].0 == key);
                        }
                    }
                    if self.contains(key) {
                        let j = self.index_of(key);
                        if j < i {
                            assert(old_entries[j].0 == key);
                            if key == *k {
                                old(self).lemma_unique_index(j, i as int);
                            }
                        } else {
                            assert(old_entries[j + 1].0 == key);
                            if key == *k {
                                old(self).lemma_unique_index(j + 1, i as int);
                            }
                        }
                    }
                }
                assert forall|key: K| #[trigger] self@.contains_key(key) implies self@[key]
                    == old(self)@.remove(*k)[key] by {
                    let j = self.index_of(key);
                    self.lemma_entry_in_view(j);
                    if j < i {
                        old(self).lemma_entry_in_view(j);
                    } else {
                        old(self).lemma_entry_in_view(j + 1);
                    }
                }
                assert(self@ =~= old(self)@.remove(*k));
            }
            Some(ov)
        } else {
            proof {
                if old(self).contains(*k) {
                    let j = old(self).index_of(*k);
                    K::lemma_lt_irreflexive(*k);
                }
                assert(self@ =~= old(self)@.remove(*k));
            }
            None
        }
    }

    /// Remove every entry.
    pub fn clear(&mut self)
        ensures
            final(self).wf(),
            final(self).entries() == Seq::<(K, V)>::empty(),
            final(self)@ == Map::<K, V>::empty(),
    {
        self.entries = Vec::new();
        assert(self@ =~= Map::<K, V>::empty());
    }

    /// The entry with the greatest key, if any.
    pub fn last_entry(&self) -> (r: Option<&(K, V)>)
        ensures
            r is None <==> self.entries().len() == 0,
            r matches Some(e) ==> *e == self.entries().last(),
    {
        let n = self.entries.len();
        if n == 0 {
            None
        } else {
            Some(&self.entries[n - 1])
        }
    }
}

} // verus!
