//! Bounded key-value collection with an insertion-order ledger.
//!
//! Entries are kept oldest first. Inserting an existing key removes its
//! old position first, so a repeated insert counts as freshest. Once the
//! collection exceeds its bound, the oldest entries are evicted, skipping
//! one optional protected key. When the only entry left is the protected
//! one, eviction stops rather than remove it.

use vstd::prelude::*;

verus! {

/// Whether `k` is the protected key.
pub open spec fn is_protected(k: u128, protected: Option<u128>) -> bool {
    protected == Some(k)
}

/// All keys pairwise distinct.
pub open spec fn distinct_keys<T>(s: Seq<(u128, T)>) -> bool {
    forall|i: int, j: int| 0 <= i < j < s.len() ==> s[i].0 != s[j].0
}

pub open spec fn contains_key<T>(s: Seq<(u128, T)>, k: u128) -> bool {
    exists|i: int| 0 <= i < s.len() && s[i].0 == k
}

/// Index of the first entry with key `k`, or -1 when there is none.
pub open spec fn index_of_key<T>(s: Seq<(u128, T)>, k: u128) -> int
    decreases s.len(),
{
    if s.len() == 0 {
        -1
    } else if s[0].0 == k {
        0
    } else {
        let r = index_of_key(s.drop_first(), k);
        if r == -1 {
            -1
        } else {
            r + 1
        }
    }
}

/// The value stored under `k`.
pub open spec fn value_of<T>(s: Seq<(u128, T)>, k: u128) -> T {
    s[index_of_key(s, k)].1
}

/// The ledger with the entry under `k` removed, if present.
pub open spec fn remove_key<T>(s: Seq<(u128, T)>, k: u128) -> Seq<(u128, T)> {
    if contains_key(s, k) {
        s.remove(index_of_key(s, k))
    } else {
        s
    }
}

/// Eviction: while over the bound, drop the oldest entry whose key is
/// not protected; with distinct keys only the very oldest entry can be
/// the protected one, so at most its successor is taken instead. When
/// nothing but the protected entry remains, eviction stops.
pub open spec fn evict_spec<T>(s: Seq<(u128, T)>, protected: Option<u128>, max: nat) -> Seq<
    (u128, T),
>
    decreases s.len(),
{
    if s.len() <= max {
        s
    } else if !is_protected(s[0].0, protected) {
        evict_spec(s.remove(0), protected, max)
    } else if s.len() > 1 {
        evict_spec(s.remove(1), protected, max)
    } else {
        s
    }
}

/// What one insert leaves behind: the key moved to the newest slot with
/// its new value, then eviction down to the bound.
pub open spec fn insert_spec<T>(
    s: Seq<(u128, T)>,
    k: u128,
    v: T,
    protected: Option<u128>,
    max: nat,
) -> Seq<(u128, T)> {
    evict_spec(remove_key(s, k).push((k, v)), protected, max)
}

pub proof fn lemma_index_of_key<T>(s: Seq<(u128, T)>, k: u128)
    ensures
        contains_key(s, k) <==> 0 <= index_of_key(s, k) < s.len(),
        !contains_key(s, k) <==> index_of_key(s, k) == -1,
        contains_key(s, k) ==> s[index_of_key(s, k)].0 == k,
        contains_key(s, k) ==> forall|j: int|
            0 <= j < index_of_key(s, k) ==> s[j].0 != k,
    decreases s.len(),
{
    if s.len() == 0 {
    } else if s[0].0 == k {
    } else {
        lemma_index_of_key(s.drop_first(), k);
        assert(contains_key(s, k) ==> contains_key(s.drop_first(), k)) by {
            if contains_key(s, k) {
                let i = choose|i: int| 0 <= i < s.len() && s[i].0 == k;
                assert(s.drop_first()[i - 1].0 == k);
            }
        }
        assert(contains_key(s.drop_first(), k) ==> contains_key(s, k)) by {
            if contains_key(s.drop_first(), k) {
                let i = choose|i: int| 0 <= i < s.drop_first().len() && s.drop_first()[i].0 == k;
                assert(s[i + 1].0 == k);
            }
        }
        if contains_key(s, k) {
            assert forall|j: int| 0 <= j < index_of_key(s, k) implies s[j].0 != k by {
                if j > 0 {
                    assert(s[j] == s.drop_first()[j - 1]);
                }
            }
        }
    }
}

proof fn lemma_distinct_remove<T>(s: Seq<(u128, T)>, i: int)
    requires
        distinct_keys(s),
        0 <= i < s.len(),
    ensures
        distinct_keys(s.remove(i)),
{
    let t = s.remove(i);
    assert forall|a: int, b: int| 0 <= a < b < t.len() implies t[a].0 != t[b].0 by {
        let a0 = if a < i {
            a
        } else {
            a + 1
        };
        let b0 = if b < i {
            b
        } else {
            b + 1
        };
        assert(t[a] == s[a0]);
        assert(t[b] == s[b0]);
    }
}

/// With a bound of at least one, eviction reaches the bound.
pub proof fn lemma_evict_len<T>(s: Seq<(u128, T)>, protected: Option<u128>, max: nat)
    requires
        max >= 1,
    ensures
        evict_spec(s, protected, max).len() <= max,
    decreases s.len(),
{
    if s.len() <= max {
    } else if !is_protected(s[0].0, protected) {
        lemma_evict_len(s.remove(0), protected, max);
    } else {
        lemma_evict_len(s.remove(1), protected, max);
    }
}

/// Eviction never removes the protected entry.
pub proof fn lemma_evict_keeps_protected<T>(s: Seq<(u128, T)>, pk: u128, max: nat)
    requires
        distinct_keys(s),
        contains_key(s, pk),
    ensures
        contains_key(evict_spec(s, Some(pk), max), pk),
        value_of(evict_spec(s, Some(pk), max), pk) == value_of(s, pk),
    decreases s.len(),
{
    lemma_index_of_key(s, pk);
    let i = index_of_key(s, pk);
    if s.len() <= max {
    } else if s[0].0 != pk {
        let t = s.remove(0);
        lemma_distinct_remove(s, 0);
        assert(t[i - 1] == s[i]);
        assert(contains_key(t, pk));
        lemma_index_of_key(t, pk);
        assert(value_of(t, pk) == value_of(s, pk)) by {
            let j = index_of_key(t, pk);
            assert(t[j].0 == pk);
            let j0 = j + 1;
            assert(t[j] == s[j0]);
            assert(s[j0].0 == pk);
            assert(j0 == i);
        }
        lemma_evict_keeps_protected(t, pk, max);
    } else if s.len() > 1 {
        let t = s.remove(1);
        lemma_distinct_remove(s, 1);
        assert(i == 0);
        assert(t[0] == s[0]);
        assert(contains_key(t, pk));
        lemma_index_of_key(t, pk);
        assert(index_of_key(t, pk) == 0);
        assert(value_of(t, pk) == value_of(s, pk));
        lemma_evict_keeps_protected(t, pk, max);
    } else {
    }
}

/// Every entry that eviction leaves behind stood in the input.
pub proof fn lemma_evict_entries_from<T>(s: Seq<(u128, T)>, protected: Option<u128>, max: nat)
    ensures
        forall|i: int|
            0 <= i < evict_spec(s, protected, max).len() ==> s.contains(
                #[trigger] evict_spec(s, protected, max)[i],
            ),
    decreases s.len(),
{
    if s.len() <= max {
        assert forall|i: int| 0 <= i < s.len() implies s.contains(s[i]) by {}
    } else if !is_protected(s[0].0, protected) {
        let t = s.remove(0);
        lemma_evict_entries_from(t, protected, max);
        assert(evict_spec(s, protected, max) == evict_spec(t, protected, max));
        assert forall|i: int|
            0 <= i < evict_spec(s, protected, max).len() implies s.contains(
            evict_spec(s, protected, max)[i],
        ) by {
            let e = evict_spec(t, protected, max)[i];
            assert(t.contains(e));
            let j = choose|j: int| 0 <= j < t.len() && t[j] == e;
            assert(t[j] == s[j + 1]);
            assert(s.contains(e));
        }
    } else if s.len() > 1 {
        lemma_evict_entries_from(s.remove(1), protected, max);
        assert forall|i: int|
            0 <= i < evict_spec(s, protected, max).len() implies s.contains(
            evict_spec(s, protected, max)[i],
        ) by {
            let t = s.remove(1);
            assert(evict_spec(s, protected, max) == evict_spec(t, protected, max));
            let e = evict_spec(t, protected, max)[i];
            assert(t.contains(e));
            let j = choose|j: int| 0 <= j < t.len() && t[j] == e;
            if j == 0 {
                assert(t[0] == s[0]);
            } else {
                assert(t[j] == s[j + 1]);
            }
            assert(s.contains(e));
        }
    } else {
        assert forall|i: int| 0 <= i < s.len() implies s.contains(s[i]) by {}
    }
}

proof fn lemma_distinct_evict<T>(s: Seq<(u128, T)>, protected: Option<u128>, max: nat)
    requires
        distinct_keys(s),
    ensures
        distinct_keys(evict_spec(s, protected, max)),
    decreases s.len(),
{
    if s.len() <= max {
    } else if !is_protected(s[0].0, protected) {
        lemma_distinct_remove(s, 0);
        lemma_distinct_evict(s.remove(0), protected, max);
    } else if s.len() > 1 {
        lemma_distinct_remove(s, 1);
        lemma_distinct_evict(s.remove(1), protected, max);
    } else {
    }
}

proof fn lemma_remove_key_others<T>(s: Seq<(u128, T)>, k: u128, o: u128)
    requires
        distinct_keys(s),
        contains_key(s, o),
        o != k,
    ensures
        contains_key(remove_key(s, k), o),
        value_of(remove_key(s, k), o) == value_of(s, o),
        distinct_keys(remove_key(s, k)),
{
    lemma_index_of_key(s, o);
    let i = index_of_key(s, o);
    if contains_key(s, k) {
        lemma_index_of_key(s, k);
        let f = index_of_key(s, k);
        lemma_distinct_remove(s, f);
        let t = s.remove(f);
        let i2 = if i < f {
            i
        } else {
            i - 1
        };
        assert(t[i2] == s[i]);
        assert(contains_key(t, o));
        lemma_index_of_key(t, o);
        let j = index_of_key(t, o);
        let j0 = if j < f {
            j
        } else {
            j + 1
        };
        assert(t[j] == s[j0]);
        assert(j0 == i);
    } else {
    }
}

proof fn lemma_insert_base_distinct<T>(s: Seq<(u128, T)>, k: u128, v: T)
    requires
        distinct_keys(s),
    ensures
        distinct_keys(remove_key(s, k).push((k, v))),
        remove_key(s, k).push((k, v)).last() == (k, v),
        contains_key(remove_key(s, k).push((k, v)), k),
{
    let b = remove_key(s, k);
    if contains_key(s, k) {
        lemma_index_of_key(s, k);
        lemma_distinct_remove(s, index_of_key(s, k));
    }
    assert(!contains_key(b, k)) by {
        if contains_key(b, k) {
            let j = choose|j: int| 0 <= j < b.len() && b[j].0 == k;
            if contains_key(s, k) {
                lemma_index_of_key(s, k);
                let f = index_of_key(s, k);
                let j0 = if j < f {
                    j
                } else {
                    j + 1
                };
                assert(b[j] == s[j0]);
            }
        }
    }
    let t = b.push((k, v));
    assert(t[t.len() - 1].0 == k);
    assert forall|a: int, c: int| 0 <= a < c < t.len() implies t[a].0 != t[c].0 by {
        if c < t.len() - 1 {
            assert(t[a] == b[a] && t[c] == b[c]);
        } else {
            assert(t[a] == b[a]);
        }
    }
}

/// Inserting with a protected key never loses the protected entry:
/// it survives with its value, and an insert under the protected key
/// itself lands as the freshest entry.
pub proof fn lemma_insert_keeps_protected<T>(s: Seq<(u128, T)>, k: u128, v: T, pk: u128, max: nat)
    requires
        distinct_keys(s),
        contains_key(s, pk) || pk == k,
    ensures
        contains_key(insert_spec(s, k, v, Some(pk), max), pk),
        pk != k ==> value_of(insert_spec(s, k, v, Some(pk), max), pk) == value_of(s, pk),
        pk == k ==> value_of(insert_spec(s, k, v, Some(pk), max), pk) == v,
    decreases s.len(),
{
    let b = remove_key(s, k);
    let t = b.push((k, v));
    lemma_insert_base_distinct(s, k, v);
    if pk == k {
        lemma_evict_keeps_protected(t, pk, max);
        assert(value_of(t, k) == v) by {
            lemma_index_of_key(t, k);
            let i = index_of_key(t, k);
            assert(t[i].0 == k);
            assert(forall|j: int| 0 <= j < t.len() - 1 ==> t[j].0 != k);
            assert(i == t.len() - 1);
        }
    } else {
        lemma_remove_key_others(s, k, pk);
        assert(contains_key(t, pk)) by {
            lemma_index_of_key(b, pk);
            let i = index_of_key(b, pk);
            assert(t[i].0 == pk);
        }
        assert(value_of(t, pk) == value_of(b, pk)) by {
            lemma_index_of_key(b, pk);
            lemma_index_of_key(t, pk);
            let i = index_of_key(b, pk);
            let j = index_of_key(t, pk);
            assert(j < t.len());
            assert(t[j].0 == pk);
            assert(j != t.len() - 1);
            assert(t[j] == b[j]);
            assert(b[j].0 == pk);
            assert(j == i) by {
                if j < i {
                    assert(b[j].0 != pk);
                } else if i < j {
                    assert(t[i] == b[i]);
                    assert(t[i].0 == pk);
                }
            }
        }
        lemma_evict_keeps_protected(t, pk, max);
    }
}

/// A noop bound: nothing is evicted while the collection is within
/// the bound.
pub proof fn lemma_evict_noop<T>(s: Seq<(u128, T)>, protected: Option<u128>, max: nat)
    requires
        s.len() <= max,
    ensures
        evict_spec(s, protected, max) == s,
{
}

/// Freshness: inserting a key that is already present does not grow
/// the collection and moves that key to the newest slot.
pub proof fn lemma_insert_refreshes<T>(s: Seq<(u128, T)>, k: u128, v: T, max: nat)
    requires
        distinct_keys(s),
        contains_key(s, k),
        s.len() <= max,
    ensures
        insert_spec(s, k, v, None, max).len() == s.len(),
        insert_spec(s, k, v, None, max).last() == (k, v),
{
    lemma_index_of_key(s, k);
    let b = remove_key(s, k);
    let t = b.push((k, v));
    lemma_evict_noop(t, None::<u128>, max);
}

/// One insert preserves key distinctness and respects the bound.
pub proof fn lemma_insert_wf<T>(s: Seq<(u128, T)>, k: u128, v: T, protected: Option<u128>, max: nat)
    requires
        distinct_keys(s),
        max >= 1,
    ensures
        distinct_keys(insert_spec(s, k, v, protected, max)),
        insert_spec(s, k, v, protected, max).len() <= max,
{
    lemma_insert_base_distinct(s, k, v);
    let t = remove_key(s, k).push((k, v));
    lemma_distinct_evict(t, protected, max);
    lemma_evict_len(t, protected, max);
}

/// The collection after a whole sequence of inserts.
pub open spec fn insert_all<T>(
    s: Seq<(u128, T)>,
    entries: Seq<(u128, T)>,
    protected: Option<u128>,
    max: nat,
) -> Seq<(u128, T)>
    decreases entries.len(),
{
    if entries.len() == 0 {
        s
    } else {
        insert_all(
            insert_spec(s, entries[0].0, entries[0].1, protected, max),
            entries.drop_first(),
            protected,
            max,
        )
    }
}

/// Bounded growth: however many entries are inserted, the collection
/// never exceeds its bound, and the protected entry is never evicted.
pub proof fn lemma_bounded_growth<T>(
    s: Seq<(u128, T)>,
    entries: Seq<(u128, T)>,
    pk: u128,
    max: nat,
)
    requires
        distinct_keys(s),
        s.len() <= max,
        max >= 1,
        contains_key(s, pk),
    ensures
        insert_all(s, entries, Some(pk), max).len() <= max,
        contains_key(insert_all(s, entries, Some(pk), max), pk),
        distinct_keys(insert_all(s, entries, Some(pk), max)),
    decreases entries.len(),
{
    if entries.len() == 0 {
    } else {
        let s1 = insert_spec(s, entries[0].0, entries[0].1, Some(pk), max);
        lemma_insert_wf(s, entries[0].0, entries[0].1, Some(pk), max);
        lemma_insert_keeps_protected(s, entries[0].0, entries[0].1, pk, max);
        lemma_bounded_growth(s1, entries.drop_first(), pk, max);
    }
}

/// A bounded collection of key-value entries, oldest first.
pub struct Ledger<T> {
    entries: Vec<(u128, T)>,
}

impl<T> View for Ledger<T> {
    type V = Seq<(u128, T)>;

    closed spec fn view(&self) -> Seq<(u128, T)> {
        self.entries@
    }
}

impl<T> Ledger<T> {
    /// Keys are pairwise distinct; every operation preserves this.
    pub open spec fn well_formed(&self) -> bool {
        distinct_keys(self@)
    }

    pub fn new() -> (r: Ledger<T>)
        ensures
            r@ == Seq::<(u128, T)>::empty(),
            r.well_formed(),
    {
        Ledger { entries: Vec::new() }
    }

    pub fn len(&self) -> (r: usize)
        ensures
            r == self@.len(),
    {
        self.entries.len()
    }

    /// Index of the entry under `k`, oldest first.
    fn find(&self, k: u128) -> (r: Option<usize>)
        ensures
            r matches Some(i) ==> i == index_of_key(self@, k) && contains_key(self@, k),
            r is None ==> !contains_key(self@, k),
    {
        proof {
            lemma_index_of_key(self@, k);
        }
        let n = self.entries.len();
        let mut i: usize = 0;
        while i < n
            invariant
                i <= n,
                n == self@.len(),
                forall|j: int| 0 <= j < i ==> self@[j].0 != k,
            decreases n - i,
        {
            if self.entries[i].0 == k {
                proof {
                    lemma_index_of_key(self@, k);
                    assert(contains_key(self@, k));
                    assert(index_of_key(self@, k) == i) by {
                        let f = index_of_key(self@, k);
                        assert(self@[f].0 == k);
                    }
                }
                return Some(i);
            }
            i = i + 1;
        }
        None
    }

    pub fn contains(&self, k: u128) -> (r: bool)
        ensures
            r == contains_key(self@, k),
    {
        self.find(k).is_some()
    }

    pub fn get(&self, k: u128) -> (r: Option<&T>)
        ensures
            r matches Some(v) ==> contains_key(self@, k) && *v == value_of(self@, k),
            r is None ==> !contains_key(self@, k),
    {
        match self.find(k) {
            Some(i) => {
                proof {
                    lemma_index_of_key(self@, k);
                }
                Some(&self.entries[i].1)
            },
            None => None,
        }
    }

    /// The entry at ledger position `i` (0 is oldest).
    pub fn entry_at(&self, i: usize) -> (r: (u128, &T))
        requires
            i < self@.len(),
        ensures
            r.0 == self@[i as int].0,
            *r.1 == self@[i as int].1,
    {
        let e = &self.entries[i];
        (e.0, &e.1)
    }

    pub fn remove(&mut self, k: u128) -> (r: Option<T>)
        requires
            old(self).well_formed(),
        ensures
            final(self).well_formed(),
            final(self)@ == remove_key(old(self)@, k),
            r is Some <==> contains_key(old(self)@, k),
            r matches Some(v) ==> v == value_of(old(self)@, k),
    {
        match self.find(k) {
            Some(i) => {
                proof {
                    lemma_index_of_key(self@, k);
                    lemma_distinct_remove(self@, i as int);
                }
                let e = self.entries.remove(i);
                Some(e.1)
            },
            None => None,
        }
    }

    pub fn clear(&mut self)
        ensures
            final(self)@ == Seq::<(u128, T)>::empty(),
            final(self).well_formed(),
    {
        self.entries.clear();
    }

    /// Inserts `k`, counting it as the freshest entry, then evicts the
    /// oldest unprotected entries while the collection is over `max`.
    pub fn insert(&mut self, k: u128, v: T, protected: Option<u128>, max: usize)
        requires
            old(self).well_formed(),
        ensures
            final(self).well_formed(),
            final(self)@ == insert_spec(old(self)@, k, v, protected, max as nat),
    {
        match self.find(k) {
            Some(i) => {
                proof {
                    lemma_index_of_key(self@, k);
                    lemma_distinct_remove(self@, i as int);
                }
                self.entries.remove(i);
            },
            None => {},
        }
        proof {
            assert(self@ == remove_key(old(self)@, k));
        }
        let ghost pushed = self@.push((k, v));
        self.entries.push((k, v));
        proof {
            assert(distinct_keys(self@)) by {
                lemma_index_of_key(remove_key(old(self)@, k), k);
                assert(!contains_key(remove_key(old(self)@, k), k)) by {
                    if contains_key(remove_key(old(self)@, k), k) {
                        let j = choose|j: int|
                            0 <= j < remove_key(old(self)@, k).len() && remove_key(
                                old(self)@,
                                k,
                            )[j].0 == k;
                        if contains_key(old(self)@, k) {
                            lemma_index_of_key(old(self)@, k);
                            let f = index_of_key(old(self)@, k);
                            let j0 = if j < f {
                                j
                            } else {
                                j + 1
                            };
                            assert(remove_key(old(self)@, k)[j] == old(self)@[j0]);
                        }
                    }
                }
            }
        }
        let mut done = false;
        while !done
            invariant
                distinct_keys(self@),
                evict_spec(self@, protected, max as nat) == evict_spec(
                    pushed,
                    protected,
                    max as nat,
                ),
                done ==> evict_spec(self@, protected, max as nat) == self@,
            decreases self@.len(), (if done {
                0int
            } else {
                1int
            }),
        {
            if self.entries.len() <= max {
                done = true;
            } else {
                let evict_first: bool = match protected {
                    None => true,
                    Some(pk) => self.entries[0].0 != pk,
                };
                if evict_first {
                    proof {
                        lemma_distinct_remove(self@, 0);
                    }
                    self.entries.remove(0);
                } else if self.entries.len() > 1 {
                    proof {
                        lemma_distinct_remove(self@, 1);
                    }
                    self.entries.remove(1);
                } else {
                    proof {
                        assert(evict_spec(self@, protected, max as nat) == self@);
                    }
                    done = true;
                }
            }
        }
    }
}

} // verus!
